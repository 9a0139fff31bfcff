use zrc_server::backup::{BackupData, ClearLampData, ClearedSongData, ScoreData};
use zrc_server::data_access::{ChartCatalog, DBAccessManager};
use zrc_server::score::{ScoreError, ScoreRecord};

fn manager() -> DBAccessManager {
    let mut catalog = ChartCatalog::new();
    catalog.add("alpha".to_string(), 2, 1000);
    catalog.add("beta".to_string(), 1, 900);
    catalog.add("gamma".to_string(), 0, 500);
    DBAccessManager::new(catalog)
}

fn record(song_id: &str, difficulty: i8, score: isize, clear_type: i8) -> ScoreRecord {
    let mut r = ScoreRecord::new();
    r.song_id = song_id.to_string();
    r.difficulty = difficulty;
    r.score = score;
    r.clear_type = clear_type;
    r
}

fn score_data(song_id: &str, difficulty: i8, score: isize, time_played: i64) -> ScoreData {
    ScoreData {
        song_id: song_id.to_string(),
        version: 1,
        difficulty,
        score,
        shiny: 1,
        pure: 2,
        far: 3,
        lost: 4,
        health: 50,
        modifier: 0,
        time_played,
        ct: 0,
    }
}

fn lamp(song_id: &str, difficulty: i8, clear_type: i8) -> ClearLampData {
    ClearLampData { song_id: song_id.to_string(), difficulty, clear_type, ct: 0 }
}

#[test]
fn new_backup_is_empty() {
    let b = BackupData::new_with_id(9, 1234);
    assert_eq!(b.user_id, 9);
    assert_eq!(b.version, 1);
    assert_eq!(b.created_at, 1234);
    assert!(b.scores.is_empty() && b.clearlamps.is_empty() && b.clearedsongs.is_empty());
    assert_eq!(BackupData::new(5).user_id, 0);
}

#[test]
fn backup_lists_personal_bests() {
    let mut db = manager();
    db.score_upload(&record("alpha", 2, 9_900_000, 3), 1, 100).unwrap();
    db.score_upload(&record("beta", 1, 9_000_000, 1), 1, 200).unwrap();
    db.score_upload(&record("alpha", 2, 9_950_000, 2), 1, 300).unwrap();
    let mut b = BackupData::new_with_id(1, 0);
    b.get_score_data(&db, 1);
    assert_eq!(b.scores.len(), 2);
    assert_eq!(b.scores[0].song_id, "alpha");
    assert_eq!(b.scores[0].score, 9_950_000);
    assert_eq!(b.scores[0].time_played, 300);
    assert_eq!(b.scores[0].version, 1);
    assert_eq!(b.scores[1].time_played, 200);
    assert_eq!(b.clearlamps[0].clear_type, 2);
    assert_eq!(b.clearlamps[1].clear_type, 1);
    assert_eq!(b.clearedsongs[0].grade, 6);
    assert_eq!(b.clearedsongs[1].grade, 2);
    let mut other = BackupData::new_with_id(2, 0);
    other.get_score_data(&db, 2);
    assert!(other.scores.is_empty());
}

#[test]
fn backup_entries_from_record() {
    let r = record("gamma", 0, 9_600_000, 5);
    let d = ScoreData::from_record_time(&r, 77);
    assert_eq!(d.song_id, "gamma");
    assert_eq!(d.time_played, 77);
    assert_eq!(d.ct, 0);
    let l = ClearLampData::from_record(&r);
    assert_eq!(l.clear_type, 5);
    let c = ClearedSongData::from_record(&r);
    assert_eq!(c.grade, 4);
}

#[test]
fn restore_submits_new_and_better_scores() {
    let mut db = manager();
    db.score_upload(&record("alpha", 2, 9_900_000, 3), 1, 100).unwrap();
    let mut b = BackupData::new_with_id(1, 0);
    b.installid = "device".to_string();
    b.scores.push(score_data("alpha", 2, 9_800_000, 50));
    b.scores.push(score_data("beta", 1, 9_000_000, 60));
    b.scores.push(score_data("beta", 1, 9_100_000, 70));
    b.scores.push(score_data("nosuch", 1, 9_100_000, 80));
    b.clearlamps.push(lamp("beta", 1, 4));
    b.clearlamps.push(lamp("omega", 1, 1));
    let received = b.received_plays();
    assert_eq!(received.len(), 3);
    assert_eq!(received[1].0.score, 9_100_000);
    assert_eq!(received[1].0.clear_type, 4);
    assert_eq!(received[1].1, 70);
    assert_eq!(received[0].0.clear_type, 0);
    assert_eq!(b.update_score_on_cloud(&mut db, 1), Ok(()));
    assert_eq!(b.installid, "");
    let p = &db.players[0];
    assert_eq!(p.bests.len(), 2);
    assert_eq!(p.bests[0].play.score, 9_900_000);
    assert_eq!(p.bests[1].play.score, 9_100_000);
    assert_eq!(p.bests[1].play.clear_type, 4);
    assert_eq!(p.bests[1].played_at, 70);
    assert_eq!(p.events.len(), 2);
}

#[test]
fn restore_without_changes_keeps_install_id() {
    let mut db = manager();
    db.score_upload(&record("alpha", 2, 9_900_000, 3), 1, 100).unwrap();
    let mut b = BackupData::new_with_id(1, 0);
    b.installid = "device".to_string();
    b.scores.push(score_data("alpha", 2, 9_900_000, 50));
    assert_eq!(b.update_score_on_cloud(&mut db, 1), Ok(()));
    assert_eq!(b.installid, "device");
    assert_eq!(db.players[0].events.len(), 1);
}

#[test]
fn restore_stops_on_a_refused_improvement() {
    let mut db = manager();
    db.score_upload(&record("alpha", 2, 9_000_000, 3), 1, 100).unwrap();
    let mut b = BackupData::new_with_id(1, 0);
    b.installid = "device".to_string();
    // better than the best, but at the time of an existing event
    b.scores.push(score_data("alpha", 2, 9_900_000, 100));
    b.scores.push(score_data("beta", 1, 9_100_000, 70));
    assert_eq!(b.update_score_on_cloud(&mut db, 1), Err(ScoreError::StorageConflict));
    assert_eq!(b.installid, "device");
    assert_eq!(db.players[0].bests.len(), 1);
}
