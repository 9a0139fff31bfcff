use zrc_server::data_access::{
    get_all_best_scores, get_best_scores_with_iden, score_upload, ChartCatalog, DBAccessManager,
};
use zrc_server::pool::{PoolEntry, RecentPool};
use zrc_server::rating::{play_rating, player_rating, sum_of_top};
use zrc_server::score::{ScoreError, ScoreRecord};
use zrc_server::store::{compute_rating, PlayerScores};

fn record(song_id: &str, difficulty: i8, score: isize, clear_type: i8) -> ScoreRecord {
    let mut r = ScoreRecord::new();
    r.song_id = song_id.to_string();
    r.difficulty = difficulty;
    r.score = score;
    r.clear_type = clear_type;
    r
}

fn manager_with(charts: &[(&str, i8, u32)]) -> DBAccessManager {
    let mut catalog = ChartCatalog::new();
    for (song, diff, base) in charts {
        catalog.add(song.to_string(), *diff, *base);
    }
    DBAccessManager::new(catalog)
}

fn entry(song: &str, played_at: i64, rating: u64) -> PoolEntry {
    PoolEntry { song_id: song.to_string(), difficulty: 2, played_at, rating }
}

fn times(s: &[PoolEntry]) -> Vec<i64> {
    s.iter().map(|e| e.played_at).collect()
}

#[test]
fn perfect_score_adds_two_points() {
    assert_eq!(play_rating(1000, 10_000_000), 7_200_000);
    assert_eq!(play_rating(1000, 10_002_000), 7_200_000);
    assert_eq!(play_rating(0, 10_000_000), 1_200_000);
}

#[test]
fn ex_band_rating() {
    // 10.0 + 1.0 + 100,000 / 200,000 = 11.5
    assert_eq!(play_rating(1000, 9_900_000), 6_900_000);
    assert_eq!(play_rating(1000, 9_800_000), 6_600_000);
}

#[test]
fn low_band_rating_grows_and_is_not_negative() {
    // 10.0 + 150,000 / 300,000 = 10.5
    assert_eq!(play_rating(1000, 9_650_000), 6_300_000);
    assert_eq!(play_rating(1000, 9_500_000), 6_000_000);
    assert!(play_rating(1000, 9_500_001) > play_rating(1000, 9_500_000));
    assert!(play_rating(0, 9_500_000) < play_rating(0, 9_799_999));
    assert_eq!(play_rating(100, 0), 0);
    assert_eq!(play_rating(0, -5), 0);
    // 1.0 - 3,000,000 / 300,000 is below zero
    assert_eq!(play_rating(100, 6_500_000), 0);
    // 1.0 - 150,000 / 300,000 = 0.5
    assert_eq!(play_rating(100, 9_350_000), 300_000);
}

#[test]
fn overall_rating_rounds_the_mean() {
    assert_eq!(player_rating(0, 0, 0, 0), 0);
    assert_eq!(player_rating(6_900_000, 1, 6_900_000, 1), 1150);
    // (11.5 + 10.0) / 2 = 10.75
    assert_eq!(player_rating(6_900_000 + 6_000_000, 2, 0, 0), 1075);
    // 10.0001 * 100 = 1000.01 rounds to 1000; 10.005 * 100 = 1000.5 rounds up
    assert_eq!(player_rating(6_000_060, 1, 0, 0), 1000);
    assert_eq!(player_rating(6_003_000, 1, 0, 0), 1001);
}

#[test]
fn top_sum_takes_the_largest() {
    assert_eq!(sum_of_top(vec![5, 1, 9, 3], 2), 14);
    assert_eq!(sum_of_top(vec![5, 1, 9, 3], 30), 18);
    assert_eq!(sum_of_top(vec![], 30), 0);
    let many: Vec<u64> = (1..=40).collect();
    assert_eq!(sum_of_top(many, 30), (11..=40).sum::<u64>());
}

#[test]
fn first_submission_becomes_best_and_recent() {
    let mut db = manager_with(&[("alpha", 2, 1000)]);
    let r = score_upload(&mut db, &record("alpha", 2, 9_900_000, 1), 1, 100);
    assert_eq!(r, Ok(1150));
    let p = &db.players[0];
    assert_eq!(p.user_id, 1);
    assert_eq!(p.bests.len(), 1);
    assert_eq!(p.bests[0].rating, 6_900_000);
    assert_eq!(p.bests[0].played_at, 100);
    assert_eq!(times(&p.pool.r10), vec![100]);
    assert!(p.pool.normal.is_empty());
    assert_eq!(p.rating, 1150);
}

#[test]
fn improvement_replaces_best_and_recent_entry() {
    let mut db = manager_with(&[("alpha", 2, 1000)]);
    score_upload(&mut db, &record("alpha", 2, 9_900_000, 1), 1, 100).unwrap();
    let r = score_upload(&mut db, &record("alpha", 2, 9_950_000, 1), 1, 200);
    // 11.75
    assert_eq!(r, Ok(1175));
    let p = &db.players[0];
    assert_eq!(p.bests.len(), 1);
    assert_eq!(p.bests[0].played_at, 200);
    assert_eq!(p.bests[0].rating, 7_050_000);
    assert_eq!(times(&p.pool.r10), vec![200]);
    assert!(p.pool.normal.is_empty());
    assert_eq!(p.events.len(), 2);
}

#[test]
fn new_player_has_zero_rating() {
    let p = PlayerScores::new(7);
    assert_eq!(p.rating, 0);
    assert_eq!(compute_rating(&p.bests, &p.pool.r10), 0);
    let db = manager_with(&[]);
    assert!(get_all_best_scores(&db, 7).is_empty());
    assert!(db.get_best_scores_with_iden(7).is_empty());
}

#[test]
fn repeated_score_keeps_best_and_pool() {
    let mut db = manager_with(&[("alpha", 2, 1000), ("beta", 1, 900)]);
    score_upload(&mut db, &record("beta", 1, 9_700_000, 1), 1, 50).unwrap();
    score_upload(&mut db, &record("alpha", 2, 9_900_000, 1), 1, 100).unwrap();
    let before_r10 = times(&db.players[0].pool.r10);
    let before_rating = db.players[0].rating;
    let r = score_upload(&mut db, &record("alpha", 2, 9_900_000, 1), 1, 300);
    assert_eq!(r, Ok(before_rating));
    let p = &db.players[0];
    assert_eq!(p.bests.len(), 2);
    assert_eq!(p.bests[1].played_at, 100);
    assert_eq!(times(&p.pool.r10), before_r10);
    assert!(p.pool.normal.is_empty());
    assert_eq!(p.events.len(), 3);
    let lower = score_upload(&mut db, &record("alpha", 2, 9_000_000, 1), 1, 400);
    assert_eq!(lower, Ok(before_rating));
    assert_eq!(db.players[0].bests[1].played_at, 100);
    assert_eq!(times(&db.players[0].pool.r10), before_r10);
}

#[test]
fn unknown_chart_is_refused_without_change() {
    let mut db = manager_with(&[("alpha", 2, 1000)]);
    let r = score_upload(&mut db, &record("alpha", 3, 9_900_000, 1), 1, 100);
    assert_eq!(r, Err(ScoreError::ChartNotFound));
    assert!(db.players.is_empty());
}

#[test]
fn same_time_is_a_conflict() {
    let mut db = manager_with(&[("alpha", 2, 1000), ("beta", 2, 1000)]);
    score_upload(&mut db, &record("alpha", 2, 9_900_000, 1), 1, 100).unwrap();
    let r = db.score_upload(&record("beta", 2, 9_900_000, 1), 1, 100);
    assert_eq!(r, Err(ScoreError::StorageConflict));
    assert_eq!(db.players[0].events.len(), 1);
    assert_eq!(db.players[0].bests.len(), 1);
    // another player may use the same time
    assert_eq!(db.score_upload(&record("beta", 2, 9_900_000, 1), 2, 100), Ok(1150));
    assert_eq!(db.players.len(), 2);
}

#[test]
fn thirty_first_chart_evicts_the_oldest() {
    let names: Vec<String> = (0..31).map(|i| format!("song{}", i)).collect();
    let charts: Vec<(&str, i8, u32)> = names.iter().map(|n| (n.as_str(), 2, 1000)).collect();
    let mut db = manager_with(&charts);
    for i in 0..30 {
        let score = 9_000_000 + 10_000 * i as isize;
        db.score_upload(&record(&names[i], 2, score, 1), 1, 1000 + i as i64).unwrap();
    }
    {
        let pool = &db.players[0].pool;
        assert_eq!(pool.r10.len(), 10);
        assert_eq!(pool.normal.len(), 20);
        let mut r10 = times(&pool.r10);
        r10.sort();
        assert_eq!(r10, (1020..1030).collect::<Vec<i64>>());
        let mut normal = times(&pool.normal);
        normal.sort();
        assert_eq!(normal, (1000..1020).collect::<Vec<i64>>());
    }
    db.score_upload(&record(&names[30], 2, 9_300_000, 1), 1, 1030).unwrap();
    let pool = &db.players[0].pool;
    assert_eq!(pool.r10.len(), 10);
    assert_eq!(pool.normal.len(), 20);
    let mut r10 = times(&pool.r10);
    r10.sort();
    assert_eq!(r10, (1021..1031).collect::<Vec<i64>>());
    let mut normal = times(&pool.normal);
    normal.sort();
    let mut expected: Vec<i64> = (1001..1021).collect();
    expected.sort();
    assert_eq!(normal, expected);
    assert_eq!(db.players[0].bests.len(), 31);
}

fn full_pool(r10_rating: u64) -> RecentPool {
    let mut pool = RecentPool::new();
    for i in 0..20 {
        pool.normal.push(entry(&format!("n{}", i), 100 + i, 1_000_000));
    }
    for i in 0..10 {
        pool.r10.push(entry(&format!("r{}", i), 200 + i, r10_rating + i as u64));
    }
    pool
}

#[test]
fn lower_play_goes_to_unflagged() {
    let mut pool = full_pool(5_000_000);
    pool.insert(entry("x", 500, 4_000_000), 9_900_000, 5);
    assert_eq!(times(&pool.r10), (200..210).collect::<Vec<i64>>());
    assert_eq!(pool.normal[0].played_at, 500);
    assert_eq!(pool.normal.len(), 20);
}

#[test]
fn exempt_play_evicts_oldest_recent() {
    let mut pool = full_pool(5_000_000);
    // rates above the recent play at 200 only, and is exempt by its score
    pool.insert(entry("x", 500, 5_000_000), 9_850_000, 1);
    assert_eq!(pool.r10[0].played_at, 500);
    assert_eq!(pool.normal[0].played_at, 200);
    let mut pool = full_pool(5_000_000);
    // not exempt: only the recent play rated 5,000,000 is eligible
    pool.insert(entry("x", 500, 5_000_000), 9_700_000, 1);
    assert_eq!(pool.r10[0].played_at, 500);
    assert_eq!(pool.normal[0].played_at, 200);
}

#[test]
fn non_exempt_play_skips_higher_rated_oldest() {
    let mut pool = full_pool(5_000_000);
    pool.r10[0].rating = 9_000_000;
    // the oldest recent play rates higher; the next one rates lower
    pool.insert(entry("x", 500, 5_000_005), 9_700_000, 1);
    assert_eq!(pool.r10[0].played_at, 200);
    assert_eq!(pool.r10[1].played_at, 500);
    assert_eq!(pool.normal[0].played_at, 201);
    let mut pool = full_pool(5_000_000);
    pool.r10[0].rating = 9_000_000;
    // a hard clear is exempt: the oldest recent play leaves
    pool.insert(entry("x", 500, 5_000_005), 9_700_000, 5);
    assert_eq!(pool.r10[0].played_at, 500);
    assert_eq!(pool.normal[0].played_at, 200);
}

#[test]
fn full_pool_with_room_in_recent_drops_oldest_unflagged() {
    let mut pool = RecentPool::new();
    for i in 0..25 {
        pool.normal.push(entry(&format!("n{}", i), 300 - i, 1_000_000));
    }
    for i in 0..5 {
        pool.r10.push(entry(&format!("r{}", i), 400 + i, 1_000_000));
    }
    pool.insert(entry("x", 500, 10), 0, 0);
    assert_eq!(pool.r10.len(), 6);
    assert_eq!(pool.r10[5].played_at, 500);
    assert_eq!(pool.normal.len(), 24);
    assert!(!times(&pool.normal).contains(&276));
}

#[test]
fn same_chart_recent_entry_kept_when_higher() {
    let mut pool = RecentPool::new();
    pool.insert(entry("x", 100, 50), 0, 0);
    pool.insert(entry("x", 200, 40), 0, 0);
    assert_eq!(times(&pool.r10), vec![100]);
    assert!(pool.normal.is_empty());
    pool.insert(entry("x", 300, 50), 0, 0);
    assert_eq!(times(&pool.r10), vec![300]);
    assert_eq!(pool.len(), 1);
}

#[test]
fn best_scores_are_listed() {
    let mut db = manager_with(&[("alpha", 2, 1000), ("beta", 3, 900)]);
    let mut rec = record("alpha", 2, 9_900_000, 1);
    rec.shiny = 800;
    rec.pure = 900;
    rec.health = 100;
    db.score_upload(&rec, 1, 100).unwrap();
    db.score_upload(&record("beta", 3, 9_100_000, 2), 1, 200).unwrap();
    let idens = get_best_scores_with_iden(&db, 1);
    assert_eq!(idens, vec![("alpha2".to_string(), 9_900_000), ("beta3".to_string(), 9_100_000)]);
    let all = db.get_all_best_scores(1);
    assert_eq!(all.len(), 2);
    assert_eq!(all[0].0.song_id, "alpha");
    assert_eq!(all[0].0.shiny, 800);
    assert_eq!(all[0].0.pure, 900);
    assert_eq!(all[0].0.health, 100);
    assert_eq!(all[0].1, 100);
    assert_eq!(all[1].0.clear_type, 2);
    assert_eq!(all[1].1, 200);
    assert!(db.get_all_best_scores(2).is_empty());
}
