use zrc_server::data_access::{ChartCatalog, DBAccessManager};
use zrc_server::lookup::{score_lookup, take_top_rated, LookupedScore};
use zrc_server::score::ScoreRecord;

fn record(song_id: &str, difficulty: i8, score: isize) -> ScoreRecord {
    let mut r = ScoreRecord::new();
    r.song_id = song_id.to_string();
    r.difficulty = difficulty;
    r.score = score;
    r.clear_type = 1;
    r
}

fn entry(rating: u64) -> LookupedScore {
    LookupedScore {
        title: format!("t{}", rating),
        difficulty: 0,
        score: 0,
        shiny: 0,
        pure: 0,
        far: 0,
        lost: 0,
        clear_type: 0,
        rating,
        base_rating: 0,
        played_date: rating as i64,
    }
}

#[test]
fn names_of_clear_types_and_difficulties() {
    assert_eq!(LookupedScore::get_clear_type(0), "track-lost");
    assert_eq!(LookupedScore::get_clear_type(3), "pure-memory");
    assert_eq!(LookupedScore::get_clear_type(5), "hard-clear");
    assert_eq!(LookupedScore::get_diff_str(0), "PST");
    assert_eq!(LookupedScore::get_diff_str(2), "FTR");
    assert_eq!(LookupedScore::get_diff_str(3), "BYD");
}

#[test]
fn top_rated_keeps_the_highest_first() {
    let top = take_top_rated(vec![entry(3), entry(9), entry(1), entry(9), entry(5)], 3);
    let ratings: Vec<u64> = top.iter().map(|e| e.rating).collect();
    assert_eq!(ratings, vec![9, 9, 5]);
    assert_eq!(top[0].title, "t9");
    assert_eq!(take_top_rated(vec![entry(3)], 60).len(), 1);
    let many: Vec<LookupedScore> = (0..70).map(entry).collect();
    let top = take_top_rated(many, 60);
    assert_eq!(top.len(), 60);
    assert_eq!(top[0].rating, 69);
    assert_eq!(top[59].rating, 10);
}

#[test]
fn score_page_joins_titles_and_base_ratings() {
    let mut catalog = ChartCatalog::new();
    catalog.add("alpha".to_string(), 2, 1000);
    catalog.add("beta".to_string(), 1, 900);
    catalog.add("gamma".to_string(), 0, 500);
    let mut db = DBAccessManager::new(catalog);
    db.score_upload(&record("beta", 1, 9_000_000), 1, 10).unwrap();
    db.score_upload(&record("alpha", 2, 9_900_000), 1, 20).unwrap();
    db.score_upload(&record("gamma", 0, 9_900_000), 1, 30).unwrap();
    let titles = vec![("alpha".to_string(), "Alpha".to_string()), ("beta".to_string(), "Beta".to_string())];
    let page = score_lookup(&db, 1, &titles);
    assert_eq!(page.len(), 2);
    assert_eq!(page[0].title, "Alpha");
    assert_eq!(page[0].rating, 6_900_000);
    assert_eq!(page[0].base_rating, 1000);
    assert_eq!(page[0].played_date, 20);
    assert_eq!(page[1].title, "Beta");
    assert!(score_lookup(&db, 2, &titles).is_empty());
}
