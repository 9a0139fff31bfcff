use zrc_server::data_access::{ChartCatalog, DBAccessManager};
use zrc_server::dlc::{get_purchase_form_table, DLItem, DLRequest, DlcInfo, InfoItem};
use zrc_server::info::{format_user_code, gen_token, token, UserInfoForScoreLookup};
use zrc_server::score::ScoreRecord;

fn graded(score: isize) -> u8 {
    let mut r = ScoreRecord::new();
    r.score = score;
    r.score2grade()
}

#[test]
fn grades_follow_the_steps() {
    assert_eq!(graded(-1), 255);
    assert_eq!(graded(0), 0);
    assert_eq!(graded(8_599_999), 0);
    assert_eq!(graded(8_600_000), 1);
    assert_eq!(graded(8_900_000), 2);
    assert_eq!(graded(9_200_000), 3);
    assert_eq!(graded(9_500_000), 4);
    assert_eq!(graded(9_800_000), 5);
    assert_eq!(graded(9_899_999), 5);
    assert_eq!(graded(9_900_000), 6);
    assert_eq!(graded(10_001_000), 6);
}

#[test]
fn chart_identifier_joins_song_and_difficulty() {
    let mut r = ScoreRecord::new();
    r.song_id = "fractureray".to_string();
    r.difficulty = 2;
    assert_eq!(r.chart_identifier(), "fractureray2");
    assert_eq!(r.play_result().chart_identifier(), "fractureray2");
    r.difficulty = -12;
    assert_eq!(r.chart_identifier(), "fractureray-12");
    r.difficulty = 127;
    assert_eq!(r.chart_identifier(), "fractureray127");
}

#[test]
fn user_codes_are_grouped() {
    assert_eq!(format_user_code(1234), "000 001 234");
    assert_eq!(format_user_code(0), "000 000 000");
    assert_eq!(format_user_code(999_999_999), "999 999 999");
    assert_eq!(format_user_code(1_234_567_890), "123 456 789 0");
}

fn lookup(rating: isize, hidden: bool) -> UserInfoForScoreLookup {
    UserInfoForScoreLookup::new("name".to_string(), 42, 3, false, true, rating, hidden)
}

#[test]
fn rating_levels() {
    assert_eq!(lookup(1300, true).get_rating_level(), -1);
    assert_eq!(lookup(0, false).get_rating_level(), 0);
    assert_eq!(lookup(349, false).get_rating_level(), 0);
    assert_eq!(lookup(350, false).get_rating_level(), 1);
    assert_eq!(lookup(700, false).get_rating_level(), 2);
    assert_eq!(lookup(1000, false).get_rating_level(), 3);
    assert_eq!(lookup(1001, false).get_rating_level(), 4);
    assert_eq!(lookup(1200, false).get_rating_level(), 5);
    assert_eq!(lookup(1250, false).get_rating_level(), 6);
    let info = lookup(10, false);
    assert_eq!(info.user_code, "000 000 042");
    assert_eq!(info.name, "name");
    assert!(info.is_uncapped_override);
}

#[test]
fn download_urls() {
    let item = DLItem {
        song_id: "ifi".to_string(),
        audio_checksum: "abc".to_string(),
        song_dl: true,
        difficulty: "2".to_string(),
        chart_checksum: "def".to_string(),
        chart_dl: true,
    };
    assert_eq!(item.song_dl_url("host", "static", "songs"), "http://host/static/songs/ifi/base.ogg");
    assert_eq!(item.chart_dl_url("host", "static", "songs"), "http://host/static/songs/ifi/2.aff");
}

#[test]
fn download_requests() {
    let r = DLRequest::empty_request();
    assert!(!r.need_url);
    assert!(r.song_ids.is_empty());
    let r = DLRequest::with_id_list(vec!["ifi".to_string(), "onefr".to_string()], true);
    assert!(r.need_url);
    assert_eq!(r.song_ids, vec!["ifi".to_string(), "onefr".to_string()]);
    let i = InfoItem::new();
    assert!(i.is_empty());
    let j = InfoItem { checksum: "x".to_string(), url: String::new() };
    assert!(!j.is_empty());
}

#[test]
fn tokens() {
    assert_eq!(gen_token(), "nothing");
    assert_eq!(token(), r#"{"success": true, "value": {"token": "nothing"}}"#);
    let db = DBAccessManager::new(ChartCatalog::new());
    assert_eq!(db.gen_score_token(), "nothing");
}

#[test]
fn catalog_lookup_takes_first_entry() {
    let mut c = ChartCatalog::new();
    c.add("a".to_string(), 1, 950);
    c.add("a".to_string(), 2, 1070);
    c.add("a".to_string(), 2, 1);
    assert_eq!(c.base_rating(&"a".to_string(), 2), Some(1070));
    assert_eq!(c.base_rating(&"a".to_string(), 1), Some(950));
    assert_eq!(c.base_rating(&"b".to_string(), 1), None);
}

fn dl_item(song_id: &str, song_dl: bool, audio: &str, difficulty: &str, chart_dl: bool, chart: &str) -> DLItem {
    DLItem {
        song_id: song_id.to_string(),
        audio_checksum: audio.to_string(),
        song_dl,
        difficulty: difficulty.to_string(),
        chart_checksum: chart.to_string(),
        chart_dl,
    }
}

#[test]
fn purchase_table_merges_items() {
    let items = vec![
        dl_item("ifi", true, "a1", "0", true, "c0"),
        dl_item("ifi", true, "a1", "1", true, "c1"),
        dl_item("ifi", false, "", "2", true, ""),
        dl_item("onefr", false, "zz", "2", false, "yy"),
        dl_item("grievous", false, "", "3", true, "c3"),
        dl_item("ifi", true, "a2", "1", true, "c1b"),
    ];
    let mut infoes: Vec<(String, DlcInfo)> = Vec::new();
    get_purchase_form_table(&mut infoes, &items, true, "h", "s", "songs");
    assert_eq!(infoes.len(), 2);
    assert_eq!(infoes[0].0, "ifi");
    let ifi = &infoes[0].1;
    assert_eq!(ifi.audio.checksum, "a2");
    assert_eq!(ifi.audio.url, "http://h/s/songs/ifi/base.ogg");
    assert_eq!(ifi.chart.len(), 2);
    assert_eq!(ifi.chart[0].0, "0");
    assert_eq!(ifi.chart[1].0, "1");
    assert_eq!(ifi.chart[1].1.checksum, "c1b");
    assert_eq!(ifi.chart[1].1.url, "http://h/s/songs/ifi/1.aff");
    let g = &infoes[1].1;
    assert_eq!(infoes[1].0, "grievous");
    assert!(g.audio.is_empty());
    assert_eq!(g.chart[0].1.checksum, "c3");

    let mut plain: Vec<(String, DlcInfo)> = Vec::new();
    get_purchase_form_table(&mut plain, &items, false, "h", "s", "songs");
    assert_eq!(plain[0].1.audio.url, "");
    assert_eq!(plain[0].1.chart[0].1.url, "");
    assert_eq!(plain[0].1.chart[0].1.checksum, "c0");
}
