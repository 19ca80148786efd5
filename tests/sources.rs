use game_info::howlongtobeat::{find_entry, pick_entry, time_token, Entry};
use game_info::opencritic::{parse_response_num, pick_exact, GameResponse, SearchResult};
use game_info::steam::{Action, App, AppDetails, AppTable, Candidates, GameData, ReviewData};
use game_info::{opencritic, Error};

fn summary() -> ReviewData {
    ReviewData { description: "Positive".to_string(), positive: 8, negative: 2, total: 10 }
}

fn details(success: bool, kind: &str) -> AppDetails {
    AppDetails { success, kind: kind.to_string(), name: "Portal 2".to_string(), metacritic_score: Some(95) }
}

#[test]
fn table_files_ids_by_trimmed_lower_name() {
    let table = AppTable::new(vec![
        App { appid: 620, name: "  Portal 2 ".to_string() },
        App { appid: 400, name: "Portal".to_string() },
        App { appid: 104600, name: "PORTAL 2".to_string() },
    ]);
    assert_eq!(table.ids("portal 2"), vec![620, 104600]);
    assert_eq!(table.ids("portal"), vec![400]);
    assert!(table.ids("Portal 2").is_empty());
    assert!(table.ids("half-life").is_empty());
}

#[test]
fn candidate_that_is_a_game_is_taken() {
    let r = GameData::from_candidate(Ok(details(true, "game")), Ok(summary())).unwrap().unwrap();
    assert_eq!(r.name, "Portal 2");
    assert_eq!(r.metacritic_score, Some(95));
    assert_eq!(r.review_data.total, 10);
}

#[test]
fn candidate_that_is_not_a_game_is_passed_over() {
    assert!(GameData::from_candidate(Ok(details(true, "dlc")), Ok(summary())).unwrap().is_none());
}

#[test]
fn candidate_flagged_unsuccessful_fails() {
    let r = GameData::from_candidate(Ok(details(false, "game")), Ok(summary()));
    assert!(matches!(r, Err(Error::ApiUnsuccessful)));
}

#[test]
fn candidate_fetch_errors_fail() {
    let r = GameData::from_candidate(Err(Error::Deserialization), Ok(summary()));
    assert!(matches!(r, Err(Error::Deserialization)));
    let r = GameData::from_candidate(Ok(details(true, "game")), Err(Error::Reqwest));
    assert!(matches!(r, Err(Error::Reqwest)));
}

#[test]
fn reviews_need_success_flag() {
    assert_eq!(ReviewData::from_response(1, summary()).unwrap().positive, 8);
    assert!(matches!(ReviewData::from_response(0, summary()), Err(Error::ApiUnsuccessful)));
    assert!(matches!(ReviewData::from_response(2, summary()), Err(Error::ApiUnsuccessful)));
}

#[test]
fn negative_scores_are_missing() {
    assert_eq!(parse_response_num(-1), None);
    assert_eq!(parse_response_num(0), Some(0));
    assert_eq!(parse_response_num(8550), Some(8550));
}

#[test]
fn critic_record_from_response() {
    let hit = SearchResult { id: 1, name: "Celeste".to_string(), exact: true };
    let response = GameResponse {
        tier: "Mighty".to_string(),
        percentile: -1,
        percent_recommended: 9800,
        top_critic_score: -100,
        average_score: 9100,
    };
    let g = opencritic::GameData::from_response(hit, response);
    assert_eq!(g.name, "Celeste");
    assert_eq!(g.percentile, None);
    assert_eq!(g.percent_recommended, Some(9800));
    assert_eq!(g.top_critic_score, None);
    assert_eq!(g.average_score, Some(9100));
}

#[test]
fn only_exact_search_hits_count() {
    let hits = vec![
        SearchResult { id: 1, name: "Celeste Classic".to_string(), exact: false },
        SearchResult { id: 2, name: "Celeste".to_string(), exact: true },
        SearchResult { id: 3, name: "Celeste".to_string(), exact: true },
    ];
    assert_eq!(pick_exact(hits).unwrap().id, 2);
    let hits = vec![SearchResult { id: 1, name: "Celeste Classic".to_string(), exact: false }];
    assert!(pick_exact(hits).is_none());
    assert!(pick_exact(vec![]).is_none());
}

fn entry(title: Option<&str>, cells: &[&str]) -> Entry {
    Entry { title: title.map(|t| t.to_string()), tidbits: cells.iter().map(|c| c.to_string()).collect() }
}

#[test]
fn search_hit_matches_lower_case_title() {
    let cells = ["Main Story", "8 Hours", "Main + Extra", "12 Hours", "Completionist", "36 Hours"];
    let entries = vec![entry(None, &[]), entry(Some("Celeste Classic"), &cells), entry(Some("Celeste"), &cells)];
    let m = pick_entry(entries, "celeste").unwrap();
    assert_eq!(m.name, "Celeste");
    assert_eq!(m.main_story, "8 Hours");
    assert_eq!(m.main_plus_extra, "12 Hours");
    assert_eq!(m.completionist, "36 Hours");
}

#[test]
fn search_without_hit_is_not_found() {
    let entries = vec![entry(Some("Celeste Classic"), &[])];
    assert!(matches!(pick_entry(entries, "celeste"), Err(Error::NotFound)));
}

#[test]
fn search_hit_with_missing_cells_is_malformed() {
    let entries = vec![entry(Some("Celeste"), &["Main Story", "8 Hours"])];
    assert!(matches!(pick_entry(entries, "celeste"), Err(Error::Deserialization)));
}

#[test]
fn search_page_is_parsed() {
    let html = "<ul><li><h3><a href=\"/x\">Other</a></h3></li>\
        <li><h3><a href=\"/game/1\">Celeste</a></h3>\
        <div class=\"search_list_tidbit\">Main Story</div><div class=\"search_list_tidbit\">8 Hours</div>\
        <div class=\"search_list_tidbit\">Main + Extra</div><div class=\"search_list_tidbit\">12&#189; Hours</div>\
        <div class=\"search_list_tidbit\">Completionist</div><div class=\"search_list_tidbit\">36 Hours</div></li></ul>";
    let m = find_entry(html, "celeste").unwrap();
    assert_eq!(m.name, "Celeste");
    assert_eq!(m.main_story, "8 Hours");
    assert_eq!(m.completionist, "36 Hours");
    assert!(matches!(find_entry(html, "portal"), Err(Error::NotFound)));
}

#[test]
fn time_token_reads_hours() {
    assert_eq!(time_token("12Â½ Hours"), "12.5");
    assert_eq!(time_token("8 Hours"), "8");
    assert_eq!(time_token("Â½ Hours"), ".5");
    assert_eq!(time_token("--"), "--");
    assert_eq!(time_token(""), "");
    assert_eq!(time_token("3Â"), "3Â");
    assert_eq!(time_token(" 4 Hours"), "");
}

#[test]
fn candidates_are_tried_in_order_until_a_game() {
    let mut c = Candidates::new(vec![7, 9]);
    assert!(matches!(c.step(None), Action::Fetch(7)));
    let dlc = GameData::from_candidate(Ok(details(true, "dlc")), Ok(summary()));
    assert!(matches!(c.step(Some(dlc)), Action::Fetch(9)));
    let game = GameData::from_candidate(Ok(details(true, "game")), Ok(summary()));
    match c.step(Some(game)) {
        Action::Finish(Ok(g)) => assert_eq!(g.name, "Portal 2"),
        other => panic!("unexpected {:?}", other),
    }
}

#[test]
fn candidates_exhausted_is_not_found() {
    let mut c = Candidates::new(vec![]);
    assert!(matches!(c.step(None), Action::Finish(Err(Error::NotFound))));
    let mut c = Candidates::new(vec![3]);
    assert!(matches!(c.step(None), Action::Fetch(3)));
    assert!(matches!(c.step(Some(Ok(None))), Action::Finish(Err(Error::NotFound))));
}

#[test]
fn candidate_failure_ends_the_lookup() {
    let mut c = Candidates::new(vec![3, 4]);
    assert!(matches!(c.step(None), Action::Fetch(3)));
    assert!(matches!(c.step(Some(Err(Error::Reqwest))), Action::Finish(Err(Error::Reqwest))));
}
