use game_info::text::{fixed2, format_num, format_option, format_time, i64_text, short, u128_text, u64_text};
use game_info::{howlongtobeat, opencritic, steam, GameData};

fn reviews(positive: u64, total: u64) -> steam::ReviewData {
    steam::ReviewData {
        description: "Very Positive".to_string(),
        positive,
        negative: total - positive,
        total,
    }
}

#[test]
fn fixed_two_decimals() {
    assert_eq!(fixed2(0), "0.00");
    assert_eq!(fixed2(5), "0.05");
    assert_eq!(fixed2(1234), "12.34");
    assert_eq!(fixed2(9800), "98.00");
}

#[test]
fn short_hours() {
    assert_eq!(short(1200), "12");
    assert_eq!(short(1250), "12.5");
    assert_eq!(short(1205), "12.05");
    assert_eq!(short(0), "0");
}

#[test]
fn format_option_found_and_missing() {
    let mut f = String::new();
    format_option(&mut f, "Steam", &Some("x".to_string()));
    format_option(&mut f, "Opencritic", &None);
    assert_eq!(f, "Steam: x\nOpencritic: Not found\n");
}

#[test]
fn format_time_separates_fields() {
    let mut f = String::new();
    let mut first = true;
    format_time(&mut f, "Main Story", &Some(850), &mut first);
    assert!(!first);
    format_time(&mut f, "Main + Extra", &None, &mut first);
    format_time(&mut f, "Completionist", &Some(2200), &mut first);
    assert_eq!(f, "Main Story - 8.5 hours, Completionist - 22 hours");
}

#[test]
fn format_num_separates_fields() {
    let mut f = String::new();
    let mut first = true;
    format_num(&mut f, " average score", &None, &mut first);
    assert!(first);
    format_num(&mut f, " top critic average", &Some(9525), &mut first);
    format_num(&mut f, "% recommend", &Some(9800), &mut first);
    assert_eq!(f, "95.25 top critic average, 98.00% recommend");
}

#[test]
fn review_share_rounds_to_hundredths() {
    assert_eq!(reviews(187, 200).text(), "Very Positive (93.50% of 200)");
    assert_eq!(reviews(2, 3).text(), "Very Positive (66.67% of 3)");
    assert_eq!(reviews(1, 3).text(), "Very Positive (33.33% of 3)");
    assert_eq!(reviews(0, 0).text(), "Very Positive (NaN% of 0)");
}

#[test]
fn store_summary_with_metacritic() {
    let g = steam::GameData { name: "Portal 2".to_string(), review_data: reviews(187, 200), metacritic_score: Some(95) };
    assert_eq!(g.summary(), "Very Positive (93.50% of 200)\nMetacritic: 95%");
    let g = steam::GameData { name: "Portal 2".to_string(), review_data: reviews(187, 200), metacritic_score: None };
    assert_eq!(g.summary(), "Very Positive (93.50% of 200)");
}

#[test]
fn critic_summary_with_tier() {
    let g = opencritic::GameData {
        name: "Celeste".to_string(),
        tier: "Mighty".to_string(),
        percentile: Some(97),
        percent_recommended: Some(9800),
        top_critic_score: Some(9212),
        average_score: None,
    };
    assert_eq!(g.summary(), "Mighty (top 3%, 92.12 top critic average, 98.00% recommend)");
}

#[test]
fn critic_summary_without_anything() {
    let g = opencritic::GameData {
        name: "X".to_string(),
        tier: String::new(),
        percentile: None,
        percent_recommended: None,
        top_critic_score: None,
        average_score: None,
    };
    assert_eq!(g.summary(), "None found");
}

#[test]
fn critic_summary_without_tier() {
    let g = opencritic::GameData {
        name: "X".to_string(),
        tier: String::new(),
        percentile: None,
        percent_recommended: None,
        top_critic_score: None,
        average_score: Some(7050),
    };
    assert_eq!(g.summary(), "70.50 average score");
}

#[test]
fn times_summary() {
    let g = howlongtobeat::GameData { name: "Celeste".to_string(), main_story: Some(850), main_plus_extra: Some(1950), completionist: None };
    assert_eq!(g.summary(), "Main Story - 8.5 hours, Main + Extra - 19.5 hours");
    let g = howlongtobeat::GameData { name: "Celeste".to_string(), main_story: None, main_plus_extra: None, completionist: None };
    assert_eq!(g.summary(), "None found");
}

#[test]
fn record_text() {
    let g = GameData {
        steam: None,
        opencritic: None,
        howlongtobeat: Some(howlongtobeat::GameData { name: "Celeste".to_string(), main_story: Some(800), main_plus_extra: None, completionist: None }),
        alias: "celeste".to_string(),
    };
    assert_eq!(
        g.to_text(),
        "Celeste\nSteam: Not found\nOpencritic: Not found\nHowLongToBeat: Main Story - 8 hours\n"
    );
}

#[test]
fn integer_texts() {
    assert_eq!(u64_text(0), "0");
    assert_eq!(u64_text(10), "10");
    assert_eq!(u64_text(u64::MAX), "18446744073709551615");
    assert_eq!(u128_text(u128::MAX), "340282366920938463463374607431768211455");
    assert_eq!(i64_text(-3), "-3");
    assert_eq!(i64_text(i64::MIN), "-9223372036854775808");
    assert_eq!(i64_text(97), "97");
}
