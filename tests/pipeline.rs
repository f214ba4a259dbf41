use rate_digest::calendar::{date_text, int_text, month_name, reference_date, year_text, CivilDate};
use rate_digest::document::{Document, Node};
use rate_digest::pipeline::{
    collect_results, plan_request, currency_basket, history_url, next_step, peer_currencies, plan_pairs, spot_url,
    PairStep, PairTask,
};

fn day(year: i32, month: u32, day: u32) -> CivilDate {
    CivilDate { year, month, day }
}

fn node(tag: &str, classes: &[&str], text: &str, end: usize) -> Node {
    Node {
        tag: tag.to_string(),
        classes: classes.iter().map(|c| c.to_string()).collect(),
        text: text.to_string(),
        end,
    }
}

// <table class="history-rates-data"><tr><td><a class="n">date</a></td><td><span>line</span></td></tr></table>
fn rates_page(date: &str, line: &str) -> Document {
    Document {
        nodes: vec![
            node("table", &["history-rates-data"], "", 10),
            node("tr", &[], "", 10),
            node("td", &[], "", 5),
            node("a", &["n"], "", 5),
            node("", &[], date, 5),
            node("td", &[], "", 10),
            node("span", &[], "", 10),
            node("", &[], line, 8),
            node("", &[], "", 9),
            node("", &[], "", 10),
        ],
    }
}

fn task(base: &str, peer: &str) -> PairTask {
    plan_pairs(base, day(2024, 3, 5))
        .into_iter()
        .find(|t| t.peer == peer)
        .unwrap()
}

#[test]
fn basket_is_six_currencies() {
    assert_eq!(currency_basket(), vec!["usd", "eur", "gbp", "jpy", "chf", "cny"]);
}

#[test]
fn base_is_never_a_peer() {
    let peers = peer_currencies("usd");
    assert_eq!(peers, vec!["eur", "gbp", "jpy", "chf", "cny"]);
    assert!(!peers.iter().any(|p| p == "usd"));
    assert_eq!(peer_currencies("USD").len(), 5);
    assert_eq!(peer_currencies("cny"), vec!["usd", "eur", "gbp", "jpy", "chf"]);
    assert_eq!(peer_currencies("sek").len(), 6);
}

#[test]
fn five_tasks_for_usd() {
    let tasks = plan_pairs("usd", day(2024, 3, 5));
    assert_eq!(tasks.len(), 5);
    assert!(tasks.iter().all(|t| t.peer != "usd" && t.base == "usd"));
    assert_eq!(tasks[0].page_url, "https://www.exchange-rates.org/exchange-rate-history/usd-eur-2024");
    assert_eq!(tasks[0].month, "March");
    assert_eq!(tasks[0].date, "2024-3-5");
}

#[test]
fn addresses() {
    assert_eq!(
        history_url("gbp", "jpy", 2023),
        "https://www.exchange-rates.org/exchange-rate-history/gbp-jpy-2023"
    );
    assert_eq!(spot_url("usd"), "https://open.er-api.com/v6/latest/usd");
}

#[test]
fn written_dates() {
    assert_eq!(date_text(day(2024, 3, 5)), "2024-3-5");
    assert_eq!(date_text(day(2024, 12, 31)), "2024-12-31");
    assert_eq!(date_text(day(987, 1, 2)), "0987-1-2");
    assert_eq!(year_text(5), "0005");
    assert_eq!(year_text(-3), "-0003");
    assert_eq!(year_text(12345), "+12345");
    assert_eq!(int_text(2024), "2024");
    assert_eq!(int_text(-7), "-7");
    assert_eq!(int_text(0), "0");
}

#[test]
fn month_names() {
    assert_eq!(month_name(1), "January");
    assert_eq!(month_name(3), "March");
    assert_eq!(month_name(12), "December");
}

#[test]
fn unparsable_date_is_like_no_date() {
    let today = day(2025, 6, 17);
    let none = reference_date(&None, today);
    let bad = reference_date(&Some("not-a-date".to_string()), today);
    assert_eq!(none, today);
    assert_eq!(bad, none);
    assert_eq!(reference_date(&Some("2024-13-01".to_string()), today), today);
    assert_eq!(reference_date(&Some("2023-02-29".to_string()), today), today);
    assert_eq!(reference_date(&Some("2024-02-29".to_string()), today), day(2024, 2, 29));
}

#[test]
fn parsable_date_is_used() {
    let today = day(2025, 6, 17);
    assert_eq!(reference_date(&Some("2024-03-05".to_string()), today), day(2024, 3, 5));
}

#[test]
fn no_page_drops_the_peer() {
    assert!(matches!(next_step(&task("usd", "eur"), None), PairStep::Dropped));
}

#[test]
fn page_rate_completes_the_pair() {
    let page = rates_page("2024-3-5", "1 USD = 0.9150 EUR");
    match next_step(&task("usd", "eur"), Some(&page)) {
        PairStep::Done { from, to, rate, mtd, ytd } => {
            assert_eq!(from, "usd");
            assert_eq!(to, "eur");
            assert_eq!(rate.text(), "0.9150");
            assert!(mtd.is_none() && ytd.is_none());
        }
        _ => panic!("expected a complete pair"),
    }
}

#[test]
fn missing_rate_asks_the_live_table() {
    let page = rates_page("2024-3-4", "1 USD = 0.9150 EUR");
    match next_step(&task("usd", "eur"), Some(&page)) {
        PairStep::NeedSpot { from, to, url, key, .. } => {
            assert_eq!(from, "usd");
            assert_eq!(to, "eur");
            assert_eq!(url, "https://open.er-api.com/v6/latest/usd");
            assert_eq!(key, "EUR");
        }
        _ => panic!("expected a live look-up"),
    }
}

#[test]
fn zero_rate_asks_the_live_table() {
    let page = rates_page("2024-3-5", "1 USD = 0.0000 EUR");
    assert!(matches!(next_step(&task("usd", "eur"), Some(&page)), PairStep::NeedSpot { .. }));
}

#[test]
fn same_page_same_step() {
    let page = rates_page("2024-3-5", "1 USD = 0.9150 EUR");
    let t = task("usd", "gbp");
    let a = match next_step(&t, Some(&page)) {
        PairStep::Done { rate, .. } => rate.text(),
        _ => panic!("expected a complete pair"),
    };
    let b = match next_step(&t, Some(&page)) {
        PairStep::Done { rate, .. } => rate.text(),
        _ => panic!("expected a complete pair"),
    };
    assert_eq!(a, b);
}

#[test]
fn partial_failures_keep_successes() {
    let outcomes = vec![None, Some("eur"), None, Some("jpy"), None];
    assert_eq!(collect_results(outcomes), Ok(vec!["eur", "jpy"]));
}

#[test]
fn all_failures_give_no_results() {
    let outcomes: Vec<Option<u32>> = vec![None, None, None, None, None];
    assert_eq!(collect_results(outcomes), Err("No results found.".to_string()));
    let empty: Vec<Option<u32>> = Vec::new();
    assert_eq!(collect_results(empty), Err("No results found.".to_string()));
}

#[test]
fn request_with_a_date_plans_for_it() {
    let (d, tasks) = plan_request("eur", &Some("2023-11-09".to_string()));
    assert_eq!(d, day(2023, 11, 9));
    assert_eq!(tasks.len(), 5);
    assert!(tasks.iter().all(|t| t.date == "2023-11-9" && t.month == "November"));
    assert_eq!(tasks[0].page_url, "https://www.exchange-rates.org/exchange-rate-history/eur-usd-2023");
}

#[test]
fn request_without_a_date_plans_for_a_valid_day() {
    let (d, tasks) = plan_request("usd", &Some("not-a-date".to_string()));
    assert!((1..=12).contains(&d.month) && (1..=31).contains(&d.day));
    assert_eq!(tasks.len(), 5);
}

#[test]
fn well_formed_documents() {
    assert!(rates_page("2024-3-5", "1 USD = 0.9150 EUR").is_well_formed());
    let mut bad = rates_page("2024-3-5", "1 USD = 0.9150 EUR");
    bad.nodes[2].end = 11;
    assert!(!bad.is_well_formed());
    let mut crossing = rates_page("2024-3-5", "1 USD = 0.9150 EUR");
    crossing.nodes[3].end = 7;
    assert!(!crossing.is_well_formed());
    assert!(Document { nodes: Vec::new() }.is_well_formed());
}

#[test]
fn exponent_rate_completes_the_pair() {
    let page = rates_page("2024-3-5", "1 USD = 9.15e-1 EUR");
    match next_step(&task("usd", "eur"), Some(&page)) {
        PairStep::Done { rate, .. } => assert_eq!(rate.text(), "9.15e-1"),
        _ => panic!("expected a complete pair"),
    }
}
