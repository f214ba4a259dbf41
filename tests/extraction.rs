use rate_digest::document::{Document, Node};
use rate_digest::extract::{extract_average_values, rate_from_line};
use rate_digest::numeral::{extract_first_number, numeral_from_match, Numeral};

enum Tree {
    El(&'static str, Vec<&'static str>, Vec<Tree>),
    Text(&'static str),
}

fn el(tag: &'static str, classes: Vec<&'static str>, children: Vec<Tree>) -> Tree {
    Tree::El(tag, classes, children)
}

fn txt(s: &'static str) -> Tree {
    Tree::Text(s)
}

fn flatten(t: &Tree, nodes: &mut Vec<Node>) {
    let at = nodes.len();
    match t {
        Tree::Text(s) => nodes.push(Node {
            tag: String::new(),
            classes: Vec::new(),
            text: s.to_string(),
            end: at + 1,
        }),
        Tree::El(tag, classes, children) => {
            nodes.push(Node {
                tag: tag.to_string(),
                classes: classes.iter().map(|c| c.to_string()).collect(),
                text: String::new(),
                end: 0,
            });
            for c in children {
                flatten(c, nodes);
            }
            let end = nodes.len();
            nodes[at].end = end;
        }
    }
}

fn doc(root: Tree) -> Document {
    let mut nodes = Vec::new();
    flatten(&root, &mut nodes);
    Document { nodes }
}

fn text_of(n: &Option<Numeral>) -> Option<String> {
    n.as_ref().map(|n| n.text())
}

fn summary() -> Tree {
    el(
        "table",
        vec!["history-rate-summary"],
        vec![
            el("tr", vec![], vec![el("td", vec![], vec![txt("Highest:")]), el("td", vec![], vec![txt("€0.95")])]),
            el(
                "tr",
                vec![],
                vec![el("td", vec![], vec![txt("Average:")]), el("td", vec![], vec![txt("$1 = €0.9234")])],
            ),
        ],
    )
}

fn footer() -> Tree {
    el(
        "td",
        vec!["month-footer"],
        vec![
            txt("March 2024 "),
            el("span", vec!["nowrap"], vec![txt("$1 = €0.9000")]),
            el("span", vec!["nowrap"], vec![txt("$1 = €0.9500")]),
            el("span", vec!["nowrap"], vec![txt("$1 = €0.9188")]),
        ],
    )
}

fn rates_table(date: &'static str, line: &'static str) -> Tree {
    el(
        "table",
        vec!["history-rates-data"],
        vec![
            el(
                "tr",
                vec![],
                vec![
                    el("td", vec![], vec![el("a", vec!["n"], vec![txt(" 2024-3-4 ")])]),
                    el("td", vec![], vec![el("span", vec![], vec![txt("1 USD = 0.9100 EUR")])]),
                ],
            ),
            el(
                "tr",
                vec![],
                vec![
                    el("td", vec![], vec![el("a", vec!["n"], vec![txt(date)])]),
                    el("td", vec![], vec![el("span", vec![], vec![txt(line)])]),
                ],
            ),
        ],
    )
}

#[test]
fn first_number_in_text() {
    let n = extract_first_number("¥1 = €0.1289").unwrap();
    assert_eq!(n.text(), "0.1289");
    let v: f64 = n.text().parse().unwrap();
    assert_eq!(v, 0.1289);
}

#[test]
fn no_number_in_text() {
    assert!(extract_first_number("no numbers here").is_none());
    assert!(extract_first_number("12 and 13").is_none());
}

#[test]
fn first_match_takes_leftmost_and_longest() {
    let n = extract_first_number("rate 12.5 then 3.25").unwrap();
    assert_eq!(n.text(), "12.5");
    let n = extract_first_number("x1234.56789y").unwrap();
    assert_eq!(n.text(), "1234.56789");
}

#[test]
fn non_ascii_digits_give_no_number() {
    assert!(extract_first_number("٣.٥ then 1.5").is_none());
    assert!(numeral_from_match(Some("٣.٥".to_string())).is_none());
    assert!(numeral_from_match(None).is_none());
    assert_eq!(numeral_from_match(Some("4.25".to_string())).unwrap().text(), "4.25");
}

#[test]
fn numerals_and_zero() {
    assert!(Numeral::parse("0.000").unwrap().is_zero());
    assert!(!Numeral::parse("0.001").unwrap().is_zero());
    assert_eq!(Numeral::parse("7.").unwrap().text(), "7.");
    assert_eq!(Numeral::parse(".25").unwrap().text(), ".25");
    assert!(Numeral::parse(".").is_none());
    assert!(Numeral::parse("1.2.3").is_none());
    assert!(Numeral::parse("").is_none());
    assert_eq!(Numeral::parse("1e5").unwrap().text(), "1e5");
}

#[test]
fn float_syntax_is_accepted() {
    for w in ["+0.92", "-1.5", "1e3", "2.5E-3", ".5e+2", "7.e1", "inf", "-INF", "Infinity", "NaN", "+nan"] {
        assert!(Numeral::parse(w).is_some(), "{}", w);
        assert!(w.parse::<f64>().is_ok(), "{}", w);
    }
    for w in ["e5", "1e", "1e+", "1.5e3.2", "++1", "infinit", "1_000", "0x10", " 1", "1,5"] {
        assert!(Numeral::parse(w).is_none(), "{}", w);
        assert!(w.parse::<f64>().is_err(), "{}", w);
    }
}

#[test]
fn zero_values() {
    for w in ["0", "-0.0", "+.000", "0e5", "0.0E-7"] {
        assert!(Numeral::parse(w).unwrap().is_zero(), "{}", w);
    }
    for w in ["0.001", "1e-3", "inf", "nan", "-2"] {
        assert!(!Numeral::parse(w).unwrap().is_zero(), "{}", w);
    }
}

#[test]
fn rate_line_needs_five_words() {
    assert_eq!(rate_from_line("  1 USD = 0.9123 EUR ").unwrap().text(), "0.9123");
    assert!(rate_from_line("1 USD = 0.9123").is_none());
    assert!(rate_from_line("1 USD = abc EUR").is_none());
    assert_eq!(rate_from_line("1 USD = 1e3 EUR").unwrap().text(), "1e3");
    assert_eq!(rate_from_line("1 USD = +0.92 EUR").unwrap().text(), "+0.92");
}

#[test]
fn all_three_fields() {
    let d = doc(el("html", vec![], vec![summary(), footer(), rates_table("2024-3-5", "1 USD = 0.9150 EUR")]));
    let f = extract_average_values(&d, "March", "2024-3-5");
    assert_eq!(text_of(&f.ytd), Some("0.9234".to_string()));
    assert_eq!(text_of(&f.mtd), Some("0.9188".to_string()));
    assert_eq!(text_of(&f.rate), Some("0.9150".to_string()));
}

#[test]
fn missing_summary_leaves_other_fields() {
    let d = doc(el("html", vec![], vec![footer(), rates_table("2024-3-5", "1 USD = 0.9150 EUR")]));
    let f = extract_average_values(&d, "march", "2024-3-5");
    assert!(f.ytd.is_none());
    assert_eq!(text_of(&f.mtd), Some("0.9188".to_string()));
    assert_eq!(text_of(&f.rate), Some("0.9150".to_string()));
}

#[test]
fn dated_row_with_five_words() {
    let d = doc(el("html", vec![], vec![rates_table("\n  2024-3-5 ", "1 USD = 0.9150 EUR")]));
    let f = extract_average_values(&d, "March", "2024-3-5");
    assert_eq!(text_of(&f.rate), Some("0.9150".to_string()));
    let v: f64 = f.rate.unwrap().text().parse().unwrap();
    assert_eq!(v, 0.9150);
}

#[test]
fn dated_row_with_four_words() {
    let d = doc(el("html", vec![], vec![rates_table("2024-3-5", "1 USD = 0.9150")]));
    let f = extract_average_values(&d, "March", "2024-3-5");
    assert!(f.rate.is_none());
}

#[test]
fn date_absent_from_table() {
    let d = doc(el("html", vec![], vec![rates_table("2024-3-5", "1 USD = 0.9150 EUR")]));
    let f = extract_average_values(&d, "March", "2024-3-6");
    assert!(f.rate.is_none());
    let f = extract_average_values(&d, "March", "2024-03-05");
    assert!(f.rate.is_none());
}

#[test]
fn other_month_has_no_average() {
    let d = doc(el("html", vec![], vec![footer()]));
    let f = extract_average_values(&d, "April", "2024-4-1");
    assert!(f.mtd.is_none());
    assert!(f.ytd.is_none());
}

#[test]
fn empty_document() {
    let d = Document { nodes: Vec::new() };
    let f = extract_average_values(&d, "March", "2024-3-5");
    assert!(f.ytd.is_none() && f.mtd.is_none() && f.rate.is_none());
}

#[test]
fn extraction_repeats_identically() {
    let d = doc(el("html", vec![], vec![summary(), footer(), rates_table("2024-3-5", "1 USD = 0.9150 EUR")]));
    let a = extract_average_values(&d, "March", "2024-3-5");
    let b = extract_average_values(&d, "March", "2024-3-5");
    assert_eq!(text_of(&a.ytd), text_of(&b.ytd));
    assert_eq!(text_of(&a.mtd), text_of(&b.mtd));
    assert_eq!(text_of(&a.rate), text_of(&b.rate));
}
