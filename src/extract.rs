//! The figures of a historical-rate page: year-to-date average, month
//! average, and the rate on one date. Each is looked for on its own, so a
//! missing or malformed section leaves only its own figure unfound.
use vstd::prelude::*;
use crate::document::{
    Document, Node, node_text, first_in, last_in, class_pred, tag_pred, has_class, has_tag,
    index_view, node_has_class, node_has_tag,
};
use crate::numeral::{
    Numeral, extract_first_number, numeral_view, numeral_of_match, first_decimal_match, is_float_text,
};
use crate::text::{
    contains_text, text_contains, lower_of, lowercase, trim_of, trim, words_of, split_words,
};

verus! {

/// A table row whose text holds the marker "Average:".
pub open spec fn average_row_pred(nodes: Seq<Node>) -> spec_fn(int) -> bool {
    |k: int| has_tag(nodes[k], "tr"@) && contains_text(node_text(nodes, k), "Average:"@)
}

/// A month footer whose text, in lower case, holds the month name in lower case.
pub open spec fn month_footer_pred(nodes: Seq<Node>, month: Seq<char>) -> spec_fn(int) -> bool {
    |k: int|
        has_class(nodes[k], "month-footer"@) && contains_text(
            lower_of(node_text(nodes, k)),
            lower_of(month),
        )
}

/// A table row whose first date marker reads `date` once trimmed.
pub open spec fn date_row_pred(nodes: Seq<Node>, date: Seq<char>) -> spec_fn(int) -> bool {
    |k: int|
        has_tag(nodes[k], "tr"@) && match first_in(
            k + 1,
            nodes[k].end as int,
            class_pred(nodes, "n"@),
        ) {
            Some(d) => trim_of(node_text(nodes, d)) == date,
            None => false,
        }
}

/// The first decimal numeral in the text of node `k`.
pub open spec fn number_in_node(nodes: Seq<Node>, k: int) -> Option<Seq<char>> {
    numeral_of_match(first_decimal_match(node_text(nodes, k)))
}

/// Year-to-date average: in the first rate-summary container, the first row
/// marked "Average:", its second cell, the first number in that cell.
pub open spec fn ytd_of(nodes: Seq<Node>) -> Option<Seq<char>> {
    match first_in(0, nodes.len() as int, class_pred(nodes, "history-rate-summary"@)) {
        None => None,
        Some(t) => match first_in(t + 1, nodes[t].end as int, average_row_pred(nodes)) {
            None => None,
            Some(r) => match first_in(r + 1, nodes[r].end as int, tag_pred(nodes, "td"@)) {
                None => None,
                Some(c0) => match first_in(c0 + 1, nodes[r].end as int, tag_pred(nodes, "td"@)) {
                    None => None,
                    Some(c1) => number_in_node(nodes, c1),
                },
            },
        },
    }
}

/// Month average: in the first month footer that names the month, the last
/// compact number, and the first number in it.
pub open spec fn mtd_of(nodes: Seq<Node>, month: Seq<char>) -> Option<Seq<char>> {
    match first_in(0, nodes.len() as int, month_footer_pred(nodes, month)) {
        None => None,
        Some(f) => match last_in(f + 1, nodes[f].end as int, class_pred(nodes, "nowrap"@)) {
            None => None,
            Some(s) => number_in_node(nodes, s),
        },
    }
}

/// The rate of a rate line: its fourth word, where the line has exactly five
/// words and that word reads as a float.
pub open spec fn rate_of_line(line: Seq<char>) -> Option<Seq<char>> {
    let w = words_of(trim_of(line));
    if w.len() == 5 && is_float_text(w[3]) {
        Some(w[3])
    } else {
        None
    }
}

/// Rate on a date: in the historical-rates table, the first row dated `date`,
/// its first span, read as a rate line.
pub open spec fn rate_of(nodes: Seq<Node>, date: Seq<char>) -> Option<Seq<char>> {
    match first_in(0, nodes.len() as int, class_pred(nodes, "history-rates-data"@)) {
        None => None,
        Some(t) => match first_in(t + 1, nodes[t].end as int, date_row_pred(nodes, date)) {
            None => None,
            Some(r) => match first_in(r + 1, nodes[r].end as int, tag_pred(nodes, "span"@)) {
                None => None,
                Some(s) => rate_of_line(node_text(nodes, s)),
            },
        },
    }
}

/// The three figures of a page; `None` where one was not found.
pub struct PageFields {
    pub ytd: Option<Numeral>,
    pub mtd: Option<Numeral>,
    pub rate: Option<Numeral>,
}

impl PageFields {
    pub open spec fn wf(&self) -> bool {
        &&& self.ytd matches Some(n) ==> n.wf()
        &&& self.mtd matches Some(n) ==> n.wf()
        &&& self.rate matches Some(n) ==> n.wf()
    }
}

/// Where no node carries the rate-summary class, the year-to-date average is
/// not found; the other two figures do not depend on that container.
pub proof fn lemma_no_summary_no_ytd(nodes: Seq<Node>)
    requires
        forall|k: int| 0 <= k < nodes.len() ==> !has_class(#[trigger] nodes[k], "history-rate-summary"@),
    ensures
        ytd_of(nodes) is None,
{
    let p = class_pred(nodes, "history-rate-summary"@);
    assert forall|k: int| 0 <= k < nodes.len() implies !#[trigger] p(k) by {
        assert(!has_class(nodes[k], "history-rate-summary"@));
    }
    lemma_first_in_none(0, nodes.len() as int, p);
}

/// Where `p` holds nowhere in `from .. to`, nothing is found there.
pub proof fn lemma_first_in_none(from: int, to: int, p: spec_fn(int) -> bool)
    requires
        forall|k: int| from <= k < to ==> !#[trigger] p(k),
    ensures
        first_in(from, to, p) is None,
    decreases to - from,
{
    if from < to {
        lemma_first_in_none(from + 1, to, p);
    }
}

/// The first row in `from .. to` marked "Average:".
fn first_average_row(doc: &Document, from: usize, to: usize) -> (r: Option<usize>)
    requires
        doc.wf(),
        from <= to <= doc.nodes@.len(),
    ensures
        index_view(r) == first_in(from as int, to as int, average_row_pred(doc.nodes@)),
        r matches Some(k) ==> from <= k < to,
{
    let mut j: usize = from;
    while j < to
        invariant
            doc.wf(),
            from <= j <= to <= doc.nodes@.len(),
            first_in(from as int, to as int, average_row_pred(doc.nodes@)) == first_in(
                j as int,
                to as int,
                average_row_pred(doc.nodes@),
            ),
        decreases to - j,
    {
        if node_has_tag(&doc.nodes[j], "tr") && text_contains(doc.text_of(j).as_str(), "Average:") {
            return Some(j);
        }
        j = j + 1;
    }
    None
}

/// The first month footer that names `month_lower`, the month in lower case.
fn first_month_footer(doc: &Document, month: &str, month_lower: &str) -> (r: Option<usize>)
    requires
        doc.wf(),
        month_lower@ == lower_of(month@),
    ensures
        index_view(r) == first_in(0, doc.nodes@.len() as int, month_footer_pred(doc.nodes@, month@)),
        r matches Some(k) ==> k < doc.nodes@.len(),
{
    let to = doc.nodes.len();
    let mut j: usize = 0;
    while j < to
        invariant
            doc.wf(),
            month_lower@ == lower_of(month@),
            j <= to == doc.nodes@.len(),
            first_in(0, to as int, month_footer_pred(doc.nodes@, month@)) == first_in(
                j as int,
                to as int,
                month_footer_pred(doc.nodes@, month@),
            ),
        decreases to - j,
    {
        if node_has_class(&doc.nodes[j], "month-footer") {
            let text = lowercase(doc.text_of(j).as_str());
            if text_contains(text.as_str(), month_lower) {
                return Some(j);
            }
        }
        j = j + 1;
    }
    None
}

/// Whether row `k` is dated `date`.
fn is_date_row(doc: &Document, k: usize, date: &str) -> (r: bool)
    requires
        doc.wf(),
        k < doc.nodes@.len(),
    ensures
        r == date_row_pred(doc.nodes@, date@)(k as int),
{
    if !node_has_tag(&doc.nodes[k], "tr") {
        return false;
    }
    assert(k < doc.nodes@[k as int].end);
    match doc.first_with_class(k + 1, doc.nodes[k].end, "n") {
        Some(d) => {
            let text = trim(doc.text_of(d).as_str());
            text == date.to_owned()
        },
        None => false,
    }
}

/// The first row in `from .. to` dated `date`.
fn first_date_row(doc: &Document, from: usize, to: usize, date: &str) -> (r: Option<usize>)
    requires
        doc.wf(),
        from <= to <= doc.nodes@.len(),
    ensures
        index_view(r) == first_in(from as int, to as int, date_row_pred(doc.nodes@, date@)),
        r matches Some(k) ==> from <= k < to,
{
    let mut j: usize = from;
    while j < to
        invariant
            doc.wf(),
            from <= j <= to <= doc.nodes@.len(),
            first_in(from as int, to as int, date_row_pred(doc.nodes@, date@)) == first_in(
                j as int,
                to as int,
                date_row_pred(doc.nodes@, date@),
            ),
        decreases to - j,
    {
        if is_date_row(doc, j, date) {
            return Some(j);
        }
        j = j + 1;
    }
    None
}

/// Reads a rate line: its fourth word, where it has exactly five words.
pub fn rate_from_line(line: &str) -> (r: Option<Numeral>)
    ensures
        numeral_view(r) == rate_of_line(line@),
        r matches Some(n) ==> n.wf(),
{
    let trimmed = trim(line);
    let words = split_words(trimmed.as_str());
    if words.len() == 5 {
        Numeral::parse(words[3].as_str())
    } else {
        None
    }
}

/// The year-to-date average of a page.
pub fn extract_ytd(doc: &Document) -> (r: Option<Numeral>)
    requires
        doc.wf(),
    ensures
        numeral_view(r) == ytd_of(doc.nodes@),
        r matches Some(n) ==> n.wf(),
{
    let t = match doc.first_with_class(0, doc.nodes.len(), "history-rate-summary") {
        Some(t) => t,
        None => return None,
    };
    let row = match first_average_row(doc, t + 1, doc.nodes[t].end) {
        Some(row) => row,
        None => return None,
    };
    let end = doc.nodes[row].end;
    let c0 = match doc.first_with_tag(row + 1, end, "td") {
        Some(c) => c,
        None => return None,
    };
    let c1 = match doc.first_with_tag(c0 + 1, end, "td") {
        Some(c) => c,
        None => return None,
    };
    extract_first_number(doc.text_of(c1).as_str())
}

/// The average of `month` on a page.
pub fn extract_mtd(doc: &Document, month: &str) -> (r: Option<Numeral>)
    requires
        doc.wf(),
    ensures
        numeral_view(r) == mtd_of(doc.nodes@, month@),
        r matches Some(n) ==> n.wf(),
{
    let month_lower = lowercase(month);
    let f = match first_month_footer(doc, month, month_lower.as_str()) {
        Some(f) => f,
        None => return None,
    };
    match doc.last_with_class(f + 1, doc.nodes[f].end, "nowrap") {
        Some(s) => extract_first_number(doc.text_of(s).as_str()),
        None => None,
    }
}

/// The rate on `date` on a page.
pub fn extract_rate(doc: &Document, date: &str) -> (r: Option<Numeral>)
    requires
        doc.wf(),
    ensures
        numeral_view(r) == rate_of(doc.nodes@, date@),
        r matches Some(n) ==> n.wf(),
{
    let t = match doc.first_with_class(0, doc.nodes.len(), "history-rates-data") {
        Some(t) => t,
        None => return None,
    };
    let row = match first_date_row(doc, t + 1, doc.nodes[t].end, date) {
        Some(row) => row,
        None => return None,
    };
    match doc.first_with_tag(row + 1, doc.nodes[row].end, "span") {
        Some(s) => rate_from_line(doc.text_of(s).as_str()),
        None => None,
    }
}

/// The three figures of a page, for the month named `month` and the date
/// written `date` ("YYYY-M-D").
pub fn extract_average_values(doc: &Document, month: &str, date: &str) -> (r: PageFields)
    requires
        doc.wf(),
    ensures
        r.wf(),
        numeral_view(r.ytd) == ytd_of(doc.nodes@),
        numeral_view(r.mtd) == mtd_of(doc.nodes@, month@),
        numeral_view(r.rate) == rate_of(doc.nodes@, date@),
{
    PageFields { ytd: extract_ytd(doc), mtd: extract_mtd(doc, month), rate: extract_rate(doc, date) }
}

} // verus!
