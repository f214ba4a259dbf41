//! The decisions of the rate pipeline: which peers to ask, where to look,
//! what to do with each page, and how to gather the outcomes.
use vstd::prelude::*;
use vstd::string::StringExecFns;
use crate::calendar::{
    CivilDate, is_valid_date, month_name, month_name_of, date_text, date_text_of, int_text,
    int_text_of, reference_date_now, parsed_date_of, date_from_parts,
};
use crate::document::{Document, Node};
use crate::extract::{extract_average_values, ytd_of, mtd_of, rate_of};
use crate::numeral::{Numeral, numeral_view, is_zero_float};
use crate::text::{lower_of, lowercase, upper_of, uppercase, is_lower_ascii_word};

verus! {

/// The fixed basket of currencies compared with one another.
pub open spec fn basket() -> Seq<Seq<char>> {
    seq!["usd"@, "eur"@, "gbp"@, "jpy"@, "chf"@, "cny"@]
}

pub open spec fn views(v: Seq<String>) -> Seq<Seq<char>> {
    v.map_values(|s: String| s@)
}

/// `s` without the entries equal to `x`, in order.
pub open spec fn without(s: Seq<Seq<char>>, x: Seq<char>) -> Seq<Seq<char>>
    decreases s.len(),
{
    if s.len() == 0 {
        s
    } else if s.last() == x {
        without(s.drop_last(), x)
    } else {
        without(s.drop_last(), x).push(s.last())
    }
}

/// The peers of a base currency: the basket without the base, compared in
/// lower case.
pub open spec fn peers_of(base: Seq<char>) -> Seq<Seq<char>> {
    without(basket(), lower_of(base))
}

/// The basket, in order.
pub fn currency_basket() -> (r: Vec<String>)
    ensures
        views(r@) == basket(),
{
    let r = vec![
        "usd".to_owned(),
        "eur".to_owned(),
        "gbp".to_owned(),
        "jpy".to_owned(),
        "chf".to_owned(),
        "cny".to_owned(),
    ];
    assert(views(r@) =~= basket());
    r
}

/// The peer currencies of `base`.
pub fn peer_currencies(base: &str) -> (r: Vec<String>)
    ensures
        views(r@) == peers_of(base@),
        is_lower_ascii_word(base@) ==> peers_of(base@) == without(basket(), base@),
{
    let all = currency_basket();
    let lower = lowercase(base);
    let mut r: Vec<String> = Vec::new();
    let mut i: usize = 0;
    while i < all.len()
        invariant
            views(all@) == basket(),
            lower@ == lower_of(base@),
            i <= all@.len(),
            views(r@) == without(basket().take(i as int), lower@),
        decreases all@.len() - i,
    {
        assert(basket().take(i + 1).drop_last() =~= basket().take(i as int));
        assert(basket().take(i + 1).last() == all@[i as int]@);
        if all[i] != lower {
            r.push(all[i].clone());
        }
        assert(views(r@) =~= without(basket().take(i + 1), lower@));
        i = i + 1;
    }
    assert(basket().take(all@.len() as int) =~= basket());
    r
}

/// The base currency is never among its peers; where it is in the basket
/// there are five peers, else six.
pub proof fn lemma_peers_exclude_base(base: Seq<char>)
    ensures
        forall|i: int| 0 <= i < peers_of(base).len() ==> #[trigger] peers_of(base)[i] != lower_of(
            base,
        ),
        basket().contains(lower_of(base)) ==> peers_of(base).len() == 5,
        !basket().contains(lower_of(base)) ==> peers_of(base).len() == 6,
{
    reveal_strlit("usd");
    reveal_strlit("eur");
    reveal_strlit("gbp");
    reveal_strlit("jpy");
    reveal_strlit("chf");
    reveal_strlit("cny");
    reveal_with_fuel(without, 7);
    let b = basket();
    assert(b.drop_last() =~= seq!["usd"@, "eur"@, "gbp"@, "jpy"@, "chf"@]);
    assert(b.drop_last().drop_last() =~= seq!["usd"@, "eur"@, "gbp"@, "jpy"@]);
    assert(b.drop_last().drop_last().drop_last() =~= seq!["usd"@, "eur"@, "gbp"@]);
    assert(b.drop_last().drop_last().drop_last().drop_last() =~= seq!["usd"@, "eur"@]);
    assert(b.drop_last().drop_last().drop_last().drop_last().drop_last() =~= seq!["usd"@]);
    assert(b.drop_last().drop_last().drop_last().drop_last().drop_last().drop_last() =~= seq![]);
    if b.contains(lower_of(base)) {
        let k = choose|k: int| 0 <= k < b.len() && b[k] == lower_of(base);
        assert(0 <= k < 6);
        assert("usd"@[0] == 'u' && "eur"@[0] == 'e' && "gbp"@[0] == 'g' && "jpy"@[0] == 'j');
        assert("chf"@[0] == 'c' && "cny"@[0] == 'c' && "chf"@[1] == 'h' && "cny"@[1] == 'n');
        assert(forall|i: int, j: int| 0 <= i < j < 6 ==> b[i] != b[j]) by {
            assert forall|i: int, j: int| 0 <= i < j < 6 implies b[i] != b[j] by {
                if b[i] == b[j] {
                    assert(b[i][0] == b[j][0] && b[i][1] == b[j][1]);
                }
            }
        }
    }
}

/// For a base written in lower case, such as "usd", the peers are the rest
/// of the basket in order; for "usd" they are eur, gbp, jpy, chf and cny.
pub proof fn lemma_usd_peers()
    ensures
        without(basket(), "usd"@) == seq!["eur"@, "gbp"@, "jpy"@, "chf"@, "cny"@],
{
    reveal_strlit("usd");
    reveal_strlit("eur");
    reveal_strlit("gbp");
    reveal_strlit("jpy");
    reveal_strlit("chf");
    reveal_strlit("cny");
    reveal_with_fuel(without, 7);
    let b = basket();
    assert(b.drop_last() =~= seq!["usd"@, "eur"@, "gbp"@, "jpy"@, "chf"@]);
    assert(b.drop_last().drop_last() =~= seq!["usd"@, "eur"@, "gbp"@, "jpy"@]);
    assert(b.drop_last().drop_last().drop_last() =~= seq!["usd"@, "eur"@, "gbp"@]);
    assert(b.drop_last().drop_last().drop_last().drop_last() =~= seq!["usd"@, "eur"@]);
    assert(b.drop_last().drop_last().drop_last().drop_last().drop_last() =~= seq!["usd"@]);
    assert(b.drop_last().drop_last().drop_last().drop_last().drop_last().drop_last() =~= seq![]);
    assert("usd"@ != "eur"@ && "usd"@ != "gbp"@ && "usd"@ != "jpy"@) by {
        assert("usd"@[0] != "eur"@[0] && "usd"@[0] != "gbp"@[0] && "usd"@[0] != "jpy"@[0]);
    }
    assert("usd"@ != "chf"@ && "usd"@ != "cny"@) by {
        assert("usd"@[0] != "chf"@[0] && "usd"@[0] != "cny"@[0]);
    }
    assert(without(basket(), "usd"@) =~= seq!["eur"@, "gbp"@, "jpy"@, "chf"@, "cny"@]);
}

pub open spec fn history_url_of(base: Seq<char>, peer: Seq<char>, year: int) -> Seq<char> {
    "https://www.exchange-rates.org/exchange-rate-history/"@ + base + "-"@ + peer + "-"@
        + int_text_of(year)
}

pub open spec fn spot_url_of(base: Seq<char>) -> Seq<char> {
    "https://open.er-api.com/v6/latest/"@ + base
}

/// The address of the historical-rate page of a pair for a year.
pub fn history_url(base: &str, peer: &str, year: i32) -> (r: String)
    ensures
        r@ == history_url_of(base@, peer@, year as int),
{
    let mut r = "https://www.exchange-rates.org/exchange-rate-history/".to_owned();
    r.append(base);
    r.append("-");
    r.append(peer);
    r.append("-");
    r.append(int_text(year).as_str());
    r
}

/// The address of the live rate table of a base currency.
pub fn spot_url(base: &str) -> (r: String)
    ensures
        r@ == spot_url_of(base@),
{
    let mut r = "https://open.er-api.com/v6/latest/".to_owned();
    r.append(base);
    r
}

/// What one peer's resolution is to do.
pub struct PairTask {
    pub base: String,
    pub peer: String,
    pub page_url: String,
    pub month: String,
    pub date: String,
}

pub open spec fn task_for(t: PairTask, base: Seq<char>, peer: Seq<char>, d: CivilDate) -> bool {
    &&& t.base@ == base
    &&& t.peer@ == peer
    &&& t.page_url@ == history_url_of(base, peer, d.year as int)
    &&& t.month@ == month_name_of(d.month as int)
    &&& t.date@ == date_text_of(d)
}

/// One task for each peer of `base`, in basket order, about date `d`.
pub fn plan_pairs(base: &str, d: CivilDate) -> (r: Vec<PairTask>)
    requires
        is_valid_date(d),
    ensures
        r@.len() == peers_of(base@).len(),
        forall|i: int| 0 <= i < r@.len() ==> task_for(#[trigger] r@[i], base@, peers_of(base@)[i], d),
        is_lower_ascii_word(base@) ==> peers_of(base@) == without(basket(), base@),
{
    let peers = peer_currencies(base);
    let month = month_name(d.month);
    let date = date_text(d);
    let mut r: Vec<PairTask> = Vec::new();
    let mut i: usize = 0;
    while i < peers.len()
        invariant
            views(peers@) == peers_of(base@),
            month@ == month_name_of(d.month as int),
            date@ == date_text_of(d),
            i <= peers@.len(),
            r@.len() == i,
            forall|k: int| 0 <= k < i ==> task_for(#[trigger] r@[k], base@, peers_of(base@)[k], d),
        decreases peers@.len() - i,
    {
        let peer = peers[i].clone();
        assert(peers_of(base@)[i as int] == peers@[i as int]@);
        let task = PairTask {
            base: base.to_owned(),
            page_url: history_url(base, peer.as_str(), d.year),
            peer,
            month: month.clone(),
            date: date.clone(),
        };
        r.push(task);
        i = i + 1;
    }
    r
}

/// The date of a request and its tasks: the date it names where that
/// parses, else the local date now.
pub fn plan_request(base: &str, date: &Option<String>) -> (r: (CivilDate, Vec<PairTask>))
    ensures
        is_valid_date(r.0),
        (*date matches Some(s) && parsed_date_of(s@) is Some) ==> r.0 == date_from_parts(
            parsed_date_of(date->0@)->0,
        ),
        r.1@.len() == peers_of(base@).len(),
        forall|i: int|
            0 <= i < r.1@.len() ==> task_for(#[trigger] r.1@[i], base@, peers_of(base@)[i], r.0),
        is_lower_ascii_word(base@) ==> peers_of(base@) == without(basket(), base@),
{
    let d = reference_date_now(date);
    let tasks = plan_pairs(base, d);
    (d, tasks)
}

/// What a peer's resolution does once its page has been fetched, or not.
pub enum PairStep {
    /// The page gave the rate: the observation is complete.
    Done { from: String, to: String, rate: Numeral, mtd: Option<Numeral>, ytd: Option<Numeral> },
    /// The page lacked the rate: look `key` up in the live table at `url`.
    NeedSpot {
        from: String,
        to: String,
        url: String,
        key: String,
        mtd: Option<Numeral>,
        ytd: Option<Numeral>,
    },
    /// The page could not be had: the peer is left out.
    Dropped,
}

/// Whether a rate found on a page is missing or zero, so that the live table
/// must be asked.
pub open spec fn needs_spot(rate: Option<Seq<char>>) -> bool {
    match rate {
        Some(r) => is_zero_float(r),
        None => true,
    }
}

pub open spec fn page_view(page: Option<&Document>) -> Option<Seq<Node>> {
    match page {
        Some(doc) => Some(doc.nodes@),
        None => None,
    }
}

/// Whether `r` is the step owed for `task` after `page`: dropped without a
/// page; done where the page gives a non-zero rate for the task's date; else a
/// look-up of the peer, in upper case, in the base's live table. The month and
/// year-to-date averages are the page's either way.
pub open spec fn step_fits(task: PairTask, page: Option<Seq<Node>>, r: PairStep) -> bool {
    match page {
        None => r is Dropped,
        Some(nodes) => {
            let rate = rate_of(nodes, task.date@);
            let mtd = mtd_of(nodes, task.month@);
            let ytd = ytd_of(nodes);
            match r {
                PairStep::Done { from, to, rate: found, mtd: m, ytd: y } => {
                    &&& !needs_spot(rate)
                    &&& Some(found@) == rate
                    &&& from@ == task.base@ && to@ == task.peer@
                    &&& numeral_view(m) == mtd && numeral_view(y) == ytd
                },
                PairStep::NeedSpot { from, to, url, key, mtd: m, ytd: y } => {
                    &&& needs_spot(rate)
                    &&& url@ == spot_url_of(task.base@)
                    &&& key@ == upper_of(task.peer@)
                    &&& from@ == task.base@ && to@ == task.peer@
                    &&& numeral_view(m) == mtd && numeral_view(y) == ytd
                },
                PairStep::Dropped => false,
            }
        },
    }
}

/// Whether two steps agree in every value they carry.
pub open spec fn same_step(a: PairStep, b: PairStep) -> bool {
    match (a, b) {
        (
            PairStep::Done { from: f1, to: t1, rate: r1, mtd: m1, ytd: y1 },
            PairStep::Done { from: f2, to: t2, rate: r2, mtd: m2, ytd: y2 },
        ) => f1@ == f2@ && t1@ == t2@ && r1@ == r2@ && numeral_view(m1) == numeral_view(m2)
            && numeral_view(y1) == numeral_view(y2),
        (
            PairStep::NeedSpot { from: f1, to: t1, url: u1, key: k1, mtd: m1, ytd: y1 },
            PairStep::NeedSpot { from: f2, to: t2, url: u2, key: k2, mtd: m2, ytd: y2 },
        ) => f1@ == f2@ && t1@ == t2@ && u1@ == u2@ && k1@ == k2@ && numeral_view(m1)
            == numeral_view(m2) && numeral_view(y1) == numeral_view(y2),
        (PairStep::Dropped, PairStep::Dropped) => true,
        _ => false,
    }
}

/// The same task and the same page give the same step, value for value: with
/// the remote answers fixed, a resolution can be repeated with the same result.
pub proof fn lemma_step_is_determined(task: PairTask, page: Option<Seq<Node>>, a: PairStep, b: PairStep)
    requires
        step_fits(task, page, a),
        step_fits(task, page, b),
    ensures
        same_step(a, b),
{
}

/// The step after a page, as `step_fits` describes it.
pub fn next_step(task: &PairTask, page: Option<&Document>) -> (r: PairStep)
    requires
        page matches Some(doc) ==> doc.wf(),
    ensures
        step_fits(*task, page_view(page), r),
{
    let doc = match page {
        Some(doc) => doc,
        None => return PairStep::Dropped,
    };
    let fields = extract_average_values(doc, task.month.as_str(), task.date.as_str());
    match fields.rate {
        Some(rate) if !rate.is_zero() => PairStep::Done {
            from: task.base.clone(),
            to: task.peer.clone(),
            rate,
            mtd: fields.mtd,
            ytd: fields.ytd,
        },
        _ => PairStep::NeedSpot {
            from: task.base.clone(),
            to: task.peer.clone(),
            url: spot_url(task.base.as_str()),
            key: uppercase(task.peer.as_str()),
            mtd: fields.mtd,
            ytd: fields.ytd,
        },
    }
}

/// The values of the outcomes that came, in order.
pub open spec fn somes<T>(s: Seq<Option<T>>) -> Seq<T>
    decreases s.len(),
{
    if s.len() == 0 {
        Seq::empty()
    } else {
        match s.last() {
            Some(v) => somes(s.drop_last()).push(v),
            None => somes(s.drop_last()),
        }
    }
}

/// Gathers the peers' outcomes: those that came, in order, or the error
/// "No results found." where none did.
pub fn collect_results<T>(outcomes: Vec<Option<T>>) -> (r: Result<Vec<T>, String>)
    ensures
        r matches Ok(v) ==> v@ == somes(outcomes@) && v@.len() > 0,
        r matches Err(e) ==> e@ == "No results found."@,
        r is Err <==> somes(outcomes@).len() == 0,
{
    let ghost all = outcomes@;
    let mut rest = outcomes;
    let mut found: Vec<T> = Vec::new();
    while rest.len() > 0
        invariant
            somes(all) == somes(rest@) + found@,
        decreases rest@.len(),
    {
        let ghost before = rest@;
        let o = rest.pop().unwrap();
        assert(before.drop_last() == rest@);
        match o {
            Some(v) => {
                assert(somes(before) == somes(rest@).push(v));
                found.insert(0, v);
                assert(somes(all) =~= somes(rest@) + found@);
            },
            None => {
            },
        }
    }
    assert(somes(rest@) =~= Seq::<T>::empty());
    assert(somes(all) =~= found@);
    if found.len() == 0 {
        Err("No results found.".to_owned())
    } else {
        Ok(found)
    }
}

} // verus!
