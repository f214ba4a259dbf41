//! Reference dates and their written forms.
use chrono::Datelike;
use vstd::prelude::*;
use vstd::string::{StrSliceExecFns, StringExecFns};
use crate::numeral::is_digit;

verus! {

/// A calendar date.
#[derive(Clone, Copy, PartialEq, Eq, Structural, Debug)]
pub struct CivilDate {
    pub year: i32,
    pub month: u32,
    pub day: u32,
}

/// A leap year of the proleptic Gregorian calendar.
pub open spec fn is_leap_year(y: int) -> bool {
    y % 4 == 0 && (y % 100 != 0 || y % 400 == 0)
}

pub open spec fn days_in_month(y: int, m: int) -> int {
    if m == 2 {
        if is_leap_year(y) {
            29
        } else {
            28
        }
    } else if m == 4 || m == 6 || m == 9 || m == 11 {
        30
    } else {
        31
    }
}

/// A day that exists in the proleptic Gregorian calendar.
pub open spec fn is_valid_date(d: CivilDate) -> bool {
    1 <= d.month <= 12 && 1 <= d.day <= days_in_month(d.year as int, d.month as int)
}

pub open spec fn has_ascii_digit(s: Seq<char>) -> bool {
    exists|i: int| 0 <= i < s.len() && is_digit(#[trigger] s[i])
}

/// The date that chrono reads from a text in the form "%Y-%m-%d", as
/// (year, month, day).
pub uninterp spec fn parsed_date_of(s: Seq<char>) -> Option<(i32, u32, u32)>;

pub open spec fn date_parts(d: Option<CivilDate>) -> Option<(i32, u32, u32)> {
    match d {
        Some(d) => Some((d.year, d.month, d.day)),
        None => None,
    }
}

pub open spec fn date_from_parts(p: (i32, u32, u32)) -> CivilDate {
    CivilDate { year: p.0, month: p.1, day: p.2 }
}

/// Relies on chrono's `NaiveDate::parse_from_str` with "%Y-%m-%d": a valid
/// calendar date where the text is one; the year needs at least one digit.
#[verifier::external_body]
fn parse_iso_date(s: &str) -> (r: Option<CivilDate>)
    ensures
        date_parts(r) == parsed_date_of(s@),
        r matches Some(d) ==> is_valid_date(d),
        !has_ascii_digit(s@) ==> r is None,
{
    chrono::NaiveDate::parse_from_str(s, "%Y-%m-%d").ok().map(
        |d| CivilDate { year: d.year(), month: d.month(), day: d.day() },
    )
}

/// Relies on chrono's `Local::now`: today's date in the local time zone.
#[verifier::external_body]
fn local_today() -> (r: CivilDate)
    ensures
        is_valid_date(r),
{
    let d = chrono::Local::now().date_naive();
    CivilDate { year: d.year(), month: d.month(), day: d.day() }
}

/// The date a request is about: the one it names where that parses, else today.
pub open spec fn effective_date_of(input: Option<Seq<char>>, today: CivilDate) -> CivilDate {
    match input {
        Some(s) => match parsed_date_of(s) {
            Some(p) => date_from_parts(p),
            None => today,
        },
        None => today,
    }
}

pub open spec fn text_view(o: Option<String>) -> Option<Seq<char>> {
    match o {
        Some(s) => Some(s@),
        None => None,
    }
}

/// The parsed date where there is one, else `today`.
pub fn pick_date(parsed: Option<CivilDate>, today: CivilDate) -> (r: CivilDate)
    ensures
        r == (match parsed {
            Some(d) => d,
            None => today,
        }),
{
    match parsed {
        Some(d) => d,
        None => today,
    }
}

/// The date a request is about, given today's date. A text that is no date
/// (one without a digit, say) counts as no text at all.
pub fn reference_date(input: &Option<String>, today: CivilDate) -> (r: CivilDate)
    requires
        is_valid_date(today),
    ensures
        r == effective_date_of(text_view(*input), today),
        is_valid_date(r),
        input matches Some(s) && !has_ascii_digit(s@) ==> r == effective_date_of(None, today),
{
    let parsed = match input {
        Some(s) => parse_iso_date(s.as_str()),
        None => None,
    };
    pick_date(parsed, today)
}

/// The date a request is about: the one it names where that parses, else
/// the local date now.
pub fn reference_date_now(input: &Option<String>) -> (r: CivilDate)
    ensures
        is_valid_date(r),
        (*input matches Some(s) && parsed_date_of(s@) is Some) ==> r == date_from_parts(
            parsed_date_of(input->0@)->0,
        ),
{
    let today = local_today();
    reference_date(input, today)
}

pub open spec fn month_name_of(m: int) -> Seq<char> {
    if m == 1 {
        "January"@
    } else if m == 2 {
        "February"@
    } else if m == 3 {
        "March"@
    } else if m == 4 {
        "April"@
    } else if m == 5 {
        "May"@
    } else if m == 6 {
        "June"@
    } else if m == 7 {
        "July"@
    } else if m == 8 {
        "August"@
    } else if m == 9 {
        "September"@
    } else if m == 10 {
        "October"@
    } else if m == 11 {
        "November"@
    } else {
        "December"@
    }
}

/// The English name of month `m` (1 to 12).
pub fn month_name(m: u32) -> (r: String)
    requires
        1 <= m <= 12,
    ensures
        r@ == month_name_of(m as int),
{
    if m == 1 {
        "January".to_owned()
    } else if m == 2 {
        "February".to_owned()
    } else if m == 3 {
        "March".to_owned()
    } else if m == 4 {
        "April".to_owned()
    } else if m == 5 {
        "May".to_owned()
    } else if m == 6 {
        "June".to_owned()
    } else if m == 7 {
        "July".to_owned()
    } else if m == 8 {
        "August".to_owned()
    } else if m == 9 {
        "September".to_owned()
    } else if m == 10 {
        "October".to_owned()
    } else if m == 11 {
        "November".to_owned()
    } else {
        "December".to_owned()
    }
}

pub open spec fn digit_char(n: int) -> char {
    "0123456789"@[n]
}

/// The decimal digits of `n`, without leading zeros.
pub open spec fn decimal_of(n: nat) -> Seq<char>
    decreases n,
{
    if n < 10 {
        seq![digit_char(n as int)]
    } else {
        decimal_of(n / 10).push(digit_char((n % 10) as int))
    }
}

/// Appends the decimal digits of `n` to `out`.
fn push_decimal(n: u32, out: &mut String)
    ensures
        final(out)@ == old(out)@ + decimal_of(n as nat),
    decreases n,
{
    if n >= 10 {
        push_decimal(n / 10, out);
    }
    let d: usize = (n % 10) as usize;
    proof {
        reveal_strlit("0123456789");
    }
    let digit = "0123456789".substring_char(d, d + 1);
    assert(digit@ =~= seq![digit_char(d as int)]);
    out.append(digit);
    assert(final(out)@ =~= old(out)@ + decimal_of(n as nat)) by {
        if n >= 10 {
            assert(decimal_of(n as nat) == decimal_of((n / 10) as nat).push(digit_char(d as int)));
        }
    }
}

/// The decimal form of `n`.
pub fn decimal_text(n: u32) -> (r: String)
    ensures
        r@ == decimal_of(n as nat),
{
    let mut r = String::new();
    push_decimal(n, &mut r);
    assert(r@ =~= decimal_of(n as nat));
    r
}

pub open spec fn abs_of(y: int) -> nat {
    if y < 0 {
        (-y) as nat
    } else {
        y as nat
    }
}

pub open spec fn zeros(k: nat) -> Seq<char> {
    Seq::new(k, |i: int| '0')
}

/// `s` with zeros in front up to four characters.
pub open spec fn padded4(s: Seq<char>) -> Seq<char> {
    if s.len() >= 4 {
        s
    } else {
        zeros((4 - s.len()) as nat) + s
    }
}

/// A year as "%Y" writes it: four digits at least, and a sign outside 0 to 9999.
pub open spec fn year_text_of(y: int) -> Seq<char> {
    let digits = padded4(decimal_of(abs_of(y)));
    if 0 <= y <= 9999 {
        digits
    } else if y < 0 {
        seq!['-'] + digits
    } else {
        seq!['+'] + digits
    }
}

/// An integer as plain decimal text, with '-' where it is negative.
pub open spec fn int_text_of(y: int) -> Seq<char> {
    if y < 0 {
        seq!['-'] + decimal_of(abs_of(y))
    } else {
        decimal_of(abs_of(y))
    }
}

fn abs_u32(y: i32) -> (r: u32)
    ensures
        r as nat == abs_of(y as int),
{
    if y < 0 {
        (-(y as i64)) as u32
    } else {
        y as u32
    }
}

/// The year in the form "%Y" gives it.
pub fn year_text(y: i32) -> (r: String)
    ensures
        r@ == year_text_of(y as int),
{
    let digits = decimal_text(abs_u32(y));
    let len = digits.as_str().unicode_len();
    let mut r = String::new();
    if y < 0 {
        r.append("-");
    } else if y > 9999 {
        r.append("+");
    }
    proof {
        reveal_strlit("-");
        reveal_strlit("+");
    }
    let ghost sign = r@;
    let mut k: usize = len;
    while k < 4
        invariant
            len <= k <= 4 || (len > 4 && k == len),
            r@ == sign + zeros((k - len) as nat),
        decreases 4 - k,
    {
        r.append("0");
        proof {
            reveal_strlit("0");
        }
        assert(r@ =~= sign + zeros((k + 1 - len) as nat));
        k = k + 1;
    }
    r.append(digits.as_str());
    assert(r@ =~= year_text_of(y as int));
    r
}

/// An integer as plain decimal text.
pub fn int_text(y: i32) -> (r: String)
    ensures
        r@ == int_text_of(y as int),
{
    let digits = decimal_text(abs_u32(y));
    let mut r = String::new();
    if y < 0 {
        r.append("-");
        proof {
            reveal_strlit("-");
        }
    }
    r.append(digits.as_str());
    assert(r@ =~= int_text_of(y as int));
    r
}

/// A date as "YYYY-M-D": the year as "%Y" writes it, month and day without
/// leading zeros.
pub open spec fn date_text_of(d: CivilDate) -> Seq<char> {
    year_text_of(d.year as int) + seq!['-'] + decimal_of(d.month as nat) + seq!['-'] + decimal_of(
        d.day as nat,
    )
}

/// The date in the form the historical-rates table writes it.
pub fn date_text(d: CivilDate) -> (r: String)
    ensures
        r@ == date_text_of(d),
{
    let mut r = year_text(d.year);
    proof {
        reveal_strlit("-");
    }
    r.append("-");
    r.append(decimal_text(d.month).as_str());
    r.append("-");
    r.append(decimal_text(d.day).as_str());
    assert(r@ =~= date_text_of(d));
    r
}

} // verus!
