//! Numbers written in text, in the syntax of Rust's float parsing.
use vstd::prelude::*;
use crate::text::chars_of;

verus! {

pub open spec fn is_digit(c: char) -> bool {
    '0' <= c && c <= '9'
}

pub open spec fn is_sign(c: char) -> bool {
    c == '+' || c == '-'
}

pub open spec fn is_exp_mark(c: char) -> bool {
    c == 'e' || c == 'E'
}

pub open spec fn all_digits(s: Seq<char>) -> bool {
    forall|i: int| 0 <= i < s.len() ==> is_digit(#[trigger] s[i])
}

pub open spec fn no_exp_mark(s: Seq<char>) -> bool {
    forall|i: int| 0 <= i < s.len() ==> !is_exp_mark(#[trigger] s[i])
}

/// A plain decimal numeral: ASCII digits with at most one decimal point and
/// at least one digit ("12", "0.5", "7.", ".25").
pub open spec fn is_numeral(s: Seq<char>) -> bool {
    &&& forall|i: int| 0 <= i < s.len() ==> (is_digit(#[trigger] s[i]) || s[i] == '.')
    &&& forall|i: int, j: int|
        0 <= i < s.len() && 0 <= j < s.len() && #[trigger] s[i] == '.' && #[trigger] s[j] == '.'
            ==> i == j
    &&& exists|i: int| 0 <= i < s.len() && is_digit(#[trigger] s[i])
}

/// The digits of an exponent: an optional sign, then at least one digit.
pub open spec fn is_exp_digits(s: Seq<char>) -> bool {
    if s.len() > 0 && is_sign(s[0]) {
        s.len() > 1 && all_digits(s.skip(1))
    } else {
        s.len() > 0 && all_digits(s)
    }
}

/// An unsigned number: a numeral, then optionally 'e' or 'E' and an exponent.
pub open spec fn is_number_body(s: Seq<char>) -> bool {
    ||| no_exp_mark(s) && is_numeral(s)
    ||| exists|k: int|
        0 <= k < s.len() && is_exp_mark(s[k]) && no_exp_mark(#[trigger] s.take(k)) && is_numeral(
            s.take(k),
        ) && is_exp_digits(s.skip(k + 1))
}

pub open spec fn upper_letter(l: char) -> char {
    if l == 'i' {
        'I'
    } else if l == 'n' {
        'N'
    } else if l == 'f' {
        'F'
    } else if l == 't' {
        'T'
    } else if l == 'y' {
        'Y'
    } else if l == 'a' {
        'A'
    } else {
        l
    }
}

/// `s` spells the lower-case word `w`, letter by letter in either case.
pub open spec fn spells(s: Seq<char>, w: Seq<char>) -> bool {
    s.len() == w.len() && forall|i: int|
        0 <= i < s.len() ==> (#[trigger] s[i] == w[i] || s[i] == upper_letter(w[i]))
}

/// "inf", "infinity" or "nan", in any case.
pub open spec fn is_special(s: Seq<char>) -> bool {
    spells(s, seq!['i', 'n', 'f']) || spells(s, seq!['i', 'n', 'f', 'i', 'n', 'i', 't', 'y'])
        || spells(s, seq!['n', 'a', 'n'])
}

/// The text after an optional leading sign.
pub open spec fn unsigned_part(s: Seq<char>) -> Seq<char> {
    if s.len() > 0 && is_sign(s[0]) {
        s.skip(1)
    } else {
        s
    }
}

/// A text that Rust's float parsing reads: an optional sign, then "inf",
/// "infinity" or "nan" in any case, or a numeral with an optional exponent
/// ("0.92", "+0.92", "1e3", "7.", ".25E-2", "-INF").
pub open spec fn is_float_text(s: Seq<char>) -> bool {
    is_special(unsigned_part(s)) || is_number_body(unsigned_part(s))
}

/// A float text whose value is zero: a number, not a special word, whose
/// digits before the exponent are all '0' ("0.000", "-0", "0e5").
pub open spec fn is_zero_float(s: Seq<char>) -> bool {
    let u = unsigned_part(s);
    &&& is_float_text(s)
    &&& !is_special(u)
    &&& forall|i: int|
        0 <= i < u.len() && is_digit(#[trigger] u[i]) && no_exp_mark(u.take(i)) ==> u[i] == '0'
}

/// The text of a numeral, if there is one.
pub open spec fn numeral_view(o: Option<Numeral>) -> Option<Seq<char>> {
    match o {
        Some(n) => Some(n@),
        None => None,
    }
}

/// Whether `cs[from..to]` is a plain decimal numeral.
fn numeral_in(cs: &Vec<char>, from: usize, to: usize) -> (r: bool)
    requires
        from <= to <= cs@.len(),
    ensures
        r == is_numeral(cs@.subrange(from as int, to as int)),
{
    let ghost t = cs@.subrange(from as int, to as int);
    let mut i: usize = from;
    let mut dot: Option<usize> = None;
    let mut seen_digit = false;
    while i < to
        invariant
            from <= i <= to <= cs@.len(),
            t == cs@.subrange(from as int, to as int),
            forall|j: int| from <= j < i ==> (is_digit(#[trigger] cs@[j]) || cs@[j] == '.'),
            dot is None ==> forall|j: int| from <= j < i ==> #[trigger] cs@[j] != '.',
            dot matches Some(p) ==> from <= p < i && cs@[p as int] == '.' && forall|j: int|
                from <= j < i && #[trigger] cs@[j] == '.' ==> j == p,
            seen_digit <==> exists|j: int| from <= j < i && is_digit(#[trigger] cs@[j]),
        decreases to - i,
    {
        let c = cs[i];
        if c == '.' {
            if dot.is_some() {
                assert(!is_numeral(t)) by {
                    let p = dot.unwrap();
                    assert(t[p - from] == '.' && t[i - from] == '.');
                }
                return false;
            }
            dot = Some(i);
        } else if '0' <= c && c <= '9' {
            seen_digit = true;
            assert(is_digit(cs@[i as int]));
        } else {
            assert(!is_numeral(t)) by {
                assert(!is_digit(t[i - from]) && t[i - from] != '.');
            }
            return false;
        }
        i = i + 1;
    }
    if !seen_digit {
        assert(!is_numeral(t)) by {
            if exists|j: int| 0 <= j < t.len() && is_digit(#[trigger] t[j]) {
                let j = choose|j: int| 0 <= j < t.len() && is_digit(#[trigger] t[j]);
                assert(is_digit(cs@[from + j]));
            }
        }
        return false;
    }
    assert(is_numeral(t)) by {
        let j = choose|j: int| from <= j < i && is_digit(#[trigger] cs@[j]);
        assert(is_digit(t[j - from]));
        assert forall|a: int, b: int|
            0 <= a < t.len() && 0 <= b < t.len() && #[trigger] t[a] == '.' && #[trigger] t[b]
                == '.' implies a == b by {
            assert(cs@[from + a] == '.' && cs@[from + b] == '.');
        }
        assert forall|a: int| 0 <= a < t.len() implies (is_digit(#[trigger] t[a]) || t[a] == '.') by {
            assert(is_digit(cs@[from + a]) || cs@[from + a] == '.');
        }
    }
    true
}

/// Whether `cs[from..to]` is all ASCII digits.
fn digits_in(cs: &Vec<char>, from: usize, to: usize) -> (r: bool)
    requires
        from <= to <= cs@.len(),
    ensures
        r == all_digits(cs@.subrange(from as int, to as int)),
{
    let ghost t = cs@.subrange(from as int, to as int);
    let mut i: usize = from;
    while i < to
        invariant
            from <= i <= to <= cs@.len(),
            t == cs@.subrange(from as int, to as int),
            forall|j: int| from <= j < i ==> is_digit(#[trigger] cs@[j]),
        decreases to - i,
    {
        if !('0' <= cs[i] && cs[i] <= '9') {
            assert(!is_digit(t[i - from]));
            return false;
        }
        i = i + 1;
    }
    assert forall|a: int| 0 <= a < t.len() implies is_digit(#[trigger] t[a]) by {
        assert(is_digit(cs@[from + a]));
    }
    true
}

fn upper_letter_exec(l: char) -> (r: char)
    ensures
        r == upper_letter(l),
{
    if l == 'i' {
        'I'
    } else if l == 'n' {
        'N'
    } else if l == 'f' {
        'F'
    } else if l == 't' {
        'T'
    } else if l == 'y' {
        'Y'
    } else if l == 'a' {
        'A'
    } else {
        l
    }
}

/// Whether `cs[from..to]` spells `w`.
fn spells_in(cs: &Vec<char>, from: usize, to: usize, w: &Vec<char>) -> (r: bool)
    requires
        from <= to <= cs@.len(),
    ensures
        r == spells(cs@.subrange(from as int, to as int), w@),
{
    let ghost t = cs@.subrange(from as int, to as int);
    if to - from != w.len() {
        return false;
    }
    let mut i: usize = 0;
    while i < w.len()
        invariant
            from <= to <= cs@.len(),
            to - from == w@.len(),
            t == cs@.subrange(from as int, to as int),
            i <= w@.len(),
            forall|j: int| 0 <= j < i ==> (#[trigger] t[j] == w@[j] || t[j] == upper_letter(w@[j])),
        decreases w@.len() - i,
    {
        let c = cs[from + i];
        if c != w[i] && c != upper_letter_exec(w[i]) {
            assert(!(t[i as int] == w@[i as int] || t[i as int] == upper_letter(w@[i as int])));
            return false;
        }
        i = i + 1;
    }
    true
}

/// Whether `cs[from..to]` is "inf", "infinity" or "nan", in any case.
fn special_in(cs: &Vec<char>, from: usize, to: usize) -> (r: bool)
    requires
        from <= to <= cs@.len(),
    ensures
        r == is_special(cs@.subrange(from as int, to as int)),
{
    let inf = vec!['i', 'n', 'f'];
    let infinity = vec!['i', 'n', 'f', 'i', 'n', 'i', 't', 'y'];
    let nan = vec!['n', 'a', 'n'];
    assert(inf@ =~= seq!['i', 'n', 'f']);
    assert(infinity@ =~= seq!['i', 'n', 'f', 'i', 'n', 'i', 't', 'y']);
    assert(nan@ =~= seq!['n', 'a', 'n']);
    spells_in(cs, from, to, &inf) || spells_in(cs, from, to, &infinity) || spells_in(
        cs,
        from,
        to,
        &nan,
    )
}

/// Where the unsigned part of `cs` starts: after a leading sign, if any.
fn unsigned_start(cs: &Vec<char>) -> (r: usize)
    ensures
        r <= 1,
        r <= cs@.len(),
        cs@.subrange(r as int, cs@.len() as int) == unsigned_part(cs@),
{
    if cs.len() > 0 && (cs[0] == '+' || cs[0] == '-') {
        assert(cs@.subrange(1, cs@.len() as int) =~= cs@.skip(1));
        1
    } else {
        assert(cs@.subrange(0, cs@.len() as int) =~= cs@);
        0
    }
}

/// The index of the first exponent mark in `cs[from..]`, or the length.
fn first_exp_mark(cs: &Vec<char>, from: usize) -> (k: usize)
    requires
        from <= cs@.len(),
    ensures
        from <= k <= cs@.len(),
        forall|j: int| from <= j < k ==> !is_exp_mark(#[trigger] cs@[j]),
        k < cs@.len() ==> is_exp_mark(cs@[k as int]),
{
    let mut k: usize = from;
    while k < cs.len() && !(cs[k] == 'e' || cs[k] == 'E')
        invariant
            from <= k <= cs@.len(),
            forall|j: int| from <= j < k ==> !is_exp_mark(#[trigger] cs@[j]),
        decreases cs@.len() - k,
    {
        k = k + 1;
    }
    k
}


/// Whether `cs[from..]` is the digits of an exponent.
fn exp_digits_in(cs: &Vec<char>, from: usize) -> (r: bool)
    requires
        from <= cs@.len(),
    ensures
        r == is_exp_digits(cs@.subrange(from as int, cs@.len() as int)),
{
    let n = cs.len();
    let ghost e = cs@.subrange(from as int, n as int);
    if from < n && (cs[from] == '+' || cs[from] == '-') {
        assert(e.skip(1) =~= cs@.subrange(from + 1, n as int));
        n > from + 1 && digits_in(cs, from + 1, n)
    } else {
        n > from && digits_in(cs, from, n)
    }
}

/// A number in the syntax of Rust's float parsing, kept as its text.
pub struct Numeral {
    text: String,
}

impl View for Numeral {
    type V = Seq<char>;

    closed spec fn view(&self) -> Seq<char> {
        self.text@
    }
}

impl Numeral {
    pub open spec fn wf(&self) -> bool {
        is_float_text(self@)
    }

    /// Reads `s` as a number; `None` where Rust's float parsing would refuse it.
    pub fn parse(s: &str) -> (r: Option<Numeral>)
        ensures
            r is Some <==> is_float_text(s@),
            r matches Some(n) ==> n@ == s@ && n.wf(),
    {
        let cs = chars_of(s);
        let n = cs.len();
        let st = unsigned_start(&cs);
        let ghost u = unsigned_part(s@);
        if special_in(&cs, st, n) {
            return Some(Numeral { text: s.to_owned() });
        }
        let k = first_exp_mark(&cs, st);
        let ok = if k == n {
            numeral_in(&cs, st, n)
        } else {
            numeral_in(&cs, st, k) && exp_digits_in(&cs, k + 1)
        };
        proof {
            if k == n {
                assert(no_exp_mark(u)) by {
                    assert forall|j: int| 0 <= j < u.len() implies !is_exp_mark(#[trigger] u[j]) by {
                        assert(u[j] == cs@[st + j]);
                    }
                }
                assert forall|k2: int|
                    0 <= k2 < u.len() && is_exp_mark(u[k2]) && no_exp_mark(
                        #[trigger] u.take(k2),
                    ) implies false by {}
            } else {
                let m = k - st;
                assert(u[m] == cs@[k as int]);
                assert(u.take(m) =~= cs@.subrange(st as int, k as int));
                assert(u.skip(m + 1) =~= cs@.subrange(k + 1, n as int));
                assert(no_exp_mark(u.take(m))) by {
                    assert forall|j: int| 0 <= j < u.take(m).len() implies !is_exp_mark(
                        #[trigger] u.take(m)[j],
                    ) by {
                        assert(u.take(m)[j] == cs@[st + j]);
                    }
                }
                assert(!no_exp_mark(u));
                assert forall|k2: int|
                    0 <= k2 < u.len() && is_exp_mark(u[k2]) && no_exp_mark(
                        #[trigger] u.take(k2),
                    ) implies k2 == m by {
                    if k2 < m {
                        assert(u[k2] == cs@[st + k2]);
                    } else if k2 > m {
                        assert(u.take(k2)[m] == u[m]);
                    }
                }
                if ok {
                    assert(is_number_body(u));
                }
            }
        }
        if ok {
            Some(Numeral { text: s.to_owned() })
        } else {
            None
        }
    }

    /// The number's text.
    pub fn text(&self) -> (r: String)
        ensures
            r@ == self@,
    {
        self.text.clone()
    }

    /// Whether the number's value is zero.
    pub fn is_zero(&self) -> (r: bool)
        requires
            self.wf(),
        ensures
            r == is_zero_float(self@),
    {
        let cs = chars_of(self.text.as_str());
        let n = cs.len();
        let st = unsigned_start(&cs);
        let ghost u = unsigned_part(self@);
        if special_in(&cs, st, n) {
            return false;
        }
        let mut i: usize = st;
        while i < n && !(cs[i] == 'e' || cs[i] == 'E')
            invariant
                st <= i <= n == cs@.len(),
                st <= 1,
                cs@ == self@,
                u == cs@.subrange(st as int, n as int),
                u == unsigned_part(self@),
                forall|j: int| st <= j < i ==> !is_exp_mark(#[trigger] cs@[j]),
                forall|j: int| st <= j < i && is_digit(#[trigger] cs@[j]) ==> cs@[j] == '0',
            decreases n - i,
        {
            if '1' <= cs[i] && cs[i] <= '9' {
                proof {
                    let m = i - st;
                    assert(u[m] == cs@[i as int]);
                    assert forall|j: int| 0 <= j < u.take(m).len() implies !is_exp_mark(
                        #[trigger] u.take(m)[j],
                    ) by {
                        assert(u.take(m)[j] == cs@[st + j]);
                    }
                    assert(is_digit(u[m]) && no_exp_mark(u.take(m)) && u[m] != '0');
                    assert(!is_zero_float(self@)) by {
                        assert(unsigned_part(self@) == u);
                        assert(0 <= m < u.len());
                    }
                }
                return false;
            }
            i = i + 1;
        }
        assert forall|a: int|
            0 <= a < u.len() && is_digit(#[trigger] u[a]) && no_exp_mark(u.take(a)) implies u[a]
            == '0' by {
            assert(u[a] == cs@[st + a]);
            if st + a > i {
                assert(u.take(a)[i - st] == cs@[i as int]);
            }
        }
        true
    }
}


/// What a search for the pattern `\d+\.\d+` (digits in the Unicode sense) finds
/// first in a text: the leftmost match, as long as the pattern allows there.
pub uninterp spec fn first_decimal_match(s: Seq<char>) -> Option<Seq<char>>;

/// Relies on `regex::Regex::find` with the pattern `\d+\.\d+`: the text of the
/// leftmost match, if any. A text without a '.' has no match.
#[verifier::external_body]
fn find_decimal(text: &str) -> (r: Option<String>)
    ensures
        r is Some <==> first_decimal_match(text@) is Some,
        r matches Some(m) ==> m@ == first_decimal_match(text@)->0,
        (forall|i: int| 0 <= i < text@.len() ==> #[trigger] text@[i] != '.') ==> r is None,
{
    let re = regex::Regex::new(r"\d+\.\d+").unwrap();
    re.find(text).map(|m| m.as_str().to_string())
}

/// The text of a match, if there is one.
pub open spec fn text_of_found(found: Option<String>) -> Option<Seq<char>> {
    match found {
        Some(m) => Some(m@),
        None => None,
    }
}

/// What the first decimal match of a text stands for: the match where it
/// reads as a float (ASCII digits), else nothing.
pub open spec fn numeral_of_match(found: Option<Seq<char>>) -> Option<Seq<char>> {
    match found {
        Some(m) => if is_float_text(m) { Some(m) } else { None },
        None => None,
    }
}

/// Turns the first decimal match of a text into a numeral.
pub fn numeral_from_match(found: Option<String>) -> (r: Option<Numeral>)
    ensures
        numeral_view(r) == numeral_of_match(text_of_found(found)),
        r matches Some(n) ==> n.wf(),
{
    match found {
        Some(m) => Numeral::parse(m.as_str()),
        None => None,
    }
}

/// The first decimal number ("digits.digits") in a text, if any.
pub fn extract_first_number(text: &str) -> (r: Option<Numeral>)
    ensures
        numeral_view(r) == numeral_of_match(first_decimal_match(text@)),
        r matches Some(n) ==> n.wf(),
        (forall|i: int| 0 <= i < text@.len() ==> #[trigger] text@[i] != '.') ==> r is None,
{
    let found = find_decimal(text);
    proof {
        assert(text_of_found(found) == first_decimal_match(text@));
    }
    numeral_from_match(found)
}

} // verus!
