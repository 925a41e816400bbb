//! One measured response, and the parsing of a raw HTTP/1.1 response into
//! its status code and body.

use vstd::prelude::*;
use crate::text::{lossy_text, decode_lossy, chars_of};

verus! {

/// One successful measurement.
pub struct ResponseProperties {
    /// Wall-clock time from the start of the read to its end, in nanoseconds.
    pub time_taken: u64,
    /// The status code of the response, 0 where its field is not an integer.
    pub status_code: i32,
    /// The body of the response, as decoded text.
    pub document: String,
}

/// The text that every parsable response starts with.
pub open spec fn status_marker() -> Seq<char> {
    seq!['H', 'T', 'T', 'P', '/', '1', '.', '1', ' ']
}

pub open spec fn has_status_marker(t: Seq<char>) -> bool {
    t.len() >= 9 && t.subrange(0, 9) == status_marker()
}

/// Where the status-code field that starts at `i` ends: at the first space
/// from `i` on, provided no line feed comes before it.
pub open spec fn field_end(t: Seq<char>, i: int) -> Option<int>
    decreases t.len() - i,
{
    if i < 0 || i >= t.len() {
        None
    } else if t[i] == ' ' {
        Some(i)
    } else if t[i] == '\n' {
        None
    } else {
        field_end(t, i + 1)
    }
}

pub open spec fn is_digit(c: char) -> bool {
    '0' <= c <= '9'
}

pub open spec fn all_digits(ds: Seq<char>) -> bool {
    forall|i: int| 0 <= i < ds.len() ==> is_digit(#[trigger] ds[i])
}

/// The value of a run of decimal digits.
pub open spec fn digits_value(ds: Seq<char>) -> int
    decreases ds.len(),
{
    if ds.len() == 0 {
        0
    } else {
        10 * digits_value(ds.drop_last()) + (ds.last() as u32 - '0' as u32)
    }
}

/// A decimal `i32`: an optional sign, then one or more digits, with a value
/// that fits.
pub open spec fn decimal_i32(f: Seq<char>) -> Option<i32> {
    let signed = f.len() > 0 && (f[0] == '-' || f[0] == '+');
    let negative = f.len() > 0 && f[0] == '-';
    let ds = if signed { f.drop_first() } else { f };
    if ds.len() == 0 || !all_digits(ds) {
        None
    } else {
        let v = if negative { -digits_value(ds) } else { digits_value(ds) };
        if i32::MIN <= v <= i32::MAX {
            Some(v as i32)
        } else {
            None
        }
    }
}

/// The status code that a status-code field stands for: 0 where it is not
/// a decimal `i32`.
pub open spec fn status_code_of(f: Seq<char>) -> i32 {
    match decimal_i32(f) {
        Some(v) => v,
        None => 0,
    }
}

pub open spec fn is_separator_at(t: Seq<char>, i: int) -> bool {
    &&& 0 <= i
    &&& i + 4 <= t.len()
    &&& t[i] == '\r'
    &&& t[i + 1] == '\n'
    &&& t[i + 2] == '\r'
    &&& t[i + 3] == '\n'
}

/// The first blank-line sequence at or after `i`.
pub open spec fn separator_from(t: Seq<char>, i: int) -> Option<int>
    decreases t.len() - i,
{
    if i < 0 || i + 4 > t.len() {
        None
    } else if is_separator_at(t, i) {
        Some(i)
    } else {
        separator_from(t, i + 1)
    }
}

/// What follows the first blank-line sequence, or the whole text where
/// there is none.
pub open spec fn body_of(t: Seq<char>) -> Seq<char> {
    match separator_from(t, 0) {
        Some(k) => t.subrange(k + 4, t.len() as int),
        None => t,
    }
}

/// The status code and body of a response text; `None` where the text is
/// not empty and does not start with a status line.
pub open spec fn parsed_response(t: Seq<char>) -> Option<(i32, Seq<char>)> {
    if t.len() == 0 {
        Some((0i32, Seq::empty()))
    } else if !has_status_marker(t) {
        None
    } else {
        match field_end(t, 9) {
            Some(j) => Some((status_code_of(t.subrange(9, j)), body_of(t))),
            None => None,
        }
    }
}

pub open spec fn parsed_view(r: Option<(i32, String)>) -> Option<(i32, Seq<char>)> {
    match r {
        Some((code, body)) => Some((code, body@)),
        None => None,
    }
}

proof fn lemma_digits_value_nonneg(ds: Seq<char>)
    requires
        all_digits(ds),
    ensures
        digits_value(ds) >= 0,
    decreases ds.len(),
{
    if ds.len() > 0 {
        assert(all_digits(ds.drop_last())) by {
            assert forall|i: int| 0 <= i < ds.drop_last().len() implies is_digit(
                #[trigger] ds.drop_last()[i],
            ) by {
                assert(ds.drop_last()[i] == ds[i]);
            }
        }
        lemma_digits_value_nonneg(ds.drop_last());
        assert(is_digit(ds[ds.len() - 1]));
    }
}

fn starts_with_marker(cs: &Vec<char>) -> (r: bool)
    ensures
        r == has_status_marker(cs@),
{
    if cs.len() < 9 {
        return false;
    }
    let r = cs[0] == 'H' && cs[1] == 'T' && cs[2] == 'T' && cs[3] == 'P' && cs[4] == '/'
        && cs[5] == '1' && cs[6] == '.' && cs[7] == '1' && cs[8] == ' ';
    proof {
        let p = cs@.subrange(0, 9);
        if r {
            assert(p =~= status_marker());
        } else {
            assert(p[0] == cs@[0] && p[1] == cs@[1] && p[2] == cs@[2] && p[3] == cs@[3]
                && p[4] == cs@[4] && p[5] == cs@[5] && p[6] == cs@[6] && p[7] == cs@[7]
                && p[8] == cs@[8]);
            let m = status_marker();
            assert(m[0] == 'H' && m[1] == 'T' && m[2] == 'T' && m[3] == 'P' && m[4] == '/'
                && m[5] == '1' && m[6] == '.' && m[7] == '1' && m[8] == ' ');
        }
    }
    r
}

/// Finds the end of the status-code field that starts at `from`.
fn find_field_end(cs: &Vec<char>, from: usize) -> (r: Option<usize>)
    ensures
        match r {
            Some(j) => field_end(cs@, from as int) == Some(j as int),
            None => field_end(cs@, from as int) is None,
        },
{
    let mut i = from;
    while i < cs.len()
        invariant
            from <= i,
            field_end(cs@, from as int) == field_end(cs@, i as int),
        decreases cs.len() - i,
    {
        if cs[i] == ' ' {
            return Some(i);
        }
        if cs[i] == '\n' {
            return None;
        }
        i = i + 1;
    }
    None
}

/// Finds the first blank-line sequence of the text.
fn find_separator(cs: &Vec<char>) -> (r: Option<usize>)
    ensures
        match r {
            Some(k) => separator_from(cs@, 0) == Some(k as int),
            None => separator_from(cs@, 0) is None,
        },
{
    let mut i: usize = 0;
    while i < cs.len() && cs.len() - i >= 4
        invariant
            separator_from(cs@, 0) == separator_from(cs@, i as int),
        decreases cs.len() - i,
    {
        if cs[i] == '\r' && cs[i + 1] == '\n' && cs[i + 2] == '\r' && cs[i + 3] == '\n' {
            return Some(i);
        }
        i = i + 1;
    }
    None
}

/// Reads the characters `cs[from..to]` as a decimal `i32`, as
/// `str::parse::<i32>` does.
pub fn parse_decimal_i32(cs: &Vec<char>, from: usize, to: usize) -> (r: Option<i32>)
    requires
        from <= to <= cs@.len(),
    ensures
        r == decimal_i32(cs@.subrange(from as int, to as int)),
{
    let ghost f = cs@.subrange(from as int, to as int);
    let mut i = from;
    let mut negative = false;
    if from < to && (cs[from] == '-' || cs[from] == '+') {
        negative = cs[from] == '-';
        i = from + 1;
    }
    let start = i;
    let ghost ds = cs@.subrange(start as int, to as int);
    assert(ds =~= (if f.len() > 0 && (f[0] == '-' || f[0] == '+') { f.drop_first() } else { f }));
    if i == to {
        return None;
    }
    let bound: u64 = 2147483648;
    let mut acc: u64 = 0;
    while i < to
        invariant
            from <= start <= i <= to <= cs@.len(),
            ds == cs@.subrange(start as int, to as int),
            f == cs@.subrange(from as int, to as int),
            ds == (if f.len() > 0 && (f[0] == '-' || f[0] == '+') {
                f.drop_first()
            } else {
                f
            }),
            negative == (f.len() > 0 && f[0] == '-'),
            ds.len() > 0,
            bound == 2147483648,
            all_digits(cs@.subrange(start as int, i as int)),
            digits_value(cs@.subrange(start as int, i as int)) <= bound ==> acc == digits_value(
                cs@.subrange(start as int, i as int),
            ),
            digits_value(cs@.subrange(start as int, i as int)) > bound ==> acc > bound,
            acc <= 10 * bound + 9,
        decreases to - i,
    {
        let c = cs[i];
        if !('0' <= c && c <= '9') {
            assert(ds[i - start] == c);
            return None;
        }
        let ghost prev = cs@.subrange(start as int, i as int);
        let ghost next = cs@.subrange(start as int, i + 1);
        assert(next.drop_last() =~= prev);
        assert(next.last() == c);
        assert(all_digits(next)) by {
            assert forall|k: int| 0 <= k < next.len() implies is_digit(#[trigger] next[k]) by {
                if k < prev.len() {
                    assert(next[k] == prev[k]);
                }
            }
        }
        proof {
            lemma_digits_value_nonneg(prev);
        }
        let d = (c as u32 - '0' as u32) as u64;
        if acc <= bound {
            acc = acc * 10 + d;
        }
        assert(digits_value(next) == 10 * digits_value(prev) + d);
        i = i + 1;
    }
    assert(cs@.subrange(start as int, i as int) =~= ds);
    if negative {
        if acc <= bound {
            Some((0 - (acc as i64)) as i32)
        } else {
            None
        }
    } else {
        if acc < bound {
            Some(acc as i32)
        } else {
            None
        }
    }
}

/// Parses a response text: the status code from its leading
/// `HTTP/1.1 <code> ` line and the body after its first blank line.
pub fn parse_status_code_and_page_text(text: &str) -> (r: Option<(i32, String)>)
    ensures
        parsed_view(r) == parsed_response(text@),
{
    let cs = chars_of(text);
    let n = cs.len();
    if n == 0 {
        return Some((0, String::new()));
    }
    if !starts_with_marker(&cs) {
        return None;
    }
    let end = match find_field_end(&cs, 9) {
        Some(j) => j,
        None => {
            return None;
        },
    };
    proof {
        lemma_field_end_bounds(cs@, 9);
    }
    let code = match parse_decimal_i32(&cs, 9, end) {
        Some(v) => v,
        None => 0,
    };
    let body = match find_separator(&cs) {
        Some(k) => {
            proof {
                lemma_separator_bounds(cs@, 0);
            }
            String::from_str(text.substring_char(k + 4, n))
        },
        None => String::from_str(text),
    };
    Some((code, body))
}

/// Parses the raw bytes of a response: they are decoded as text, invalid
/// sequences replaced, and the text parsed.
pub fn parse_status_code_and_page(source: &Vec<u8>) -> (r: Option<(i32, String)>)
    ensures
        parsed_view(r) == parsed_response(lossy_text(source@)),
        source@.len() == 0 ==> parsed_view(r) == Some((0i32, Seq::<char>::empty())),
{
    let text = decode_lossy(source);
    parse_status_code_and_page_text(text.as_str())
}

proof fn lemma_field_end_bounds(t: Seq<char>, i: int)
    ensures
        field_end(t, i) matches Some(j) ==> i <= j < t.len(),
    decreases t.len() - i,
{
    if 0 <= i < t.len() && t[i] != ' ' && t[i] != '\n' {
        lemma_field_end_bounds(t, i + 1);
    }
}

proof fn lemma_separator_bounds(t: Seq<char>, i: int)
    ensures
        separator_from(t, i) matches Some(k) ==> i <= k && k + 4 <= t.len(),
    decreases t.len() - i,
{
    if 0 <= i && i + 4 <= t.len() && !is_separator_at(t, i) {
        lemma_separator_bounds(t, i + 1);
    }
}

} // verus!
