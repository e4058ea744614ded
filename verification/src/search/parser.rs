//! Search query parsing: `report ext:pdf size:>10mb` becomes a name
//! pattern and structured filters.
//!
//! Terms are separated by blanks; double quotes keep a filter value
//! together. A term of the form `ext:`, `size:`, `type:`, `modified:` or
//! `path:` followed by a value is a filter; every other term is a word of
//! the name pattern. Dates resolve against a clock reading taken once per
//! parse; `parse_query_at` takes the reading as an argument and is exact.

use vstd::prelude::*;

use crate::config::{spec_is_prefix, str_starts_with};
use crate::search::filters::{DateOp, FileType, Filter, SizeOp};
use crate::FFIError;

verus! {

/// Mathematical model of one filter.
pub ghost enum FilterModel {
    /// Extension filter.
    Extension(Seq<char>),
    /// Size filter, value in bytes.
    Size(SizeOp, int),
    /// Type filter.
    Type(FileType),
    /// Modification-date filter, value in epoch seconds.
    Modified(DateOp, int),
    /// Path-scope filter.
    PathScope(Seq<char>),
}

impl View for Filter {
    type V = FilterModel;

    open spec fn view(&self) -> FilterModel {
        match self {
            Filter::Extension(e) => FilterModel::Extension(e@),
            Filter::Size(op, n) => FilterModel::Size(*op, *n as int),
            Filter::Type(t) => FilterModel::Type(*t),
            Filter::Modified(op, ts) => FilterModel::Modified(*op, *ts as int),
            Filter::PathScope(p) => FilterModel::PathScope(p@),
        }
    }
}

/// Mathematical model of a parsed query.
pub ghost struct QueryModel {
    /// The name pattern, if any words were given.
    pub pattern: Option<Seq<char>>,
    /// The filters, in query order.
    pub filters: Seq<FilterModel>,
}

/// A parsed search query: an optional name pattern and the filters.
#[derive(Debug, Clone)]
pub struct ParsedQuery {
    /// Name pattern with wildcards (`*` and `?`).
    pub pattern: Option<String>,
    /// Parsed filters (extension, size, type, modification date, path).
    pub filters: Vec<Filter>,
}

impl View for ParsedQuery {
    type V = QueryModel;

    open spec fn view(&self) -> QueryModel {
        QueryModel {
            pattern: match self.pattern {
                Some(p) => Some(p@),
                None => None,
            },
            filters: self.filters@.map(|i: int, f: Filter| f@),
        }
    }
}

impl Default for ParsedQuery {
    fn default() -> (r: Self)
        ensures
            r.pattern is None,
            r.filters@.len() == 0,
    {
        ParsedQuery { pattern: None, filters: Vec::new() }
    }
}

/// Whether a character separates terms (outside quotes).
pub open spec fn is_blank(c: char) -> bool {
    c == ' ' || c == '\t'
}

/// The tokens of a query: maximal runs of non-blank characters, except
/// that blanks between double quotes do not split, and quote characters
/// stay in their token.
pub open spec fn spec_tok(
    s: Seq<char>,
    cur: Seq<char>,
    in_quote: bool,
    acc: Seq<Seq<char>>,
) -> Seq<Seq<char>>
    decreases s.len(),
{
    if s.len() == 0 {
        if cur.len() > 0 {
            acc.push(cur)
        } else {
            acc
        }
    } else {
        let c = s.first();
        if c == '"' {
            spec_tok(s.drop_first(), cur.push(c), !in_quote, acc)
        } else if is_blank(c) && !in_quote {
            if cur.len() > 0 {
                spec_tok(s.drop_first(), Seq::empty(), false, acc.push(cur))
            } else {
                spec_tok(s.drop_first(), Seq::empty(), false, acc)
            }
        } else {
            spec_tok(s.drop_first(), cur.push(c), in_quote, acc)
        }
    }
}

/// The tokens of a query string.
pub open spec fn spec_tokens(s: Seq<char>) -> Seq<Seq<char>> {
    spec_tok(s, Seq::empty(), false, Seq::empty())
}

/// The views of a token list.
pub open spec fn token_views(ts: Seq<String>) -> Seq<Seq<char>> {
    ts.map(|i: int, t: String| t@)
}

/// Split a query string into tokens.
fn tokenize(input: &str) -> (r: Vec<String>)
    ensures
        token_views(r@) =~= spec_tokens(input@),
{
    let n = input.unicode_len();
    let mut tokens: Vec<String> = Vec::new();
    let mut cur_start: usize = 0;
    let mut have_cur: bool = false;
    let mut in_quote: bool = false;
    let mut i: usize = 0;
    proof {
        assert(input@.skip(0) =~= input@);
        assert(token_views(tokens@) =~= Seq::<Seq<char>>::empty());
    }
    while i < n
        invariant
            n == input@.len(),
            i <= n,
            have_cur ==> cur_start < i,
            spec_tok(
                input@.skip(i as int),
                if have_cur {
                    input@.subrange(cur_start as int, i as int)
                } else {
                    Seq::empty()
                },
                in_quote,
                token_views(tokens@),
            ) =~= spec_tokens(input@),
            !have_cur ==> !in_quote,
        decreases n - i,
    {
        proof {
            assert(input@.skip(i as int).first() == input@[i as int]);
            assert(input@.skip(i as int).drop_first() =~= input@.skip(i + 1));
        }
        let ghost cur_before: Seq<char> = if have_cur {
            input@.subrange(cur_start as int, i as int)
        } else {
            Seq::empty()
        };
        let c = input.get_char(i);
        if c == '"' {
            if !have_cur {
                have_cur = true;
                cur_start = i;
            }
            in_quote = !in_quote;
            proof {
                assert(input@.subrange(cur_start as int, i + 1 as int) =~= cur_before.push(c));
            }
        } else if (c == ' ' || c == '\t') && !in_quote {
            if have_cur {
                let token = input.substring_char(cur_start, i).to_owned();
                proof {
                    assert(token@ =~= cur_before);
                }
                let ghost prev = tokens@;
                tokens.push(token);
                have_cur = false;
                proof {
                    assert(tokens@.drop_last() =~= prev);
                    assert(token_views(tokens@) =~= token_views(prev).push(cur_before));
                }
            }
        } else {
            if !have_cur {
                have_cur = true;
                cur_start = i;
            }
            proof {
                assert(input@.subrange(cur_start as int, i + 1 as int) =~= cur_before.push(c));
            }
        }
        i = i + 1;
    }
    proof {
        assert(input@.skip(n as int) =~= Seq::<char>::empty());
    }
    if have_cur {
        let token = input.substring_char(cur_start, n).to_owned();
        let ghost prev = tokens@;
        tokens.push(token);
        proof {
            assert(tokens@.drop_last() =~= prev);
            assert(token_views(tokens@) =~= token_views(prev).push(
                input@.subrange(cur_start as int, n as int),
            ));
        }
    }
    tokens
}

/// A filter value with one pair of surrounding quotes removed.
pub open spec fn spec_strip_quotes(v: Seq<char>) -> Seq<char> {
    if v.len() >= 2 && v.first() == '"' && v.last() == '"' {
        v.subrange(1, v.len() - 1)
    } else {
        v
    }
}

/// Remove one pair of surrounding quotes from a filter value.
fn strip_quotes(v: &str) -> (r: String)
    ensures
        r@ =~= spec_strip_quotes(v@),
{
    let n = v.unicode_len();
    if n >= 2 && v.get_char(0) == '"' && v.get_char(n - 1) == '"' {
        v.substring_char(1, n - 1).to_owned()
    } else {
        v.to_owned()
    }
}

/// Whether a character is a decimal digit.
pub open spec fn is_digit(c: char) -> bool {
    48 <= c as u32 <= 57
}

/// Whether `c` is the character `lower` up to upper-casing one ASCII
/// letter.
pub open spec fn ci_eq_char(c: char, lower: char) -> bool {
    c as u32 == lower as u32 || c as u32 + 32 == lower as u32
}

/// Whether `s` equals the lower-case word `lower` up to ASCII case.
pub open spec fn spec_ci_eq(s: Seq<char>, lower: Seq<char>) -> bool {
    s.len() == lower.len() && forall|i: int| 0 <= i < s.len() ==> ci_eq_char(
        #[trigger] s[i],
        lower[i],
    )
}

/// Compare a string against a lower-case word, ignoring ASCII case.
fn str_ci_eq(s: &str, lower: &str) -> (r: bool)
    ensures
        r == spec_ci_eq(s@, lower@),
{
    let n = s.unicode_len();
    let m = lower.unicode_len();
    if n != m {
        return false;
    }
    let mut i: usize = 0;
    while i < n
        invariant
            n == s@.len(),
            n == lower@.len(),
            i <= n,
            forall|l: int| 0 <= l < i ==> ci_eq_char(#[trigger] s@[l], lower@[l]),
        decreases n - i,
    {
        let c = s.get_char(i) as u32;
        let lc = lower.get_char(i) as u32;
        if !(c == lc || c + 32 == lc) {
            return false;
        }
        i = i + 1;
    }
    true
}

/// The index where the leading run of digits ends.
pub open spec fn digits_end(t: Seq<char>, i: int) -> int
    decreases t.len() - i,
{
    if i < 0 || i >= t.len() || !is_digit(t[i]) {
        i
    } else {
        digits_end(t, i + 1)
    }
}

/// The value of a digit string.
pub open spec fn digits_val(t: Seq<char>) -> int
    decreases t.len(),
{
    if t.len() == 0 {
        0
    } else {
        digits_val(t.drop_last()) * 10 + (t.last() as u32 - 48)
    }
}

/// The byte multiplier of a size unit, ignoring ASCII case; an absent unit
/// means bytes.
pub open spec fn spec_unit_mult(u: Seq<char>) -> Option<int> {
    if u.len() == 0 {
        Some(1)
    } else if u.len() == 1 && ci_eq_char(u[0], 'b') {
        Some(1)
    } else if u.len() == 2 && ci_eq_char(u[1], 'b') {
        if ci_eq_char(u[0], 'k') {
            Some(1024)
        } else if ci_eq_char(u[0], 'm') {
            Some((1024 * 1024) as int)
        } else if ci_eq_char(u[0], 'g') {
            Some((1024 * 1024 * 1024) as int)
        } else if ci_eq_char(u[0], 't') {
            Some((1024 * 1024 * 1024 * 1024) as int)
        } else {
            None
        }
    } else {
        None
    }
}

/// The byte value of a size literal: a digit run followed by a unit. `None`
/// when the digits are missing, the unit is unknown, or the value does not
/// fit a signed 64-bit count.
pub open spec fn spec_parse_size_value(t: Seq<char>) -> Option<i64> {
    let k = digits_end(t, 0);
    if k == 0 {
        None
    } else {
        let num = digits_val(t.take(k));
        match spec_unit_mult(t.skip(k)) {
            None => None,
            Some(m) => if num * m <= i64::MAX {
                Some((num * m) as i64)
            } else {
                None
            },
        }
    }
}

/// Digit values never shrink as more digits arrive.
proof fn lemma_digits_val_monotone(t: Seq<char>, j: int, k: int)
    requires
        0 <= j <= k <= t.len(),
        forall|l: int| 0 <= l < k ==> is_digit(#[trigger] t[l]),
    ensures
        digits_val(t.take(j)) <= digits_val(t.take(k)),
        digits_val(t.take(j)) >= 0,
    decreases k - j,
{
    if j == 0 {
        lemma_digits_val_nonneg(t, k);
    } else {
        lemma_digits_val_nonneg(t, j);
    }
    if j < k {
        lemma_digits_val_monotone(t, j, k - 1);
        assert(t.take(k).drop_last() =~= t.take(k - 1));
        assert(is_digit(t[k - 1]));
        lemma_digits_val_nonneg(t, k - 1);
    }
}

/// Digit values are never negative.
proof fn lemma_digits_val_nonneg(t: Seq<char>, k: int)
    requires
        0 <= k <= t.len(),
        forall|l: int| 0 <= l < k ==> is_digit(#[trigger] t[l]),
    ensures
        digits_val(t.take(k)) >= 0,
    decreases k,
{
    if k > 0 {
        lemma_digits_val_nonneg(t, k - 1);
        assert(t.take(k).drop_last() =~= t.take(k - 1));
        assert(is_digit(t[k - 1]));
    }
}

/// Parse a size literal such as `10mb` into bytes.
pub fn parse_size_value(s: &str) -> (r: Result<i64, FFIError>)
    ensures
        r matches Ok(v) ==> spec_parse_size_value(s@) == Some(v),
        r is Err ==> spec_parse_size_value(s@) is None,
{
    let n = s.unicode_len();
    let ghost t = s@;
    // The leading digit run.
    let mut k: usize = 0;
    let mut scanning: bool = true;
    while scanning
        invariant
            t == s@,
            n == t.len(),
            k <= n,
            forall|l: int| 0 <= l < k ==> is_digit(#[trigger] t[l]),
            scanning ==> digits_end(t, 0) == digits_end(t, k as int),
            !scanning ==> k as int == digits_end(t, 0),
        decreases (if scanning {
            1int
        } else {
            0int
        }), n - k,
    {
        if k < n {
            let c = s.get_char(k) as u32;
            if 48 <= c && c <= 57 {
                k = k + 1;
            } else {
                scanning = false;
            }
        } else {
            scanning = false;
        }
    }
    if k == 0 {
        return Err(FFIError::Search(String::from_str("Invalid size value")));
    }
    // The numeric value, watching for overflow.
    let mut num: i64 = 0;
    let mut j: usize = 0;
    let mut overflow: bool = false;
    while j < k
        invariant
            t == s@,
            n == t.len(),
            k <= n,
            forall|l: int| 0 <= l < k ==> is_digit(#[trigger] t[l]),
            j <= k,
            !overflow ==> num == digits_val(t.take(j as int)),
            num >= 0,
            overflow ==> digits_val(t.take(j as int)) > i64::MAX,
        decreases k - j,
    {
        let d = (s.get_char(j) as u32 - 48) as i64;
        proof {
            assert(t.take(j + 1 as int).drop_last() =~= t.take(j as int));
            assert(t.take(j + 1 as int).last() == t[j as int]);
            lemma_digits_val_nonneg(t, j as int);
        }
        if !overflow {
            if num > (i64::MAX - d) / 10 {
                overflow = true;
                proof {
                    assert(digits_val(t.take(j + 1 as int)) == num * 10 + d);
                    assert(num * 10 + d > i64::MAX) by (nonlinear_arith)
                        requires
                            num > (i64::MAX - d) / 10,
                            num >= 0,
                            0 <= d <= 9,
                    ;
                }
            } else {
                proof {
                    assert(num * 10 + d <= i64::MAX) by (nonlinear_arith)
                        requires
                            num <= (i64::MAX - d) / 10,
                            num >= 0,
                            0 <= d <= 9,
                    ;
                }
                num = num * 10 + d;
            }
        } else {
            proof {
                lemma_digits_val_monotone(t, j as int, j + 1 as int);
                assert(digits_val(t.take(j + 1 as int)) > i64::MAX);
            }
        }
        j = j + 1;
    }
    // The unit.
    let mult: i64 = if k == n {
        1
    } else {
        let u0 = s.get_char(k) as u32;
        if n - k == 1 && (u0 == 98 || u0 == 66) {
            1
        } else if n - k == 2 {
            let u1 = s.get_char(k + 1) as u32;
            if !(u1 == 98 || u1 == 66) {
                return Err(FFIError::Search(String::from_str("Unknown size unit")));
            }
            if u0 == 107 || u0 == 75 {
                1024
            } else if u0 == 109 || u0 == 77 {
                1024 * 1024
            } else if u0 == 103 || u0 == 71 {
                1024 * 1024 * 1024
            } else if u0 == 116 || u0 == 84 {
                1024i64 * 1024 * 1024 * 1024
            } else {
                return Err(FFIError::Search(String::from_str("Unknown size unit")));
            }
        } else {
            return Err(FFIError::Search(String::from_str("Unknown size unit")));
        }
    };
    proof {
        assert(t.skip(k as int).len() == n - k);
        if k < n {
            assert(t.skip(k as int)[0] == t[k as int]);
        }
        if (n - k) as int == 2 {
            assert(t.skip(k as int)[1] == t[k as int + 1]);
        }
        assert(spec_unit_mult(t.skip(k as int)) == Some(mult as int));
    }
    if overflow {
        proof {
            lemma_digits_val_monotone(t, k as int, k as int);
            assert(digits_val(t.take(k as int)) * mult > i64::MAX) by (nonlinear_arith)
                requires
                    digits_val(t.take(k as int)) > i64::MAX,
                    mult >= 1,
            ;
        }
        return Err(FFIError::Search(String::from_str("Size value too large")));
    }
    if num > i64::MAX / mult {
        proof {
            assert(num * mult > i64::MAX) by (nonlinear_arith)
                requires
                    num > i64::MAX / mult,
                    mult >= 1,
                    num >= 0,
            ;
        }
        return Err(FFIError::Search(String::from_str("Size value too large")));
    }
    proof {
        assert(num * mult <= i64::MAX) by (nonlinear_arith)
            requires
                num <= i64::MAX / mult,
                mult >= 1,
                num >= 0,
        ;
        assert(num * mult >= 0) by (nonlinear_arith)
            requires
                num >= 0,
                mult >= 1,
        ;
    }
    Ok(num * mult)
}

/// The start of the day `now` falls in, counting from the epoch and never
/// before it.
pub open spec fn spec_day_start(now: int) -> int {
    let n = if now < 0 {
        0
    } else {
        now
    };
    n - (n % 86400)
}

/// The epoch second a relative-date keyword denotes, as of `now`.
pub open spec fn spec_relative_date(t: Seq<char>, now: int) -> Option<i64> {
    if spec_ci_eq(t, "today"@) {
        Some(spec_day_start(now) as i64)
    } else if spec_ci_eq(t, "yesterday"@) {
        Some((spec_day_start(now) - 86400) as i64)
    } else if spec_ci_eq(t, "lastweek"@) {
        Some((spec_day_start(now) - 7 * 86400) as i64)
    } else if spec_ci_eq(t, "lastmonth"@) {
        Some((spec_day_start(now) - 30 * 86400) as i64)
    } else if spec_ci_eq(t, "lastyear"@) {
        Some((spec_day_start(now) - 365 * 86400) as i64)
    } else {
        None
    }
}

/// Resolve a relative-date keyword (`today`, `yesterday`, `lastweek`,
/// `lastmonth`, `lastyear`) against the clock reading `now`.
pub fn parse_relative_date(s: &str, now: i64) -> (r: Result<i64, FFIError>)
    ensures
        r matches Ok(v) ==> spec_relative_date(s@, now as int) == Some(v),
        r is Err ==> spec_relative_date(s@, now as int) is None,
{
    let now_c: i64 = if now < 0 {
        0
    } else {
        now
    };
    let day_start: i64 = now_c - now_c % 86400;
    if str_ci_eq(s, "today") {
        Ok(day_start)
    } else if str_ci_eq(s, "yesterday") {
        Ok(day_start - 86400)
    } else if str_ci_eq(s, "lastweek") {
        Ok(day_start - 7 * 86400)
    } else if str_ci_eq(s, "lastmonth") {
        Ok(day_start - 30 * 86400)
    } else if str_ci_eq(s, "lastyear") {
        Ok(day_start - 365 * 86400)
    } else {
        Err(FFIError::Search(String::from_str("Unknown relative date")))
    }
}

/// Whether a year is a leap year.
pub open spec fn spec_is_leap(y: int) -> bool {
    (y % 4 == 0 && y % 100 != 0) || y % 400 == 0
}

/// The number of days in a month.
pub open spec fn spec_days_in_month(y: int, m: int) -> int {
    if m == 2 {
        if spec_is_leap(y) {
            29
        } else {
            28
        }
    } else if m == 4 || m == 6 || m == 9 || m == 11 {
        30
    } else {
        31
    }
}

/// The days of the year before a month begins.
pub open spec fn spec_days_before_month(y: int, m: int) -> int {
    (if m == 1 {
        0int
    } else if m == 2 {
        31
    } else if m == 3 {
        59
    } else if m == 4 {
        90
    } else if m == 5 {
        120
    } else if m == 6 {
        151
    } else if m == 7 {
        181
    } else if m == 8 {
        212
    } else if m == 9 {
        243
    } else if m == 10 {
        273
    } else if m == 11 {
        304
    } else {
        334
    }) + (if m > 2 && spec_is_leap(y) {
        1int
    } else {
        0int
    })
}

/// The days from 1970-01-01 to a calendar date (negative before it).
pub open spec fn spec_days_from_epoch(y: int, m: int, d: int) -> int {
    365 * (y - 1) + (y - 1) / 4 - (y - 1) / 100 + (y - 1) / 400 + spec_days_before_month(y, m) + (d
        - 1) - 719162
}

/// The epoch second at midnight (universal time) of a `YYYY-MM-DD` date;
/// `None` unless the text has exactly that shape and the date exists in the
/// calendar.
pub open spec fn spec_iso_date(t: Seq<char>) -> Option<i64> {
    if t.len() == 10 && t[4] == '-' && t[7] == '-' && is_digit(t[0]) && is_digit(t[1]) && is_digit(
        t[2],
    ) && is_digit(t[3]) && is_digit(t[5]) && is_digit(t[6]) && is_digit(t[8]) && is_digit(t[9]) {
        let y = digits_val(t.take(4));
        let m = digits_val(t.subrange(5, 7));
        let d = digits_val(t.subrange(8, 10));
        if 1 <= y && 1 <= m <= 12 && 1 <= d <= spec_days_in_month(y, m) {
            Some((spec_days_from_epoch(y, m, d) * 86400) as i64)
        } else {
            None
        }
    } else {
        None
    }
}

/// Parse a `YYYY-MM-DD` date into the epoch second at its midnight
/// (universal time).
#[verifier::rlimit(60)]
pub fn parse_iso_date(s: &str) -> (r: Result<i64, FFIError>)
    ensures
        r matches Ok(v) ==> spec_iso_date(s@) == Some(v),
        r is Err ==> spec_iso_date(s@) is None,
{
    let ghost t = s@;
    let n = s.unicode_len();
    if n != 10 {
        return Err(FFIError::Search(String::from_str("Invalid date")));
    }
    if !(s.get_char(4) == '-' && s.get_char(7) == '-') {
        return Err(FFIError::Search(String::from_str("Invalid date")));
    }
    let mut digits_ok: bool = true;
    let c0 = s.get_char(0) as u32;
    let c1 = s.get_char(1) as u32;
    let c2 = s.get_char(2) as u32;
    let c3 = s.get_char(3) as u32;
    let c5 = s.get_char(5) as u32;
    let c6 = s.get_char(6) as u32;
    let c8 = s.get_char(8) as u32;
    let c9 = s.get_char(9) as u32;
    if !(48 <= c0 && c0 <= 57 && 48 <= c1 && c1 <= 57 && 48 <= c2 && c2 <= 57 && 48 <= c3 && c3
        <= 57) {
        digits_ok = false;
    }
    if !(48 <= c5 && c5 <= 57 && 48 <= c6 && c6 <= 57 && 48 <= c8 && c8 <= 57 && 48 <= c9 && c9
        <= 57) {
        digits_ok = false;
    }
    if !digits_ok {
        return Err(FFIError::Search(String::from_str("Invalid date")));
    }
    let y: i64 = (((c0 - 48) as i64 * 10 + (c1 - 48) as i64) * 10 + (c2 - 48) as i64) * 10 + (c3
        - 48) as i64;
    let m: i64 = (c5 - 48) as i64 * 10 + (c6 - 48) as i64;
    let d: i64 = (c8 - 48) as i64 * 10 + (c9 - 48) as i64;
    proof {
        assert(t.take(4).drop_last() =~= t.take(3));
        assert(t.take(4).last() == t[3]);
        assert(t.take(3).drop_last() =~= t.take(2));
        assert(t.take(3).last() == t[2]);
        assert(t.take(2).drop_last() =~= t.take(1));
        assert(t.take(2).last() == t[1]);
        assert(t.take(1).drop_last() =~= t.take(0));
        assert(t.take(1).last() == t[0]);
        assert(t.take(0).len() == 0);
        assert(digits_val(t.take(0)) == 0);
        assert(digits_val(t.take(1)) == digits_val(t.take(0)) * 10 + (t[0] as u32 - 48));
        assert(digits_val(t.take(2)) == digits_val(t.take(1)) * 10 + (t[1] as u32 - 48));
        assert(digits_val(t.take(3)) == digits_val(t.take(2)) * 10 + (t[2] as u32 - 48));
        assert(digits_val(t.take(4)) == digits_val(t.take(3)) * 10 + (t[3] as u32 - 48));
        assert(digits_val(t.take(4)) == y);
        assert(t.subrange(5, 7).drop_last() =~= t.subrange(5, 6));
        assert(t.subrange(5, 7).last() == t[6]);
        assert(t.subrange(5, 6).drop_last() =~= t.subrange(5, 5));
        assert(t.subrange(5, 6).last() == t[5]);
        assert(t.subrange(5, 5).len() == 0);
        assert(digits_val(t.subrange(5, 5)) == 0);
        assert(digits_val(t.subrange(5, 6)) == digits_val(t.subrange(5, 5)) * 10 + (t[5] as u32
            - 48));
        assert(digits_val(t.subrange(5, 7)) == digits_val(t.subrange(5, 6)) * 10 + (t[6] as u32
            - 48));
        assert(digits_val(t.subrange(5, 7)) == m);
        assert(t.subrange(8, 10).drop_last() =~= t.subrange(8, 9));
        assert(t.subrange(8, 10).last() == t[9]);
        assert(t.subrange(8, 9).drop_last() =~= t.subrange(8, 8));
        assert(t.subrange(8, 9).last() == t[8]);
        assert(t.subrange(8, 8).len() == 0);
        assert(digits_val(t.subrange(8, 8)) == 0);
        assert(digits_val(t.subrange(8, 9)) == digits_val(t.subrange(8, 8)) * 10 + (t[8] as u32
            - 48));
        assert(digits_val(t.subrange(8, 10)) == digits_val(t.subrange(8, 9)) * 10 + (t[9] as u32
            - 48));
        assert(digits_val(t.subrange(8, 10)) == d);
    }
    if y < 1 {
        return Err(FFIError::Search(String::from_str("Invalid date")));
    }
    if m < 1 || m > 12 {
        return Err(FFIError::Search(String::from_str("Invalid date")));
    }
    let leap: bool = (y % 4 == 0 && y % 100 != 0) || y % 400 == 0;
    let days_in_month: i64 = if m == 2 {
        if leap {
            29
        } else {
            28
        }
    } else if m == 4 || m == 6 || m == 9 || m == 11 {
        30
    } else {
        31
    };
    if d < 1 || d > days_in_month {
        return Err(FFIError::Search(String::from_str("Invalid date")));
    }
    let before_month: i64 = if m == 1 {
        0
    } else if m == 2 {
        31
    } else if m == 3 {
        59
    } else if m == 4 {
        90
    } else if m == 5 {
        120
    } else if m == 6 {
        151
    } else if m == 7 {
        181
    } else if m == 8 {
        212
    } else if m == 9 {
        243
    } else if m == 10 {
        273
    } else if m == 11 {
        304
    } else {
        334
    };
    let before_month: i64 = before_month + (if m > 2 && leap {
        1
    } else {
        0
    });
    let days: i64 = 365 * (y - 1) + (y - 1) / 4 - (y - 1) / 100 + (y - 1) / 400 + before_month + (d
        - 1) - 719162;
    Ok(days * 86400)
}

/// The comparator at the head of a date-filter value, with the rest.
pub open spec fn spec_date_op_split(v: Seq<char>) -> Option<(DateOp, Seq<char>)> {
    if v.len() >= 2 && v[0] == '>' && v[1] == '=' {
        Some((DateOp::GreaterEqual, v.skip(2)))
    } else if v.len() >= 2 && v[0] == '<' && v[1] == '=' {
        Some((DateOp::LessEqual, v.skip(2)))
    } else if v.len() >= 1 && v[0] == '>' {
        Some((DateOp::GreaterThan, v.skip(1)))
    } else if v.len() >= 1 && v[0] == '<' {
        Some((DateOp::LessThan, v.skip(1)))
    } else {
        None
    }
}

/// The comparator at the head of a size-filter value, with the rest.
pub open spec fn spec_size_op_split(v: Seq<char>) -> Option<(SizeOp, Seq<char>)> {
    if v.len() >= 2 && v[0] == '>' && v[1] == '=' {
        Some((SizeOp::GreaterEqual, v.skip(2)))
    } else if v.len() >= 2 && v[0] == '<' && v[1] == '=' {
        Some((SizeOp::LessEqual, v.skip(2)))
    } else if v.len() >= 1 && v[0] == '>' {
        Some((SizeOp::GreaterThan, v.skip(1)))
    } else if v.len() >= 1 && v[0] == '<' {
        Some((SizeOp::LessThan, v.skip(1)))
    } else {
        None
    }
}

/// Whether a date value has the `YYYY-MM-DD` shape (and must then be a
/// calendar date, not a keyword).
pub open spec fn spec_looks_iso(t: Seq<char>) -> bool {
    t.len() == 10 && t[4] == '-' && t[7] == '-'
}

/// The epoch second of a date value after a comparator: a calendar date or
/// a relative keyword.
pub open spec fn spec_date_value(t: Seq<char>, now: int) -> Option<i64> {
    if spec_looks_iso(t) {
        spec_iso_date(t)
    } else {
        spec_relative_date(t, now)
    }
}

/// The operator and epoch second a date-filter value denotes: an optional
/// comparator then a date, or a bare relative keyword meaning at-or-after.
pub open spec fn spec_date_filter(v: Seq<char>, now: int) -> Option<(DateOp, i64)> {
    match spec_date_op_split(v) {
        Some((op, rest)) => match spec_date_value(rest, now) {
            Some(ts) => Some((op, ts)),
            None => None,
        },
        None => match spec_relative_date(v, now) {
            Some(ts) => Some((DateOp::GreaterEqual, ts)),
            None => None,
        },
    }
}

/// The operator and byte count a size-filter value denotes: an optional
/// comparator then a size literal; no comparator means at-or-above.
pub open spec fn spec_size_filter(v: Seq<char>) -> Option<(SizeOp, i64)> {
    match spec_size_op_split(v) {
        Some((op, rest)) => match spec_parse_size_value(rest) {
            Some(b) => Some((op, b)),
            None => None,
        },
        None => match spec_parse_size_value(v) {
            Some(b) => Some((SizeOp::GreaterEqual, b)),
            None => None,
        },
    }
}

/// The file type a type-filter value denotes, ignoring ASCII case.
pub open spec fn spec_type_value(t: Seq<char>) -> Option<FileType> {
    if spec_ci_eq(t, "folder"@) || spec_ci_eq(t, "dir"@) || spec_ci_eq(t, "directory"@) {
        Some(FileType::Folder)
    } else if spec_ci_eq(t, "file"@) {
        Some(FileType::File)
    } else {
        None
    }
}

/// Parse a size-filter value.
fn parse_size_filter_value(v: &str) -> (r: Result<(SizeOp, i64), FFIError>)
    ensures
        r matches Ok(p) ==> spec_size_filter(v@) == Some((p.0, p.1)),
        r is Err ==> spec_size_filter(v@) is None,
{
    let n = v.unicode_len();
    if n >= 2 && v.get_char(0) == '>' && v.get_char(1) == '=' {
        let rest = v.substring_char(2, n);
        proof {
            assert(rest@ =~= v@.skip(2));
        }
        match parse_size_value(rest) {
            Ok(b) => Ok((SizeOp::GreaterEqual, b)),
            Err(e) => Err(e),
        }
    } else if n >= 2 && v.get_char(0) == '<' && v.get_char(1) == '=' {
        let rest = v.substring_char(2, n);
        proof {
            assert(rest@ =~= v@.skip(2));
        }
        match parse_size_value(rest) {
            Ok(b) => Ok((SizeOp::LessEqual, b)),
            Err(e) => Err(e),
        }
    } else if n >= 1 && v.get_char(0) == '>' {
        let rest = v.substring_char(1, n);
        proof {
            assert(rest@ =~= v@.skip(1));
        }
        match parse_size_value(rest) {
            Ok(b) => Ok((SizeOp::GreaterThan, b)),
            Err(e) => Err(e),
        }
    } else if n >= 1 && v.get_char(0) == '<' {
        let rest = v.substring_char(1, n);
        proof {
            assert(rest@ =~= v@.skip(1));
        }
        match parse_size_value(rest) {
            Ok(b) => Ok((SizeOp::LessThan, b)),
            Err(e) => Err(e),
        }
    } else {
        match parse_size_value(v) {
            Ok(b) => Ok((SizeOp::GreaterEqual, b)),
            Err(e) => Err(e),
        }
    }
}

/// Parse a date value: a calendar date or a relative keyword.
fn parse_date_value(v: &str, now: i64) -> (r: Result<i64, FFIError>)
    ensures
        r matches Ok(ts) ==> spec_date_value(v@, now as int) == Some(ts),
        r is Err ==> spec_date_value(v@, now as int) is None,
{
    let n = v.unicode_len();
    if n == 10 && v.get_char(4) == '-' && v.get_char(7) == '-' {
        parse_iso_date(v)
    } else {
        parse_relative_date(v, now)
    }
}

/// Parse a date-filter value.
fn parse_date_filter_value(v: &str, now: i64) -> (r: Result<(DateOp, i64), FFIError>)
    ensures
        r matches Ok(p) ==> spec_date_filter(v@, now as int) == Some((p.0, p.1)),
        r is Err ==> spec_date_filter(v@, now as int) is None,
{
    let n = v.unicode_len();
    if n >= 2 && v.get_char(0) == '>' && v.get_char(1) == '=' {
        let rest = v.substring_char(2, n);
        proof {
            assert(rest@ =~= v@.skip(2));
        }
        match parse_date_value(rest, now) {
            Ok(ts) => Ok((DateOp::GreaterEqual, ts)),
            Err(e) => Err(e),
        }
    } else if n >= 2 && v.get_char(0) == '<' && v.get_char(1) == '=' {
        let rest = v.substring_char(2, n);
        proof {
            assert(rest@ =~= v@.skip(2));
        }
        match parse_date_value(rest, now) {
            Ok(ts) => Ok((DateOp::LessEqual, ts)),
            Err(e) => Err(e),
        }
    } else if n >= 1 && v.get_char(0) == '>' {
        let rest = v.substring_char(1, n);
        proof {
            assert(rest@ =~= v@.skip(1));
        }
        match parse_date_value(rest, now) {
            Ok(ts) => Ok((DateOp::GreaterThan, ts)),
            Err(e) => Err(e),
        }
    } else if n >= 1 && v.get_char(0) == '<' {
        let rest = v.substring_char(1, n);
        proof {
            assert(rest@ =~= v@.skip(1));
        }
        match parse_date_value(rest, now) {
            Ok(ts) => Ok((DateOp::LessThan, ts)),
            Err(e) => Err(e),
        }
    } else {
        match parse_relative_date(v, now) {
            Ok(ts) => Ok((DateOp::GreaterEqual, ts)),
            Err(e) => Err(e),
        }
    }
}

/// One term of a query: a word of the name pattern or a filter.
pub ghost enum TermSpec {
    /// A word of the name pattern.
    Word(Seq<char>),
    /// A structured filter.
    Filt(FilterModel),
}

/// What one token denotes; `None` is a parse error.
pub open spec fn spec_term(t: Seq<char>, now: int) -> Option<TermSpec> {
    if spec_is_prefix("ext:"@, t) {
        Some(TermSpec::Filt(FilterModel::Extension(spec_strip_quotes(t.skip(4)))))
    } else if spec_is_prefix("size:"@, t) {
        match spec_size_filter(spec_strip_quotes(t.skip(5))) {
            Some((op, b)) => Some(TermSpec::Filt(FilterModel::Size(op, b as int))),
            None => None,
        }
    } else if spec_is_prefix("type:"@, t) {
        match spec_type_value(spec_strip_quotes(t.skip(5))) {
            Some(ft) => Some(TermSpec::Filt(FilterModel::Type(ft))),
            None => None,
        }
    } else if spec_is_prefix("modified:"@, t) {
        match spec_date_filter(spec_strip_quotes(t.skip(9)), now) {
            Some((op, ts)) => Some(TermSpec::Filt(FilterModel::Modified(op, ts as int))),
            None => None,
        }
    } else if spec_is_prefix("path:"@, t) {
        Some(TermSpec::Filt(FilterModel::PathScope(spec_strip_quotes(t.skip(5)))))
    } else {
        Some(TermSpec::Word(t))
    }
}

/// The words and filters of a token list; `None` is a parse error.
pub open spec fn spec_terms(ts: Seq<Seq<char>>, now: int) -> Option<(Seq<Seq<char>>, Seq<FilterModel>)>
    decreases ts.len(),
{
    if ts.len() == 0 {
        Some((Seq::empty(), Seq::empty()))
    } else {
        match spec_term(ts.first(), now) {
            None => None,
            Some(TermSpec::Word(w)) => match spec_terms(ts.drop_first(), now) {
                None => None,
                Some(p) => Some((seq![w] + p.0, p.1)),
            },
            Some(TermSpec::Filt(f)) => match spec_terms(ts.drop_first(), now) {
                None => None,
                Some(p) => Some((p.0, seq![f] + p.1)),
            },
        }
    }
}

/// Words joined by single blanks.
pub open spec fn spec_join_space(ws: Seq<Seq<char>>) -> Seq<char>
    decreases ws.len(),
{
    if ws.len() == 0 {
        Seq::empty()
    } else if ws.len() == 1 {
        ws[0]
    } else {
        spec_join_space(ws.drop_last()) + seq![' '] + ws.last()
    }
}

/// What parsing a query yields at clock reading `now`: the words joined
/// into a pattern and the filters in order, or `None` on a parse error.
pub open spec fn spec_parse_query(s: Seq<char>, now: int) -> Option<QueryModel> {
    match spec_terms(spec_tokens(s), now) {
        None => None,
        Some(p) => Some(
            QueryModel {
                pattern: if p.0.len() == 0 {
                    None
                } else {
                    Some(spec_join_space(p.0))
                },
                filters: p.1,
            },
        ),
    }
}

/// The words and filters so far, extended by what the remaining tokens
/// yield.
pub open spec fn terms_append(
    words: Seq<Seq<char>>,
    fs: Seq<FilterModel>,
    rest: Option<(Seq<Seq<char>>, Seq<FilterModel>)>,
) -> Option<(Seq<Seq<char>>, Seq<FilterModel>)> {
    match rest {
        None => None,
        Some(p) => Some((words + p.0, fs + p.1)),
    }
}

/// Consuming one token folds its term into the accumulators.
proof fn lemma_terms_step(
    views: Seq<Seq<char>>,
    i: int,
    now: int,
    words: Seq<Seq<char>>,
    fs: Seq<FilterModel>,
)
    requires
        0 <= i < views.len(),
        spec_terms(views, now) == terms_append(words, fs, spec_terms(views.skip(i), now)),
    ensures
        match spec_term(views[i], now) {
            None => spec_terms(views, now) is None,
            Some(TermSpec::Word(w)) => spec_terms(views, now) == terms_append(
                words.push(w),
                fs,
                spec_terms(views.skip(i + 1), now),
            ),
            Some(TermSpec::Filt(f)) => spec_terms(views, now) == terms_append(
                words,
                fs.push(f),
                spec_terms(views.skip(i + 1), now),
            ),
        },
{
    assert(views.skip(i).first() == views[i]);
    assert(views.skip(i).drop_first() =~= views.skip(i + 1));
    match spec_term(views[i], now) {
        None => (),
        Some(TermSpec::Word(w)) => {
            match spec_terms(views.skip(i + 1), now) {
                None => (),
                Some(p) => {
                    assert(words + (seq![w] + p.0) =~= words.push(w) + p.0);
                },
            }
        },
        Some(TermSpec::Filt(f)) => {
            match spec_terms(views.skip(i + 1), now) {
                None => (),
                Some(p) => {
                    assert(fs + (seq![f] + p.1) =~= fs.push(f) + p.1);
                },
            }
        },
    }
}

/// Parse a query string, resolving relative dates against the clock
/// reading `now`.
#[verifier::rlimit(100)]
pub fn parse_query_at(input: &str, now: i64) -> (r: Result<ParsedQuery, FFIError>)
    ensures
        spec_parse_query(input@, now as int) matches Some(qm) ==> r matches Ok(q) && q@ == qm,
        spec_parse_query(input@, now as int) is None ==> r is Err,
{
    let tokens = tokenize(input);
    let ghost views = token_views(tokens@);
    let mut pattern = String::new();
    let mut has_word: bool = false;
    let ghost mut words: Seq<Seq<char>> = Seq::empty();
    let mut filters: Vec<Filter> = Vec::new();
    let mut i: usize = 0;
    proof {
        assert(views.skip(0) =~= views);
        assert(filters@.map(|l: int, f: Filter| f@) =~= Seq::<FilterModel>::empty());
        assert(words + views =~= views);
        match spec_terms(views, now as int) {
            Some(p) => {
                assert(words + p.0 =~= p.0);
                assert(filters@.map(|l: int, f: Filter| f@) + p.1 =~= p.1);
            },
            None => (),
        }
    }
    while i < tokens.len()
        invariant
            views == token_views(tokens@),
            views == spec_tokens(input@),
            i <= tokens@.len(),
            has_word == (words.len() != 0),
            pattern@ == spec_join_space(words),
            spec_terms(views, now as int) == terms_append(
                words,
                filters@.map(|l: int, f: Filter| f@),
                spec_terms(views.skip(i as int), now as int),
            ),
        decreases tokens@.len() - i,
    {
        let ghost fs_before = filters@.map(|l: int, f: Filter| f@);
        proof {
            assert(views[i as int] == tokens@[i as int]@);
            lemma_terms_step(views, i as int, now as int, words, fs_before);
        }
        let token = &tokens[i];
        let n = token.as_str().unicode_len();
        if str_starts_with(token.as_str(), "ext:") {
            proof {
                reveal_strlit("ext:");
                assert("ext:"@.len() == 4);
                assert(token@.skip(4) =~= token@.subrange(4, n as int));
            }
            let raw = token.as_str().substring_char(4, n);
            let value = strip_quotes(raw);
            let ghost f = FilterModel::Extension(spec_strip_quotes(token@.skip(4)));
            proof {
                assert(spec_term(views[i as int], now as int) == Some(TermSpec::Filt(f)));
            }
            filters.push(Filter::Extension(value));
            proof {
                assert(filters@.map(|l: int, f2: Filter| f2@) =~= fs_before.push(f));
            }
        } else if str_starts_with(token.as_str(), "size:") {
            proof {
                reveal_strlit("size:");
                assert("size:"@.len() == 5);
                assert(token@.skip(5) =~= token@.subrange(5, n as int));
            }
            let raw = token.as_str().substring_char(5, n);
            let value = strip_quotes(raw);
            match parse_size_filter_value(value.as_str()) {
                Ok(p) => {
                    let ghost f = FilterModel::Size(p.0, p.1 as int);
                    proof {
                        assert(spec_term(views[i as int], now as int) == Some(TermSpec::Filt(f)));
                    }
                    filters.push(Filter::Size(p.0, p.1));
                    proof {
                        assert(filters@.map(|l: int, f2: Filter| f2@) =~= fs_before.push(f));
                    }
                },
                Err(e) => {
                    proof {
                        assert(spec_term(views[i as int], now as int) is None);
                    }
                    return Err(e);
                },
            }
        } else if str_starts_with(token.as_str(), "type:") {
            proof {
                reveal_strlit("type:");
                assert("type:"@.len() == 5);
                assert(token@.skip(5) =~= token@.subrange(5, n as int));
            }
            let raw = token.as_str().substring_char(5, n);
            let value = strip_quotes(raw);
            let vs = value.as_str();
            if str_ci_eq(vs, "folder") || str_ci_eq(vs, "dir") || str_ci_eq(vs, "directory") {
                let ghost f = FilterModel::Type(FileType::Folder);
                proof {
                    assert(spec_term(views[i as int], now as int) == Some(TermSpec::Filt(f)));
                }
                filters.push(Filter::Type(FileType::Folder));
                proof {
                    assert(filters@.map(|l: int, f2: Filter| f2@) =~= fs_before.push(f));
                }
            } else if str_ci_eq(vs, "file") {
                let ghost f = FilterModel::Type(FileType::File);
                proof {
                    assert(spec_term(views[i as int], now as int) == Some(TermSpec::Filt(f)));
                }
                filters.push(Filter::Type(FileType::File));
                proof {
                    assert(filters@.map(|l: int, f2: Filter| f2@) =~= fs_before.push(f));
                }
            } else {
                proof {
                    assert(spec_term(views[i as int], now as int) is None);
                }
                let mut msg = String::from_str("Unknown type: ");
                msg.append(vs);
                return Err(FFIError::Search(msg));
            }
        } else if str_starts_with(token.as_str(), "modified:") {
            proof {
                reveal_strlit("modified:");
                assert("modified:"@.len() == 9);
                assert(token@.skip(9) =~= token@.subrange(9, n as int));
            }
            let raw = token.as_str().substring_char(9, n);
            let value = strip_quotes(raw);
            match parse_date_filter_value(value.as_str(), now) {
                Ok(p) => {
                    let ghost f = FilterModel::Modified(p.0, p.1 as int);
                    proof {
                        assert(spec_term(views[i as int], now as int) == Some(TermSpec::Filt(f)));
                    }
                    filters.push(Filter::Modified(p.0, p.1));
                    proof {
                        assert(filters@.map(|l: int, f2: Filter| f2@) =~= fs_before.push(f));
                    }
                },
                Err(e) => {
                    proof {
                        assert(spec_term(views[i as int], now as int) is None);
                    }
                    return Err(e);
                },
            }
        } else if str_starts_with(token.as_str(), "path:") {
            proof {
                reveal_strlit("path:");
                assert("path:"@.len() == 5);
                assert(token@.skip(5) =~= token@.subrange(5, n as int));
            }
            let raw = token.as_str().substring_char(5, n);
            let value = strip_quotes(raw);
            let ghost f = FilterModel::PathScope(spec_strip_quotes(token@.skip(5)));
            proof {
                assert(spec_term(views[i as int], now as int) == Some(TermSpec::Filt(f)));
            }
            filters.push(Filter::PathScope(value));
            proof {
                assert(filters@.map(|l: int, f2: Filter| f2@) =~= fs_before.push(f));
            }
        } else {
            proof {
                assert(spec_term(views[i as int], now as int) == Some(
                    TermSpec::Word(token@),
                ));
            }
            if has_word {
                pattern.append(" ");
                proof {
                    reveal_strlit(" ");
                    assert(" "@ =~= seq![' ']);
                }
            }
            pattern.append(token.as_str());
            proof {
                let new_words = words.push(token@);
                if words.len() == 0 {
                    assert(spec_join_space(new_words) =~= token@);
                } else {
                    assert(new_words.drop_last() =~= words);
                    assert(spec_join_space(new_words) == spec_join_space(words) + seq![' ']
                        + token@);
                }
                words = new_words;
            }
            has_word = true;
        }
        i = i + 1;
    }
    proof {
        assert(views.skip(views.len() as int) =~= Seq::<Seq<char>>::empty());
        assert(spec_terms(views.skip(views.len() as int), now as int) == Some(
            (Seq::<Seq<char>>::empty(), Seq::<FilterModel>::empty()),
        ));
        assert(words + Seq::<Seq<char>>::empty() =~= words);
        assert(filters@.map(|l: int, f: Filter| f@) + Seq::<FilterModel>::empty() =~= filters@.map(
            |l: int, f: Filter| f@,
        ));
        assert(spec_terms(views, now as int) == Some(
            (words, filters@.map(|l: int, f: Filter| f@)),
        ));
    }
    let result = ParsedQuery {
        pattern: if has_word {
            Some(pattern)
        } else {
            None
        },
        filters,
    };
    Ok(result)
}

/// Whether `r` is what parsing `s` at clock reading `now` yields.
pub open spec fn parse_outcome_matches(s: Seq<char>, now: int, r: Result<
    ParsedQuery,
    FFIError,
>) -> bool {
    match spec_parse_query(s, now) {
        Some(qm) => r matches Ok(q) && q@ == qm,
        None => r is Err,
    }
}

/// Parse a search query string; relative dates resolve against the current
/// clock.
pub fn parse_query(input: &str) -> (r: Result<ParsedQuery, FFIError>)
    ensures
        exists|now: int| #[trigger] parse_outcome_matches(input@, now, r),
{
    let now = crate::ext::now_epoch_secs();
    let r = parse_query_at(input, now);
    proof {
        assert(parse_outcome_matches(input@, now as int, r));
    }
    r
}

} // verus!
