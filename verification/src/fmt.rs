//! Human-readable formatting of file sizes.

use vstd::prelude::*;

verus! {

/// The decimal digits of a non-negative number.
pub open spec fn spec_dec(n: int) -> Seq<char>
    decreases n,
{
    if n < 0 {
        Seq::empty()
    } else if n < 10 {
        seq![((48 + n) as u8) as char]
    } else {
        spec_dec(n / 10) + seq![((48 + n % 10) as u8) as char]
    }
}

/// A size scaled to a unit: the whole part and one rounded decimal digit,
/// carrying into the whole part when the digit rounds to ten.
pub open spec fn spec_scaled(b: int, unit: int, suffix: Seq<char>) -> Seq<char> {
    let w = b / unit;
    let t = (b % unit * 10 + unit / 2) / unit;
    if t == 10 {
        spec_dec(w + 1) + seq!['.'] + spec_dec(0) + seq![' '] + suffix
    } else {
        spec_dec(w) + seq!['.'] + spec_dec(t) + seq![' '] + suffix
    }
}

/// The text a byte count formats to: scaled to the largest unit it
/// reaches, with one decimal digit; plain bytes below a kibibyte; `---`
/// when negative.
pub open spec fn spec_format_size(b: int) -> Seq<char> {
    if b < 0 {
        "---"@
    } else if b >= 0x10000000000 {
        spec_scaled(b, 0x10000000000, "TB"@)
    } else if b >= 0x40000000 {
        spec_scaled(b, 0x40000000, "GB"@)
    } else if b >= 0x100000 {
        spec_scaled(b, 0x100000, "MB"@)
    } else if b >= 0x400 {
        spec_scaled(b, 0x400, "KB"@)
    } else {
        spec_dec(b) + seq![' ', 'B']
    }
}

/// Relies on the `format!` macro rendering an `i64` in decimal.
#[verifier::external_body]
fn format_scaled(whole: i64, tenths: i64, suffix: &str) -> (r: String)
    requires
        0 <= whole,
        0 <= tenths <= 9,
    ensures
        r@ == spec_dec(whole as int) + seq!['.'] + spec_dec(tenths as int) + seq![' '] + suffix@,
{
    format!("{}.{} {}", whole, tenths, suffix)
}

/// Relies on the `format!` macro rendering an `i64` in decimal.
#[verifier::external_body]
fn format_plain_bytes(n: i64) -> (r: String)
    requires
        0 <= n,
    ensures
        r@ == spec_dec(n as int) + seq![' ', 'B'],
{
    format!("{} B", n)
}

/// Format a file size for display: `1.5 KB`, `2.0 MB`, `512 B`; a negative
/// count renders as `---`.
pub fn format_size(bytes: i64) -> (r: String)
    ensures
        r@ == spec_format_size(bytes as int),
{
    let kb: i64 = 1024;
    let mb: i64 = kb * 1024;
    let gb: i64 = mb * 1024;
    let tb: i64 = gb * 1024;
    if bytes < 0 {
        return String::from_str("---");
    }
    let unit: i64 = if bytes >= tb {
        tb
    } else if bytes >= gb {
        gb
    } else if bytes >= mb {
        mb
    } else if bytes >= kb {
        kb
    } else {
        let r = format_plain_bytes(bytes);
        return r;
    };
    let whole: i64 = bytes / unit;
    let rem: i64 = bytes % unit;
    let tenths: i64 = (rem * 10 + unit / 2) / unit;
    proof {
        assert(0 <= bytes % unit < unit);
        assert(rem as int * 10 + unit as int / 2 < unit as int * 11) by (nonlinear_arith)
            requires
                (rem as int) < (unit as int),
                unit as int >= 1024,
                0 <= rem as int,
        ;
        assert(0 <= (rem as int * 10 + unit as int / 2) / (unit as int) <= 10) by (nonlinear_arith)
            requires
                0 <= rem as int * 10 + unit as int / 2,
                (rem as int * 10 + unit as int / 2) < (unit as int * 11),
                unit as int >= 1024,
        ;
    }
    if tenths == 10 {
        format_scaled(whole + 1, 0, if unit == tb {
            "TB"
        } else if unit == gb {
            "GB"
        } else if unit == mb {
            "MB"
        } else {
            "KB"
        })
    } else {
        format_scaled(whole, tenths, if unit == tb {
            "TB"
        } else if unit == gb {
            "GB"
        } else if unit == mb {
            "MB"
        } else {
            "KB"
        })
    }
}

} // verus!
