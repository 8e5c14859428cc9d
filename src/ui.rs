//! Text for sizes and dates as a scan shows them.

use vstd::prelude::*;
use crate::text::{decimal_text, digit_char, push_decimal};
use crate::time::{Timestamp, NANOS_PER_SEC};

verus! {

/// First second of year 1, in seconds from the Unix epoch.
pub const YEAR_ONE_SECS: i64 = -62_135_596_800;

/// First second of year 10000, in seconds from the Unix epoch.
pub const YEAR_TEN_THOUSAND_SECS: i64 = 253_402_300_800;

/// The largest unit, from B (0) to TB (4), that the size reaches at least once.
pub open spec fn unit_index(bytes: nat) -> nat {
    if bytes < 0x400 {
        0
    } else if bytes < 0x10_0000 {
        1
    } else if bytes < 0x4000_0000 {
        2
    } else if bytes < 0x100_0000_0000 {
        3
    } else {
        4
    }
}

/// Bytes in one unit of index `u`.
pub open spec fn unit_divisor(u: nat) -> nat {
    if u == 0 {
        1
    } else if u == 1 {
        0x400
    } else if u == 2 {
        0x10_0000
    } else if u == 3 {
        0x4000_0000
    } else {
        0x100_0000_0000
    }
}

/// The label of unit `u`.
pub open spec fn unit_label(u: nat) -> Seq<char> {
    if u == 0 {
        seq!['B']
    } else if u == 1 {
        seq!['K', 'B']
    } else if u == 2 {
        seq!['M', 'B']
    } else if u == 3 {
        seq!['G', 'B']
    } else {
        seq!['T', 'B']
    }
}

/// `bytes / div` in tenths, rounded to the nearest tenth, ties to an even tenth.
pub open spec fn rounded_tenths(bytes: nat, div: nat) -> nat {
    let t = bytes * 10 / div;
    let rest = bytes * 10 % div;
    if rest * 2 > div || (rest * 2 == div && t % 2 == 1) {
        t + 1
    } else {
        t
    }
}

/// A byte count as text: whole bytes below 1 KB (`"512 B"`), else one decimal in the
/// largest unit up to TB that it reaches (`"1.5 KB"`).
pub open spec fn byte_size_text(bytes: nat) -> Seq<char> {
    let u = unit_index(bytes);
    if u == 0 {
        decimal_text(bytes) + seq![' '] + unit_label(0)
    } else {
        let t = rounded_tenths(bytes, unit_divisor(u));
        decimal_text(t / 10) + seq!['.', digit_char((t % 10) as int), ' '] + unit_label(u)
    }
}

/// The UTC calendar date `YYYY-MM-DD` of the second `secs` from the Unix epoch.
pub uninterp spec fn utc_date_text(secs: int) -> Seq<char>;

/// Relies on chrono's `DateTime::from_timestamp(secs, 0)`, which is `None` only outside
/// chrono's range of years (far wider than 1 to 9999), and on its `format("%Y-%m-%d")`.
#[verifier::external_body]
fn chrono_date(secs: i64) -> (r: Option<String>)
    ensures
        r matches Some(s) ==> s@ == utc_date_text(secs as int),
        YEAR_ONE_SECS <= secs < YEAR_TEN_THOUSAND_SECS ==> r is Some,
{
    match chrono::DateTime::from_timestamp(secs, 0) {
        Some(d) => Some(d.format("%Y-%m-%d").to_string()),
        None => None,
    }
}

fn unit_label_str(u: u64) -> (r: &'static str)
    requires
        u <= 4,
    ensures
        r@ == unit_label(u as nat),
{
    if u == 0 {
        proof { reveal_strlit("B"); }
        "B"
    } else if u == 1 {
        proof { reveal_strlit("KB"); }
        "KB"
    } else if u == 2 {
        proof { reveal_strlit("MB"); }
        "MB"
    } else if u == 3 {
        proof { reveal_strlit("GB"); }
        "GB"
    } else {
        proof { reveal_strlit("TB"); }
        "TB"
    }
}

/// A byte count as text, in B below 1024 and otherwise with one decimal in KB, MB, GB or TB.
pub fn format_bytes(bytes: u64) -> (r: String)
    ensures
        r@ == byte_size_text(bytes as nat),
{
    let (unit, div): (u64, u128) = if bytes < 0x400 {
        (0, 1)
    } else if bytes < 0x10_0000 {
        (1, 0x400)
    } else if bytes < 0x4000_0000 {
        (2, 0x10_0000)
    } else if bytes < 0x100_0000_0000 {
        (3, 0x4000_0000)
    } else {
        (4, 0x100_0000_0000)
    };
    let mut out = String::new();
    if unit == 0 {
        push_decimal(&mut out, bytes);
        proof { reveal_strlit(" "); }
        out.append(" ");
    } else {
        let scaled: u128 = bytes as u128 * 10;
        let whole: u128 = scaled / div;
        let rest: u128 = scaled % div;
        let tenths: u128 = if rest * 2 > div || (rest * 2 == div && whole % 2 == 1) {
            whole + 1
        } else {
            whole
        };
        assert(whole <= scaled / 0x400) by (nonlinear_arith)
            requires
                div >= 0x400,
                whole == scaled / div,
                scaled >= 0,
        ;
        let int_part: u128 = tenths / 10;
        let digit: u128 = tenths % 10;
        push_decimal(&mut out, int_part as u64);
        proof { reveal_strlit("."); }
        out.append(".");
        push_decimal(&mut out, digit as u64);
        proof { reveal_strlit(" "); }
        out.append(" ");
        assert(decimal_text(digit as nat) == seq![digit_char(digit as int)]);
    }
    out.append(unit_label_str(unit));
    assert(out@ =~= byte_size_text(bytes as nat));
    out
}

/// The UTC date of an instant as `YYYY-MM-DD`, or `-` when there is none. An instant
/// outside the years 1 to 9999 may also read `-`.
pub fn format_date_short(value: Option<Timestamp>) -> (r: String)
    ensures
        value is None ==> r@ == seq!['-'],
        value matches Some(t) ==> {
            let secs = t@ / (NANOS_PER_SEC as int);
            &&& YEAR_ONE_SECS <= secs < YEAR_TEN_THOUSAND_SECS ==> r@ == utc_date_text(secs)
            &&& r@ == utc_date_text(secs) || r@ == seq!['-']
        },
{
    proof { reveal_strlit("-"); }
    match value {
        Some(t) => {
            let secs = t.unix_secs_floor();
            if secs < i64::MIN as i128 || secs > i64::MAX as i128 {
                return String::from_str("-");
            }
            match chrono_date(secs as i64) {
                Some(text) => text,
                None => String::from_str("-"),
            }
        },
        None => String::from_str("-"),
    }
}

} // verus!
