//! Human-readable formatting of byte counts and of the report time stamp.
//!
//! Byte rates use binary (1024-based) thresholds labeled with decimal-style
//! suffixes (GB/MB/KB) — a deliberate simplification of the display, kept as
//! documented behaviour. Scaled values carry two decimal places, rounded to
//! the nearest hundredth with ties rounded to even.

use vstd::prelude::*;

verus! {

/// One kibibyte, the smallest scaling threshold.
pub const KB: u64 = 1024;

/// One mebibyte.
pub const MB: u64 = 1024 * 1024;

/// One gibibyte.
pub const GB: u64 = 1024 * 1024 * 1024;

/// The decimal digit character for `d` (meaningful for 0 <= d <= 9).
pub open spec fn digit_char(d: int) -> char {
    if d == 0 {
        '0'
    } else if d == 1 {
        '1'
    } else if d == 2 {
        '2'
    } else if d == 3 {
        '3'
    } else if d == 4 {
        '4'
    } else if d == 5 {
        '5'
    } else if d == 6 {
        '6'
    } else if d == 7 {
        '7'
    } else if d == 8 {
        '8'
    } else {
        '9'
    }
}

/// The decimal digit string of a non-negative integer, without leading
/// zeros (a single "0" for zero).
pub open spec fn spec_digits(n: int) -> Seq<char>
    decreases n,
{
    if n < 10 {
        seq![digit_char(n)]
    } else {
        spec_digits(n / 10).push(digit_char(n % 10))
    }
}

/// The (whole, hundredths) parts of `b / unit`, rounded to the nearest
/// hundredth with ties rounded to even; a carry out of the hundredths
/// rolls into the whole part.
pub open spec fn spec_scaled_parts(b: u64, unit: u64) -> (int, int) {
    let whole = b as int / unit as int;
    let num = (b as int % unit as int) * 100;
    let lower = num / unit as int;
    let twice_rest = 2 * (num % unit as int);
    let frac = if twice_rest > unit as int || (twice_rest == unit as int && lower % 2 == 1) {
        lower + 1
    } else {
        lower
    };
    if frac == 100 {
        (whole + 1, 0)
    } else {
        (whole, frac)
    }
}

/// The two-decimal rendering of `b / unit`, e.g. "1.50".
pub open spec fn spec_scaled(b: u64, unit: u64) -> Seq<char> {
    spec_digits(spec_scaled_parts(b, unit).0) + "."@ + seq![
        digit_char(spec_scaled_parts(b, unit).1 / 10),
        digit_char(spec_scaled_parts(b, unit).1 % 10),
    ]
}

/// The human-readable rendering of a byte count: two decimals and a unit
/// suffix at or above each binary threshold, plain integer bytes below 1 KB.
pub open spec fn spec_format_bytes(b: u64) -> Seq<char> {
    if b >= GB {
        spec_scaled(b, GB) + " GB"@
    } else if b >= MB {
        spec_scaled(b, MB) + " MB"@
    } else if b >= KB {
        spec_scaled(b, KB) + " KB"@
    } else {
        spec_digits(b as int) + " B"@
    }
}

/// A two-digit, zero-padded decimal rendering (meaningful for 0 <= v <= 99).
pub open spec fn spec_two_digits(v: int) -> Seq<char> {
    seq![digit_char(v / 10), digit_char(v % 10)]
}

/// The "HH:MM:SS" time stamp of a report header.
pub open spec fn spec_hms(h: u8, m: u8, s: u8) -> Seq<char> {
    spec_two_digits(h as int) + ":"@ + spec_two_digits(m as int) + ":"@ + spec_two_digits(s as int)
}

fn append_digit(out: &mut String, d: u64)
    requires
        d < 10,
    ensures
        final(out)@ == old(out)@ + seq![digit_char(d as int)],
{
    if d == 0 {
        out.append("0");
        proof {
            reveal_strlit("0");
            assert(final(out)@ =~= old(out)@ + seq![digit_char(d as int)]);
        }
    } else if d == 1 {
        out.append("1");
        proof {
            reveal_strlit("1");
            assert(final(out)@ =~= old(out)@ + seq![digit_char(d as int)]);
        }
    } else if d == 2 {
        out.append("2");
        proof {
            reveal_strlit("2");
            assert(final(out)@ =~= old(out)@ + seq![digit_char(d as int)]);
        }
    } else if d == 3 {
        out.append("3");
        proof {
            reveal_strlit("3");
            assert(final(out)@ =~= old(out)@ + seq![digit_char(d as int)]);
        }
    } else if d == 4 {
        out.append("4");
        proof {
            reveal_strlit("4");
            assert(final(out)@ =~= old(out)@ + seq![digit_char(d as int)]);
        }
    } else if d == 5 {
        out.append("5");
        proof {
            reveal_strlit("5");
            assert(final(out)@ =~= old(out)@ + seq![digit_char(d as int)]);
        }
    } else if d == 6 {
        out.append("6");
        proof {
            reveal_strlit("6");
            assert(final(out)@ =~= old(out)@ + seq![digit_char(d as int)]);
        }
    } else if d == 7 {
        out.append("7");
        proof {
            reveal_strlit("7");
            assert(final(out)@ =~= old(out)@ + seq![digit_char(d as int)]);
        }
    } else if d == 8 {
        out.append("8");
        proof {
            reveal_strlit("8");
            assert(final(out)@ =~= old(out)@ + seq![digit_char(d as int)]);
        }
    } else {
        out.append("9");
        proof {
            reveal_strlit("9");
            assert(final(out)@ =~= old(out)@ + seq![digit_char(d as int)]);
        }
    }
}

fn append_digits(out: &mut String, n: u64)
    ensures
        final(out)@ == old(out)@ + spec_digits(n as int),
    decreases n,
{
    if n < 10 {
        append_digit(out, n);
    } else {
        append_digits(out, n / 10);
        append_digit(out, n % 10);
        proof {
            assert(final(out)@ =~= old(out)@ + spec_digits(n as int));
        }
    }
}

fn append_scaled(out: &mut String, b: u64, unit: u64)
    requires
        unit == KB || unit == MB || unit == GB,
    ensures
        final(out)@ == old(out)@ + spec_scaled(b, unit),
{
    let whole: u64 = b / unit;
    let rem: u64 = b % unit;
    let num: u64 = rem * 100;
    let lower: u64 = num / unit;
    let rest: u64 = num % unit;
    assert(lower < 100) by (nonlinear_arith)
        requires
            num < 100 * unit,
            unit >= 2,
            lower as int == num as int / unit as int,
    ;
    let rounded: u64 = if 2 * rest > unit || (2 * rest == unit && lower % 2 == 1) {
        lower + 1
    } else {
        lower
    };
    let whole2: u64 = if rounded == 100 {
        whole + 1
    } else {
        whole
    };
    let frac: u64 = if rounded == 100 {
        0
    } else {
        rounded
    };
    append_digits(out, whole2);
    out.append(".");
    append_digit(out, frac / 10);
    append_digit(out, frac % 10);
    proof {
        assert(final(out)@ =~= old(out)@ + spec_scaled(b, unit));
    }
}

/// Render a byte count for display: "X.XX GB" at or above 1 GiB, "X.XX MB"
/// at or above 1 MiB, "X.XX KB" at or above 1 KiB, else "N B".
pub fn format_bytes(bytes: u64) -> (r: String)
    ensures
        r@ == spec_format_bytes(bytes),
{
    let mut out = String::new();
    if bytes >= GB {
        append_scaled(&mut out, bytes, GB);
        out.append(" GB");
    } else if bytes >= MB {
        append_scaled(&mut out, bytes, MB);
        out.append(" MB");
    } else if bytes >= KB {
        append_scaled(&mut out, bytes, KB);
        out.append(" KB");
    } else {
        append_digits(&mut out, bytes);
        out.append(" B");
    }
    proof {
        assert(out@ =~= spec_format_bytes(bytes));
    }
    out
}

/// Render a wall-clock time of day as "HH:MM:SS", zero-padded.
pub fn format_hms(h: u8, m: u8, s: u8) -> (r: String)
    requires
        h < 24,
        m < 60,
        s < 60,
    ensures
        r@ == spec_hms(h, m, s),
{
    let mut out = String::new();
    append_digit(&mut out, (h / 10) as u64);
    append_digit(&mut out, (h % 10) as u64);
    out.append(":");
    append_digit(&mut out, (m / 10) as u64);
    append_digit(&mut out, (m % 10) as u64);
    out.append(":");
    append_digit(&mut out, (s / 10) as u64);
    append_digit(&mut out, (s % 10) as u64);
    proof {
        assert(out@ =~= spec_hms(h, m, s));
    }
    out
}

} // verus!
