//! Human-readable rendering of sizes, durations and labels.
use vstd::prelude::*;

use crate::binary64::{
    at_least, div1000, divide_by_1000, floor, from_count, integer_part, is_at_least, nearest,
    normal, rounded_digits, scaled_digits,
};
use crate::text::{
    decimal, digit, push_decimal, push_decimal_2, push_range, chars_of, zero_pad,
};

verus! {

// ---------------------------------------------------------------------------
// Byte sizes
// ---------------------------------------------------------------------------

/// `10^p`.
pub open spec fn pow10(p: nat) -> nat
    decreases p,
{
    if p == 0 {
        1
    } else {
        10 * pow10((p - 1) as nat)
    }
}

/// The name of unit `u`.
pub open spec fn unit_name(u: nat) -> Seq<char> {
    if u == 0 {
        seq!['B']
    } else if u == 1 {
        seq!['K', 'B']
    } else if u == 2 {
        seq!['M', 'B']
    } else if u == 3 {
        seq!['G', 'B']
    } else if u == 4 {
        seq!['T', 'B']
    } else {
        seq!['P', 'B']
    }
}

/// `q / 10^p` written with exactly `p` digits after the point.
pub open spec fn fixed_point(q: nat, p: nat) -> Seq<char> {
    if p == 0 {
        decimal(q)
    } else {
        decimal(q / pow10(p)) + seq!['.'] + zero_pad(decimal(q % pow10(p)), p)
    }
}

/// The value and unit a number comes to from unit `u` on: while it is at
/// least 1000 and a larger unit remains (up to PB, unit 5), it is divided by
/// 1000 and the quotient rounded to the nearest binary64 number.
pub open spec fn descend(d: (nat, nat), u: nat) -> ((nat, nat), nat)
    decreases 5 - u,
{
    if u < 5 && at_least(d, 1000) {
        descend(div1000(d), u + 1)
    } else {
        (d, u)
    }
}

/// The digits shown after the point: none from 100 on, one from 10, two below.
pub open spec fn precision(d: (nat, nat)) -> nat {
    if at_least(d, 100) {
        0
    } else if at_least(d, 10) {
        1
    } else {
        2
    }
}

/// A byte count in decimal units (`42 B`, `1.50 KB`, `12.5 MB`, `250 GB`),
/// worked out in binary64 arithmetic: the count, rounded to the nearest
/// binary64 number, [`descend`]s through the units; in bytes its integer part
/// is shown, in a larger unit its exact binary value rounded half to even to
/// the [`precision`] it calls for.
pub open spec fn bytes_text(v: nat) -> Seq<char> {
    if v == 0 {
        seq!['0', ' ', 'B']
    } else {
        let (d, u) = descend(nearest(v, 1), 0);
        if u == 0 {
            decimal(floor(d)) + seq![' ', 'B']
        } else {
            let p = precision(d);
            fixed_point(scaled_digits(d, pow10(p)), p) + seq![' '] + unit_name(u)
        }
    }
}

proof fn lemma_pow10_values()
    ensures
        pow10(0) == 1,
        pow10(1) == 10,
        pow10(2) == 100,
{
    reveal_with_fuel(pow10, 3);
}

/// Appends the name of unit `u`.
fn push_unit_name(out: &mut String, u: u64)
    requires
        u <= 5,
    ensures
        final(out)@ == old(out)@ + unit_name(u as nat),
{
    if u == 0 {
        out.push('B');
    } else {
        let c = if u == 1 {
            'K'
        } else if u == 2 {
            'M'
        } else if u == 3 {
            'G'
        } else if u == 4 {
            'T'
        } else {
            'P'
        };
        out.push(c);
        out.push('B');
    }
    assert(out@ =~= old(out)@ + unit_name(u as nat));
}

/// Appends `q / 10^p` with `p` digits after the point.
fn push_fixed_point(out: &mut String, q: u64, p: u64)
    requires
        p <= 2,
    ensures
        final(out)@ == old(out)@ + fixed_point(q as nat, p as nat),
{
    proof {
        lemma_pow10_values();
    }
    if p == 0 {
        push_decimal(out, q);
    } else {
        let scale: u64 = if p == 1 {
            10
        } else {
            100
        };
        let whole: u64 = q / scale;
        let frac: u64 = q % scale;
        push_decimal(out, whole);
        out.push('.');
        if p == 1 {
            out.push(digit(frac));
            proof {
                reveal_with_fuel(zero_pad, 2);
                assert(zero_pad(decimal(frac as nat), 1) =~= decimal(frac as nat));
                assert(decimal(frac as nat) =~= seq![crate::text::digit_char(frac as int)]);
            }
        } else {
            push_decimal_2(out, frac);
        }
    }
    assert(out@ =~= old(out)@ + fixed_point(q as nat, p as nat));
}

/// A byte count in decimal units, as [`bytes_text`] describes.
pub fn bytes(value: u64) -> (r: String)
    ensures
        r@ == bytes_text(value as nat),
{
    let mut out = String::new();
    if value == 0 {
        out.push('0');
        out.push(' ');
        out.push('B');
        assert(out@ =~= bytes_text(0));
        return out;
    }
    let (m0, e0) = from_count(value);
    let mut m: u64 = m0;
    let mut e: u64 = e0;
    let mut unit: u64 = 0;
    let mut more = is_at_least(m, e, 1000);
    while unit < 5 && more
        invariant
            normal((m as nat, e as nat)),
            e <= 76,
            unit <= 5,
            unit > 0 ==> e <= 68,
            more == at_least((m as nat, e as nat), 1000),
            descend(nearest(value as nat, 1), 0) == descend((m as nat, e as nat), unit as nat),
        decreases 5 - unit,
    {
        let (m2, e2) = divide_by_1000(m, e);
        m = m2;
        e = e2;
        unit = unit + 1;
        more = is_at_least(m, e, 1000);
    }
    let ghost d = (m as nat, e as nat);
    assert(descend(d, unit as nat) == (d, unit as nat));
    if unit == 0 {
        let whole = integer_part(m, e);
        push_decimal(&mut out, whole);
        out.push(' ');
        out.push('B');
    } else {
        proof {
            lemma_pow10_values();
        }
        let p: u64 = if is_at_least(m, e, 100) {
            0
        } else if is_at_least(m, e, 10) {
            1
        } else {
            2
        };
        let scale: u64 = if p == 0 {
            1
        } else if p == 1 {
            10
        } else {
            100
        };
        assert(p as nat == precision(d) && scale as nat == pow10(p as nat));
        let q = rounded_digits(m, e, scale);
        push_fixed_point(&mut out, q, p);
        out.push(' ');
        push_unit_name(&mut out, unit);
    }
    assert(out@ =~= bytes_text(value as nat));
    out
}

/// The sign of a signed quantity: `+` above zero, `-` below, nothing at zero.
pub open spec fn sign_text(v: int) -> Seq<char> {
    if v > 0 {
        seq!['+']
    } else if v < 0 {
        seq!['-']
    } else {
        Seq::empty()
    }
}

/// `|v|` as a byte count with its sign in front (`+1.50 KB`, `-1.50 KB`).
pub open spec fn signed_bytes_text(v: int) -> Seq<char> {
    sign_text(v) + bytes_text(if v < 0 {
        (-v) as nat
    } else {
        v as nat
    })
}

/// A signed byte count, as [`signed_bytes_text`] describes.
pub fn signed_bytes(value: i64) -> (r: String)
    ensures
        r@ == signed_bytes_text(value as int),
{
    let mut out = String::new();
    if value > 0 {
        out.push('+');
    } else if value < 0 {
        out.push('-');
    }
    let magnitude: u64 = if value < 0 {
        (-(value as i128)) as u64
    } else {
        value as u64
    };
    let body = bytes(magnitude);
    out.append(body.as_str());
    assert(out@ =~= signed_bytes_text(value as int));
    out
}

// ---------------------------------------------------------------------------
// Durations and times
// ---------------------------------------------------------------------------

/// A duration in seconds: `1d 01h` from one day on, `01:01:01` from one hour
/// on, `00:59` below.
pub open spec fn duration_text(s: nat) -> Seq<char> {
    let days = s / 86_400;
    let hours = (s % 86_400) / 3_600;
    let minutes = (s % 3_600) / 60;
    let secs = s % 60;
    if days > 0 {
        decimal(days) + seq!['d', ' '] + zero_pad(decimal(hours), 2) + seq!['h']
    } else if hours > 0 {
        zero_pad(decimal(hours), 2) + seq![':'] + zero_pad(decimal(minutes), 2) + seq![':']
            + zero_pad(decimal(secs), 2)
    } else {
        zero_pad(decimal(minutes), 2) + seq![':'] + zero_pad(decimal(secs), 2)
    }
}

/// A duration, as [`duration_text`] describes.
pub fn duration(seconds: u64) -> (r: String)
    ensures
        r@ == duration_text(seconds as nat),
{
    let days = seconds / 86_400;
    let hours = (seconds % 86_400) / 3_600;
    let minutes = (seconds % 3_600) / 60;
    let secs = seconds % 60;
    let mut out = String::new();
    if days > 0 {
        push_decimal(&mut out, days);
        out.push('d');
        out.push(' ');
        push_decimal_2(&mut out, hours);
        out.push('h');
    } else if hours > 0 {
        push_decimal_2(&mut out, hours);
        out.push(':');
        push_decimal_2(&mut out, minutes);
        out.push(':');
        push_decimal_2(&mut out, secs);
    } else {
        push_decimal_2(&mut out, minutes);
        out.push(':');
        push_decimal_2(&mut out, secs);
    }
    assert(out@ =~= duration_text(seconds as nat));
    out
}

/// How long ago a Unix time was, seen from `now` (Unix seconds, when the clock
/// could be read): `-` without a clock, `future` for a later time, otherwise
/// the elapsed [`duration_text`] followed by ` ago`.
pub open spec fn epoch_time_text(seconds: nat, now: Option<u64>) -> Seq<char> {
    match now {
        None => seq!['-'],
        Some(now) => if seconds > now {
            seq!['f', 'u', 't', 'u', 'r', 'e']
        } else {
            duration_text((now - seconds) as nat) + seq![' ', 'a', 'g', 'o']
        },
    }
}

#[verifier::external_type_specification]
#[verifier::external_body]
pub struct ExSystemTime(std::time::SystemTime);

/// Reads the system clock (`SystemTime::now`). Nothing is stated of the
/// value: it is the time.
#[verifier::external_body]
fn system_now() -> std::time::SystemTime {
    std::time::SystemTime::now()
}

/// The time from the Unix epoch to `t` (`SystemTime::duration_since`), or
/// nothing for a time before the epoch. Nothing is stated of the value: a
/// `SystemTime` is not visible to the proofs.
#[verifier::external_body]
fn since_unix_epoch(t: &std::time::SystemTime) -> Option<std::time::Duration> {
    t.duration_since(std::time::UNIX_EPOCH).ok()
}

/// The whole seconds of a duration (`Duration::as_secs`).
pub uninterp spec fn duration_seconds(d: std::time::Duration) -> u64;

/// Calls `Duration::as_secs`. Its result is a function of the duration
/// alone, named `duration_seconds`; nothing more is stated of it.
#[verifier::external_body]
fn as_secs(d: &std::time::Duration) -> (r: u64)
    ensures
        r == duration_seconds(*d),
{
    d.as_secs()
}

/// The system clock as whole seconds since the Unix epoch, or nothing for a
/// clock set before the epoch: the seconds of the duration the clock gives,
/// which nothing here pins down.
fn unix_now() -> (r: Option<u64>)
    ensures
        r matches Some(s) ==> exists|d: std::time::Duration| s == #[trigger] duration_seconds(d),
{
    match since_unix_epoch(&system_now()) {
        Some(d) => {
            let s = as_secs(&d);
            assert(s == duration_seconds(d));
            Some(s)
        },
        None => None,
    }
}

/// How long ago `seconds` was, seen from the clock reading `now`.
pub fn epoch_time_at(seconds: u64, now: Option<u64>) -> (r: String)
    ensures
        r@ == epoch_time_text(seconds as nat, now),
{
    let mut out = String::new();
    match now {
        None => {
            out.push('-');
        },
        Some(now) => {
            if seconds > now {
                out.push('f');
                out.push('u');
                out.push('t');
                out.push('u');
                out.push('r');
                out.push('e');
            } else {
                let d = duration(now - seconds);
                out.append(d.as_str());
                out.push(' ');
                out.push('a');
                out.push('g');
                out.push('o');
            }
        },
    }
    assert(out@ =~= epoch_time_text(seconds as nat, now));
    out
}

/// How long ago `seconds` (Unix time) was, by the system clock.
pub fn epoch_time(seconds: u64) -> (r: String)
    ensures
        exists|now: Option<u64>| r@ == epoch_time_text(seconds as nat, now),
{
    let now = unix_now();
    let r = epoch_time_at(seconds, now);
    assert(r@ == epoch_time_text(seconds as nat, now));
    r
}

// ---------------------------------------------------------------------------
// Truncation
// ---------------------------------------------------------------------------

/// `s` cut to at most `width` characters by replacing its middle with one
/// `.`, keeping more of the start than of the end when the kept length is
/// odd; texts that fit are unchanged, and widths up to 3 give only dots.
pub open spec fn truncated_middle(s: Seq<char>, width: nat) -> Seq<char> {
    if s.len() <= width {
        s
    } else if width <= 3 {
        Seq::new(width, |i: int| '.')
    } else {
        let left = ((width - 1) / 2) as nat;
        let right = (width - 1 - left) as nat;
        s.subrange(0, left as int) + seq!['.'] + s.subrange(s.len() - right, s.len() as int)
    }
}

/// `value` cut to `width` characters, as [`truncated_middle`] describes.
pub fn truncate_middle(value: &str, width: usize) -> (r: String)
    ensures
        r@ == truncated_middle(value@, width as nat),
{
    let chars = chars_of(value);
    let n = chars.len();
    let mut out = String::new();
    if n <= width {
        push_range(&mut out, chars.as_slice(), 0, n);
        assert(out@ =~= value@);
        return out;
    }
    if width <= 3 {
        let mut i: usize = 0;
        while i < width
            invariant
                i <= width,
                out@ == Seq::new(i as nat, |k: int| '.'),
            decreases width - i,
        {
            out.push('.');
            i = i + 1;
            assert(out@ =~= Seq::new(i as nat, |k: int| '.'));
        }
        return out;
    }
    let left = (width - 1) / 2;
    let right = width - 1 - left;
    push_range(&mut out, chars.as_slice(), 0, left);
    out.push('.');
    push_range(&mut out, chars.as_slice(), n - right, n);
    assert(out@ =~= truncated_middle(value@, width as nat));
    out
}

/// A truncated text never exceeds the width, and is the text itself when it
/// fits.
pub proof fn lemma_truncated_middle_len(s: Seq<char>, width: nat)
    ensures
        truncated_middle(s, width).len() == if s.len() <= width {
            s.len()
        } else {
            width
        },
        s.len() <= width ==> truncated_middle(s, width) == s,
{
}

} // verus!
