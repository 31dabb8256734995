//! Reading and writing the timestamps of TTML (`[[h:]m:]s[.fff]`).

use vstd::prelude::*;
use vstd::utf8::{encode_utf8, is_ascii_chars, is_ascii_chars_encode_utf8};

verus! {

/// Whether a byte is an ASCII decimal digit.
pub open spec fn is_digit_byte(c: u8) -> bool {
    48 <= c <= 57
}

/// The whole-seconds part, read from position `i` on: the seconds counted so far in `accum`,
/// the digits of the current component in `current`, the colons seen in `colons`. Gives the
/// total seconds, the position after the `.` (or the end) and whether a fraction follows.
pub open spec fn ts_whole(b: Seq<u8>, i: int, accum: int, current: int, colons: int) -> Option<
    (int, int, bool),
>
    decreases b.len() - i,
{
    if i < 0 || i >= b.len() {
        Some((accum + current, i, false))
    } else {
        let c = b[i];
        if is_digit_byte(c) {
            ts_whole(b, i + 1, accum, current * 10 + (c - 48), colons)
        } else if c == 58 {
            if colons >= 2 {
                None
            } else {
                ts_whole(b, i + 1, (accum + current) * 60, 0, colons + 1)
            }
        } else if c == 46 {
            Some((accum + current, i + 1, true))
        } else {
            None
        }
    }
}

/// The fraction part from position `i` on: only the first three digits count.
pub open spec fn ts_frac(b: Seq<u8>, i: int, fraction: int, digits: int) -> Option<(int, int)>
    decreases b.len() - i,
{
    if i < 0 || i >= b.len() {
        Some((fraction, digits))
    } else if is_digit_byte(b[i]) {
        if digits < 3 {
            ts_frac(b, i + 1, fraction * 10 + (b[i] - 48), digits + 1)
        } else {
            ts_frac(b, i + 1, fraction, digits)
        }
    } else {
        None
    }
}

/// Milliseconds of a fraction of `digits` digits.
pub open spec fn frac_ms(fraction: int, digits: int) -> int {
    if digits == 1 {
        fraction * 100
    } else if digits == 2 {
        fraction * 10
    } else {
        fraction
    }
}

/// The value in milliseconds of a timestamp read from the given state on.
pub open spec fn ts_value_from(b: Seq<u8>, i: int, accum: int, current: int, colons: int) -> Option<
    int,
> {
    match ts_whole(b, i, accum, current, colons) {
        None => None,
        Some((secs, j, has_fraction)) => if has_fraction {
            match ts_frac(b, j, 0, 0) {
                None => None,
                Some((f, d)) => Some(frac_ms(f, d) + secs * 1000),
            }
        } else {
            Some(secs * 1000)
        },
    }
}

/// The value in milliseconds of a timestamp: `None` when it is malformed or does not fit in
/// `u32`.
pub open spec fn spec_parse_timestamp(b: Seq<u8>) -> Option<u32> {
    match ts_value_from(b, 0, 0, 0, 0) {
        Some(v) => if v <= u32::MAX {
            Some(v as u32)
        } else {
            None
        },
        None => None,
    }
}

proof fn lemma_frac_nonneg(b: Seq<u8>, i: int, fraction: int, digits: int)
    requires
        fraction >= 0,
    ensures
        ts_frac(b, i, fraction, digits) matches Some((f, d)) ==> f >= 0,
    decreases b.len() - i,
{
    if 0 <= i < b.len() && is_digit_byte(b[i]) {
        if digits < 3 {
            lemma_frac_nonneg(b, i + 1, fraction * 10 + (b[i] - 48), digits + 1);
        } else {
            lemma_frac_nonneg(b, i + 1, fraction, digits);
        }
    }
}

proof fn lemma_whole_bound(b: Seq<u8>, i: int, accum: int, current: int, colons: int)
    requires
        accum >= 0,
        current >= 0,
    ensures
        ts_whole(b, i, accum, current, colons) matches Some((s, j, h)) ==> s >= accum + current,
        ts_value_from(b, i, accum, current, colons) matches Some(v) ==> v >= accum + current,
    decreases b.len() - i,
{
    if 0 <= i < b.len() {
        let c = b[i];
        if is_digit_byte(c) {
            lemma_whole_bound(b, i + 1, accum, current * 10 + (c - 48), colons);
        } else if c == 58 && colons < 2 {
            lemma_whole_bound(b, i + 1, (accum + current) * 60, 0, colons + 1);
        }
    }
    if let Some((s, j, h)) = ts_whole(b, i, accum, current, colons) {
        if h {
            lemma_frac_nonneg(b, j, 0, 0);
        }
    }
}

/// Reads a timestamp such as `1:03:36.120`, `3:36.12` or `10.254` into milliseconds, in the
/// shapes that Apple Music writes: at most two colons, digits only, at most three fraction
/// digits taken into account.
pub fn parse_timestamp(bytes: &[u8]) -> (r: Option<u32>)
    ensures
        r == spec_parse_timestamp(bytes@),
{
    let ghost b = bytes@;
    let mut accum: u64 = 0;
    let mut current: u64 = 0;
    let mut colons: u64 = 0;
    let mut i: usize = 0;
    let mut has_fraction = false;
    while i < bytes.len()
        invariant_except_break
            i <= bytes.len(),
            b == bytes@,
            accum <= u32::MAX,
            current <= u32::MAX,
            colons <= 2,
            !has_fraction,
            ts_whole(b, i as int, accum as int, current as int, colons as int) == ts_whole(
                b,
                0,
                0,
                0,
                0,
            ),
        ensures
            i <= bytes.len(),
            accum <= u32::MAX,
            current <= u32::MAX,
            has_fraction ==> ts_whole(b, 0, 0, 0, 0) == Some((accum as int, i as int, true)),
            !has_fraction ==> ts_whole(b, 0, 0, 0, 0) == Some(
                (accum + current, i as int, false),
            ) && i == bytes.len(),
        decreases bytes.len() - i,
    {
        let c = bytes[i];
        if 48 <= c && c <= 57 {
            current = current * 10 + (c - 48) as u64;
            if current > 0xffff_ffff {
                proof {
                    lemma_whole_bound(b, i + 1, accum as int, current as int, colons as int);
                }
                return None;
            }
        } else if c == 58 {
            if colons >= 2 {
                return None;
            }
            let sum = accum + current;
            if sum > 0xffff_ffff {
                proof {
                    lemma_whole_bound(b, i + 1, (accum + current) * 60, 0, colons + 1);
                }
                return None;
            }
            accum = sum * 60;
            current = 0;
            colons = colons + 1;
            if accum > 0xffff_ffff {
                proof {
                    lemma_whole_bound(b, i + 1, accum as int, 0, colons as int);
                }
                return None;
            }
        } else if c == 46 {
            let sum = accum + current;
            if sum > 0xffff_ffff {
                proof {
                    lemma_frac_nonneg(b, i + 1, 0, 0);
                }
                return None;
            }
            accum = sum;
            has_fraction = true;
            i = i + 1;
            break;
        } else {
            return None;
        }
        i = i + 1;
    }
    proof {
        if has_fraction {
            lemma_frac_nonneg(b, i as int, 0, 0);
        }
    }
    if !has_fraction {
        let sum = accum + current;
        if sum > 0xffff_ffff {
            return None;
        }
        accum = sum;
    }
    let mut fraction: u64 = 0;
    let mut digits: u64 = 0;
    if has_fraction {
        let start = i;
        while i < bytes.len()
            invariant
                start <= i <= bytes.len(),
                b == bytes@,
                digits <= 3,
                fraction < 1000,
                digits == 0 ==> fraction == 0,
                digits == 1 ==> fraction < 10,
                digits == 2 ==> fraction < 100,
                ts_frac(b, start as int, 0, 0) == ts_frac(b, i as int, fraction as int, digits as int),
                ts_whole(b, 0, 0, 0, 0) == Some((accum as int, start as int, true)),
            decreases bytes.len() - i,
        {
            let c = bytes[i];
            if 48 <= c && c <= 57 {
                if digits < 3 {
                    fraction = fraction * 10 + (c - 48) as u64;
                    digits = digits + 1;
                }
            } else {
                assert(ts_frac(b, i as int, fraction as int, digits as int) is None);
                assert(ts_value_from(b, 0, 0, 0, 0) is None);
                return None;
            }
            i = i + 1;
        }
        if digits == 1 {
            fraction = fraction * 100;
        } else if digits == 2 {
            fraction = fraction * 10;
        }
    }
    let total = fraction + accum * 1000;
    if total > 0xffff_ffff {
        None
    } else {
        Some(total as u32)
    }
}

/// The decimal digits of `n`.
pub open spec fn dec(n: nat) -> Seq<char>
    decreases n,
{
    if n < 10 {
        seq![digit_char(n)]
    } else {
        dec(n / 10).push(digit_char(n % 10))
    }
}

/// The character of a decimal digit.
pub open spec fn digit_char(d: nat) -> char {
    ((d + 48) as u8) as char
}

/// `n` on two digits (`{:02}`), for `n < 100`.
pub open spec fn pad2(n: nat) -> Seq<char> {
    if n < 10 {
        seq!['0'] + dec(n)
    } else {
        dec(n)
    }
}

/// `n` on three digits (`{:03}`), for `n < 1000`.
pub open spec fn pad3(n: nat) -> Seq<char> {
    if n < 10 {
        seq!['0', '0'] + dec(n)
    } else if n < 100 {
        seq!['0'] + dec(n)
    } else {
        dec(n)
    }
}

/// The TTML text of a time in milliseconds: `s.mmm`, `m:ss.mmm` or `h:mm:ss.mmm`, with the
/// hours and minutes only where they are not zero.
pub open spec fn spec_format_timestamp(t: u32) -> Seq<char> {
    let ms = (t % 1000) as nat;
    let secs = ((t / 1000) % 60) as nat;
    let mins = ((t / 60000) % 60) as nat;
    let hours = (t / 3600000) as nat;
    if hours > 0 {
        dec(hours) + seq![':'] + pad2(mins) + seq![':'] + pad2(secs) + seq!['.'] + pad3(ms)
    } else if mins > 0 {
        dec(mins) + seq![':'] + pad2(secs) + seq!['.'] + pad3(ms)
    } else {
        dec(secs) + seq!['.'] + pad3(ms)
    }
}

/// Appends the decimal digits of `n`.
pub fn push_dec(v: &mut Vec<char>, n: u32)
    ensures
        final(v)@ == old(v)@ + dec(n as nat),
    decreases n,
{
    if n >= 10 {
        push_dec(v, n / 10);
    }
    let d = (n % 10) as u8;
    v.push((d + 48) as char);
    proof {
        if n >= 10 {
            assert(dec(n as nat) == dec((n / 10) as nat).push(digit_char((n % 10) as nat)));
        }
    }
}

/// Writes a time in milliseconds as a TTML timestamp.
pub fn format_timestamp(total_ms: u32) -> (s: String)
    ensures
        s@ == spec_format_timestamp(total_ms),
{
    let ms = total_ms % 1000;
    let total_seconds = total_ms / 1000;
    let secs = total_seconds % 60;
    let total_minutes = total_seconds / 60;
    let mins = total_minutes % 60;
    let hours = total_minutes / 60;
    assert(total_minutes == total_ms / 60000);
    assert(hours == total_ms / 3600000);
    let mut v: Vec<char> = Vec::new();
    if hours > 0 {
        push_dec(&mut v, hours);
        v.push(':');
        if mins < 10 {
            v.push('0');
        }
        push_dec(&mut v, mins);
        v.push(':');
    } else if mins > 0 {
        push_dec(&mut v, mins);
        v.push(':');
    }
    if (hours > 0 || mins > 0) && secs < 10 {
        v.push('0');
    }
    push_dec(&mut v, secs);
    v.push('.');
    if ms < 100 {
        v.push('0');
    }
    if ms < 10 {
        v.push('0');
    }
    push_dec(&mut v, ms);
    assert(v@ =~= spec_format_timestamp(total_ms));
    crate::text::string_from_chars(&v, 0, v.len())
}

/// Appends the decimal digits of `n`.
pub fn push_dec_usize(v: &mut Vec<char>, n: usize)
    ensures
        final(v)@ == old(v)@ + dec(n as nat),
    decreases n,
{
    if n >= 10 {
        push_dec_usize(v, n / 10);
    }
    let d = (n % 10) as u8;
    v.push((d + 48) as char);
    proof {
        if n >= 10 {
            assert(dec(n as nat) == dec((n / 10) as nat).push(digit_char((n % 10) as nat)));
        }
    }
}

/// The id of the `n`-th line: `L` and the decimal digits of `n`.
pub open spec fn line_key(n: nat) -> Seq<char> {
    seq!['L'] + dec(n)
}

/// Writes the id of the `n`-th line, such as `L3`.
pub fn line_key_string(n: usize) -> (s: String)
    ensures
        s@ == line_key(n as nat),
{
    let mut v: Vec<char> = Vec::new();
    v.push('L');
    push_dec_usize(&mut v, n);
    assert(v@ =~= line_key(n as nat));
    crate::text::string_from_chars(&v, 0, v.len())
}

/// Appends the decimal digits of `n`.
pub fn push_dec_u64(v: &mut Vec<char>, n: u64)
    ensures
        final(v)@ == old(v)@ + dec(n as nat),
    decreases n,
{
    if n >= 10 {
        push_dec_u64(v, n / 10);
    }
    let d = (n % 10) as u8;
    v.push((d + 48) as char);
    proof {
        if n >= 10 {
            assert(dec(n as nat) == dec((n / 10) as nat).push(digit_char((n % 10) as nat)));
        }
    }
}

/// The value of decimal digits read left to right, from the value `cur` read so far.
pub open spec fn fold_digits(cur: int, d: Seq<char>) -> int
    decreases d.len(),
{
    if d.len() == 0 {
        cur
    } else {
        fold_digits(cur * 10 + (d[0] as int - 48), d.drop_first())
    }
}

/// Whether all characters are decimal digits.
pub open spec fn all_dec_digits(d: Seq<char>) -> bool {
    forall|j: int| 0 <= j < d.len() ==> '0' <= #[trigger] d[j] <= '9'
}

proof fn lemma_fold_concat(cur: int, x: Seq<char>, y: Seq<char>)
    ensures
        fold_digits(cur, x + y) == fold_digits(fold_digits(cur, x), y),
    decreases x.len(),
{
    if x.len() > 0 {
        assert((x + y).drop_first() =~= x.drop_first() + y);
        lemma_fold_concat(cur * 10 + (x[0] as int - 48), x.drop_first(), y);
    } else {
        assert(x + y =~= y);
    }
}

proof fn lemma_digit_char(d: nat)
    requires
        d < 10,
    ensures
        digit_char(d) as int == d + 48,
        '0' <= digit_char(d) <= '9',
{
}

proof fn lemma_fold_small(cur: int, c: char)
    ensures
        fold_digits(cur, seq![c]) == cur * 10 + (c as int - 48),
        fold_digits(0, seq!['0']) == 0,
        fold_digits(0, seq!['0', '0']) == 0,
{
    reveal_with_fuel(fold_digits, 3);
    assert(seq![c].drop_first() =~= Seq::<char>::empty());
    assert(seq!['0'].drop_first() =~= Seq::<char>::empty());
    assert(seq!['0', '0'].drop_first() =~= seq!['0']);
}

proof fn lemma_digits_concat(x: Seq<char>, y: Seq<char>)
    requires
        all_dec_digits(x),
        all_dec_digits(y),
    ensures
        all_dec_digits(x + y),
{
    assert forall|j: int| 0 <= j < (x + y).len() implies '0' <= #[trigger] (x + y)[j] <= '9' by {
        if j < x.len() {
            assert((x + y)[j] == x[j]);
        } else {
            assert((x + y)[j] == y[j - x.len()]);
        }
    }
}

proof fn lemma_dec(n: nat)
    ensures
        fold_digits(0, dec(n)) == n,
        all_dec_digits(dec(n)),
        n < 10 ==> dec(n).len() == 1,
        10 <= n < 100 ==> dec(n).len() == 2,
        100 <= n < 1000 ==> dec(n).len() == 3,
        dec(n).len() >= 1,
    decreases n,
{
    if n < 10 {
        lemma_digit_char(n);
        lemma_fold_small(0, digit_char(n));
    } else {
        lemma_dec(n / 10);
        lemma_digit_char(n % 10);
        let c = digit_char(n % 10);
        assert(dec(n) =~= dec(n / 10) + seq![c]);
        lemma_fold_concat(0, dec(n / 10), seq![c]);
        lemma_fold_small((n / 10) as int, c);
        lemma_digits_concat(dec(n / 10), seq![c]);
    }
}

proof fn lemma_pad(n: nat)
    ensures
        n < 100 ==> fold_digits(0, pad2(n)) == n && all_dec_digits(pad2(n)) && pad2(n).len() == 2,
        n < 1000 ==> fold_digits(0, pad3(n)) == n && all_dec_digits(pad3(n)) && pad3(n).len() == 3,
{
    lemma_dec(n);
    lemma_fold_small(0, '0');
    lemma_fold_concat(0, seq!['0'], dec(n));
    lemma_fold_concat(0, seq!['0', '0'], dec(n));
    lemma_digits_concat(seq!['0'], dec(n));
    lemma_digits_concat(seq!['0', '0'], dec(n));
}

/// Reading the digits `d`, written at `b[i..]`, from the value `cur` on.
proof fn lemma_whole_digits(b: Seq<u8>, i: int, d: Seq<char>, accum: int, cur: int, colons: int)
    requires
        0 <= i,
        i + d.len() <= b.len(),
        all_dec_digits(d),
        forall|j: int| 0 <= j < d.len() ==> b[i + j] == (#[trigger] d[j]) as u8,
    ensures
        ts_whole(b, i, accum, cur, colons) == ts_whole(b, i + d.len(), accum, fold_digits(cur, d), colons),
    decreases d.len(),
{
    if d.len() > 0 {
        assert(b[i] == d[0] as u8);
        assert('0' <= d[0] <= '9');
        assert(is_digit_byte(b[i]));
        let d2 = d.drop_first();
        assert forall|j: int| 0 <= j < d2.len() implies b[i + 1 + j] == (#[trigger] d2[j]) as u8 by {
            assert(b[i + (j + 1)] == d[j + 1] as u8);
        }
        lemma_whole_digits(b, i + 1, d2, accum, cur * 10 + (b[i] - 48), colons);
    }
}

/// The milliseconds of the three fraction digits `d`, which end `b`.
proof fn lemma_frac_digits(b: Seq<u8>, i: int, d: Seq<char>)
    requires
        0 <= i,
        i + 3 == b.len(),
        d.len() == 3,
        all_dec_digits(d),
        forall|j: int| 0 <= j < 3 ==> b[i + j] == (#[trigger] d[j]) as u8,
    ensures
        ts_frac(b, i, 0, 0) == Some((fold_digits(0, d), 3int)),
{
    reveal_with_fuel(ts_frac, 5);
    reveal_with_fuel(fold_digits, 4);
    assert(b[i] == d[0] as u8 && b[i + 1] == d[1] as u8 && b[i + 2] == d[2] as u8);
    assert('0' <= d[0] <= '9' && '0' <= d[1] <= '9' && '0' <= d[2] <= '9');
    assert(d.drop_first().drop_first().drop_first() =~= Seq::<char>::empty());
    assert(d.drop_first()[0] == d[1]);
    assert(d.drop_first().drop_first()[0] == d[2]);
}

/// The components of a time in milliseconds put back together.
proof fn lemma_ts_arith(t: u32)
    ensures
        (t % 1000) as int + ((((t / 3600000) as int * 60 + ((t / 60000) % 60) as int) * 60 + ((t / 1000)
            % 60) as int) * 1000) == t,
        (t / 60000) == (t / 1000) / 60,
        (t / 3600000) == (t / 60000) / 60,
{
    assert((t / 60000) == (t / 1000) / 60) by (nonlinear_arith);
    assert((t / 3600000) == (t / 60000) / 60) by (nonlinear_arith);
    vstd::arithmetic::div_mod::lemma_fundamental_div_mod(t as int, 1000);
    vstd::arithmetic::div_mod::lemma_fundamental_div_mod((t / 1000) as int, 60);
    vstd::arithmetic::div_mod::lemma_fundamental_div_mod((t / 60000) as int, 60);
}

/// A written timestamp reads back as the same time: `parse_timestamp` on the bytes that
/// `format_timestamp` gives for `t` yields `t`, for every `t`.
pub proof fn lemma_timestamp_roundtrip(t: u32)
    ensures
        spec_parse_timestamp(encode_utf8(spec_format_timestamp(t))) == Some(t),
{
    let ms = (t % 1000) as nat;
    let secs = ((t / 1000) % 60) as nat;
    let mins = ((t / 60000) % 60) as nat;
    let hours = (t / 3600000) as nat;
    let s = spec_format_timestamp(t);
    lemma_ts_arith(t);
    lemma_dec(hours);
    lemma_dec(mins);
    lemma_dec(secs);
    lemma_pad(mins);
    lemma_pad(secs);
    lemma_pad(ms);
    let tail = seq!['.'] + pad3(ms);
    let d_s = if hours > 0 || mins > 0 {
        pad2(secs)
    } else {
        dec(secs)
    };
    let sec_part = d_s + tail;
    let whole = if hours > 0 {
        dec(hours) + seq![':'] + pad2(mins) + seq![':']
    } else if mins > 0 {
        dec(mins) + seq![':']
    } else {
        Seq::<char>::empty()
    };
    assert(s =~= whole + sec_part);
    assert(is_ascii_chars(s)) by {
        assert forall|j: int| 0 <= j < s.len() implies '\0' <= #[trigger] s[j] <= '\u{7f}' by {
            if hours > 0 {
                let a = dec(hours);
                let m = pad2(mins);
                if j < a.len() {
                    assert(s[j] == a[j]);
                } else if j == a.len() || j == a.len() + 3 || j == a.len() + 6 {
                } else if j < a.len() + 3 {
                    assert(s[j] == m[j - a.len() - 1]);
                } else if j < a.len() + 6 {
                    assert(s[j] == pad2(secs)[j - a.len() - 4]);
                } else {
                    assert(s[j] == pad3(ms)[j - a.len() - 7]);
                }
            } else if mins > 0 {
                let a = dec(mins);
                if j < a.len() {
                    assert(s[j] == a[j]);
                } else if j == a.len() || j == a.len() + 3 {
                } else if j < a.len() + 3 {
                    assert(s[j] == pad2(secs)[j - a.len() - 1]);
                } else {
                    assert(s[j] == pad3(ms)[j - a.len() - 4]);
                }
            } else {
                let a = dec(secs);
                if j < a.len() {
                    assert(s[j] == a[j]);
                } else if j == a.len() {
                } else {
                    assert(s[j] == pad3(ms)[j - a.len() - 1]);
                }
            }
        }
    }
    is_ascii_chars_encode_utf8(s);
    let b = encode_utf8(s);
    assert forall|j: int| 0 <= j < s.len() implies b[j] == (#[trigger] s[j]) as u8 by {}
    let n = s.len() as int;
    let k3 = n - 4;
    assert(s[k3] == '.');
    assert(b[k3] == 46);
    assert forall|j: int| 0 <= j < 3 implies b[k3 + 1 + j] == (#[trigger] pad3(ms)[j]) as u8 by {
        assert(s[k3 + 1 + j] == pad3(ms)[j]);
    }
    lemma_frac_digits(b, k3 + 1, pad3(ms));
    let ds_start = k3 - d_s.len();
    assert forall|j: int| 0 <= j < d_s.len() implies b[ds_start + j] == (#[trigger] d_s[j]) as u8 by {
        assert(s[ds_start + j] == d_s[j]);
    }
    if hours > 0 {
        let a = dec(hours);
        let al = a.len() as int;
        assert forall|j: int| 0 <= j < a.len() implies b[0 + j] == (#[trigger] a[j]) as u8 by {
            assert(s[j] == a[j]);
        }
        lemma_whole_digits(b, 0, a, 0, 0, 0);
        assert(b[al] == 58) by {
            assert(s[al] == ':');
        }
        assert forall|j: int| 0 <= j < 2 implies b[al + 1 + j] == (#[trigger] pad2(mins)[j]) as u8 by {
            assert(s[al + 1 + j] == pad2(mins)[j]);
        }
        lemma_whole_digits(b, al + 1, pad2(mins), (hours as int) * 60, 0, 1);
        assert(b[al + 3] == 58) by {
            assert(s[al + 3] == ':');
        }
        assert(ds_start == al + 4);
        lemma_whole_digits(b, al + 4, d_s, ((hours as int) * 60 + (mins as int)) * 60, 0, 2);
    } else if mins > 0 {
        let a = dec(mins);
        let al = a.len() as int;
        assert forall|j: int| 0 <= j < a.len() implies b[0 + j] == (#[trigger] a[j]) as u8 by {
            assert(s[j] == a[j]);
        }
        lemma_whole_digits(b, 0, a, 0, 0, 0);
        assert(b[al] == 58) by {
            assert(s[al] == ':');
        }
        assert(ds_start == al + 1);
        lemma_whole_digits(b, al + 1, d_s, (mins as int) * 60, 0, 1);
    } else {
        assert(ds_start == 0);
        lemma_whole_digits(b, 0, d_s, 0, 0, 0);
    }
}


/// Reading the whole part stops at the first `.`: two texts that agree up to and including
/// a `.` at `w.len()` read the same whole part, ending at or before that `.`.
proof fn lemma_whole_upto_dot(w: Seq<u8>, s1: Seq<u8>, s2: Seq<u8>, i: int, accum: int, current: int, colons: int)
    requires
        0 <= i <= w.len(),
        s1.len() > 0,
        s2.len() > 0,
        s1[0] == 46,
        s2[0] == 46,
    ensures
        ts_whole(w + s1, i, accum, current, colons) == ts_whole(w + s2, i, accum, current, colons),
        ts_whole(w + s1, i, accum, current, colons) matches Some((_, j, h)) ==> h && i < j <= w.len() + 1,
    decreases w.len() - i,
{
    let b1 = w + s1;
    let b2 = w + s2;
    if i == w.len() {
        assert(b1[i] == 46 && b2[i] == 46);
    } else {
        assert(b1[i] == w[i] && b2[i] == w[i]);
        let c = w[i];
        if is_digit_byte(c) {
            lemma_whole_upto_dot(w, s1, s2, i + 1, accum, current * 10 + (c - 48), colons);
        } else if c == 58 && colons < 2 {
            lemma_whole_upto_dot(w, s1, s2, i + 1, (accum + current) * 60, 0, colons + 1);
        }
    }
}

/// A fraction with a non-digit ahead of it cannot be read.
proof fn lemma_frac_stops(b: Seq<u8>, i: int, fraction: int, digits: int, m: int)
    requires
        0 <= i <= m < b.len(),
        !is_digit_byte(b[m]),
    ensures
        ts_frac(b, i, fraction, digits) is None,
    decreases m - i,
{
    if i < m && is_digit_byte(b[i]) {
        if digits < 3 {
            lemma_frac_stops(b, i + 1, fraction * 10 + (b[i] - 48), digits + 1, m);
        } else {
            lemma_frac_stops(b, i + 1, fraction, digits, m);
        }
    }
}

/// Two timestamps that differ only in their fractions, each readable after the first `.`,
/// which the whole part `w` does not hold, or both unreadable.
proof fn lemma_same_whole_part(w: Seq<u8>, s1: Seq<u8>, s2: Seq<u8>)
    requires
        s1.len() > 0,
        s2.len() > 0,
        s1[0] == 46,
        s2[0] == 46,
        ts_frac(w + s1, w.len() as int + 1, 0, 0) matches Some((f1, d1)) && ts_frac(w + s2, w.len() as int + 1, 0, 0) matches Some((f2, d2)) && frac_ms(f1, d1) == frac_ms(f2, d2),
    ensures
        spec_parse_timestamp(w + s1) == spec_parse_timestamp(w + s2),
{
    lemma_whole_upto_dot(w, s1, s2, 0, 0, 0, 0);
    if let Some((secs, j, h)) = ts_whole(w + s1, 0, 0, 0, 0) {
        if j <= w.len() {
            assert((w + s1)[w.len() as int] == 46);
            assert((w + s2)[w.len() as int] == 46);
            lemma_frac_stops(w + s1, j, 0, 0, w.len() as int);
            lemma_frac_stops(w + s2, j, 0, 0, w.len() as int);
        }
    }
}

/// A fraction of two digits `.d1d2` counts as many milliseconds as `.d1d20`, whatever the
/// whole part before it: two digits are hundredths of a second.
pub proof fn lemma_two_digit_fraction(w: Seq<u8>, d1: u8, d2: u8)
    requires
        is_digit_byte(d1),
        is_digit_byte(d2),
    ensures
        spec_parse_timestamp(w + seq![46u8, d1, d2]) == spec_parse_timestamp(w + seq![46u8, d1, d2, 48u8]),
{
    let s1 = seq![46u8, d1, d2];
    let s2 = seq![46u8, d1, d2, 48u8];
    let b1 = w + s1;
    let b2 = w + s2;
    let j: int = w.len() as int + 1;
    assert(b1[j] == d1 && b1[j + 1] == d2 && b1.len() == j + 2);
    assert(b2[j] == d1 && b2[j + 1] == d2 && b2[j + 2] == 48 && b2.len() == j + 3);
    reveal_with_fuel(ts_frac, 4);
    assert(ts_frac(b1, j, 0, 0) == Some(((d1 - 48) * 10 + (d2 - 48), 2int)));
    assert(ts_frac(b2, j, 0, 0) == Some((((d1 - 48) * 10 + (d2 - 48)) * 10, 3int)));
    lemma_same_whole_part(w, s1, s2);
}

/// A fraction of one digit `.d` counts as many milliseconds as `.d00`, whatever the whole
/// part before it: one digit is tenths of a second.
pub proof fn lemma_one_digit_fraction(w: Seq<u8>, d: u8)
    requires
        is_digit_byte(d),
    ensures
        spec_parse_timestamp(w + seq![46u8, d]) == spec_parse_timestamp(w + seq![46u8, d, 48u8, 48u8]),
{
    let s1 = seq![46u8, d];
    let s2 = seq![46u8, d, 48u8, 48u8];
    let b1 = w + s1;
    let b2 = w + s2;
    let j: int = w.len() as int + 1;
    assert(b1[j] == d && b1.len() == j + 1);
    assert(b2[j] == d && b2[j + 1] == 48 && b2[j + 2] == 48 && b2.len() == j + 3);
    reveal_with_fuel(ts_frac, 4);
    assert(ts_frac(b1, j, 0, 0) == Some(((d - 48) as int, 1int)));
    assert(ts_frac(b2, j, 0, 0) == Some((((d - 48) * 10) * 10, 3int)));
    lemma_same_whole_part(w, s1, s2);
}


/// Whether the text holds no `.`.
pub open spec fn no_dot(w: Seq<u8>) -> bool {
    forall|j: int| 0 <= j < w.len() ==> #[trigger] w[j] != 46
}

/// Reading the whole part of `w` followed by a `.`: as far as `w` goes, then the fraction
/// starts right after the `.`.
proof fn lemma_whole_then_dot(w: Seq<u8>, s: Seq<u8>, i: int, accum: int, current: int, colons: int)
    requires
        0 <= i <= w.len(),
        no_dot(w),
        s.len() > 0,
        s[0] == 46,
    ensures
        ts_whole(w + s, i, accum, current, colons) == match ts_whole(w, i, accum, current, colons) {
            Some((x, _, _)) => Some((x, w.len() as int + 1, true)),
            None => None,
        },
        ts_whole(w, i, accum, current, colons) matches Some((_, j, h)) ==> !h && j == w.len(),
    decreases w.len() - i,
{
    let b = w + s;
    if i == w.len() {
        assert(b[i] == 46);
    } else {
        assert(b[i] == w[i]);
        assert(w[i] != 46);
        let c = w[i];
        if is_digit_byte(c) {
            lemma_whole_then_dot(w, s, i + 1, accum, current * 10 + (c - 48), colons);
        } else if c == 58 && colons < 2 {
            lemma_whole_then_dot(w, s, i + 1, (accum + current) * 60, 0, colons + 1);
        }
    }
}

/// Digits past the third of a fraction leave it as it is.
proof fn lemma_frac_extra_digits(b: Seq<u8>, i: int, fraction: int)
    requires
        0 <= i <= b.len(),
        forall|j: int| i <= j < b.len() ==> is_digit_byte(#[trigger] b[j]),
    ensures
        ts_frac(b, i, fraction, 3) == Some((fraction, 3int)),
    decreases b.len() - i,
{
    if i < b.len() {
        lemma_frac_extra_digits(b, i + 1, fraction);
    }
}

/// A three-digit fraction `.d1d2d3` after a whole part `w` without a `.` adds its
/// milliseconds to the time that `w` alone gives; a time that does not fit in `u32` gives
/// none, and so does an unreadable `w`.
pub proof fn lemma_three_digit_fraction(w: Seq<u8>, d1: u8, d2: u8, d3: u8)
    requires
        no_dot(w),
        is_digit_byte(d1),
        is_digit_byte(d2),
        is_digit_byte(d3),
    ensures
        spec_parse_timestamp(w + seq![46u8, d1, d2, d3]) == match spec_parse_timestamp(w) {
            Some(v) => {
                let t = v + (d1 - 48) * 100 + (d2 - 48) * 10 + (d3 - 48);
                if t <= u32::MAX {
                    Some(t as u32)
                } else {
                    None
                }
            },
            None => None,
        },
{
    let s = seq![46u8, d1, d2, d3];
    let b = w + s;
    let j: int = w.len() as int + 1;
    lemma_whole_then_dot(w, s, 0, 0, 0, 0);
    lemma_whole_bound(w, 0, 0, 0, 0);
    assert(b[j] == d1 && b[j + 1] == d2 && b[j + 2] == d3 && b.len() == j + 3);
    reveal_with_fuel(ts_frac, 4);
    assert(ts_frac(b, j, 0, 0) == Some((((d1 - 48) * 10 + (d2 - 48)) * 10 + (d3 - 48), 3int)));
}

/// Only three digits of a fraction count: more digits after them change nothing.
pub proof fn lemma_fraction_digits_past_third(w: Seq<u8>, d1: u8, d2: u8, d3: u8, more: Seq<u8>)
    requires
        is_digit_byte(d1),
        is_digit_byte(d2),
        is_digit_byte(d3),
        forall|j: int| 0 <= j < more.len() ==> is_digit_byte(#[trigger] more[j]),
    ensures
        spec_parse_timestamp(w + (seq![46u8, d1, d2, d3] + more)) == spec_parse_timestamp(w + seq![46u8, d1, d2, d3]),
{
    let s1 = seq![46u8, d1, d2, d3] + more;
    let s2 = seq![46u8, d1, d2, d3];
    let b1 = w + s1;
    let b2 = w + s2;
    let j: int = w.len() as int + 1;
    assert(b1[j] == d1 && b1[j + 1] == d2 && b1[j + 2] == d3 && b1.len() == j + 3 + more.len());
    assert(b2[j] == d1 && b2[j + 1] == d2 && b2[j + 2] == d3 && b2.len() == j + 3);
    let f = ((d1 - 48) * 10 + (d2 - 48)) * 10 + (d3 - 48);
    assert forall|m: int| j + 3 <= m < b1.len() implies is_digit_byte(#[trigger] b1[m]) by {
        assert(b1[m] == more[m - j - 3]);
    }
    lemma_frac_extra_digits(b1, j + 3, f);
    lemma_frac_extra_digits(b2, j + 3, f);
    reveal_with_fuel(ts_frac, 4);
    assert(ts_frac(b1, j, 0, 0) == ts_frac(b1, j + 3, f, 3));
    assert(ts_frac(b2, j, 0, 0) == ts_frac(b2, j + 3, f, 3));
    lemma_same_whole_part(w, s1, s2);
}


/// The number of `:` in the text from position `i` on.
pub open spec fn colons_from(x: Seq<u8>, i: int) -> int
    decreases x.len() - i,
{
    if i < 0 || i >= x.len() {
        0
    } else {
        colons_from(x, i + 1) + if x[i] == 58 {
            1int
        } else {
            0int
        }
    }
}

/// The value of decimal digits read left to right, from the value `c` read so far.
pub open spec fn digits_from(c: int, y: Seq<u8>) -> int
    decreases y.len(),
{
    if y.len() == 0 {
        c
    } else {
        digits_from(c * 10 + (y[0] - 48), y.drop_first())
    }
}

/// Reading the whole part of `x` and then a `:`: the seconds of `x`, times sixty, carry on
/// to what follows, unless that `:` is one too many.
proof fn lemma_whole_then_colon(x: Seq<u8>, s: Seq<u8>, i: int, accum: int, current: int, colons: int)
    requires
        0 <= i <= x.len(),
        no_dot(x),
        s.len() > 0,
        s[0] == 58,
    ensures
        ts_whole(x + s, i, accum, current, colons) == match ts_whole(x, i, accum, current, colons) {
            Some((v, _, _)) => if colons + colons_from(x, i) < 2 {
                ts_whole(x + s, x.len() as int + 1, v * 60, 0, colons + colons_from(x, i) + 1)
            } else {
                None
            },
            None => None,
        },
    decreases x.len() - i,
{
    let b = x + s;
    if i == x.len() {
        assert(b[i] == 58);
    } else {
        assert(b[i] == x[i]);
        assert(x[i] != 46);
        let c = x[i];
        if is_digit_byte(c) {
            lemma_whole_then_colon(x, s, i + 1, accum, current * 10 + (c - 48), colons);
        } else if c == 58 && colons < 2 {
            lemma_whole_then_colon(x, s, i + 1, (accum + current) * 60, 0, colons + 1);
        }
    }
}

/// Digits to the end of the text add their value to the current component.
proof fn lemma_whole_digits_to_end(b: Seq<u8>, i: int, accum: int, current: int, colons: int)
    requires
        0 <= i <= b.len(),
        forall|j: int| i <= j < b.len() ==> is_digit_byte(#[trigger] b[j]),
    ensures
        ts_whole(b, i, accum, current, colons) == Some((accum + digits_from(current, b.subrange(i, b.len() as int)), b.len() as int, false)),
    decreases b.len() - i,
{
    let t = b.subrange(i, b.len() as int);
    if i < b.len() {
        assert(t[0] == b[i]);
        assert(t.drop_first() =~= b.subrange(i + 1, b.len() as int));
        lemma_whole_digits_to_end(b, i + 1, accum, current * 10 + (b[i] - 48), colons);
    } else {
        assert(t.len() == 0);
    }
}

/// A `:` multiplies what comes before it by sixty: reading `x:y`, with `y` only digits and
/// `x` without a `.` and with at most one `:`, gives sixty times the time of `x` plus the
/// time of `y`, when it fits in `u32`.
pub proof fn lemma_colon_is_sixty(x: Seq<u8>, y: Seq<u8>)
    requires
        no_dot(x),
        colons_from(x, 0) <= 1,
        forall|j: int| 0 <= j < y.len() ==> is_digit_byte(#[trigger] y[j]),
    ensures
        spec_parse_timestamp(x + (seq![58u8] + y)) == match (spec_parse_timestamp(x), spec_parse_timestamp(y)) {
            (Some(a), Some(b)) => if a * 60 + b <= u32::MAX {
                Some((a * 60 + b) as u32)
            } else {
                None
            },
            _ => None,
        },
{
    let s = seq![58u8] + y;
    let b = x + s;
    lemma_whole_then_colon(x, s, 0, 0, 0, 0);
    lemma_whole_then_dot(x, seq![46u8], 0, 0, 0, 0);
    lemma_whole_bound(x, 0, 0, 0, 0);
    assert forall|j: int| x.len() as int + 1 <= j < b.len() implies is_digit_byte(#[trigger] b[j]) by {
        assert(b[j] == y[j - x.len() - 1]);
    }
    assert(b.subrange(x.len() as int + 1, b.len() as int) =~= y);
    assert(y.subrange(0, y.len() as int) =~= y);
    lemma_whole_digits_to_end(y, 0, 0, 0, 0);
    if let Some((v, _, _)) = ts_whole(x, 0, 0, 0, 0) {
        lemma_whole_digits_to_end(b, x.len() as int + 1, v * 60, 0, colons_from(x, 0) + 1);
        lemma_digits_nonneg(0, y);
    }
}

proof fn lemma_digits_nonneg(c: int, y: Seq<u8>)
    requires
        c >= 0,
        forall|j: int| 0 <= j < y.len() ==> is_digit_byte(#[trigger] y[j]),
    ensures
        digits_from(c, y) >= 0,
    decreases y.len(),
{
    if y.len() > 0 {
        assert(is_digit_byte(y[0]));
        assert forall|j: int| 0 <= j < y.drop_first().len() implies is_digit_byte(#[trigger] y.drop_first()[j]) by {
            assert(y.drop_first()[j] == y[j + 1]);
        }
        lemma_digits_nonneg(c * 10 + (y[0] - 48), y.drop_first());
    }
}

} // verus!
