//! Two-decimal fixed point. The log stores fractional quantities with two
//! decimal places, so the library carries them as integers in hundredths.
//! Parsing is deliberately lenient, mirroring the loader's treat-as-zero
//! policy for malformed numeric fields: a field is numeric when it is one or
//! more digits, optionally followed by a dot and further digits, with at most
//! twelve integer digits; anything else parses as `None` and callers
//! substitute zero. Fraction digits past the second are ignored.

use vstd::prelude::*;
use crate::digits::{
    all_digits, dec_seq, digit_char, digit_char_x, digit_val, digit_val_x, digits_val, is_digit,
    lemma_dec_seq_digits, lemma_dec_seq_len, lemma_dec_seq_val, lemma_digits_val_bound, pow10,
    push_dec,
};
use crate::fields::{first_at, lemma_first_at_is};
use vstd::arithmetic::div_mod::lemma_fundamental_div_mod;

verus! {

/// Largest value the lenient parser can produce: one hundred times a
/// twelve-digit integer part, plus two fraction digits.
pub const FIXED2_LIMIT: u64 = 100_000_000_000_000;

/// Rendering of `n` hundredths as a decimal with exactly two fraction
/// digits.
pub open spec fn fixed2_seq(n: nat) -> Seq<char> {
    dec_seq(n / 100)
        + seq!['.', digit_char((((n % 100) / 10) as int)), digit_char(((n % 100) % 10) as int)]
}

/// Value in hundredths of the first two fraction digits.
pub open spec fn frac2_val(s: Seq<char>) -> int {
    if s.len() == 0 {
        0
    } else if s.len() == 1 {
        digit_val(s[0]) * 10
    } else {
        digit_val(s[0]) * 10 + digit_val(s[1])
    }
}

/// The lenient two-decimal parse of a numeric field, in hundredths.
pub open spec fn spec_parse_fixed2(t: Seq<char>) -> Option<u64> {
    let d = first_at(t, '.') as int;
    let ip = t.take(d);
    let fp = if d < t.len() { t.skip(d + 1) } else { Seq::<char>::empty() };
    if 1 <= d <= 12 && all_digits(ip) && all_digits(fp) {
        Some((digits_val(ip) * 100 + frac2_val(fp)) as u64)
    } else {
        None
    }
}

pub proof fn lemma_pow10_mono(a: nat, b: nat)
    requires
        a <= b,
    ensures
        pow10(a) <= pow10(b),
    decreases b,
{
    if a < b {
        lemma_pow10_mono(a, (b - 1) as nat);
        assert(pow10(b) == 10 * pow10((b - 1) as nat));
        lemma_pow10_pos((b - 1) as nat);
    }
}

pub proof fn lemma_pow10_pos(n: nat)
    ensures
        pow10(n) >= 1,
    decreases n,
{
    if n > 0 {
        lemma_pow10_pos((n - 1) as nat);
    }
}

pub proof fn lemma_pow10_12()
    ensures
        pow10(12) == 1_000_000_000_000,
{
    reveal_with_fuel(pow10, 13);
}

/// Whatever the parser accepts lies below `FIXED2_LIMIT`.
pub proof fn lemma_parse_fixed2_bound(t: Seq<char>)
    ensures
        spec_parse_fixed2(t) matches Some(v) ==> v < FIXED2_LIMIT,
{
    let d = first_at(t, '.') as int;
    let ip = t.take(d);
    let fp = if d < t.len() { t.skip(d + 1) } else { Seq::<char>::empty() };
    if 1 <= d <= 12 && all_digits(ip) && all_digits(fp) {
        crate::fields::lemma_first_at(t, '.');
        lemma_digits_val_bound(ip);
        lemma_pow10_mono(ip.len(), 12);
        lemma_pow10_12();
        if fp.len() >= 1 {
            assert(is_digit(fp[0]));
        }
        if fp.len() >= 2 {
            assert(is_digit(fp[1]));
        }
    }
}

/// Rendering `n` hundredths and parsing the field back yields `n` exactly.
pub proof fn lemma_fixed2_round_trip(n: nat)
    requires
        n < FIXED2_LIMIT,
    ensures
        spec_parse_fixed2(fixed2_seq(n)) == Some(n as u64),
{
    let t = fixed2_seq(n);
    let q = n / 100;
    let r = n % 100;
    let ipd = dec_seq(q);
    lemma_dec_seq_digits(q);
    lemma_fundamental_div_mod(n as int, 100);
    lemma_pow10_12();
    lemma_dec_seq_len(q, 12);
    let d = ipd.len() as int;
    assert forall|j: int| 0 <= j < d implies t[j] != '.' by {
        assert(t[j] == ipd[j]);
        assert(is_digit(ipd[j]));
    }
    assert(t[d] == '.');
    lemma_first_at_is(t, '.', d);
    assert(t.take(d) =~= ipd);
    let fp = t.skip(d + 1);
    assert(fp =~= seq![digit_char((r / 10) as int), digit_char((r % 10) as int)]);
    crate::digits::lemma_digit_char_val((r / 10) as int);
    crate::digits::lemma_digit_char_val((r % 10) as int);
    lemma_dec_seq_val(q);
    lemma_fundamental_div_mod(r as int, 10);
    assert(frac2_val(fp) == r);
    assert(all_digits(fp));
    assert(digits_val(ipd) * 100 + frac2_val(fp) == n);
}

/// A plain digit rendering, as the hour and minute fields are written,
/// parses to its value in hundredths.
pub proof fn lemma_parse_plain_int(n: nat)
    requires
        n < 1_000_000_000_000,
    ensures
        spec_parse_fixed2(dec_seq(n)) == Some((n * 100) as u64),
{
    let t = dec_seq(n);
    lemma_dec_seq_digits(n);
    lemma_pow10_12();
    lemma_dec_seq_len(n, 12);
    assert forall|j: int| 0 <= j < t.len() implies t[j] != '.' by {
        assert(is_digit(t[j]));
    }
    lemma_first_at_is(t, '.', t.len() as int);
    assert(t.take(t.len() as int) =~= t);
    lemma_dec_seq_val(n);
}

/// A two-decimal rendering holds no delimiter.
pub proof fn lemma_fixed2_comma_free(n: nat)
    ensures
        crate::fields::comma_free(fixed2_seq(n)),
{
    let t = fixed2_seq(n);
    let ip = dec_seq(n / 100);
    lemma_dec_seq_digits(n / 100);
    assert forall|i: int| 0 <= i < t.len() implies #[trigger] t[i] != ',' by {
        if i < ip.len() {
            assert(t[i] == ip[i]);
            assert(is_digit(ip[i]));
        }
    }
}

/// A plain digit rendering holds no delimiter.
pub proof fn lemma_dec_comma_free(n: nat)
    ensures
        crate::fields::comma_free(dec_seq(n)),
{
    lemma_dec_seq_digits(n);
    assert forall|i: int| 0 <= i < dec_seq(n).len() implies #[trigger] dec_seq(n)[i] != ',' by {
        assert(is_digit(dec_seq(n)[i]));
    }
}

/// Appends the two-decimal rendering of `n` hundredths to `out`.
pub fn push_fixed2(out: &mut String, n: u64)
    ensures
        final(out)@ == old(out)@ + fixed2_seq(n as nat),
{
    push_dec(out, n / 100);
    out.push('.');
    let r: u64 = n % 100;
    out.push(digit_char_x(r / 10));
    out.push(digit_char_x(r % 10));
    assert(out@ =~= old(out)@ + fixed2_seq(n as nat));
}

/// Parses a numeric field under the lenient two-decimal policy.
pub fn parse_fixed2(s: &str) -> (r: Option<u64>)
    ensures
        r == spec_parse_fixed2(s@),
{
    let n: usize = s.unicode_len();
    // Find the first dot, if any.
    let mut d: usize = n;
    let mut j: usize = 0;
    while j < n
        invariant
            n == s@.len(),
            j <= n,
            d == n || (d < j && s@[d as int] == '.'),
            forall|k: int| 0 <= k < (if d < n { d as int } else { j as int }) ==> s@[k] != '.',
        decreases n - j,
    {
        let c = s.get_char(j);
        if c == '.' && d == n {
            d = j;
        }
        j += 1;
    }
    proof {
        lemma_first_at_is(s@, '.', d as int);
    }
    if d < 1 || d > 12 {
        return None;
    }
    let ghost ip = s@.take(d as int);
    // Integer part.
    let mut acc: u64 = 0;
    let mut i: usize = 0;
    while i < d
        invariant
            n == s@.len(),
            i <= d <= 12,
            d <= n,
            first_at(s@, '.') == d,
            ip == s@.take(d as int),
            all_digits(ip.take(i as int)),
            acc == digits_val(ip.take(i as int)),
            acc < pow10(i as nat),
        decreases d - i,
    {
        let c = s.get_char(i);
        let v: u64 = digit_val_x(c);
        if v == 10 {
            proof {
                assert(ip[i as int] == s@[i as int]);
                assert(!is_digit(ip[i as int]));
            }
            return None;
        }
        proof {
            lemma_pow10_mono(i as nat, 12);
            lemma_pow10_12();
            let p = ip.take(i as int + 1);
            assert(p.take(p.len() - 1) =~= ip.take(i as int));
            assert(p.last() == s@[i as int]);
            assert(pow10((i + 1) as nat) == 10 * pow10(i as nat));
        }
        acc = acc * 10 + v;
        i += 1;
    }
    proof {
        assert(ip.take(d as int) =~= ip);
        lemma_pow10_mono(d as nat, 12);
        lemma_pow10_12();
    }
    // Fraction part: all further characters must be digits; the first two
    // carry value, the rest only gate validity.
    let ghost fp = if (d as int) < s@.len() { s@.skip(d as int + 1) } else { Seq::<char>::empty() };
    let mut fv: u64 = 0;
    let mut k: usize = if d < n { d + 1 } else { n };
    proof {
        assert(fp.take(0) =~= Seq::<char>::empty());
    }
    while k < n
        invariant
            n == s@.len(),
            d <= n,
            1 <= d <= 12,
            first_at(s@, '.') == d,
            acc == digits_val(ip),
            all_digits(ip),
            acc < pow10(d as nat),
            ip == s@.take(d as int),
            d < n ==> d + 1 <= k <= n,
            d == n ==> k == n,
            fp == (if (d as int) < s@.len() { s@.skip(d as int + 1) } else { Seq::<char>::empty() }),
            d < n ==> all_digits(fp.take(k - d - 1)),
            d < n ==> fv == frac2_val(fp.take(k - d - 1)),
            d == n ==> fv == 0,
            fv <= 99,
        decreases n - k,
    {
        let c = s.get_char(k);
        let v: u64 = digit_val_x(c);
        proof {
            assert(d < n);
            assert(fp == s@.skip(d as int + 1));
            assert(fp.len() == n - d - 1);
            assert(fp[k - d - 1] == s@[k as int]);
        }
        if v == 10 {
            proof {
                assert(!is_digit(fp[k - d - 1]));
            }
            return None;
        }
        proof {
            let j2 = k - d - 1;
            let p = fp.take(j2 + 1);
            assert(p.take(p.len() - 1) =~= fp.take(j2));
            assert(fp[j2] == s@[k as int]);
            assert forall|m: int| 0 <= m < p.len() implies is_digit(p[m]) by {
                if m < j2 {
                    assert(p[m] == fp.take(j2)[m]);
                } else {
                    assert(p[m] == fp[j2]);
                }
            }
        }
        if k == d + 1 {
            fv = v * 10;
        } else if k == d + 2 {
            fv = fv + v;
        }
        k += 1;
    }
    proof {
        assert(ip.take(d as int) =~= ip);
        if (d as int) < s@.len() {
            assert(fp.take(fp.len() as int) =~= fp);
        } else {
            assert(frac2_val(fp) == 0);
        }
        lemma_digits_val_bound(ip);
        assert(digits_val(ip) * 100 + frac2_val(fp) == acc * 100 + fv);
    }
    Some(acc * 100 + fv)
}

} // verus!
