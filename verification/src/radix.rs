//! Positional numerals: the digits of a number in a radix, and their value.

use vstd::prelude::*;
use crate::error::ErrorKind;

verus! {

/// The ASCII plus sign, which may stand before the digits of a numeral.
pub const PLUS: u8 = 0x2b;

/// The character that writes the digit `d`: `0`-`9`, then `A`-`Z`.
pub open spec fn digit_char(d: nat) -> u8 {
    if d < 10 {
        (0x30 + d) as u8
    } else {
        (0x41 + d - 10) as u8
    }
}

/// The digit that a character writes: `0`-`9`, `a`-`z` and `A`-`Z` stand for
/// 0 to 35; every other byte gives 36, which no radix accepts.
pub open spec fn digit_value(c: u8) -> nat {
    if 0x30 <= c <= 0x39 {
        (c - 0x30) as nat
    } else if 0x41 <= c <= 0x5a {
        (c - 0x41 + 10) as nat
    } else if 0x61 <= c <= 0x7a {
        (c - 0x61 + 10) as nat
    } else {
        36
    }
}

/// Every byte of `s` is a digit of the radix.
pub open spec fn all_digits(s: Seq<u8>, radix: nat) -> bool {
    forall|i: int| 0 <= i < s.len() ==> digit_value(#[trigger] s[i]) < radix
}

/// The number that a digit string writes, most significant digit first.
pub open spec fn digits_value(s: Seq<u8>, radix: nat) -> nat
    decreases s.len(),
{
    if s.len() == 0 {
        0
    } else {
        digits_value(s.drop_last(), radix) * radix + digit_value(s.last())
    }
}

/// The digits of `n` in the radix, without leading zeros; zero is one `0`.
pub open spec fn digits(n: nat, radix: nat) -> Seq<u8>
    decreases n,
    via digits_decreases
{
    if radix < 2 || n < radix {
        seq![digit_char(n)]
    } else {
        digits(n / radix, radix).push(digit_char(n % radix))
    }
}

#[via_fn]
proof fn digits_decreases(n: nat, radix: nat) {
    if !(radix < 2 || n < radix) {
        lemma_quotient(n, radix);
    }
}

/// Dividing by a radix makes a number smaller and loses only the last digit.
pub proof fn lemma_quotient(n: nat, radix: nat)
    requires
        radix >= 2,
    ensures
        n % radix < radix,
        (n / radix) * radix + n % radix == n,
        n >= radix ==> 0 < n / radix < n,
        n < radix ==> n / radix == 0 && n % radix == n,
{
    assert(n % radix < radix && (n / radix) * radix + n % radix == n && (n >= radix ==> 0 < n
        / radix < n) && (n < radix ==> n / radix == 0 && n % radix == n)) by (nonlinear_arith)
        requires
            radix >= 2,
    ;
}

/// `k` zero digits.
pub open spec fn zeros(k: nat) -> Seq<u8> {
    Seq::new(k, |i: int| 0x30u8)
}

/// `d`, with zero digits before it so that its length is a multiple of `unit`.
pub open spec fn padded(d: Seq<u8>, unit: nat) -> Seq<u8>
    recommends
        unit > 0,
{
    zeros(((unit - d.len() % unit) % (unit as int)) as nat) + d
}

/// A numeral without its optional leading plus sign.
pub open spec fn unsigned_body(s: Seq<u8>) -> Seq<u8> {
    if s.len() > 0 && s[0] == PLUS {
        s.skip(1)
    } else {
        s
    }
}

/// `s` is a numeral of the radix: an optional plus sign, then one digit or more.
pub open spec fn is_numeral(s: Seq<u8>, radix: nat) -> bool {
    unsigned_body(s).len() > 0 && all_digits(unsigned_body(s), radix)
}

/// What parsing `s` as a numeral of the radix gives, for numbers up to `max`:
/// a character that is no digit (or no digit at all) is a radix error whatever
/// the magnitude, and a well-formed numeral above `max` is an overflow.
pub open spec fn parse_radix_spec(s: Seq<u8>, radix: nat, max: nat) -> Result<nat, ErrorKind> {
    if !is_numeral(s, radix) {
        Err(ErrorKind::RadixParse)
    } else if digits_value(unsigned_body(s), radix) > max {
        Err(ErrorKind::Overflow)
    } else {
        Ok(digits_value(unsigned_body(s), radix))
    }
}

/// The character of a digit writes that digit, and is no plus sign.
pub proof fn lemma_digit_char_value(d: nat)
    requires
        d < 36,
    ensures
        digit_value(digit_char(d)) == d,
        digit_char(d) != PLUS,
{
}

/// Appending a digit multiplies the value by the radix and adds the digit.
pub proof fn lemma_value_push(s: Seq<u8>, c: u8, radix: nat)
    ensures
        digits_value(s.push(c), radix) == digits_value(s, radix) * radix + digit_value(c),
{
    assert(s.push(c).drop_last() =~= s);
}

/// The digits of a number are digits of the radix, at least one, none of them a sign.
pub proof fn lemma_digits_wellformed(n: nat, radix: nat)
    requires
        2 <= radix <= 36,
    ensures
        digits(n, radix).len() > 0,
        all_digits(digits(n, radix), radix),
        digits(n, radix)[0] != PLUS,
    decreases n,
{
    if n < radix {
        lemma_digit_char_value(n);
    } else {
        lemma_quotient(n, radix);
        lemma_digits_wellformed(n / radix, radix);
        lemma_digit_char_value(n % radix);
        let d = digits(n / radix, radix);
        let c = digit_char(n % radix);
        assert forall|i: int| 0 <= i < d.push(c).len() implies digit_value(
            #[trigger] d.push(c)[i],
        ) < radix by {
            if i < d.len() {
                assert(d.push(c)[i] == d[i]);
            }
        }
    }
}

/// The digits of a number write that number.
pub proof fn lemma_digits_value(n: nat, radix: nat)
    requires
        2 <= radix <= 36,
    ensures
        digits_value(digits(n, radix), radix) == n,
    decreases n,
{
    if n < radix {
        lemma_digit_char_value(n);
        lemma_value_push(Seq::<u8>::empty(), digit_char(n), radix);
        assert(Seq::<u8>::empty().push(digit_char(n)) =~= seq![digit_char(n)]);
        assert(digits_value(Seq::<u8>::empty(), radix) == 0);
        assert(0 * radix == 0);
    } else {
        lemma_quotient(n, radix);
        lemma_digits_value(n / radix, radix);
        lemma_digit_char_value(n % radix);
        lemma_value_push(digits(n / radix, radix), digit_char(n % radix), radix);
    }
}

/// Leading zeros change neither the value of a digit string nor its being one.
pub proof fn lemma_leading_zeros(k: nat, d: Seq<u8>, radix: nat)
    requires
        2 <= radix <= 36,
    ensures
        digits_value(zeros(k) + d, radix) == digits_value(d, radix),
        all_digits(d, radix) ==> all_digits(zeros(k) + d, radix),
    decreases d.len(), k,
{
    let z = zeros(k);
    if d.len() > 0 {
        lemma_leading_zeros(k, d.drop_last(), radix);
        assert((z + d).drop_last() =~= z + d.drop_last());
        assert((z + d).last() == d.last());
    } else if k > 0 {
        lemma_leading_zeros((k - 1) as nat, d, radix);
        assert(z + d =~= z);
        assert(zeros((k - 1) as nat) + d =~= zeros((k - 1) as nat));
        assert(z.drop_last() =~= zeros((k - 1) as nat));
        assert(digits_value(z, radix) == digits_value(z.drop_last(), radix) * radix + 0);
    } else {
        assert(z + d =~= d);
    }
    if all_digits(d, radix) {
        assert forall|i: int| 0 <= i < (z + d).len() implies digit_value(#[trigger] (z + d)[i])
            < radix by {
            if i >= k {
                assert((z + d)[i] == d[i - k]);
            }
        }
    }
}

/// Parsing the digits of a number, padded or not, gives the number back.
pub proof fn lemma_parse_digits(n: nat, radix: nat, unit: nat, max: nat)
    requires
        2 <= radix <= 36,
        unit > 0,
        n <= max,
    ensures
        parse_radix_spec(digits(n, radix), radix, max) == Ok::<nat, ErrorKind>(n),
        parse_radix_spec(padded(digits(n, radix), unit), radix, max) == Ok::<nat, ErrorKind>(n),
{
    let d = digits(n, radix);
    let k = ((unit - d.len() % unit) % (unit as int)) as nat;
    lemma_digits_wellformed(n, radix);
    lemma_digits_value(n, radix);
    lemma_leading_zeros(k, d, radix);
    let p = padded(d, unit);
    assert(p[0] != PLUS) by {
        if k > 0 {
            assert(p[0] == zeros(k)[0]);
        } else {
            assert(p[0] == d[0]);
        }
    }
}

/// The length of a padded digit string is a multiple of the unit.
pub proof fn lemma_padded_len(d: Seq<u8>, unit: nat)
    requires
        unit > 0,
    ensures
        padded(d, unit).len() % unit == 0,
        padded(d, unit).len() >= d.len(),
{
    let l = d.len();
    let k = ((unit - l % unit) % (unit as int)) as nat;
    assert((k + l) % unit == 0) by (nonlinear_arith)
        requires
            unit > 0,
            k == ((unit - l % unit) % (unit as int)) as nat,
    ;
}

/// The digit that a character writes, and 36 where it writes none.
pub fn digit_of(c: u8) -> (d: u32)
    ensures
        d == digit_value(c),
{
    if 0x30 <= c && c <= 0x39 {
        (c - 0x30) as u32
    } else if 0x41 <= c && c <= 0x5a {
        (c - 0x41) as u32 + 10
    } else if 0x61 <= c && c <= 0x7a {
        (c - 0x61) as u32 + 10
    } else {
        36
    }
}

/// The character that writes a digit.
pub fn char_of(d: u32) -> (c: u8)
    requires
        d < 36,
    ensures
        c == digit_char(d as nat),
{
    if d < 10 {
        0x30 + d as u8
    } else {
        0x41 + (d - 10) as u8
    }
}

/// Appends the digits of `n` in the radix to `buf`.
pub fn push_digits(n: u128, radix: u32, buf: &mut Vec<u8>)
    requires
        2 <= radix <= 36,
    ensures
        final(buf)@ == old(buf)@ + digits(n as nat, radix as nat),
    decreases n,
{
    let r = radix as u128;
    proof {
        lemma_quotient(n as nat, radix as nat);
    }
    if n >= r {
        push_digits(n / r, radix, buf);
    }
    let ghost before = buf@;
    let c = char_of((n % r) as u32);
    buf.push(c);
    proof {
        let high = digits((n / r) as nat, radix as nat);
        assert(c == digit_char((n as nat) % (radix as nat)));
        if n >= r {
            assert(before == old(buf)@ + high);
            assert(digits(n as nat, radix as nat) == high.push(c));
            assert(before.push(c) =~= old(buf)@ + high.push(c));
        } else {
            assert(digits(n as nat, radix as nat) == seq![c]);
            assert(before.push(c) =~= old(buf)@ + seq![c]);
        }
    }
}

/// The digits of `n` in the radix, without leading zeros.
pub fn to_digits(n: u128, radix: u32) -> (r: Vec<u8>)
    requires
        2 <= radix <= 36,
    ensures
        r@ == digits(n as nat, radix as nat),
{
    let mut r: Vec<u8> = Vec::new();
    push_digits(n, radix, &mut r);
    assert(r@ =~= digits(n as nat, radix as nat));
    r
}

/// The digits of `n` in the radix, with leading zeros up to the next multiple
/// of `unit` digits.
pub fn to_padded_digits(n: u128, radix: u32, unit: usize) -> (r: Vec<u8>)
    requires
        2 <= radix <= 36,
        unit > 0,
    ensures
        r@ == padded(digits(n as nat, radix as nat), unit as nat),
{
    let mut d = to_digits(n, radix);
    let k: usize = (unit - d.len() % unit) % unit;
    let mut r: Vec<u8> = Vec::new();
    let mut i: usize = 0;
    while i < k
        invariant
            i <= k,
            r@ == zeros(i as nat),
        decreases k - i,
    {
        r.push(0x30);
        i += 1;
        assert(r@ =~= zeros(i as nat));
    }
    r.append(&mut d);
    r
}

/// Parses a numeral of the radix: an optional plus sign, then digits. The whole
/// text is read before a magnitude above `max` is reported, so a character that
/// is no digit is a radix error wherever it stands.
pub fn parse_radix(s: &[u8], radix: u32, max: u128) -> (r: Result<u128, ErrorKind>)
    requires
        2 <= radix <= 36,
    ensures
        match r {
            Ok(v) => parse_radix_spec(s@, radix as nat, max as nat) == Ok::<nat, ErrorKind>(
                v as nat,
            ),
            Err(k) => parse_radix_spec(s@, radix as nat, max as nat) == Err::<nat, ErrorKind>(k),
        },
{
    let start: usize = if s.len() > 0 && s[0] == PLUS {
        1
    } else {
        0
    };
    let ghost body = unsigned_body(s@);
    if start == s.len() {
        return Err(ErrorKind::RadixParse);
    }
    let mut acc: u128 = 0;
    let mut over = false;
    let mut i: usize = start;
    assert(body.take(0) =~= Seq::<u8>::empty());
    while i < s.len()
        invariant
            2 <= radix <= 36,
            start <= i <= s.len(),
            body == unsigned_body(s@),
            body.len() == s.len() - start,
            forall|j: int| 0 <= j < body.len() ==> body[j] == s@[j + start],
            all_digits(body.take(i - start), radix as nat),
            !over ==> acc == digits_value(body.take(i - start), radix as nat) && acc <= max,
            over ==> digits_value(body.take(i - start), radix as nat) > max,
        decreases s.len() - i,
    {
        let d = digit_of(s[i]);
        let ghost seen = body.take(i - start);
        let ghost next = body.take(i + 1 - start);
        proof {
            assert(next =~= seen.push(body[i - start]));
            lemma_value_push(seen, body[i - start], radix as nat);
        }
        if d >= radix {
            assert(!all_digits(body, radix as nat)) by {
                assert(digit_value(body[i - start]) >= radix);
            }
            return Err(ErrorKind::RadixParse);
        }
        assert(all_digits(next, radix as nat)) by {
            assert forall|j: int| 0 <= j < next.len() implies digit_value(#[trigger] next[j])
                < radix by {
                if j < seen.len() {
                    assert(next[j] == seen[j]);
                }
            }
        }
        if !over {
            proof {
                lemma_step_fits(acc as nat, d as nat, radix as nat, max as nat);
            }
            if d as u128 > max || acc > (max - d as u128) / (radix as u128) {
                over = true;
            } else {
                acc = acc * (radix as u128) + d as u128;
            }
        } else {
            assert(digits_value(next, radix as nat) >= digits_value(seen, radix as nat))
                by (nonlinear_arith)
                requires
                    digits_value(next, radix as nat) == digits_value(seen, radix as nat) * (
                    radix as nat) + d as nat,
                    radix >= 2,
            ;
        }
        i += 1;
    }
    assert(body.take(i - start) =~= body);
    if over {
        Err(ErrorKind::Overflow)
    } else {
        Ok(acc)
    }
}

/// Whether one more digit keeps a number within `max`.
proof fn lemma_step_fits(acc: nat, d: nat, radix: nat, max: nat)
    requires
        radix >= 2,
    ensures
        d <= max && acc <= (max - d) / (radix as int) <==> acc * radix + d <= max,
{
    if d <= max {
        let m = (max - d) as nat;
        lemma_quotient(m, radix);
        assert(acc <= m / radix <==> acc * radix <= m) by (nonlinear_arith)
            requires
                radix >= 2,
                m % radix < radix,
                (m / radix) * radix + m % radix == m,
        ;
    } else {
        assert(acc * radix >= 0) by (nonlinear_arith);
    }
}

} // verus!
