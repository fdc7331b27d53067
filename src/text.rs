//! Building and reading strings character by character.
use vstd::prelude::*;

verus! {

/// Appending a character to a `String` extends it by that character (documented behaviour of
/// `String::push`).
pub assume_specification[ String::push ](s: &mut String, ch: char)
    ensures
        final(s)@ == old(s)@.push(ch),
;

/// Appending a string slice to a `String` extends it by those characters (documented
/// behaviour of `String::push_str`).
pub assume_specification[ String::push_str ](s: &mut String, string: &str)
    ensures
        final(s)@ == old(s)@ + string@,
;

/// An owned copy of `s`.
pub fn owned(s: &str) -> (r: String)
    ensures
        r@ == s@,
{
    s.to_owned()
}

/// The characters of `s`, in order.
pub fn chars_of(s: &str) -> (v: Vec<char>)
    ensures
        v@ == s@,
{
    let mut v: Vec<char> = Vec::new();
    for c in it: s.chars()
        invariant
            v@ == it.seq().take(it.index() as int),
            it.seq() == s@,
            it.index() == it.seq().len() ==> v@ == s@,
    {
        proof {
            assert(it.seq().take(it.index() + 1) =~= v@.push(c));
        }
        v.push(c);
        proof {
            assert(it.index() + 1 == it.seq().len() ==> it.seq().take(it.index() + 1) =~= s@);
        }
    }
    v
}

/// The decimal digit for `d < 10`.
pub open spec fn digit_char(d: nat) -> char {
    if d == 0 { '0' } else if d == 1 { '1' } else if d == 2 { '2' } else if d == 3 { '3' }
    else if d == 4 { '4' } else if d == 5 { '5' } else if d == 6 { '6' } else if d == 7 { '7' }
    else if d == 8 { '8' } else { '9' }
}

/// The decimal representation of `v`, without leading zeros.
pub open spec fn decimal(v: nat) -> Seq<char>
    decreases v,
{
    if v < 10 {
        seq![digit_char(v)]
    } else {
        decimal(v / 10).push(digit_char(v % 10))
    }
}

/// The last `k` decimal digits of `v`, with leading zeros.
pub open spec fn padded_digits(v: nat, k: nat) -> Seq<char>
    decreases k,
{
    if k == 0 {
        seq![]
    } else {
        padded_digits(v / 10, (k - 1) as nat).push(digit_char(v % 10))
    }
}

/// `v / 10^k` written with `k` decimals (for `k > 0`).
pub open spec fn fixed_point(v: nat, k: nat) -> Seq<char> {
    decimal(v / pow10(k)) + seq!['.'] + padded_digits(v, k)
}

pub open spec fn pow10(k: nat) -> nat
    decreases k,
{
    if k == 0 { 1 } else { 10 * pow10((k - 1) as nat) }
}

/// `num / den` rounded to the nearest integer, ties to the even neighbour.
pub open spec fn div_round_even(num: nat, den: nat) -> nat {
    let q = num / den;
    let r = num % den;
    if 2 * r > den || (2 * r == den && q % 2 == 1) {
        q + 1
    } else {
        q
    }
}

fn digit(d: u128) -> (c: char)
    requires
        d < 10,
    ensures
        c == digit_char(d as nat),
{
    if d == 0 { '0' } else if d == 1 { '1' } else if d == 2 { '2' } else if d == 3 { '3' }
    else if d == 4 { '4' } else if d == 5 { '5' } else if d == 6 { '6' } else if d == 7 { '7' }
    else if d == 8 { '8' } else { '9' }
}

/// Appends the decimal representation of `v`.
pub fn push_decimal(s: &mut String, v: u128)
    ensures
        final(s)@ == old(s)@ + decimal(v as nat),
    decreases v,
{
    if v < 10 {
        s.push(digit(v));
        proof {
            assert(old(s)@ + decimal(v as nat) =~= old(s)@.push(digit_char(v as nat)));
        }
    } else {
        push_decimal(s, v / 10);
        s.push(digit(v % 10));
        proof {
            assert(old(s)@ + decimal(v as nat) =~= old(s)@ + decimal((v / 10) as nat) + seq![digit_char((v % 10) as nat)]);
        }
    }
}

fn push_padded(s: &mut String, v: u128, k: u32)
    ensures
        final(s)@ == old(s)@ + padded_digits(v as nat, k as nat),
    decreases k,
{
    if k > 0 {
        push_padded(s, v / 10, k - 1);
        s.push(digit(v % 10));
        proof {
            assert(old(s)@ + padded_digits(v as nat, k as nat) =~= old(s)@ + padded_digits((v / 10) as nat, (k - 1) as nat) + seq![digit_char((v % 10) as nat)]);
        }
    } else {
        proof {
            assert(old(s)@ + padded_digits(v as nat, 0) =~= old(s)@);
        }
    }
}

proof fn lemma_pow10_bound(k: nat)
    requires
        k <= 6,
    ensures
        1 <= pow10(k) <= 1_000_000,
    decreases k,
{
    reveal_with_fuel(pow10, 7);
    if k == 0 {
    } else if k == 1 {
    } else if k == 2 {
    } else if k == 3 {
    } else if k == 4 {
    } else if k == 5 {
    } else {
    }
}

/// `10^k`, for the small `k` that formatting needs.
pub fn pow10_exec(k: u32) -> (r: u128)
    requires
        k <= 6,
    ensures
        r == pow10(k as nat),
        1 <= r <= 1_000_000,
{
    let mut r: u128 = 1;
    let mut i: u32 = 0;
    while i < k
        invariant
            i <= k <= 6,
            r == pow10(i as nat),
        decreases k - i,
    {
        proof {
            lemma_pow10_bound(i as nat);
            lemma_pow10_bound((i + 1) as nat);
        }
        r = r * 10;
        i = i + 1;
    }
    proof {
        lemma_pow10_bound(k as nat);
    }
    r
}

/// Appends `v / 10^k` with `k` decimals.
pub fn push_fixed_point(s: &mut String, v: u128, k: u32)
    requires
        1 <= k <= 6,
    ensures
        final(s)@ == old(s)@ + fixed_point(v as nat, k as nat),
{
    let p = pow10_exec(k);
    proof {
        lemma_pow10_bound(k as nat);
    }
    push_decimal(s, v / p);
    s.push('.');
    push_padded(s, v, k);
    proof {
        assert(final(s)@ =~= old(s)@ + fixed_point(v as nat, k as nat));
    }
}

/// `num / den` rounded to the nearest integer, ties to even.
pub fn div_round_half_even(num: u128, den: u128) -> (r: u128)
    requires
        den > 0,
    ensures
        r == div_round_even(num as nat, den as nat),
{
    let q = num / den;
    let rem = num % den;
    proof {
        assert(q * den + rem == num) by (nonlinear_arith)
            requires q == num / den, rem == num % den, den > 0;
        assert(q <= num) by (nonlinear_arith)
            requires q * den + rem == num, den > 0, rem >= 0, q >= 0;
        if den >= 2 {
            assert(q * 2 <= num) by (nonlinear_arith)
                requires q * den + rem == num, den >= 2, rem >= 0, q >= 0;
        }
    }
    if rem > den - rem || (rem == den - rem && q % 2 == 1) {
        q + 1
    } else {
        q
    }
}

} // verus!
