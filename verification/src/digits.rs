//! Decimal and lower-case hexadecimal renderings of unsigned integers, as
//! `{}` and `{:x}` print them.

use vstd::prelude::*;
use vstd::arithmetic::div_mod::{lemma_div_decreases, lemma_fundamental_div_mod, lemma_small_mod};

use crate::text::{digit_value, push_char};

verus! {

/// The character that stands for the digit `d` (`0`-`9`, then `a`-`f`).
pub open spec fn digit_char(d: nat) -> char {
    if d == 0 { '0' }
    else if d == 1 { '1' }
    else if d == 2 { '2' }
    else if d == 3 { '3' }
    else if d == 4 { '4' }
    else if d == 5 { '5' }
    else if d == 6 { '6' }
    else if d == 7 { '7' }
    else if d == 8 { '8' }
    else if d == 9 { '9' }
    else if d == 10 { 'a' }
    else if d == 11 { 'b' }
    else if d == 12 { 'c' }
    else if d == 13 { 'd' }
    else if d == 14 { 'e' }
    else { 'f' }
}

/// The digits of `n` written in base `base`, most significant first, without
/// leading zeros (`0` is written as a single `0`).
pub open spec fn radix_digits(n: nat, base: nat) -> Seq<char>
    decreases n,
{
    if base < 2 || n < base {
        seq![digit_char(n)]
    } else {
        proof {
            lemma_div_decreases(n as int, base as int);
        }
        radix_digits(n / base, base).push(digit_char(n % base))
    }
}

/// `n` in decimal.
pub open spec fn decimal(n: nat) -> Seq<char> {
    radix_digits(n, 10)
}

/// `n` in lower-case hexadecimal.
pub open spec fn hex(n: nat) -> Seq<char> {
    radix_digits(n, 16)
}

/// A decimal digit character.
pub open spec fn is_decimal_char(c: char) -> bool {
    '0' <= c && c <= '9'
}

/// A lower-case hexadecimal digit character.
pub open spec fn is_hex_char(c: char) -> bool {
    ('0' <= c && c <= '9') || ('a' <= c && c <= 'f')
}

fn digit_char_exec(d: u64) -> (c: char)
    requires
        d < 16,
    ensures
        c == digit_char(d as nat),
{
    if d == 0 { '0' }
    else if d == 1 { '1' }
    else if d == 2 { '2' }
    else if d == 3 { '3' }
    else if d == 4 { '4' }
    else if d == 5 { '5' }
    else if d == 6 { '6' }
    else if d == 7 { '7' }
    else if d == 8 { '8' }
    else if d == 9 { '9' }
    else if d == 10 { 'a' }
    else if d == 11 { 'b' }
    else if d == 12 { 'c' }
    else if d == 13 { 'd' }
    else if d == 14 { 'e' }
    else { 'f' }
}

/// Appends the digits of `n` in base `base` to `out`.
pub fn push_radix(out: &mut String, n: u64, base: u64)
    requires
        2 <= base <= 16,
    ensures
        final(out)@ == old(out)@ + radix_digits(n as nat, base as nat),
    decreases n,
{
    let ghost start = out@;
    if n >= base {
        proof {
            lemma_div_decreases(n as int, base as int);
        }
        push_radix(out, n / base, base);
    }
    let d = digit_char_exec(n % base);
    push_char(out, d);
    proof {
        if n >= base {
            assert(radix_digits(n as nat, base as nat) == radix_digits((n / base) as nat, base as nat).push(d));
            assert(out@ =~= start + radix_digits((n / base) as nat, base as nat).push(d));
        } else {
            lemma_small_mod(n as nat, base as nat);
            assert(out@ =~= start + seq![d]);
        }
    }
}

/// Appends `n` in decimal to `out`, as `{}` prints it.
pub fn push_decimal(out: &mut String, n: u64)
    ensures
        final(out)@ == old(out)@ + decimal(n as nat),
{
    push_radix(out, n, 10);
}

/// Appends `n` in lower-case hexadecimal to `out`, as `{:x}` prints it.
pub fn push_hex(out: &mut String, n: u64)
    ensures
        final(out)@ == old(out)@ + hex(n as nat),
{
    push_radix(out, n, 16);
}

/// `n` in decimal.
pub fn to_decimal(n: u64) -> (r: String)
    ensures
        r@ == decimal(n as nat),
{
    let mut r = String::new();
    push_decimal(&mut r, n);
    assert(r@ =~= decimal(n as nat));
    r
}

/// `n` in lower-case hexadecimal.
pub fn to_hex(n: u64) -> (r: String)
    ensures
        r@ == hex(n as nat),
{
    let mut r = String::new();
    push_hex(&mut r, n);
    assert(r@ =~= hex(n as nat));
    r
}

/// Every rendering has at least one digit, and more than one exactly when
/// the number is at least the base.
pub proof fn lemma_radix_digits_len(n: nat, base: nat)
    requires
        2 <= base,
    ensures
        radix_digits(n, base).len() >= 1,
        n >= base ==> radix_digits(n, base).len() >= 2,
    decreases n,
{
    if n >= base {
        lemma_div_decreases(n as int, base as int);
        lemma_radix_digits_len(n / base, base);
    }
}

/// In bases up to ten only decimal digits occur; in bases up to sixteen
/// only hexadecimal ones.
pub proof fn lemma_radix_digits_chars(n: nat, base: nat)
    requires
        2 <= base <= 16,
    ensures
        forall|i: int| 0 <= i < radix_digits(n, base).len() ==> is_hex_char(#[trigger] radix_digits(n, base)[i]),
        base <= 10 ==> forall|i: int| 0 <= i < radix_digits(n, base).len() ==> is_decimal_char(#[trigger] radix_digits(n, base)[i]),
    decreases n,
{
    if n >= base {
        lemma_div_decreases(n as int, base as int);
        lemma_radix_digits_chars(n / base, base);
        let r = radix_digits(n, base);
        let p = radix_digits(n / base, base);
        assert(r == p.push(digit_char(n % base)));
        assert forall|i: int| 0 <= i < r.len() implies is_hex_char(#[trigger] r[i]) by {
            if i < p.len() {
                assert(r[i] == p[i]);
            }
        }
        if base <= 10 {
            assert forall|i: int| 0 <= i < r.len() implies is_decimal_char(#[trigger] r[i]) by {
                if i < p.len() {
                    assert(r[i] == p[i]);
                }
            }
        }
    }
}

/// Different numbers have different renderings in the same base.
pub proof fn lemma_radix_digits_injective(n: nat, m: nat, base: nat)
    requires
        2 <= base <= 16,
        radix_digits(n, base) == radix_digits(m, base),
    ensures
        n == m,
    decreases n,
{
    lemma_radix_digits_len(n, base);
    lemma_radix_digits_len(m, base);
    let rn = radix_digits(n, base);
    let rm = radix_digits(m, base);
    if n < base && m < base {
        assert(rn[0] == digit_char(n));
        assert(rm[0] == digit_char(m));
    } else if n >= base && m >= base {
        lemma_div_decreases(n as int, base as int);
        assert(rn.last() == digit_char(n % base));
        assert(rm.last() == digit_char(m % base));
        assert(rn.drop_last() =~= radix_digits(n / base, base));
        assert(rm.drop_last() =~= radix_digits(m / base, base));
        lemma_radix_digits_injective(n / base, m / base, base);
        lemma_fundamental_div_mod(n as int, base as int);
        lemma_fundamental_div_mod(m as int, base as int);
    } else {
        lemma_radix_digits_len(n / base, base);
        lemma_radix_digits_len(m / base, base);
    }
}

/// The number that the digit characters `s` stand for in base `base`, each
/// character read by its digit value (`0`-`9`, then `a`-`z` from ten on).
pub open spec fn digits_value(s: Seq<char>, base: int) -> int
    decreases s.len(),
{
    if s.len() == 0 {
        0
    } else {
        base * digits_value(s.drop_last(), base) + digit_value(s.last())
    }
}

proof fn lemma_digit_char_value(d: nat)
    requires
        d < 16,
    ensures
        digit_value(digit_char(d)) == d,
{
}

/// The rendering of `n` in base `base` reads back as `n`: every character is
/// a digit below the base, and together they stand for `n`.
pub proof fn lemma_radix_digits_read_back(n: nat, base: nat)
    requires
        2 <= base <= 16,
    ensures
        forall|i: int| 0 <= i < radix_digits(n, base).len() ==> 0 <= digit_value(#[trigger] radix_digits(n, base)[i]) < base,
        digits_value(radix_digits(n, base), base as int) == n,
    decreases n,
{
    let r = radix_digits(n, base);
    if n < base {
        lemma_digit_char_value(n);
        assert(r.drop_last() =~= Seq::<char>::empty());
        assert(digits_value(r.drop_last(), base as int) == 0);
        assert(base * 0 == 0) by (nonlinear_arith);
        assert(r.last() == digit_char(n));
    } else {
        lemma_div_decreases(n as int, base as int);
        lemma_radix_digits_read_back(n / base, base);
        let p = radix_digits(n / base, base);
        lemma_small_mod((n % base) as nat, base);
        lemma_digit_char_value(n % base);
        assert(r.drop_last() =~= p);
        assert forall|i: int| 0 <= i < r.len() implies 0 <= digit_value(#[trigger] r[i]) < base by {
            if i < p.len() {
                assert(r[i] == p[i]);
            }
        }
        lemma_fundamental_div_mod(n as int, base as int);
        assert(r.last() == digit_char(n % base));
        assert(digits_value(r, base as int) == base * digits_value(p, base as int) + digit_value(r.last()));
    }
}

/// `hex(n)` is made of the characters `0`-`9` and `a`-`f` and reads back in
/// base sixteen as `n`.
pub proof fn lemma_hex_reads_back(n: nat)
    ensures
        forall|i: int| 0 <= i < hex(n).len() ==> is_hex_char(#[trigger] hex(n)[i]),
        hex(n).len() >= 1,
        digits_value(hex(n), 16) == n,
{
    lemma_radix_digits_chars(n, 16);
    lemma_radix_digits_len(n, 16);
    lemma_radix_digits_read_back(n, 16);
}

/// `decimal(n)` is made of the characters `0`-`9` and reads back in base ten
/// as `n`.
pub proof fn lemma_decimal_reads_back(n: nat)
    ensures
        forall|i: int| 0 <= i < decimal(n).len() ==> is_decimal_char(#[trigger] decimal(n)[i]),
        decimal(n).len() >= 1,
        digits_value(decimal(n), 10) == n,
{
    lemma_radix_digits_chars(n, 10);
    lemma_radix_digits_len(n, 10);
    lemma_radix_digits_read_back(n, 10);
}

/// `s` is a lower-case hexadecimal numeral of `n`.
pub open spec fn is_hex_of(s: Seq<char>, n: nat) -> bool {
    &&& s.len() >= 1
    &&& forall|i: int| 0 <= i < s.len() ==> is_hex_char(#[trigger] s[i])
    &&& digits_value(s, 16) == n
}

/// `s` is a decimal numeral of `n`.
pub open spec fn is_decimal_of(s: Seq<char>, n: nat) -> bool {
    &&& s.len() >= 1
    &&& forall|i: int| 0 <= i < s.len() ==> is_decimal_char(#[trigger] s[i])
    &&& digits_value(s, 10) == n
}

} // verus!
