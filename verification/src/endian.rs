//! 64-bit numbers as eight bytes, most significant first: the form in
//! which identifiers are part of keys, so that the keys sort as the
//! numbers do.

use vstd::prelude::*;
use crate::bytes::{differ_at, lex_lt};

verus! {

/// 256 to the power of `w`.
pub open spec fn pow256(w: nat) -> nat
    decreases w,
{
    if w == 0 {
        1
    } else {
        256 * pow256((w - 1) as nat)
    }
}

/// The `w` least significant bytes of `n`, most significant first.
pub open spec fn be_digits(n: nat, w: nat) -> Seq<u8>
    decreases w,
{
    if w == 0 {
        Seq::empty()
    } else {
        be_digits(n / 256, (w - 1) as nat).push((n % 256) as u8)
    }
}

/// The number that bytes stand for, most significant first.
pub open spec fn be_value(s: Seq<u8>) -> nat
    decreases s.len(),
{
    if s.len() == 0 {
        0
    } else {
        be_value(s.drop_last()) * 256 + s.last() as nat
    }
}

/// The eight bytes of `n`, most significant first.
pub open spec fn be_bytes(n: u64) -> Seq<u8> {
    be_digits(n as nat, 8)
}

/// The 64-bit number that `s` stands for if it has eight bytes, and 0
/// else.
pub open spec fn be_number(s: Seq<u8>) -> u64 {
    if s.len() == 8 {
        (be_value(s) % 0x1_0000_0000_0000_0000) as u64
    } else {
        0
    }
}

/// The digits of a number are as many as asked for.
pub proof fn lemma_be_digits_len(n: nat, w: nat)
    ensures
        be_digits(n, w).len() == w,
    decreases w,
{
    if w > 0 {
        lemma_be_digits_len(n / 256, (w - 1) as nat);
    }
}

/// The digits of a number that fits stand for the number.
pub proof fn lemma_be_value_of_digits(n: nat, w: nat)
    requires
        n < pow256(w),
    ensures
        be_value(be_digits(n, w)) == n,
    decreases w,
{
    if w > 0 {
        let s = be_digits(n, w);
        assert(s.drop_last() =~= be_digits(n / 256, (w - 1) as nat));
        lemma_be_value_of_digits(n / 256, (w - 1) as nat);
    }
}

/// Bytes stand for a number below 256 to the power of their count.
pub proof fn lemma_be_value_bound(s: Seq<u8>)
    ensures
        be_value(s) < pow256(s.len()),
    decreases s.len(),
{
    if s.len() > 0 {
        lemma_be_value_bound(s.drop_last());
    }
}

/// 256 to the power of 8 is 2 to the power of 64.
pub proof fn lemma_pow256_8()
    ensures
        pow256(8) == 0x1_0000_0000_0000_0000,
{
    reveal_with_fuel(pow256, 9);
}

/// Writing a number and reading it back gives the number.
pub proof fn lemma_be_round_trip(n: u64)
    ensures
        be_bytes(n).len() == 8,
        be_number(be_bytes(n)) == n,
{
    lemma_pow256_8();
    lemma_be_digits_len(n as nat, 8);
    lemma_be_value_of_digits(n as nat, 8);
}

/// The digits of a smaller number come first in byte order.
pub proof fn lemma_be_digits_ordered(a: nat, b: nat, w: nat)
    requires
        a < b < pow256(w),
    ensures
        lex_lt(be_digits(a, w), be_digits(b, w)),
    decreases w,
{
    if w > 0 {
        let x = be_digits(a, w);
        let y = be_digits(b, w);
        let v = (w - 1) as nat;
        lemma_be_digits_len(a, w);
        lemma_be_digits_len(b, w);
        lemma_be_digits_len(a / 256, v);
        lemma_be_digits_len(b / 256, v);
        if a / 256 < b / 256 {
            lemma_be_digits_ordered(a / 256, b / 256, v);
            let i = choose|i: int|
                #[trigger] differ_at(be_digits(a / 256, v), be_digits(b / 256, v), i);
            assert(differ_at(x, y, i));
        } else {
            assert(a / 256 == b / 256);
            assert(differ_at(x, y, w - 1));
        }
    }
}

/// Keys that end in the bytes of numbers sort as the numbers do.
pub proof fn lemma_be_bytes_ordered(a: u64, b: u64)
    requires
        a < b,
    ensures
        lex_lt(be_bytes(a), be_bytes(b)),
{
    lemma_pow256_8();
    lemma_be_digits_ordered(a as nat, b as nat, 8);
}

/// The eight bytes of `n`, most significant first.
pub fn u64_to_be(n: u64) -> (r: Vec<u8>)
    ensures
        r@ == be_bytes(n),
        r@.len() == 8,
{
    let mut reversed: Vec<u8> = Vec::new();
    let mut rest: u64 = n;
    let ghost mut low: Seq<u8> = Seq::empty();
    let mut i: usize = 0;
    assert(be_digits(rest as nat, 8) + low =~= be_digits(n as nat, 8));
    while i < 8
        invariant
            0 <= i <= 8,
            low.len() == i,
            reversed@.len() == i,
            forall|j: int| 0 <= j < i ==> low[j] == reversed@[i - 1 - j],
            be_digits(n as nat, 8) == be_digits(rest as nat, (8 - i) as nat) + low,
        decreases 8 - i,
    {
        let digit: u8 = (rest % 256) as u8;
        reversed.push(digit);
        proof {
            let low2 = seq![digit] + low;
            assert(be_digits(rest as nat, (8 - i) as nat) + low =~= be_digits(
                (rest / 256) as nat,
                (8 - i - 1) as nat,
            ) + low2);
            low = low2;
        }
        rest = rest / 256;
        i = i + 1;
    }
    let ghost digits = be_digits(n as nat, 8);
    assert(digits =~= low);
    let mut r: Vec<u8> = Vec::new();
    let mut k: usize = 8;
    while k > 0
        invariant
            0 <= k <= 8,
            digits.len() == 8,
            reversed@.len() == 8,
            forall|j: int| 0 <= j < 8 ==> digits[j] == reversed@[7 - j],
            r@ == digits.take(8 - k),
        decreases k,
    {
        k = k - 1;
        r.push(reversed[k]);
        assert(r@ =~= digits.take(8 - k));
    }
    assert(digits.take(8) =~= digits);
    r
}

/// The number that `s` stands for if it has eight bytes, and 0 else.
pub fn u64_from_be(s: &[u8]) -> (r: u64)
    ensures
        r == be_number(s@),
{
    if s.len() != 8 {
        return 0;
    }
    let mut value: u64 = 0;
    let mut i: usize = 0;
    assert(s@.take(0) =~= Seq::<u8>::empty());
    while i < 8
        invariant
            0 <= i <= 8,
            s@.len() == 8,
            value == be_value(s@.take(i as int)),
        decreases 8 - i,
    {
        proof {
            assert(s@.take(i + 1).drop_last() =~= s@.take(i as int));
            assert(s@.take(i + 1).last() == s@[i as int]);
            lemma_be_value_bound(s@.take(i as int));
            lemma_be_value_bound(s@.take(i + 1));
            lemma_pow256_8();
            lemma_pow256_grows((i + 1) as nat, 8);
        }
        value = value * 256 + s[i] as u64;
        i = i + 1;
    }
    proof {
        assert(s@.take(8) =~= s@);
        lemma_be_value_bound(s@);
        lemma_pow256_8();
    }
    value
}

/// A larger power is not smaller.
pub proof fn lemma_pow256_grows(v: nat, w: nat)
    requires
        v <= w,
    ensures
        pow256(v) <= pow256(w),
    decreases w,
{
    if v < w {
        lemma_pow256_grows(v, (w - 1) as nat);
    }
}

} // verus!
