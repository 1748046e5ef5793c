//! Unsigned numbers in decimal, as bytes and as text.

use vstd::prelude::*;

verus! {

/// The decimal digits of `n`, as ASCII bytes, without leading zeros.
pub open spec fn decimal_digits(n: nat) -> Seq<u8>
    decreases n,
{
    if n < 10 {
        seq![(48 + n) as u8]
    } else {
        decimal_digits(n / 10).push((48 + n % 10) as u8)
    }
}

/// Whether `b` is an ASCII digit.
pub open spec fn is_digit(b: u8) -> bool {
    48 <= b <= 57
}

/// Whether all bytes of `s` are ASCII digits.
pub open spec fn all_digits(s: Seq<u8>) -> bool {
    forall|i: int| 0 <= i < s.len() ==> is_digit(#[trigger] s[i])
}

/// The number that a string of digits stands for.
pub open spec fn digits_value(s: Seq<u8>) -> nat
    decreases s.len(),
{
    if s.len() == 0 {
        0
    } else {
        (digits_value(s.drop_last()) * 10 + (s.last() - 48)) as nat
    }
}

/// The digits of a number in decimal, after an optional `+`.
pub open spec fn unsigned_digits(s: Seq<u8>) -> Seq<u8> {
    if s.len() > 0 && s[0] == 43 {
        s.drop_first()
    } else {
        s
    }
}

/// The 64-bit number that `s` stands for in decimal: an optional `+`,
/// then at least one digit, and a value that fits; else `None`.
pub open spec fn decimal_value(s: Seq<u8>) -> Option<u64> {
    let d = unsigned_digits(s);
    if d.len() > 0 && all_digits(d) && digits_value(d) <= u64::MAX {
        Some(digits_value(d) as u64)
    } else {
        None
    }
}

/// The digits of a number are digits, and stand for the number.
pub proof fn lemma_decimal_digits(n: nat)
    ensures
        decimal_digits(n).len() > 0,
        all_digits(decimal_digits(n)),
        digits_value(decimal_digits(n)) == n,
        decimal_digits(n)[0] != 43,
    decreases n,
{
    if n < 10 {
        let s = decimal_digits(n);
        assert(s.drop_last() =~= Seq::<u8>::empty());
        assert(digits_value(s.drop_last()) == 0);
    } else {
        lemma_decimal_digits(n / 10);
        let s = decimal_digits(n);
        assert(s.drop_last() =~= decimal_digits(n / 10));
    }
}

/// Reading what was written gives the number again.
pub proof fn lemma_decimal_round_trip(n: u64)
    ensures
        decimal_value(decimal_digits(n as nat)) == Some(n),
{
    lemma_decimal_digits(n as nat);
}

/// A longer string of digits stands for a number that is not smaller.
proof fn lemma_digits_value_grows(s: Seq<u8>, n: int)
    requires
        0 <= n <= s.len(),
        all_digits(s),
    ensures
        digits_value(s.take(n)) <= digits_value(s),
    decreases s.len() - n,
{
    if n == s.len() {
        assert(s.take(n) =~= s);
    } else {
        lemma_digits_value_grows(s, n + 1);
        assert(s.take(n + 1).drop_last() =~= s.take(n));
        assert(is_digit(s.take(n + 1).last()));
    }
}

/// `n` in decimal, as ASCII bytes.
pub fn decimal_bytes(n: u64) -> (r: Vec<u8>)
    ensures
        r@ == decimal_digits(n as nat),
{
    let mut reversed: Vec<u8> = Vec::new();
    let mut rest: u64 = n;
    // `reversed` holds the digits below `rest`, least significant first.
    let ghost mut low: Seq<u8> = Seq::empty();
    loop
        invariant_except_break
            low.len() == reversed@.len(),
            forall|i: int| 0 <= i < low.len() ==> low[i] == reversed@[low.len() - 1 - i],
            decimal_digits(n as nat) == decimal_digits(rest as nat) + low,
        ensures
            rest < 10,
            low.len() + 1 == reversed@.len(),
            reversed@[low.len() as int] == (48 + rest) as u8,
            forall|i: int| 0 <= i < low.len() ==> low[i] == reversed@[low.len() - 1 - i],
            decimal_digits(n as nat) == decimal_digits(rest as nat) + low,
        decreases rest,
    {
        if rest < 10 {
            reversed.push(48 + rest as u8);
            break ;
        }
        let digit: u8 = 48 + (rest % 10) as u8;
        reversed.push(digit);
        proof {
            let low2 = seq![digit] + low;
            assert(decimal_digits(rest as nat) + low =~= decimal_digits((rest / 10) as nat)
                + low2);
            low = low2;
        }
        rest = rest / 10;
    }
    let mut r: Vec<u8> = Vec::new();
    let mut i: usize = reversed.len();
    let ghost digits = decimal_digits(n as nat);
    assert(digits =~= seq![(48 + rest) as u8] + low);
    while i > 0
        invariant
            0 <= i <= reversed@.len(),
            digits.len() == reversed@.len(),
            forall|j: int| 0 <= j < digits.len() ==> digits[j] == reversed@[digits.len() - 1 - j],
            r@ == digits.take(reversed@.len() - i),
        decreases i,
    {
        i = i - 1;
        r.push(reversed[i]);
        assert(r@ =~= digits.take(reversed@.len() - i));
    }
    assert(digits.take(digits.len() as int) =~= digits);
    r
}

/// The 64-bit number that `s` stands for in decimal, if it stands for
/// one: see [`decimal_value`].
pub fn parse_decimal(s: &[u8]) -> (r: Option<u64>)
    ensures
        r == decimal_value(s@),
{
    let start: usize = if s.len() > 0 && s[0] == 43 { 1 } else { 0 };
    let ghost d = unsigned_digits(s@);
    assert(d =~= s@.subrange(start as int, s@.len() as int));
    if start == s.len() {
        return None;
    }
    let mut value: u64 = 0;
    let mut i: usize = start;
    assert(d.take(0) =~= Seq::<u8>::empty());
    while i < s.len()
        invariant
            start <= i <= s@.len(),
            d == unsigned_digits(s@),
            d == s@.subrange(start as int, s@.len() as int),
            all_digits(d.take(i - start)),
            value == digits_value(d.take(i - start)),
        decreases s@.len() - i,
    {
        let b = s[i];
        proof {
            assert(d.take(i - start + 1).drop_last() =~= d.take(i - start));
            assert(d.take(i - start + 1).last() == b);
        }
        if b < 48 || b > 57 {
            assert(!is_digit(d[i - start]));
            return None;
        }
        let digit: u64 = (b - 48) as u64;
        if value > (u64::MAX - digit) / 10 {
            proof {
                assert(all_digits(d.take(i - start + 1))) by {
                    assert forall|j: int| 0 <= j < i - start + 1 implies is_digit(
                        #[trigger] d.take(i - start + 1)[j],
                    ) by {
                        if j < i - start {
                            assert(d.take(i - start + 1)[j] == d.take(i - start)[j]);
                        }
                    }
                }
                assert(digits_value(d.take(i - start + 1)) == value * 10 + digit);
                assert(value * 10 + digit > u64::MAX);
                if all_digits(d) {
                    lemma_digits_value_grows(d, i - start + 1);
                }
            }
            return None;
        }
        value = value * 10 + digit;
        proof {
            assert forall|j: int| 0 <= j < i - start + 1 implies is_digit(
                #[trigger] d.take(i - start + 1)[j],
            ) by {
                if j < i - start {
                    assert(d.take(i - start + 1)[j] == d.take(i - start)[j]);
                }
            }
        }
        i = i + 1;
    }
    assert(d.take(i - start) =~= d);
    Some(value)
}

/// The digit `d` as text.
fn digit_text(d: u8) -> (r: &'static str)
    requires
        d < 10,
    ensures
        r@ == seq![(48 + d) as char],
{
    proof {
        reveal_strlit("0");
        reveal_strlit("1");
        reveal_strlit("2");
        reveal_strlit("3");
        reveal_strlit("4");
        reveal_strlit("5");
        reveal_strlit("6");
        reveal_strlit("7");
        reveal_strlit("8");
        reveal_strlit("9");
    }
    let r = match d {
        0 => "0",
        1 => "1",
        2 => "2",
        3 => "3",
        4 => "4",
        5 => "5",
        6 => "6",
        7 => "7",
        8 => "8",
        _ => "9",
    };
    assert(r@ =~= seq![(48 + d) as char]);
    r
}

/// The bytes of `s` as characters; of use where all are ASCII.
pub open spec fn widen(s: Seq<u8>) -> Seq<char> {
    Seq::new(s.len(), |i: int| s[i] as char)
}

/// `n` in decimal, as text.
pub fn decimal_text(n: u64) -> (r: String)
    ensures
        r@ == widen(decimal_digits(n as nat)),
{
    let digits = decimal_bytes(n);
    proof {
        lemma_decimal_digits(n as nat);
    }
    let mut r = String::new();
    let mut i: usize = 0;
    while i < digits.len()
        invariant
            0 <= i <= digits@.len(),
            all_digits(digits@),
            r@ == widen(digits@.take(i as int)),
        decreases digits@.len() - i,
    {
        assert(is_digit(digits@[i as int]));
        r.append(digit_text(digits[i] - 48));
        assert(r@ =~= widen(digits@.take(i + 1)));
        i = i + 1;
    }
    assert(digits@.take(digits@.len() as int) =~= digits@);
    r
}

} // verus!
