//! Decimal rendering and parsing of unsigned integers.
//!
//! The framing header stores every numeric field as ASCII decimal
//! digits, so both the slot writer (rendering) and the consumer
//! (parsing a snapshot) are built on the functions here.

use vstd::prelude::*;
use vstd::string::*;

verus! {

/// The decimal digit bytes of `n`, most significant first, no sign
/// and no leading zeros (the single digit `0` for `n == 0`).
pub open spec fn dec_digits(n: nat) -> Seq<u8>
    decreases n,
{
    if n < 10 {
        seq![(48 + n) as u8]
    } else {
        dec_digits(n / 10) + seq![(48 + n % 10) as u8]
    }
}

/// The number denoted by a sequence of decimal digit bytes
/// (the empty sequence denotes 0).
pub open spec fn dec_value(s: Seq<u8>) -> int
    decreases s.len(),
{
    if s.len() == 0 {
        0
    } else {
        dec_value(s.drop_last()) * 10 + (s.last() - 48)
    }
}

/// Every byte of `s` is an ASCII decimal digit.
pub open spec fn all_digits(s: Seq<u8>) -> bool {
    forall|i: int| 0 <= i < s.len() ==> 48 <= #[trigger] s[i] <= 57
}

/// `10^k`.
pub open spec fn pow10(k: nat) -> nat
    decreases k,
{
    if k == 0 {
        1
    } else {
        10 * pow10((k - 1) as nat)
    }
}

/// The digits of `n` are digits, and there is at least one of them.
pub proof fn lemma_dec_digits_wf(n: nat)
    ensures
        dec_digits(n).len() >= 1,
        all_digits(dec_digits(n)),
    decreases n,
{
    if n >= 10 {
        lemma_dec_digits_wf(n / 10);
    }
}

/// Rendering then reading a number gives the number back.
pub proof fn lemma_dec_round_trip(n: nat)
    ensures
        dec_value(dec_digits(n)) == n,
    decreases n,
{
    if n < 10 {
        assert(dec_digits(n).drop_last() =~= Seq::<u8>::empty());
        assert(dec_digits(n).last() == (48 + n) as u8);
        assert(dec_value(Seq::<u8>::empty()) == 0);
    } else {
        lemma_dec_round_trip(n / 10);
        assert(dec_digits(n).drop_last() =~= dec_digits(n / 10));
        assert(dec_digits(n).last() == (48 + n % 10) as u8);
        vstd::arithmetic::div_mod::lemma_fundamental_div_mod(n as int, 10);
    }
}

/// A number below `10^k` renders to at most `k` digits.
pub proof fn lemma_dec_digits_len(n: nat, k: nat)
    requires
        k >= 1,
        n < pow10(k),
    ensures
        dec_digits(n).len() <= k,
    decreases k,
{
    if n >= 10 {
        if k == 1 {
            assert(pow10(1) == 10) by {
                reveal_with_fuel(pow10, 2);
            }
            assert(false);
        }
        assert(pow10(k) == 10 * pow10((k - 1) as nat));
        assert(n / 10 < pow10((k - 1) as nat)) by {
            vstd::arithmetic::div_mod::lemma_fundamental_div_mod(n as int, 10);
        }
        lemma_dec_digits_len(n / 10, (k - 1) as nat);
    }
}

/// Any `u64` renders to at most 20 digits.
pub proof fn lemma_dec_digits_u64(n: u64)
    ensures
        dec_digits(n as nat).len() <= 20,
{
    assert(pow10(20) > u64::MAX) by {
        reveal_with_fuel(pow10, 21);
    }
    lemma_dec_digits_len(n as nat, 20);
}

/// The decimal digit bytes of `n`, most significant first.
pub fn u64_to_dec_bytes(n: u64) -> (v: Vec<u8>)
    ensures
        v@ == dec_digits(n as nat),
    decreases n,
{
    if n < 10 {
        let mut v: Vec<u8> = Vec::new();
        v.push(48 + (n as u8));
        proof {
            assert(v@ =~= dec_digits(n as nat));
        }
        v
    } else {
        let mut v = u64_to_dec_bytes(n / 10);
        v.push(48 + ((n % 10) as u8));
        proof {
            assert(v@ =~= dec_digits(n as nat));
        }
        v
    }
}

/// A run of ASCII zeros denotes 0.
pub proof fn lemma_dec_value_zeros(z: nat)
    ensures
        dec_value(Seq::new(z, |i: int| 48u8)) == 0,
    decreases z,
{
    if z > 0 {
        lemma_dec_value_zeros((z - 1) as nat);
        assert(Seq::new(z, |i: int| 48u8).drop_last() =~= Seq::new((z - 1) as nat, |i: int| 48u8));
    }
}

/// Leading ASCII zeros do not change the value of a digit string.
pub proof fn lemma_dec_value_leading_zeros(z: nat, d: Seq<u8>)
    ensures
        dec_value(Seq::new(z, |i: int| 48u8) + d) == dec_value(d),
    decreases d.len(),
{
    let zeros = Seq::new(z, |i: int| 48u8);
    if d.len() == 0 {
        assert(zeros + d =~= zeros);
        lemma_dec_value_zeros(z);
    } else {
        lemma_dec_value_leading_zeros(z, d.drop_last());
        assert((zeros + d).drop_last() =~= zeros + d.drop_last());
        assert((zeros + d).last() == d.last());
    }
}

/// The character of the decimal digit `d`.
pub open spec fn digit_char(d: nat) -> char {
    ((48 + d) as u8) as char
}

/// The decimal digit characters of `n`, most significant first, no
/// sign and no leading zeros.
pub open spec fn dec_chars(n: nat) -> Seq<char>
    decreases n,
{
    if n < 10 {
        seq![digit_char(n)]
    } else {
        dec_chars(n / 10) + seq![digit_char(n % 10)]
    }
}

/// The one-character string of the decimal digit `d`.
fn digit_str(d: u64) -> (s: &'static str)
    requires
        d < 10,
    ensures
        s@ == seq![digit_char(d as nat)],
{
    proof {
        reveal_strlit("0");
        reveal_strlit("1");
        reveal_strlit("2");
        reveal_strlit("3");
        reveal_strlit("4");
        reveal_strlit("5");
        reveal_strlit("6");
        reveal_strlit("7");
        reveal_strlit("8");
        reveal_strlit("9");
    }
    match d {
        0 => "0",
        1 => "1",
        2 => "2",
        3 => "3",
        4 => "4",
        5 => "5",
        6 => "6",
        7 => "7",
        8 => "8",
        _ => "9",
    }
}

/// Renders `n` in decimal.
pub fn u64_to_string(n: u64) -> (s: String)
    ensures
        s@ == dec_chars(n as nat),
    decreases n,
{
    if n < 10 {
        let s = digit_str(n).to_owned();
        proof {
            assert(s@ =~= dec_chars(n as nat));
        }
        s
    } else {
        let mut s = u64_to_string(n / 10);
        s.append(digit_str(n % 10));
        proof {
            assert(s@ =~= dec_chars(n as nat));
        }
        s
    }
}

/// The decimal digit characters of the signed number `n`, with a
/// leading minus sign when it is negative.
pub open spec fn dec_chars_signed(n: int) -> Seq<char> {
    if n < 0 {
        "-"@ + dec_chars((-n) as nat)
    } else {
        dec_chars(n as nat)
    }
}

/// Renders the signed `n` in decimal.
pub fn i64_to_string(n: i64) -> (s: String)
    ensures
        s@ == dec_chars_signed(n as int),
{
    if n < 0 {
        let mut s = "-".to_owned();
        let magnitude: u64 = if n == i64::MIN {
            9223372036854775808u64
        } else {
            (-n) as u64
        };
        let digits = u64_to_string(magnitude);
        s.append(digits.as_str());
        s
    } else {
        u64_to_string(n as u64)
    }
}

/// Reads the decimal number written in `s[from..to]`.
///
/// Returns `None` when the range is empty, when it holds a byte that
/// is not a decimal digit, or when the value does not fit in `u64`.
pub fn parse_u64_digits(s: &[u8], from: usize, to: usize) -> (r: Option<u64>)
    requires
        from <= to <= s@.len(),
    ensures
        match r {
            Some(v) => {
                &&& from < to
                &&& all_digits(s@.subrange(from as int, to as int))
                &&& v == dec_value(s@.subrange(from as int, to as int))
            },
            None => from == to || !all_digits(s@.subrange(from as int, to as int)) || dec_value(
                s@.subrange(from as int, to as int),
            ) > u64::MAX,
        },
{
    if from == to {
        return None;
    }
    let mut acc: u64 = 0;
    let mut i: usize = from;
    while i < to
        invariant
            from <= i <= to <= s@.len(),
            all_digits(s@.subrange(from as int, i as int)),
            acc == dec_value(s@.subrange(from as int, i as int)),
        decreases to - i,
    {
        let b = s[i];
        if b < 48 || b > 57 {
            proof {
                assert(s@.subrange(from as int, to as int)[i - from] == b);
            }
            return None;
        }
        let d: u64 = (b - 48) as u64;
        let next = match acc.checked_mul(10) {
            Some(m) => m.checked_add(d),
            None => None,
        };
        proof {
            assert(s@.subrange(from as int, i + 1).drop_last() =~= s@.subrange(
                from as int,
                i as int,
            ));
            assert(s@.subrange(from as int, i + 1).last() == b);
        }
        match next {
            Some(v) => {
                acc = v;
            },
            None => {
                proof {
                    if all_digits(s@.subrange(from as int, to as int)) {
                        lemma_dec_value_monotone(s@.subrange(from as int, to as int), i + 1 - from);
                        assert(s@.subrange(from as int, to as int).subrange(0, i + 1 - from)
                            =~= s@.subrange(from as int, i + 1));
                    }
                }
                return None;
            },
        }
        i = i + 1;
    }
    proof {
        assert(s@.subrange(from as int, i as int) =~= s@.subrange(from as int, to as int));
    }
    Some(acc)
}

/// A string of digits denotes a number, never a negative value.
pub proof fn lemma_dec_value_nonneg(s: Seq<u8>)
    requires
        all_digits(s),
    ensures
        dec_value(s) >= 0,
    decreases s.len(),
{
    if s.len() > 0 {
        assert(all_digits(s.drop_last()));
        lemma_dec_value_nonneg(s.drop_last());
    }
}

/// The value of a digit string is at least the value of any of its
/// prefixes (so an overflowing prefix means an overflowing string).
pub proof fn lemma_dec_value_monotone(s: Seq<u8>, k: int)
    requires
        0 <= k <= s.len(),
        all_digits(s),
    ensures
        dec_value(s) >= dec_value(s.subrange(0, k)),
    decreases s.len() - k,
{
    if k < s.len() {
        lemma_dec_value_monotone(s, k + 1);
        assert(all_digits(s.subrange(0, k)));
        lemma_dec_value_nonneg(s.subrange(0, k));
        assert(s.subrange(0, k + 1).drop_last() =~= s.subrange(0, k));
        assert(s.subrange(0, k + 1).last() == s[k]);
        assert(dec_value(s.subrange(0, k + 1)) >= dec_value(s.subrange(0, k)));
    } else {
        assert(s.subrange(0, k) =~= s);
    }
}

} // verus!
