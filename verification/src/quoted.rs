//! The quoted decimal form of 64-bit indices. Human-readable encodings
//! carry the aggregator index as a quoted numeral so that tooling
//! without native 64-bit integers cannot lose precision; this module
//! renders and parses that numeral, exactly.

use vstd::prelude::*;
use vstd::assert_seqs_equal;

verus! {

/// Whether a byte is an ASCII decimal digit.
pub open spec fn is_digit(b: u8) -> bool {
    48 <= b <= 57
}

/// The numeric value of an ASCII digit.
pub open spec fn digit_val(b: u8) -> nat {
    (b - 48) as nat
}

/// The decimal numeral of `n`, most significant digit first.
pub open spec fn dec_digits(n: nat) -> Seq<u8>
    decreases n,
{
    if n < 10 {
        seq![(48 + n) as u8]
    } else {
        dec_digits(n / 10).push((48 + n % 10) as u8)
    }
}

/// The value of a digit string, most significant digit first.
pub open spec fn dec_value(s: Seq<u8>) -> nat
    decreases s.len(),
{
    if s.len() == 0 {
        0
    } else {
        dec_value(s.drop_last()) * 10 + digit_val(s.last())
    }
}

/// A canonical numeral: nonempty, all digits, no leading zero.
pub open spec fn is_numeral(s: Seq<u8>) -> bool {
    &&& s.len() >= 1
    &&& forall|i: int| 0 <= i < s.len() ==> is_digit(#[trigger] s[i])
    &&& (s.len() > 1 ==> s[0] != 48)
}

/// The quoted form of a 64-bit value: its numeral between quotation
/// marks.
pub open spec fn quoted_u64(x: u64) -> Seq<u8> {
    seq![34u8] + dec_digits(x as nat) + seq![34u8]
}

/// The numeral of any value is canonical.
pub proof fn lemma_dec_digits_numeral(n: nat)
    ensures
        is_numeral(dec_digits(n)),
        n >= 1 ==> dec_digits(n)[0] != 48,
    decreases n,
{
    if n >= 10 {
        lemma_dec_digits_numeral(n / 10);
    }
}

/// Law: the decimal numeral round-trips. The value of the numeral of
/// `n` is `n` again, so rendering then parsing loses nothing.
pub proof fn lemma_decimal_round_trip(n: nat)
    ensures
        is_numeral(dec_digits(n)),
        dec_value(dec_digits(n)) == n,
    decreases n,
{
    lemma_dec_digits_numeral(n);
    if n < 10 {
        assert(dec_digits(n).drop_last() =~= Seq::<u8>::empty());
        assert(dec_digits(n).last() == (48 + n) as u8);
        assert(digit_val((48 + n) as u8) == n);
        assert(dec_value(dec_digits(n)) == dec_value(Seq::<u8>::empty()) * 10 + n);
    } else {
        lemma_decimal_round_trip(n / 10);
        assert(dec_digits(n).drop_last() =~= dec_digits(n / 10));
        assert(dec_digits(n).last() == (48 + n % 10) as u8);
        assert(digit_val((48 + n % 10) as u8) == n % 10);
        assert(dec_value(dec_digits(n)) == dec_value(dec_digits(n / 10)) * 10 + n % 10);
        assert(dec_value(dec_digits(n)) == (n / 10) * 10 + n % 10);
    }
}

/// The value of a digit string only grows as the string extends.
proof fn lemma_dec_value_prefix_mono(s: Seq<u8>, i: int, j: int)
    requires
        0 <= i <= j <= s.len(),
    ensures
        dec_value(s.subrange(0, i)) <= dec_value(s.subrange(0, j)),
    decreases j - i,
{
    if i < j {
        lemma_dec_value_prefix_mono(s, i, j - 1);
        assert(s.subrange(0, j).drop_last() =~= s.subrange(0, j - 1));
        assert(dec_value(s.subrange(0, j)) == dec_value(s.subrange(0, j - 1)) * 10 + digit_val(
            s.subrange(0, j).last(),
        ));
    }
}

/// Render a 64-bit value as its decimal numeral.
pub fn u64_to_decimal(x: u64) -> (r: Vec<u8>)
    ensures
        r@ == dec_digits(x as nat),
{
    let mut rev: Vec<u8> = Vec::new();
    let mut v: u64 = x;
    rev.push(48 + (v % 10) as u8);
    v = v / 10;
    proof {
        assert(dec_digits(x as nat) =~= if v > 0 {
            dec_digits(v as nat) + rev@.reverse()
        } else {
            rev@.reverse()
        });
    }
    while v > 0
        invariant
            rev@.len() >= 1,
            dec_digits(x as nat) == if v > 0 {
                dec_digits(v as nat) + rev@.reverse()
            } else {
                rev@.reverse()
            },
        decreases v,
    {
        let ghost prev = rev@;
        rev.push(48 + (v % 10) as u8);
        proof {
            assert(rev@.reverse() =~= seq![(48 + (v as nat) % 10) as u8] + prev.reverse());
            if v >= 10 {
                assert(dec_digits(v as nat) =~= dec_digits((v / 10) as nat).push(
                    (48 + (v as nat) % 10) as u8,
                ));
                assert(dec_digits((v / 10) as nat) + rev@.reverse() =~= dec_digits(v as nat)
                    + prev.reverse());
            } else {
                assert(dec_digits(v as nat) =~= seq![(48 + (v as nat) % 10) as u8]);
                assert(rev@.reverse() =~= dec_digits(v as nat) + prev.reverse());
            }
        }
        v = v / 10;
    }
    let mut out: Vec<u8> = Vec::new();
    let mut i: usize = rev.len();
    while i > 0
        invariant
            i <= rev@.len(),
            out@.len() == rev@.len() - i,
            forall|k: int| 0 <= k < out@.len() ==> out@[k] == rev@[rev@.len() - 1 - k],
        decreases i,
    {
        i = i - 1;
        out.push(rev[i]);
    }
    proof {
        assert(out@ =~= rev@.reverse());
    }
    out
}

/// Parse a decimal numeral into a 64-bit value. Succeeds exactly on
/// canonical numerals whose value fits in 64 bits, and returns exactly
/// the numeral's value.
pub fn u64_from_decimal(s: &[u8]) -> (r: Option<u64>)
    ensures
        (r matches Some(x)) <==> (is_numeral(s@) && dec_value(s@) <= u64::MAX),
        (r matches Some(x) ==> x as nat == dec_value(s@)),
{
    if s.len() == 0 {
        return None;
    }
    if s.len() > 1 && s[0] == 48 {
        return None;
    }
    let mut acc: u64 = 0;
    let mut i: usize = 0;
    proof {
        assert(s@.subrange(0, 0) =~= Seq::<u8>::empty());
    }
    while i < s.len()
        invariant
            i <= s@.len(),
            s@.len() >= 1,
            s@.len() > 1 ==> s@[0] != 48,
            forall|k: int| 0 <= k < i ==> is_digit(#[trigger] s@[k]),
            acc as nat == dec_value(s@.subrange(0, i as int)),
        decreases s@.len() - i,
    {
        let b = s[i];
        if b < 48 || b > 57 {
            return None;
        }
        let d: u64 = (b - 48) as u64;
        proof {
            assert(s@.subrange(0, i + 1).drop_last() =~= s@.subrange(0, i as int));
            assert(dec_value(s@.subrange(0, i + 1)) == (acc as nat) * 10 + digit_val(s@[i as int]));
        }
        if acc > (u64::MAX - d) / 10 {
            proof {
                let m = (u64::MAX - d) as int;
                assert(m == 10 * (m / 10) + m % 10);
                assert((acc as int) * 10 + d as int > u64::MAX);
                lemma_dec_value_prefix_mono(s@, i + 1, s@.len() as int);
                assert(s@.subrange(0, s@.len() as int) =~= s@);
                assert(dec_value(s@) > u64::MAX);
            }
            return None;
        }
        acc = acc * 10 + d;
        i += 1;
    }
    proof {
        assert(s@.subrange(0, s@.len() as int) =~= s@);
    }
    Some(acc)
}

/// Render a 64-bit value in its quoted decimal form.
pub fn u64_to_quoted(x: u64) -> (r: Vec<u8>)
    ensures
        r@ == quoted_u64(x),
{
    let mut out: Vec<u8> = Vec::new();
    out.push(34u8);
    let digits = u64_to_decimal(x);
    crate::merkle::append_bytes(&mut out, digits.as_slice());
    out.push(34u8);
    proof {
        assert_seqs_equal!(out@ == quoted_u64(x));
    }
    out
}

/// Parse a 64-bit value from its quoted decimal form. Succeeds exactly
/// on a canonical numeral between quotation marks whose value fits in
/// 64 bits.
pub fn u64_from_quoted(s: &[u8]) -> (r: Option<u64>)
    ensures
        (r matches Some(x)) <==> (s@.len() >= 3 && s@[0] == 34 && s@.last() == 34 && is_numeral(
            s@.subrange(1, s@.len() - 1),
        ) && dec_value(s@.subrange(1, s@.len() - 1)) <= u64::MAX),
        (r matches Some(x) ==> x as nat == dec_value(s@.subrange(1, s@.len() - 1))),
{
    if s.len() < 3 {
        return None;
    }
    if s[0] != 34 || s[s.len() - 1] != 34 {
        return None;
    }
    u64_from_decimal(vstd::slice::slice_subrange(s, 1, s.len() - 1))
}

/// Law: the quoted form of any 64-bit value parses back to it exactly;
/// in particular no value, however large, is rounded or truncated.
pub proof fn lemma_quoted_round_trip(x: u64)
    ensures
        quoted_u64(x).len() >= 3,
        quoted_u64(x)[0] == 34,
        quoted_u64(x).last() == 34,
        quoted_u64(x).subrange(1, quoted_u64(x).len() - 1) == dec_digits(x as nat),
        is_numeral(dec_digits(x as nat)),
        dec_value(dec_digits(x as nat)) == x as nat,
{
    lemma_decimal_round_trip(x as nat);
    assert(quoted_u64(x).subrange(1, quoted_u64(x).len() - 1) =~= dec_digits(x as nat));
}

} // verus!
