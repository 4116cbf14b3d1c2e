//! One chunk of at most 31 bytes, encoded as a decimal field literal.

use vstd::prelude::*;
use vstd::string::StringExecFns;
use vstd::arithmetic::div_mod::lemma_fundamental_div_mod;
use vstd::arithmetic::div_mod::lemma_fundamental_div_mod_converse;

verus! {

/// The value of a byte sequence read as a little-endian unsigned integer:
/// the first byte is the least significant.
pub open spec fn le_value(b: Seq<u8>) -> nat
    decreases b.len(),
{
    if b.len() == 0 {
        0
    } else {
        (b[0] as nat) + 256 * le_value(b.drop_first())
    }
}

/// The character for a single decimal digit.
pub open spec fn digit_char(d: nat) -> char {
    if d == 0 {
        '0'
    } else if d == 1 {
        '1'
    } else if d == 2 {
        '2'
    } else if d == 3 {
        '3'
    } else if d == 4 {
        '4'
    } else if d == 5 {
        '5'
    } else if d == 6 {
        '6'
    } else if d == 7 {
        '7'
    } else if d == 8 {
        '8'
    } else {
        '9'
    }
}

/// The decimal digits of `n`, most significant first, with no leading zeros
/// (zero itself is the single digit `0`).
pub open spec fn decimal_digits(n: nat) -> Seq<char>
    decreases n,
{
    if n < 10 {
        seq![digit_char(n)]
    } else {
        decimal_digits(n / 10).push(digit_char(n % 10))
    }
}

/// The characters of the suffix `field`.
pub open spec fn field_suffix() -> Seq<char> {
    seq!['f', 'i', 'e', 'l', 'd']
}

/// The field literal of a chunk: the decimal digits of its little-endian
/// value, followed by `field`. An empty chunk has value 0 and so yields
/// `0field`, as does a non-empty all-zero chunk.
pub open spec fn chunk_literal(b: Seq<u8>) -> Seq<char> {
    decimal_digits(le_value(b)) + field_suffix()
}

/// The first 31 bytes of `b` (all of `b` when it is shorter).
pub open spec fn chunk_prefix(b: Seq<u8>) -> Seq<u8> {
    if b.len() > 31 {
        b.take(31)
    } else {
        b
    }
}

/// A decimal representation has at least one digit, and a number of ten or
/// more has at least two.
pub proof fn lemma_decimal_digits_len(n: nat)
    ensures
        decimal_digits(n).len() >= 1,
        n >= 10 ==> decimal_digits(n).len() >= 2,
    decreases n,
{
    if n >= 10 {
        lemma_decimal_digits_len(n / 10);
    }
}

/// Distinct decimal digits have distinct characters.
pub proof fn lemma_digit_char_injective(d1: nat, d2: nat)
    requires
        d1 < 10,
        d2 < 10,
        digit_char(d1) == digit_char(d2),
    ensures
        d1 == d2,
{
}

/// Distinct numbers have distinct decimal representations.
pub proof fn lemma_decimal_digits_injective(n1: nat, n2: nat)
    requires
        decimal_digits(n1) == decimal_digits(n2),
    ensures
        n1 == n2,
    decreases n1,
{
    lemma_decimal_digits_len(n1);
    lemma_decimal_digits_len(n2);
    if n1 < 10 && n2 < 10 {
        assert(decimal_digits(n1)[0] == digit_char(n1));
        assert(decimal_digits(n2)[0] == digit_char(n2));
        lemma_digit_char_injective(n1, n2);
    } else if n1 >= 10 && n2 >= 10 {
        let p1 = decimal_digits(n1 / 10);
        let p2 = decimal_digits(n2 / 10);
        let s1 = p1.push(digit_char(n1 % 10));
        let s2 = p2.push(digit_char(n2 % 10));
        assert(s1 == s2);
        assert(s1.last() == digit_char(n1 % 10));
        assert(s2.last() == digit_char(n2 % 10));
        lemma_digit_char_injective(n1 % 10, n2 % 10);
        assert(p1 =~= p2) by {
            assert(p1.len() == p2.len());
            assert forall|i: int| 0 <= i < p1.len() implies p1[i] == p2[i] by {
                assert(s1[i] == p1[i]);
                assert(s2[i] == p2[i]);
            }
        };
        lemma_decimal_digits_injective(n1 / 10, n2 / 10);
        lemma_fundamental_div_mod(n1 as int, 10);
        lemma_fundamental_div_mod(n2 as int, 10);
    } else {
        assert(n1 < 10 ==> decimal_digits(n1).len() == 1);
        assert(n2 < 10 ==> decimal_digits(n2).len() == 1);
        assert(false);
    }
}

/// On byte sequences of equal length, the little-endian value determines the
/// bytes.
pub proof fn lemma_le_value_injective(b1: Seq<u8>, b2: Seq<u8>)
    requires
        b1.len() == b2.len(),
        le_value(b1) == le_value(b2),
    ensures
        b1 == b2,
    decreases b1.len(),
{
    if b1.len() == 0 {
        assert(b1 =~= b2);
    } else {
        let v = le_value(b1) as int;
        lemma_fundamental_div_mod_converse(
            v,
            256,
            le_value(b1.drop_first()) as int,
            b1[0] as int,
        );
        lemma_fundamental_div_mod_converse(
            v,
            256,
            le_value(b2.drop_first()) as int,
            b2[0] as int,
        );
        lemma_le_value_injective(b1.drop_first(), b2.drop_first());
        assert forall|i: int| 0 <= i < b1.len() implies b1[i] == b2[i] by {
            if i > 0 {
                assert(b1.drop_first()[i - 1] == b1[i]);
                assert(b2.drop_first()[i - 1] == b2[i]);
            }
        }
        assert(b1 =~= b2);
    }
}

/// The law of chunk encoding: `chunk_literal` is injective on chunks of one
/// fixed length of at most 31 bytes. Distinct byte sequences of the same
/// length yield distinct literals, because a fixed number of little-endian
/// bytes determines its value and a value determines its decimal digits.
pub proof fn lemma_chunk_literal_injective(b1: Seq<u8>, b2: Seq<u8>)
    requires
        b1.len() == b2.len(),
        b1.len() <= 31,
        chunk_literal(b1) == chunk_literal(b2),
    ensures
        b1 == b2,
{
    let d1 = decimal_digits(le_value(b1));
    let d2 = decimal_digits(le_value(b2));
    assert((d1 + field_suffix()).len() == (d2 + field_suffix()).len());
    assert(d1 =~= d2) by {
        assert(d1.len() == d2.len());
        assert forall|i: int| 0 <= i < d1.len() implies d1[i] == d2[i] by {
            assert((d1 + field_suffix())[i] == d1[i]);
            assert((d2 + field_suffix())[i] == d2[i]);
        }
    };
    lemma_decimal_digits_injective(le_value(b1), le_value(b2));
    lemma_le_value_injective(b1, b2);
}

/// Relies on `num_bigint::BigUint::from_bytes_le`, which reads a byte slice
/// as a little-endian unsigned integer (an empty slice reads as zero), and on
/// `BigUint`'s `Display` impl, which writes that integer in base 10 with no
/// sign, no leading zeros, and `0` for zero.
#[verifier::external_body]
fn le_bytes_decimal(src: &[u8]) -> (r: String)
    ensures
        r@ == decimal_digits(le_value(src@)),
{
    format!("{}", num_bigint::BigUint::from_bytes_le(src))
}

/// Encode a chunk as a decimal field literal: at most the first 31 bytes of
/// `src` are read as a little-endian unsigned integer, written in decimal,
/// and suffixed with `field`.
pub fn bytes_to_field_decimal_literal(src: &[u8]) -> (r: String)
    ensures
        r@ == chunk_literal(chunk_prefix(src@)),
{
    let truncated: &[u8] = if src.len() > 31 {
        vstd::slice::slice_subrange(src, 0, 31)
    } else {
        src
    };
    let mut r = le_bytes_decimal(truncated);
    r.append("field");
    proof {
        reveal_strlit("field");
        assert("field"@ =~= field_suffix());
    }
    r
}

} // verus!
