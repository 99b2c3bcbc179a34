//! Double-precision numbers, kept as their IEEE 754 bit patterns.

use vstd::arithmetic::power2::{
    lemma_pow2_pos, lemma_pow2_strictly_increases, lemma_pow2_unfold, pow2,
};
use vstd::prelude::*;

verus! {

/// The bit pattern without its sign bit.
pub open spec fn magnitude(bits: u64) -> int {
    bits as int % 0x8000_0000_0000_0000
}

/// Beyond the pattern of infinity there are only patterns of no number.
pub open spec fn is_nan(bits: u64) -> bool {
    magnitude(bits) > 0x7ff0_0000_0000_0000
}

/// An integer that is ordered as the number is. Both zeros have the same one.
pub open spec fn rank(bits: u64) -> int {
    if bits >= 0x8000_0000_0000_0000 {
        -magnitude(bits)
    } else {
        magnitude(bits)
    }
}

/// Equality of two numbers: never true of what is no number.
pub open spec fn number_eq(a: u64, b: u64) -> bool {
    !is_nan(a) && !is_nan(b) && rank(a) == rank(b)
}

/// Order of two numbers: never true of what is no number.
pub open spec fn number_lt(a: u64, b: u64) -> bool {
    !is_nan(a) && !is_nan(b) && rank(a) < rank(b)
}

fn rank_of(bits: u64) -> (r: Option<i64>)
    ensures
        r == (if is_nan(bits) {
            None::<i64>
        } else {
            Some(rank(bits) as i64)
        }),
        !is_nan(bits) ==> i64::MIN < rank(bits) <= i64::MAX,
{
    let magnitude: u64 = bits % 0x8000_0000_0000_0000;
    if magnitude > 0x7ff0_0000_0000_0000 {
        None
    } else if bits >= 0x8000_0000_0000_0000 {
        Some(-(magnitude as i64))
    } else {
        Some(magnitude as i64)
    }
}

/// Whether two numbers are equal.
pub fn equals(a: u64, b: u64) -> (r: bool)
    ensures
        r == number_eq(a, b),
{
    match (rank_of(a), rank_of(b)) {
        (Some(x), Some(y)) => x == y,
        _ => false,
    }
}

/// Whether `a` is below `b`.
pub fn less(a: u64, b: u64) -> (r: bool)
    ensures
        r == number_lt(a, b),
{
    match (rank_of(a), rank_of(b)) {
        (Some(x), Some(y)) => x < y,
        _ => false,
    }
}

/// A number is never both below another and equal to it or above it.
pub proof fn law_order_is_strict(a: u64, b: u64)
    ensures
        number_lt(a, b) ==> !number_lt(b, a) && !number_eq(a, b),
        number_eq(a, b) == number_eq(b, a),
        !is_nan(a) && !is_nan(b) ==> number_lt(a, b) || number_eq(a, b) || number_lt(b, a),
{
}

/// Nothing compares with what is no number, not even itself.
pub proof fn law_nan_compares_with_nothing(a: u64, b: u64)
    requires
        is_nan(a),
    ensures
        !number_eq(a, b),
        !number_lt(a, b),
        !number_lt(b, a),
{
}

/// The exponent field of a pattern.
pub open spec fn exponent(bits: u64) -> int {
    magnitude(bits) / 0x10_0000_0000_0000
}

/// The fraction field of a pattern.
pub open spec fn fraction(bits: u64) -> int {
    magnitude(bits) % 0x10_0000_0000_0000
}

/// The number that a pattern stands for, in units of the smallest positive one: a normal
/// number has a leading one before its fraction, and each step of the exponent doubles
/// it. Infinity is taken as the number that would come behind the largest.
pub open spec fn value_of(bits: u64) -> int {
    let size = if exponent(bits) == 0 {
        fraction(bits)
    } else {
        (0x10_0000_0000_0000 + fraction(bits)) * pow2((exponent(bits) - 1) as nat)
    };
    if bits >= 0x8000_0000_0000_0000 {
        -size
    } else {
        size
    }
}

/// Patterns compare as the numbers that they stand for.
pub proof fn law_patterns_compare_by_value(a: u64, b: u64)
    requires
        !is_nan(a),
        !is_nan(b),
    ensures
        number_eq(a, b) <==> value_of(a) == value_of(b),
        number_lt(a, b) <==> value_of(a) < value_of(b),
{
    lemma_size_grows(a, b);
    lemma_size_grows(b, a);
    lemma_size_of_zero(a);
    lemma_size_of_zero(b);
}

spec fn size_of(bits: u64) -> int {
    if exponent(bits) == 0 {
        fraction(bits)
    } else {
        (0x10_0000_0000_0000 + fraction(bits)) * pow2((exponent(bits) - 1) as nat)
    }
}

proof fn lemma_size_of_zero(a: u64)
    ensures
        magnitude(a) == 0 <==> size_of(a) == 0,
        0 <= size_of(a),
{
    if exponent(a) > 0 {
        let doubled = pow2((exponent(a) - 1) as nat);
        lemma_pow2_pos((exponent(a) - 1) as nat);
        assert(0 < (0x10_0000_0000_0000 + fraction(a)) * doubled) by (nonlinear_arith)
            requires
                0 <= fraction(a),
                0 < doubled,
        ;
    }
}

proof fn lemma_size_grows(a: u64, b: u64)
    ensures
        magnitude(a) < magnitude(b) ==> size_of(a) < size_of(b),
        magnitude(a) == magnitude(b) ==> size_of(a) == size_of(b),
{
    if magnitude(a) < magnitude(b) {
        let one: int = 0x10_0000_0000_0000;
        let (e, f) = (exponent(a), exponent(b));
        if f == 0 {
        } else if e == f {
            let doubled = pow2((e - 1) as nat);
            lemma_pow2_pos((e - 1) as nat);
            assert((one + fraction(a)) * doubled < (one + fraction(b)) * doubled)
                by (nonlinear_arith)
                requires
                    fraction(a) < fraction(b),
                    0 < doubled,
            ;
        } else if e == 0 {
            let doubled = pow2((f - 1) as nat);
            lemma_pow2_pos((f - 1) as nat);
            assert(fraction(a) < (one + fraction(b)) * doubled) by (nonlinear_arith)
                requires
                    fraction(a) < one,
                    0 <= fraction(b),
                    1 <= doubled,
                    one > 0,
            ;
        } else {
            let (low, high) = (pow2((e - 1) as nat), pow2((f - 1) as nat));
            lemma_pow2_pos((e - 1) as nat);
            lemma_pow2_unfold(e as nat);
            if e < f - 1 {
                lemma_pow2_strictly_increases(e as nat, (f - 1) as nat);
            }
            assert((one + fraction(a)) * low < (one + fraction(b)) * high) by (nonlinear_arith)
                requires
                    0 <= fraction(a) < one,
                    0 <= fraction(b),
                    0 < low,
                    2 * low <= high,
                    one > 0,
            ;
        }
    }
}

/// The one pattern that stands for what is no number.
pub const NAN_BITS: u64 = 0x7ff8_0000_0000_0000;

/// The same number, with one pattern for all that is no number.
pub open spec fn settled(bits: u64) -> u64 {
    if is_nan(bits) {
        NAN_BITS
    } else {
        bits
    }
}

/// The settled pattern of what `str::parse` reads from a text, or what its error
/// says.
pub uninterp spec fn number_in(s: Seq<char>) -> Result<u64, Seq<char>>;

/// `str::parse` to a double, handed on as its bit pattern. Which texts denote a
/// number, and which number each denotes, is named, not spelled out; std leaves
/// open which pattern it gives to what is no number.
#[verifier::external_body]
fn parse_bits(s: &str) -> (r: Result<u64, String>)
    ensures
        match r {
            Ok(bits) => number_in(s@) == Ok::<u64, Seq<char>>(settled(bits)),
            Err(e) => number_in(s@) == Err::<u64, Seq<char>>(e@),
        },
{
    let parsed: Result<_, std::num::ParseFloatError> = s.parse();
    parsed.map_err(|e| e.to_string()).map(|value| {
        // Tells the compiler which type is parsed; what it gives is dropped.
        serde_json::Number::from_f64(value);
        value.to_bits()
    })
}

/// The settled pattern of the number that a text denotes, or why it denotes none.
pub fn parse_number(s: &str) -> (r: Result<u64, String>)
    ensures
        match r {
            Ok(bits) => number_in(s@) == Ok::<u64, Seq<char>>(bits),
            Err(e) => number_in(s@) == Err::<u64, Seq<char>>(e@),
        },
{
    match parse_bits(s) {
        Ok(bits) => if bits % 0x8000_0000_0000_0000 > 0x7ff0_0000_0000_0000 {
            Ok(NAN_BITS)
        } else {
            Ok(bits)
        },
        Err(e) => Err(e),
    }
}

} // verus!
