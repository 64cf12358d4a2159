//! Single-precision numbers as the library carries them: by their IEEE-754
//! bit patterns, held in `u32`.
//!
//! Sign tests, negation and clamping are exact on bit patterns and are done
//! here. Rounding arithmetic is not: the caller supplies it as a function from
//! an operation and two operands to a result, all bit patterns, and every
//! contract that involves arithmetic is stated relative to that function.

use vstd::prelude::*;

verus! {

/// The bit pattern of `+0.0`.
pub const ZERO: u32 = 0;

/// The bit pattern of `0.5`.
pub const HALF: u32 = 0x3F00_0000;

/// The bit pattern of `1.0`.
pub const ONE: u32 = 0x3F80_0000;

/// The bit pattern of `-0.5`.
pub const MINUS_HALF: u32 = 0xBF00_0000;

/// The bit pattern of `-1.0`.
pub const MINUS_ONE: u32 = 0xBF80_0000;

/// The bit pattern of positive infinity: the largest pattern that is not a NaN
/// among those with a clear sign bit.
pub const INFINITY: u32 = 0x7F80_0000;

/// The sign bit.
pub const SIGN: u32 = 0x8000_0000;

/// An arithmetic operation that the caller's arithmetic unit performs.
///
/// The two-operand operations take both operands as bit patterns. The two
/// conversions carry their integer argument themselves and ignore the
/// operands.
#[derive(Clone, Copy, Debug, PartialEq, Eq, Structural)]
pub enum FloatOp {
    /// First operand plus second.
    Add,
    /// First operand minus second.
    Sub,
    /// First operand times second.
    Mul,
    /// First operand divided by second.
    Div,
    /// First operand raised to the power of the second.
    Pow,
    /// The number nearest to an unsigned count.
    FromCount(u64),
    /// The number nearest to a signed integer.
    FromInt(i32),
}

/// Whether the unit accepts every operation on every pair of operands.
pub open spec fn unit_is_total<F: Fn(FloatOp, u32, u32) -> u32>(fpu: &F) -> bool {
    forall|op: FloatOp, a: u32, b: u32| call_requires(*fpu, (op, a, b))
}

/// Whether `r` is a result that the unit may give for `op` on `a` and `b`.
pub open spec fn yields<F: Fn(FloatOp, u32, u32) -> u32>(
    fpu: &F,
    op: FloatOp,
    a: u32,
    b: u32,
    r: u32,
) -> bool {
    call_ensures(*fpu, (op, a, b), r)
}

/// Whether a pattern is a NaN.
pub open spec fn is_nan(bits: u32) -> bool {
    (INFINITY < bits && bits < SIGN) || bits > SIGN + INFINITY
}

/// Whether a pattern is a number greater than zero.
pub open spec fn spec_is_positive(bits: u32) -> bool {
    0 < bits <= INFINITY
}

/// Whether a pattern is a number less than zero.
pub open spec fn spec_is_negative(bits: u32) -> bool {
    SIGN < bits <= SIGN + INFINITY
}

/// The pattern with the sign bit flipped.
pub open spec fn spec_negated(bits: u32) -> u32 {
    if bits >= SIGN {
        (bits - SIGN) as u32
    } else {
        (bits + SIGN) as u32
    }
}

/// The pattern itself where it is greater than zero, `+0.0` elsewhere.
pub open spec fn spec_positive_part(bits: u32) -> u32 {
    if spec_is_positive(bits) {
        bits
    } else {
        ZERO
    }
}

/// The positive parts of a sequence of patterns.
pub open spec fn positive_parts(values: Seq<u32>) -> Seq<u32> {
    values.map_values(|v: u32| spec_positive_part(v))
}

/// Whether any pattern of a sequence is greater than zero.
pub open spec fn any_positive(values: Seq<u32>) -> bool {
    exists|i: int| 0 <= i < values.len() && spec_is_positive(#[trigger] values[i])
}

/// A sequence of `n` copies of `+0.0`.
pub open spec fn zeros(n: nat) -> Seq<u32> {
    Seq::new(n, |i: int| ZERO)
}

/// Tests whether a pattern is a number greater than zero. Zeros of either
/// sign and NaNs are not.
#[verifier::when_used_as_spec(spec_is_positive)]
pub fn is_positive(bits: u32) -> (r: bool)
    ensures
        r == spec_is_positive(bits),
{
    0 < bits && bits <= INFINITY
}

/// Tests whether a pattern is a number less than zero. Zeros of either sign
/// and NaNs are not.
#[verifier::when_used_as_spec(spec_is_negative)]
pub fn is_negative(bits: u32) -> (r: bool)
    ensures
        r == spec_is_negative(bits),
{
    SIGN < bits && bits <= SIGN + INFINITY
}

/// Negates a number by flipping its sign bit.
#[verifier::when_used_as_spec(spec_negated)]
pub fn negated(bits: u32) -> (r: u32)
    ensures
        r == spec_negated(bits),
{
    if bits >= SIGN {
        bits - SIGN
    } else {
        bits + SIGN
    }
}

/// Clamps a number from below at zero: what is not greater than zero becomes
/// `+0.0`.
#[verifier::when_used_as_spec(spec_positive_part)]
pub fn positive_part(bits: u32) -> (r: u32)
    ensures
        r == spec_positive_part(bits),
{
    if is_positive(bits) {
        bits
    } else {
        ZERO
    }
}

/// Makes a vector of `n` copies of `+0.0`.
pub fn zero_vector(n: usize) -> (v: Vec<u32>)
    ensures
        v@ == zeros(n as nat),
{
    let mut v: Vec<u32> = Vec::new();
    let mut i: usize = 0;
    while i < n
        invariant
            i <= n,
            v@ == zeros(i as nat),
        decreases n - i,
    {
        v.push(ZERO);
        i += 1;
        assert(v@ =~= zeros(i as nat));
    }
    v
}

/// Negating twice gives the pattern back, and negation exchanges the numbers
/// above zero with those below.
pub proof fn lemma_negation(bits: u32)
    ensures
        negated(negated(bits)) == bits,
        is_positive(bits) == is_negative(negated(bits)),
        is_negative(bits) == is_positive(negated(bits)),
        is_nan(bits) == is_nan(negated(bits)),
{
}

/// A positive part is never below zero and never a NaN, and it is above zero
/// exactly where the number was.
pub proof fn lemma_positive_part(bits: u32)
    ensures
        !is_negative(positive_part(bits)),
        !is_nan(positive_part(bits)),
        is_positive(positive_part(bits)) == is_positive(bits),
        positive_part(positive_part(bits)) == positive_part(bits),
{
}

} // verus!
