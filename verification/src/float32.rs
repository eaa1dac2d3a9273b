//! Single-precision values as bit patterns.
//!
//! The order of IEEE-754 binary32 values can be read off their bit patterns: sign and
//! magnitude as one integer. That is all the decision logic needs of a probability.
use vstd::prelude::*;

verus! {

/// The bit pattern of an IEEE-754 binary32 value.
pub type F32Bits = u32;

/// Exponent and fraction bits, without the sign.
pub open spec fn magnitude(v: F32Bits) -> int {
    if v < 0x8000_0000 {
        v as int
    } else {
        v - 0x8000_0000
    }
}

/// Whether the pattern is a NaN: all exponent bits set and a nonzero fraction.
pub open spec fn is_nan(v: F32Bits) -> bool {
    magnitude(v) > 0x7F80_0000
}

/// Where a non-NaN value stands in the order of the reals. The two zeros share rank 0.
pub open spec fn rank(v: F32Bits) -> int {
    if v < 0x8000_0000 {
        magnitude(v)
    } else {
        -magnitude(v)
    }
}

/// The IEEE-754 comparison `a > b`: false whenever a NaN takes part.
pub open spec fn greater(a: F32Bits, b: F32Bits) -> bool {
    !is_nan(a) && !is_nan(b) && rank(a) > rank(b)
}

/// Whether the value is zero, of either sign.
pub open spec fn is_zero(v: F32Bits) -> bool {
    magnitude(v) == 0
}

/// The index a left-to-right scan over the first `n` values settles on: it moves only to a
/// value that is strictly greater than the one it holds.
pub open spec fn argmax_upto(values: Seq<F32Bits>, n: int) -> int
    decreases n,
{
    if n <= 1 {
        0
    } else {
        let held = argmax_upto(values, n - 1);
        if greater(values[n - 1], values[held]) {
            n - 1
        } else {
            held
        }
    }
}

/// The IEEE-754 comparison `a > b` on bit patterns.
pub fn exceeds(a: F32Bits, b: F32Bits) -> (r: bool)
    ensures
        r == greater(a, b),
{
    let ma: u32 = if a < 0x8000_0000 { a } else { a - 0x8000_0000 };
    let mb: u32 = if b < 0x8000_0000 { b } else { b - 0x8000_0000 };
    if ma > 0x7F80_0000 || mb > 0x7F80_0000 {
        return false;
    }
    if a < 0x8000_0000 {
        if b < 0x8000_0000 {
            ma > mb
        } else {
            ma > 0 || mb > 0
        }
    } else {
        if b < 0x8000_0000 {
            false
        } else {
            ma < mb
        }
    }
}

/// Whether the value is `+0` or `-0`.
pub fn zero(v: F32Bits) -> (r: bool)
    ensures
        r == is_zero(v),
{
    v == 0 || v == 0x8000_0000
}

/// The index of the largest value and the value itself, ties broken toward the lower index.
///
/// A NaN is never greater than the value held so far, and nothing is greater than a NaN.
pub fn argmax(values: &[F32Bits]) -> (r: (usize, F32Bits))
    requires
        values@.len() > 0,
    ensures
        r.0 < values@.len(),
        r.0 == argmax_upto(values@, values@.len() as int),
        r.1 == values@[r.0 as int],
{
    let mut best: usize = 0;
    let mut i: usize = 1;
    while i < values.len()
        invariant
            1 <= i <= values@.len(),
            best < i,
            best == argmax_upto(values@, i as int),
        decreases values@.len() - i,
    {
        if exceeds(values[i], values[best]) {
            best = i;
        }
        i += 1;
    }
    (best, values[best])
}

/// On values without a NaN the scan finds the maximum, and the lowest index that holds it.
pub proof fn law_argmax_is_first_maximum(values: Seq<F32Bits>, n: int)
    requires
        1 <= n <= values.len(),
        forall|i: int| 0 <= i < n ==> !is_nan(#[trigger] values[i]),
    ensures
        0 <= argmax_upto(values, n) < n,
        forall|i: int|
            0 <= i < n ==> rank(#[trigger] values[i]) <= rank(values[argmax_upto(values, n)]),
        forall|i: int|
            0 <= i < argmax_upto(values, n) ==> rank(#[trigger] values[i]) < rank(
                values[argmax_upto(values, n)],
            ),
    decreases n,
{
    if n > 1 {
        law_argmax_is_first_maximum(values, n - 1);
    }
}

/// `greater` is a strict order: it never holds both ways, nor of a value and itself.
pub proof fn law_greater_is_strict(a: F32Bits, b: F32Bits, c: F32Bits)
    ensures
        !greater(a, a),
        greater(a, b) ==> !greater(b, a),
        greater(a, b) && greater(b, c) ==> greater(a, c),
{
}

/// The comparison is that of the values the patterns encode. Without their sign bit, patterns
/// grow with the size of the value, so two non-negative values compare as their patterns do,
/// two negative ones the other way round, and a non-negative one exceeds a negative one unless
/// both are zeros. A NaN, a pattern beyond that of infinity, exceeds nothing and is exceeded by
/// nothing.
pub proof fn law_patterns_compare_as_their_values(a: F32Bits, b: F32Bits, r: bool)
    requires
        call_ensures(exceeds, (a, b), r),
    ensures
        a <= 0x7F80_0000 && b <= 0x7F80_0000 ==> (r <==> a > b),
        0x8000_0000 <= a <= 0xFF80_0000 && 0x8000_0000 <= b <= 0xFF80_0000 ==> (r <==> a < b),
        a <= 0x7F80_0000 && 0x8000_0000 <= b <= 0xFF80_0000 ==> (r <==> a != 0 || b
            != 0x8000_0000),
        0x8000_0000 <= a <= 0xFF80_0000 && b <= 0x7F80_0000 ==> !r,
        0x7F80_0000 < a < 0x8000_0000 || a > 0xFF80_0000 ==> !r,
        0x7F80_0000 < b < 0x8000_0000 || b > 0xFF80_0000 ==> !r,
{
}

/// What the comparison reports is the order that the other laws speak of.
pub proof fn law_greater_is_the_order_of_values(a: F32Bits, b: F32Bits)
    ensures
        a <= 0x7F80_0000 && b <= 0x7F80_0000 ==> (greater(a, b) <==> a > b),
        0x8000_0000 <= a <= 0xFF80_0000 && 0x8000_0000 <= b <= 0xFF80_0000 ==> (greater(a, b)
            <==> a < b),
        a <= 0x7F80_0000 && 0x8000_0000 <= b <= 0xFF80_0000 ==> (greater(a, b) <==> a != 0 || b
            != 0x8000_0000),
        0x8000_0000 <= a <= 0xFF80_0000 && b <= 0x7F80_0000 ==> !greater(a, b),
        is_nan(a) <==> 0x7F80_0000 < a < 0x8000_0000 || a > 0xFF80_0000,
        is_nan(a) || is_nan(b) ==> !greater(a, b),
        is_zero(a) <==> a == 0 || a == 0x8000_0000,
{
}

/// Exactly the two zeros are zero.
pub proof fn law_zeros_are_the_two_patterns(v: F32Bits, r: bool)
    requires
        call_ensures(zero, (v,), r),
    ensures
        r <==> v == 0 || v == 0x8000_0000,
{
}

/// Of non-negative values, such as probabilities, the largest is named, with its value, and the
/// first of those that are largest: none has a larger pattern, and each before it a smaller one.
pub proof fn law_argmax_names_the_largest_probability(
    values: &[F32Bits],
    i: usize,
    v: F32Bits,
    j: int,
)
    requires
        values@.len() > 0,
        forall|k: int| 0 <= k < values@.len() ==> #[trigger] values@[k] <= 0x7F80_0000,
        call_ensures(argmax, (values,), (i, v)),
        0 <= j < values@.len(),
    ensures
        i < values@.len(),
        v == values@[i as int],
        values@[j] <= v,
        j < i ==> values@[j] < v,
{
    law_argmax_is_first_maximum(values@, values@.len() as int);
    assert(rank(values@[j]) <= rank(values@[i as int]));
    if j < i {
        assert(rank(values@[j]) < rank(values@[i as int]));
    }
}

/// A NaN in front is kept, for nothing exceeds it; behind a number it is passed over, and the
/// first of the largest numbers is named.
pub proof fn law_argmax_passes_over_nans(values: &[F32Bits], i: usize, v: F32Bits, j: int)
    requires
        values@.len() > 0,
        call_ensures(argmax, (values,), (i, v)),
        0 <= j < values@.len(),
    ensures
        i < values@.len(),
        v == values@[i as int],
        is_nan(values@[0]) ==> i == 0,
        !is_nan(values@[0]) ==> !is_nan(v),
        !is_nan(values@[0]) ==> !greater(values@[j], v),
        !is_nan(values@[0]) && j < i && !is_nan(values@[j]) ==> greater(v, values@[j]),
{
    lemma_argmax_passes_over_nans(values@, values@.len() as int);
}

/// What the scan holds after `n` values.
proof fn lemma_argmax_passes_over_nans(values: Seq<F32Bits>, n: int)
    requires
        1 <= n <= values.len(),
    ensures
        ({
            let i = argmax_upto(values, n);
            &&& 0 <= i < n
            &&& is_nan(values[0]) ==> i == 0
            &&& !is_nan(values[0]) ==> {
                &&& !is_nan(values[i])
                &&& forall|j: int| 0 <= j < n ==> !greater(#[trigger] values[j], values[i])
                &&& forall|j: int|
                    0 <= j < i && !is_nan(#[trigger] values[j]) ==> greater(values[i], values[j])
            }
        }),
    decreases n,
{
    if n > 1 {
        lemma_argmax_passes_over_nans(values, n - 1);
    }
}

} // verus!
