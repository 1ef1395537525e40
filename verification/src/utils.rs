//! Helpers for building the public-input vector.

use vstd::prelude::*;

use crate::field::Felt;
use crate::field::felt_from_u64;

verus! {

/// The bit of `input` at position `i`, least-significant bit first.
pub open spec fn bit_of(input: u64, i: u64) -> u64 {
    (input >> i) & 1
}

/// The bits of `input` as field elements, least-significant bit first:
/// the exponent slots of the public-input vector.
pub fn u64_to_bits_rev(input: u64, len: usize) -> (r: Vec<Felt>)
    requires
        len <= 64,
    ensures
        r@.len() == len,
        forall|i: int| 0 <= i < len ==> (#[trigger] r@[i]).value() == bit_of(input, i as u64),
        forall|i: int| 0 <= i < len ==> (#[trigger] r@[i]).canonical(),
        forall|i: int|
            0 <= i < len ==> ((#[trigger] r@[i]).value() == 0 || r@[i].value() == 1),
{
    let mut result: Vec<Felt> = Vec::new();
    let mut i: usize = 0;
    while i < len
        invariant
            i <= len,
            len <= 64,
            result@.len() == i,
            forall|j: int| 0 <= j < i ==> (#[trigger] result@[j]).value() == bit_of(
                input,
                j as u64,
            ),
            forall|j: int| 0 <= j < i ==> (#[trigger] result@[j]).canonical(),
            forall|j: int|
                0 <= j < i ==> ((#[trigger] result@[j]).value() == 0 || result@[j].value() == 1),
        decreases len - i,
    {
        let sh: u64 = i as u64;
        let bit_value: u64 = (input >> sh) & 1;
        proof {
            assert((input >> sh) & 1 <= 1) by (bit_vector);
        }
        result.push(felt_from_u64(bit_value));
        i = i + 1;
    }
    result
}

} // verus!
