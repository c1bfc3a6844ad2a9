//! The pieces of the binary training-data format that are pure
//! computation: big-endian words, the header layout, and one-hot target
//! vectors. Reading the files themselves is left to the caller.
use vstd::prelude::*;
use crate::vector::Vector;
use crate::scalar::{f_usize, usize_bits, ONE_BITS};

verus! {

/// The big-endian 32-bit value spelled by the four bytes at `off`.
pub open spec fn spec_be_u32(bytes: Seq<u8>, off: int) -> int {
    bytes[off] * 0x100_0000 + bytes[off + 1] * 0x1_0000 + bytes[off + 2] * 0x100 + bytes[off + 3]
}

/// The big-endian 32-bit value at offset `off`.
pub fn be_u32_at(bytes: &[u8], off: usize) -> (r: u32)
    requires
        off + 4 <= bytes@.len(),
    ensures
        r == spec_be_u32(bytes@, off as int),
{
    let b0: u32 = bytes[off] as u32;
    let b1: u32 = bytes[off + 1] as u32;
    let b2: u32 = bytes[off + 2] as u32;
    let b3: u32 = bytes[off + 3] as u32;
    let r: u32 = (b0 << 24) | (b1 << 16) | (b2 << 8) | b3;
    proof {
        assert((b0 << 24u32) | (b1 << 16u32) | (b2 << 8u32) | b3 == b0 * 0x100_0000 + b1
            * 0x1_0000 + b2 * 0x100 + b3) by (bit_vector)
            requires
                b0 < 256u32,
                b1 < 256u32,
                b2 < 256u32,
                b3 < 256u32,
        ;
    }
    r
}

/// Reads a 32-bit big-endian value from the first four bytes.
pub fn u8_to_u32(bytes: &[u8]) -> (r: u32)
    requires
        bytes@.len() >= 4,
    ensures
        r == spec_be_u32(bytes@, 0),
{
    be_u32_at(bytes, 0)
}

/// A parsed header of the binary training-data format: big-endian, two
/// reserved bytes, one element-type byte, one dimension-count byte, then
/// one 32-bit big-endian size per dimension.
pub struct IdxHeader {
    pub element_type: u8,
    pub dimension_sizes: Vec<u32>,
}

/// Parses the header from the front of `bytes`; `None` when the bytes do
/// not even cover the header.
pub fn parse_idx_header(bytes: &[u8]) -> (r: Option<IdxHeader>)
    ensures
        match r {
            Some(h) => {
                &&& bytes@.len() >= 4
                &&& bytes@.len() >= 4 + 4 * (bytes@[3] as int)
                &&& h.element_type == bytes@[2]
                &&& h.dimension_sizes@.len() == bytes@[3]
                &&& forall|d: int|
                    0 <= d < h.dimension_sizes@.len() ==> #[trigger] h.dimension_sizes@[d]
                        == spec_be_u32(bytes@, 4 + 4 * d)
            },
            None => bytes@.len() < 4 || bytes@.len() < 4 + 4 * (bytes@[3] as int),
        },
{
    if bytes.len() < 4 {
        return None;
    }
    let ndims: usize = bytes[3] as usize;
    if bytes.len() < 4 + 4 * ndims {
        return None;
    }
    let mut dims: Vec<u32> = Vec::new();
    let mut d: usize = 0;
    while d < ndims
        invariant
            ndims == bytes@[3],
            bytes@.len() >= 4 + 4 * ndims,
            d <= ndims,
            dims@.len() == d,
            forall|q: int| 0 <= q < d ==> #[trigger] dims@[q] == spec_be_u32(bytes@, 4 + 4 * q),
        decreases ndims - d,
    {
        let off: usize = 4 + 4 * d;
        dims.push(be_u32_at(bytes, off));
        d += 1;
    }
    Some(IdxHeader { element_type: bytes[2], dimension_sizes: dims })
}

/// The pixel bytes of one image as a vector of doubles: each byte becomes
/// the double with its exact integer value.
pub fn pixels_to_vector(bytes: &[u8]) -> (v: Vector)
    ensures
        v@.len() == bytes@.len(),
        forall|i: int|
            0 <= i < bytes@.len() ==> #[trigger] v@[i] == usize_bits(bytes@[i] as usize),
{
    let mut inner: Vec<u64> = Vec::new();
    let mut i: usize = 0;
    while i < bytes.len()
        invariant
            i <= bytes@.len(),
            inner@.len() == i,
            forall|q: int| 0 <= q < i ==> #[trigger] inner@[q] == usize_bits(bytes@[q] as usize),
        decreases bytes@.len() - i,
    {
        inner.push(f_usize(bytes[i] as usize));
        i += 1;
    }
    Vector::from(inner)
}

/// The one-hot target vector for a label: length 10, a single 1.0 at the
/// labeled index, 0.0 everywhere else.
pub fn one_hot(label: u8) -> (v: Vector)
    requires
        label < 10,
    ensures
        v@.len() == 10,
        v@[label as int] == ONE_BITS,
        forall|i: int| 0 <= i < 10 && i != label ==> v@[i] == 0u64,
{
    let mut inner: Vec<u64> = Vec::new();
    let mut i: usize = 0;
    while i < 10
        invariant
            i <= 10,
            inner@.len() == i,
            forall|q: int|
                0 <= q < i ==> #[trigger] inner@[q] == if q == label as int {
                    ONE_BITS
                } else {
                    0u64
                },
        decreases 10 - i,
    {
        if i == label as usize {
            inner.push(ONE_BITS);
        } else {
            inner.push(0u64);
        }
        i += 1;
    }
    Vector::from(inner)
}

} // verus!
