//! Bounds-checked access to the shared data region, the bytes that
//! descriptors name.

use vstd::prelude::*;

verus! {

/// Whether `length` bytes from `offset` on lie inside a region of
/// `region_len` bytes.
pub open spec fn span_fits(offset: nat, length: nat, region_len: nat) -> bool {
    offset + length <= region_len
}

/// `region` with `bytes` laid over it from `offset` on.
pub open spec fn overlay(region: Seq<u8>, offset: int, bytes: Seq<u8>) -> Seq<u8> {
    Seq::new(
        region.len(),
        |i: int|
            if offset <= i < offset + bytes.len() {
                bytes[i - offset]
            } else {
                region[i]
            },
    )
}

/// Whether the span of `length` bytes at `offset` lies inside `region`.
pub fn in_bounds(region: &[u8], offset: usize, length: usize) -> (fits: bool)
    ensures
        fits == span_fits(offset as nat, length as nat, region@.len()),
        region@.len() <= usize::MAX,
{
    offset <= region.len() && length <= region.len() - offset
}

/// Copies `bytes` into `region` from `offset` on, if they fit there.
/// Otherwise the region stays as it is and the answer is `false`.
pub fn copy_in(region: &mut [u8], offset: usize, bytes: &[u8]) -> (done: bool)
    ensures
        done == span_fits(offset as nat, bytes@.len(), old(region)@.len()),
        done ==> final(region)@ == overlay(old(region)@, offset as int, bytes@),
        !done ==> final(region)@ == old(region)@,
{
    if !in_bounds(region, offset, bytes.len()) {
        return false;
    }
    let mut i: usize = 0;
    while i < bytes.len()
        invariant
            i <= bytes@.len(),
            offset + bytes@.len() <= region@.len() <= usize::MAX,
            region@.len() == old(region)@.len(),
            region@ == overlay(old(region)@, offset as int, bytes@.take(i as int)),
        decreases bytes@.len() - i,
    {
        region[offset + i] = bytes[i];
        i += 1;
    }
    assert(bytes@.take(i as int) == bytes@);
    true
}

/// The `length` bytes of `region` from `offset` on, or `None` if the region
/// does not hold them all.
pub fn copy_out(region: &[u8], offset: usize, length: usize) -> (bytes: Option<Vec<u8>>)
    ensures
        bytes.is_some() == span_fits(offset as nat, length as nat, region@.len()),
        bytes matches Some(b) ==> b@ == region@.subrange(offset as int, offset + length),
{
    if !in_bounds(region, offset, length) {
        return None;
    }
    let mut out: Vec<u8> = Vec::with_capacity(length);
    let mut i: usize = 0;
    while i < length
        invariant
            i <= length,
            offset + length <= region@.len() <= usize::MAX,
            out@ == region@.subrange(offset as int, offset + i),
        decreases length - i,
    {
        out.push(region[offset + i]);
        i += 1;
    }
    Some(out)
}

} // verus!
