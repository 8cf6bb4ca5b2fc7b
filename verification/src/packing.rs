//! Where the instances of a frame lie in its instance buffer.

use vstd::prelude::*;

verus! {

/// Every run of instances starts at a multiple of this many bytes.
pub const INSTANCE_ALIGNMENT: usize = 256;

/// The least multiple of the alignment that is not below `offset`.
pub open spec fn aligned(offset: int) -> int {
    ((offset + INSTANCE_ALIGNMENT - 1) / (INSTANCE_ALIGNMENT as int)) * INSTANCE_ALIGNMENT
}

/// Where a run of `len` bytes goes behind `offset` in a buffer of `capacity` bytes, if it fits.
pub open spec fn placement(offset: int, capacity: int, len: int) -> Option<int> {
    if aligned(offset) + len <= capacity {
        Some(aligned(offset))
    } else {
        None
    }
}

/// `aligned` is the least multiple of the alignment that is not below its argument.
pub proof fn aligned_is_least_multiple(offset: int)
    ensures
        aligned(offset) % (INSTANCE_ALIGNMENT as int) == 0,
        offset <= aligned(offset) < offset + INSTANCE_ALIGNMENT,
        forall|m: int|
            offset <= m && #[trigger] (m % (INSTANCE_ALIGNMENT as int)) == 0 ==> aligned(offset)
                <= m,
{
}

/// Aligning twice is aligning once.
pub proof fn aligned_is_idempotent(offset: int)
    ensures
        aligned(aligned(offset)) == aligned(offset),
{
}

/// Moves `offset` up to the next multiple of the alignment, where it is not on one.
pub fn align_offset(offset: &mut usize)
    requires
        aligned(*old(offset) as int) <= usize::MAX,
    ensures
        *final(offset) == aligned(*old(offset) as int),
{
    let remainder: usize = *offset % INSTANCE_ALIGNMENT;
    if remainder != 0 {
        *offset = *offset + (INSTANCE_ALIGNMENT - remainder);
    }
}

/// Moves `offset` up to the next multiple of the alignment, unless that is beyond all offsets.
pub fn try_align(offset: &mut usize) -> (r: bool)
    ensures
        r == (aligned(*old(offset) as int) <= usize::MAX),
        *final(offset) == if r {
            aligned(*old(offset) as int)
        } else {
            *old(offset) as int
        },
{
    let remainder: usize = *offset % INSTANCE_ALIGNMENT;
    if remainder != 0 && INSTANCE_ALIGNMENT - remainder > usize::MAX - *offset {
        return false;
    }
    align_offset(offset);
    true
}

/// Where a run of `len` bytes goes behind `offset` in a buffer of `capacity` bytes, if it fits.
pub fn place(offset: usize, capacity: usize, len: usize) -> (start: Option<usize>)
    ensures
        match start {
            Some(start) => placement(offset as int, capacity as int, len as int) == Some(
                start as int,
            ),
            None => placement(offset as int, capacity as int, len as int) is None,
        },
{
    if offset > capacity {
        return None;
    }
    let remainder: usize = offset % INSTANCE_ALIGNMENT;
    let gap: usize = if remainder == 0 { 0 } else { INSTANCE_ALIGNMENT - remainder };
    if gap > capacity - offset {
        return None;
    }
    let mut start: usize = offset;
    align_offset(&mut start);
    if len > capacity - start {
        None
    } else {
        Some(start)
    }
}

/// A run goes to the first multiple of the alignment behind the offset, and is refused exactly if
/// it does not end within the buffer from there.
pub proof fn runs_are_placed_where_they_fit(offset: int, capacity: int, len: int, start: int)
    requires
        start % (INSTANCE_ALIGNMENT as int) == 0,
        offset <= start < offset + INSTANCE_ALIGNMENT,
    ensures
        placement(offset, capacity, len) == if start + len <= capacity {
            Some(start)
        } else {
            None
        },
{
    aligned_is_least_multiple(offset);
}

} // verus!
