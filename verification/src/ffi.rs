//! The part of the C interface that computes: handing bytes to a buffer
//! that the caller provides.

use vstd::prelude::*;

verus! {

/// Copies `data` to the start of `buf` when it fits, and returns the number
/// of bytes copied; returns -1 and leaves `buf` unchanged when it does not
/// fit. The count is returned as `i32`, as the C interface declares it
/// (a count above `i32::MAX` wraps, as the `as` conversion does).
pub fn copy_to_buffer(data: &[u8], buf: &mut [u8]) -> (r: i32)
    ensures
        data@.len() > old(buf)@.len() ==> r == -1 && final(buf)@ == old(buf)@,
        data@.len() <= old(buf)@.len() ==> r == data@.len() as i32
            && final(buf)@ == data@ + old(buf)@.skip(data@.len() as int),
{
    if data.len() > buf.len() {
        return -1;
    }
    let ghost start = buf@;
    let mut i: usize = 0;
    while i < data.len()
        invariant
            i <= data@.len(),
            data@.len() <= start.len(),
            buf@.len() == start.len(),
            buf@ == data@.take(i as int) + start.skip(i as int),
        decreases data@.len() - i,
    {
        buf[i] = data[i];
        i = i + 1;
        assert(buf@ =~= data@.take(i as int) + start.skip(i as int));
    }
    assert(data@.take(data@.len() as int) =~= data@);
    #[verifier::truncate]
    let n = data.len() as i32;
    n
}

} // verus!
