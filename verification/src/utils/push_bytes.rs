use vstd::prelude::*;

verus! {

/// `buf` with the bytes `data` written over positions
/// `offset .. offset + data.len()`.
pub open spec fn spec_push_bytes(buf: Seq<u8>, offset: int, data: Seq<u8>) -> Seq<u8> {
    buf.subrange(0, offset) + data + buf.subrange(offset + data.len(), buf.len() as int)
}

/// Copies `data` into `buf` starting at `offset`, byte by byte, and returns
/// the offset just past the copy.
///
/// The caller sizes `buf` beforehand: the copy must fit.
pub fn push_bytes(buf: &mut [u8], offset: usize, data: &[u8]) -> (off: usize)
    requires
        offset + data@.len() <= old(buf)@.len(),
    ensures
        off == offset + data@.len(),
        final(buf)@ == spec_push_bytes(old(buf)@, offset as int, data@),
        final(buf)@.len() == old(buf)@.len(),
        final(buf)@.subrange(0, off as int) == old(buf)@.subrange(0, offset as int) + data@,
        final(buf)@.subrange(off as int, final(buf)@.len() as int) == old(buf)@.subrange(
            off as int,
            old(buf)@.len() as int,
        ),
{
    let mut off: usize = offset;
    let mut k: usize = 0;
    while k < data.len()
        invariant
            k <= data@.len(),
            off == offset + k,
            buf@.len() == old(buf)@.len(),
            offset + data@.len() <= buf@.len(),
            buf@ =~= old(buf)@.subrange(0, offset as int) + data@.subrange(0, k as int) + old(
                buf,
            )@.subrange(off as int, old(buf)@.len() as int),
        decreases data@.len() - k,
    {
        buf[off] = data[k];
        off += 1;
        k += 1;
    }
    assert(data@.subrange(0, k as int) =~= data@);
    assert(buf@.subrange(0, off as int) =~= old(buf)@.subrange(0, offset as int) + data@);
    assert(buf@.subrange(off as int, buf@.len() as int) =~= old(buf)@.subrange(
        off as int,
        old(buf)@.len() as int,
    ));
    off
}

} // verus!
