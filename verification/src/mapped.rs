//! The writable memory map `memmap::MmapMut` that holds a segment's index
//! files, and the reads and writes the segment makes through it.

use vstd::prelude::*;
use memmap::MmapMut;

verus! {

/// `memmap::MmapMut`, carried through the library as an opaque value.
#[verifier::external_type_specification]
#[verifier::external_body]
pub struct ExMmapMut(MmapMut);

/// The bytes that a mapping holds, in order.
pub uninterp spec fn mmap_bytes(m: MmapMut) -> Seq<u8>;

/// `<MmapMut as Deref>::deref(..).len()`: the number of mapped bytes.
#[verifier::external_body]
pub fn mmap_len(m: &MmapMut) -> (r: usize)
    ensures
        r == mmap_bytes(*m).len(),
{
    m.len()
}

/// `<MmapMut as Deref>::deref`: a slice of exactly the mapped bytes.
#[verifier::external_body]
pub fn mmap_as_slice(m: &MmapMut) -> (r: &[u8])
    ensures
        r@ == mmap_bytes(*m),
{
    &m[..]
}

/// `<[u8]>::copy_from_slice` on the mapped bytes from `pos`: they are
/// replaced by `src`, and every other byte stays. The call panics unless the
/// range lies inside the mapping, which `requires` rules out.
#[verifier::external_body]
pub fn mmap_copy_from(m: &mut MmapMut, pos: usize, src: &[u8])
    requires
        pos + src@.len() <= mmap_bytes(*old(m)).len(),
    ensures
        mmap_bytes(*final(m)) == mmap_bytes(*old(m)).subrange(0, pos as int) + src@
            + mmap_bytes(*old(m)).subrange(pos + src@.len(), mmap_bytes(*old(m)).len() as int),
{
    m[pos..pos + src.len()].copy_from_slice(src)
}

} // verus!
