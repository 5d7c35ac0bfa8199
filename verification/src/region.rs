//! Trusted boundary around the operating-system memory mapping.
//!
//! The mapping itself is a `memmap2` value: `MmapMut` while the pages are
//! readable and writable, `Mmap` once they are readable and executable.
//! What the mapping holds is named by the two uninterpreted sequences
//! below; every wrapper states its effect over them.

use vstd::prelude::*;

verus! {

#[verifier::external_type_specification]
#[verifier::external_body]
pub struct ExMmapMut(memmap2::MmapMut);

#[verifier::external_type_specification]
#[verifier::external_body]
pub struct ExMmap(memmap2::Mmap);

/// The bytes held by a writable mapping, in address order.
pub uninterp spec fn mut_bytes(m: memmap2::MmapMut) -> Seq<u8>;

/// The bytes held by an executable mapping, in address order.
pub uninterp spec fn exec_bytes(m: memmap2::Mmap) -> Seq<u8>;

/// Relies on `memmap2::MmapMut::map_anon`: a fresh anonymous mapping of
/// `size` bytes is readable and writable and zero-filled.  A refusal by the
/// operating system is a fatal fault, so the call aborts on it.
#[verifier::external_body]
pub(crate) fn map_region(size: usize) -> (r: memmap2::MmapMut)
    requires
        0 < size,
    ensures
        mut_bytes(r).len() == size,
        forall|i: int| 0 <= i < size ==> mut_bytes(r)[i] == 0,
{
    memmap2::MmapMut::map_anon(size).unwrap()
}

/// Relies on `memmap2::MmapMut`'s `DerefMut` to `[u8]`: a store through the
/// slice changes exactly the addressed byte of the mapping.
#[verifier::external_body]
pub(crate) fn write_byte(m: &mut memmap2::MmapMut, i: usize, b: u8)
    requires
        i < mut_bytes(*old(m)).len(),
    ensures
        mut_bytes(*final(m)) == mut_bytes(*old(m)).update(i as int, b),
{
    m[i] = b;
}

/// Relies on `memmap2::MmapMut`'s `Deref` to `[u8]`: a load through the
/// slice reads the addressed byte of the mapping.
#[verifier::external_body]
pub(crate) fn read_byte(m: &memmap2::MmapMut, i: usize) -> (r: u8)
    requires
        i < mut_bytes(*m).len(),
    ensures
        r == mut_bytes(*m)[i as int],
{
    m[i]
}

/// Relies on `memmap2::Mmap`'s `Deref` to `[u8]`: the executable pages stay
/// readable, so a load through the slice reads the addressed byte.
#[verifier::external_body]
pub(crate) fn read_exec_byte(m: &memmap2::Mmap, i: usize) -> (r: u8)
    requires
        i < exec_bytes(*m).len(),
    ensures
        r == exec_bytes(*m)[i as int],
{
    m[i]
}

/// Relies on `memmap2::MmapMut::make_exec`: the protection of the mapping
/// changes to read/execute while its address range and contents stay as
/// they are.  A failed protection change is a fatal fault, so the call
/// aborts on it.
#[verifier::external_body]
pub(crate) fn make_exec(m: memmap2::MmapMut) -> (r: memmap2::Mmap)
    ensures
        exec_bytes(r) == mut_bytes(m),
{
    m.make_exec().unwrap()
}

/// Relies on `memmap2::Mmap::make_mut`: the protection of the mapping
/// changes to read/write while its address range and contents stay as they
/// are.  A failed protection change is a fatal fault, so the call aborts on
/// it.
#[verifier::external_body]
pub(crate) fn make_mut(m: memmap2::Mmap) -> (r: memmap2::MmapMut)
    ensures
        mut_bytes(r) == exec_bytes(m),
{
    m.make_mut().unwrap()
}

} // verus!
