//! The code buffer: a fixed-capacity, page-sized memory region that is
//! either writable or executable, with bounds-checked appending.

use vstd::prelude::*;

use crate::bytes::u16_be_bytes;
use crate::bytes::u16_le_bytes;
use crate::bytes::u32_be_bytes;
use crate::bytes::u32_le_bytes;
use crate::bytes::u64_be_bytes;
use crate::bytes::u64_le_bytes;
use crate::region;
use crate::region::exec_bytes;
use crate::region::mut_bytes;

verus! {

/// The size in bytes of one page, and so of every buffer made by `new`.
pub const PAGE_SIZE: usize = 4096;

/// The abstract state of a buffer: the full contents of its region, how
/// many bytes have been written, and whether the region is writable
/// (otherwise it is executable).
pub ghost struct BufView {
    pub bytes: Seq<u8>,
    pub len: nat,
    pub writable: bool,
}

/// Whether an append of `n` more bytes is accepted: the written length may
/// never reach the capacity itself, so the last byte of the region stays a
/// reserved margin.
pub open spec fn can_append(v: BufView, n: nat) -> bool {
    v.len + n < v.bytes.len()
}

/// `base` with the bytes of `code` laid over it starting at `at`.
pub open spec fn splice(base: Seq<u8>, at: int, code: Seq<u8>) -> Seq<u8> {
    Seq::new(base.len(), |i: int| if at <= i < at + code.len() { code[i - at] } else { base[i] })
}

/// The state after an accepted append of `code`: the bytes are written at
/// the old length, the length grows by the count, and the region is left
/// writable.
pub open spec fn appended(v: BufView, code: Seq<u8>) -> BufView {
    BufView {
        bytes: splice(v.bytes, v.len as int, code),
        len: v.len + code.len(),
        writable: true,
    }
}

/// `v` with its protection mode set to `writable`, everything else as it
/// was.
pub open spec fn with_mode(v: BufView, writable: bool) -> BufView {
    BufView { bytes: v.bytes, len: v.len, writable: writable }
}

/// `capacity` rounded up to the next multiple of the page size.
pub open spec fn page_rounded(capacity: int) -> int {
    if capacity % (PAGE_SIZE as int) == 0 {
        capacity
    } else {
        capacity - capacity % (PAGE_SIZE as int) + PAGE_SIZE
    }
}

/// Appending in sequence is appending the concatenation: whenever the
/// combined code still leaves the reserved last byte free, the first
/// append is accepted, the second is accepted after it, and the outcome is
/// the single append of both codes together, with the lengths adding up.
pub proof fn lemma_append_sequence(v: BufView, c1: Seq<u8>, c2: Seq<u8>)
    requires
        v.len + c1.len() + c2.len() < v.bytes.len(),
    ensures
        can_append(v, c1.len()),
        can_append(appended(v, c1), c2.len()),
        appended(appended(v, c1), c2) == appended(v, c1 + c2),
        appended(appended(v, c1), c2).len == v.len + c1.len() + c2.len(),
{
    assert(appended(appended(v, c1), c2).bytes =~= appended(v, c1 + c2).bytes);
}

/// The combined size of a sequence of codes.
pub open spec fn total_len(codes: Seq<Seq<u8>>) -> nat
    decreases codes.len(),
{
    if codes.len() == 0 {
        0
    } else {
        codes[0].len() + total_len(codes.drop_first())
    }
}

/// The state after appending every code of a sequence in order.
pub open spec fn appended_all(v: BufView, codes: Seq<Seq<u8>>) -> BufView
    decreases codes.len(),
{
    if codes.len() == 0 {
        v
    } else {
        appended_all(appended(v, codes[0]), codes.drop_first())
    }
}

/// For any sequence of appends whose total size still leaves the reserved
/// last byte free, every single append is accepted at its turn, the length
/// grows by exactly the combined count, and the capacity never changes.
pub proof fn lemma_append_all(v: BufView, codes: Seq<Seq<u8>>)
    requires
        v.len + total_len(codes) < v.bytes.len(),
    ensures
        forall|i: int|
            0 <= i < codes.len() ==> can_append(
                appended_all(v, codes.take(i)),
                codes[i].len(),
            ),
        appended_all(v, codes).len == v.len + total_len(codes),
        appended_all(v, codes).bytes.len() == v.bytes.len(),
    decreases codes.len(),
{
    if codes.len() > 0 {
        let v1 = appended(v, codes[0]);
        let rest = codes.drop_first();
        lemma_append_all(v1, rest);
        assert(codes.take(0) =~= Seq::<Seq<u8>>::empty());
        assert forall|i: int| 1 <= i < codes.len() implies can_append(
            appended_all(v, codes.take(i)),
            codes[i].len(),
        ) by {
            assert(codes.take(i).drop_first() =~= rest.take(i - 1));
            assert(appended_all(v, codes.take(i)) == appended_all(v1, rest.take(i - 1)));
            assert(codes[i] == rest[i - 1]);
        }
    }
}

/// Setting the protection mode is idempotent: a second transition to the
/// same target changes nothing observable.
pub proof fn lemma_set_mode_idempotent(v: BufView, target: bool)
    ensures
        with_mode(with_mode(v, target), target) == with_mode(v, target),
{
}

/// A region of memory obtained from the operating system, never writable
/// and executable at once.  Exactly one of the two fields holds the
/// mapping; which one is the protection mode.  The mapping is owned by
/// this value alone and is returned to the operating system exactly once,
/// when the value is dropped.
pub struct ByteBuffer {
    w: Option<memmap2::MmapMut>,
    x: Option<memmap2::Mmap>,
    len: usize,
    size: usize,
}

impl View for ByteBuffer {
    type V = BufView;

    closed spec fn view(&self) -> BufView {
        BufView {
            bytes: if self.w is Some {
                mut_bytes(self.w.unwrap())
            } else {
                exec_bytes(self.x.unwrap())
            },
            len: self.len as nat,
            writable: self.w is Some,
        }
    }
}

impl ByteBuffer {
    /// The mapping is held in exactly one of the two modes, its size is the
    /// capacity, and the written length stays strictly below the capacity.
    pub closed spec fn wf(self) -> bool {
        &&& (self.w is Some) <==> (self.x is None)
        &&& self@.bytes.len() == self.size
        &&& self.len < self.size
    }

    /// Obtain a fresh writable region of at least `size` bytes, zero-filled
    /// and empty; the capacity is `size` rounded up to the page size.
    pub fn alloc_with_size(size: usize) -> (r: Self)
        requires
            0 < size,
            size <= usize::MAX - PAGE_SIZE,
        ensures
            r.wf(),
            r@.len == 0,
            r@.writable,
            r@.bytes.len() == page_rounded(size as int),
            forall|i: int| 0 <= i < r@.bytes.len() ==> r@.bytes[i] == 0,
    {
        let rem = size % PAGE_SIZE;
        let rounded = if rem == 0 {
            size
        } else {
            size - rem + PAGE_SIZE
        };
        let m = region::map_region(rounded);
        ByteBuffer { w: Some(m), x: None, len: 0, size: rounded }
    }

    /// A well-formed buffer's written length stays strictly below its
    /// capacity, so the reserved last byte of the region is never reached.
    pub proof fn lemma_wf_len(self)
        requires
            self.wf(),
        ensures
            self@.len < self@.bytes.len(),
    {
    }

    /// A fresh page-sized buffer: writable, empty, zero-filled.
    pub fn new() -> (r: Self)
        ensures
            r.wf(),
            r@.len == 0,
            r@.writable,
            r@.bytes.len() == PAGE_SIZE,
            forall|i: int| 0 <= i < PAGE_SIZE ==> r@.bytes[i] == 0,
    {
        Self::alloc_with_size(PAGE_SIZE)
    }

    /// How many bytes have been written so far.
    pub fn len(&self) -> (r: usize)
        ensures
            r == self@.len,
    {
        self.len
    }

    /// Whether the region is currently writable (otherwise it is
    /// executable).
    pub fn is_writable(&self) -> (r: bool)
        ensures
            r == self@.writable,
    {
        self.w.is_some()
    }

    /// Flip the protection of the whole region to writable (`true`) or
    /// executable (`false`).  Only called when the mode actually changes;
    /// the contents are untouched.
    fn change_protect(&mut self, protect: bool)
        requires
            old(self).wf(),
            old(self)@.writable != protect,
        ensures
            final(self).wf(),
            final(self)@ == with_mode(old(self)@, protect),
    {
        if protect {
            let m = self.x.take();
            self.w = Some(region::make_mut(m.unwrap()));
        } else {
            let m = self.w.take();
            self.x = Some(region::make_exec(m.unwrap()));
        }
    }

    /// Make the region writable; a no-op when it already is.
    pub fn writable(&mut self)
        requires
            old(self).wf(),
        ensures
            final(self).wf(),
            final(self)@ == with_mode(old(self)@, true),
    {
        if self.x.is_some() {
            self.change_protect(true);
        }
    }

    /// Make the region executable; a no-op when it already is.
    pub fn executable(&mut self)
        requires
            old(self).wf(),
        ensures
            final(self).wf(),
            final(self)@ == with_mode(old(self)@, false),
    {
        if self.w.is_some() {
            self.change_protect(false);
        }
    }

    /// Append `code` at the written end of the buffer.  The call is
    /// accepted exactly when the new length would stay below the capacity
    /// (the last byte of the region is never written); on acceptance the
    /// region is made writable, the bytes are copied in and the length
    /// advances, and on rejection the buffer is left exactly as it was.
    pub fn load(&mut self, code: Vec<u8>) -> (r: bool)
        requires
            old(self).wf(),
        ensures
            final(self).wf(),
            r == can_append(old(self)@, code@.len()),
            r ==> final(self)@ == appended(old(self)@, code@),
            !r ==> *final(self) == *old(self),
    {
        if code.len() >= self.size - self.len {
            return false;
        }

        self.writable();

        let ghost pre = self@;
        let mut m = self.w.take().unwrap();
        let base: usize = self.len;
        let mut k: usize = 0;
        while k < code.len()
            invariant
                base + code@.len() < mut_bytes(m).len(),
                mut_bytes(m).len() <= usize::MAX,
                k <= code@.len(),
                mut_bytes(m).len() == pre.bytes.len(),
                forall|j: int| 0 <= j < k ==> mut_bytes(m)[base + j] == code@[j],
                forall|j: int|
                    0 <= j < mut_bytes(m).len() && !(base <= j < base + k) ==> mut_bytes(m)[j]
                        == pre.bytes[j],
            decreases code@.len() - k,
        {
            region::write_byte(&mut m, base + k, code[k]);
            k += 1;
        }
        self.w = Some(m);
        self.len = self.len + code.len();

        proof {
            assert(self@.bytes =~= appended(pre, code@).bytes);
        }
        true
    }

    /// Append one byte.
    pub fn push_u8(&mut self, val: u8) -> (r: bool)
        requires
            old(self).wf(),
        ensures
            final(self).wf(),
            r == can_append(old(self)@, 1),
            r ==> final(self)@ == appended(old(self)@, seq![val]),
            !r ==> *final(self) == *old(self),
    {
        let vals: Vec<u8> = vec![val];
        proof {
            assert(vals@ =~= seq![val]);
        }
        self.load(vals)
    }

    /// Append the two bytes of `val`, most significant first.
    pub fn push_u16_be(&mut self, val: u16) -> (r: bool)
        requires
            old(self).wf(),
        ensures
            final(self).wf(),
            r == can_append(old(self)@, 2),
            r ==> final(self)@ == appended(old(self)@, u16_be_bytes(val)),
            !r ==> *final(self) == *old(self),
    {
        let mut vals: Vec<u8> = Vec::new();
        vals.push(((val >> 8) & 0xff) as u8);
        vals.push((val & 0xff) as u8);
        proof {
            assert(vals@ =~= u16_be_bytes(val));
        }
        self.load(vals)
    }

    /// Append the two bytes of `val`, least significant first.
    pub fn push_u16_le(&mut self, val: u16) -> (r: bool)
        requires
            old(self).wf(),
        ensures
            final(self).wf(),
            r == can_append(old(self)@, 2),
            r ==> final(self)@ == appended(old(self)@, u16_le_bytes(val)),
            !r ==> *final(self) == *old(self),
    {
        let mut vals: Vec<u8> = Vec::new();
        vals.push((val & 0xff) as u8);
        vals.push(((val >> 8) & 0xff) as u8);
        proof {
            assert(vals@ =~= u16_le_bytes(val));
        }
        self.load(vals)
    }

    /// Append the four bytes of `val`, most significant first.
    pub fn push_u32_be(&mut self, val: u32) -> (r: bool)
        requires
            old(self).wf(),
        ensures
            final(self).wf(),
            r == can_append(old(self)@, 4),
            r ==> final(self)@ == appended(old(self)@, u32_be_bytes(val)),
            !r ==> *final(self) == *old(self),
    {
        let mut vals: Vec<u8> = Vec::new();
        vals.push(((val >> 24) & 0xff) as u8);
        vals.push(((val >> 16) & 0xff) as u8);
        vals.push(((val >> 8) & 0xff) as u8);
        vals.push((val & 0xff) as u8);
        proof {
            assert(vals@ =~= u32_be_bytes(val));
        }
        self.load(vals)
    }

    /// Append the four bytes of `val`, least significant first.
    pub fn push_u32_le(&mut self, val: u32) -> (r: bool)
        requires
            old(self).wf(),
        ensures
            final(self).wf(),
            r == can_append(old(self)@, 4),
            r ==> final(self)@ == appended(old(self)@, u32_le_bytes(val)),
            !r ==> *final(self) == *old(self),
    {
        let mut vals: Vec<u8> = Vec::new();
        vals.push((val & 0xff) as u8);
        vals.push(((val >> 8) & 0xff) as u8);
        vals.push(((val >> 16) & 0xff) as u8);
        vals.push(((val >> 24) & 0xff) as u8);
        proof {
            assert(vals@ =~= u32_le_bytes(val));
        }
        self.load(vals)
    }

    /// Append the eight bytes of `val`, most significant first.
    pub fn push_u64_be(&mut self, val: u64) -> (r: bool)
        requires
            old(self).wf(),
        ensures
            final(self).wf(),
            r == can_append(old(self)@, 8),
            r ==> final(self)@ == appended(old(self)@, u64_be_bytes(val)),
            !r ==> *final(self) == *old(self),
    {
        let mut vals: Vec<u8> = Vec::new();
        vals.push(((val >> 56) & 0xff) as u8);
        vals.push(((val >> 48) & 0xff) as u8);
        vals.push(((val >> 40) & 0xff) as u8);
        vals.push(((val >> 32) & 0xff) as u8);
        vals.push(((val >> 24) & 0xff) as u8);
        vals.push(((val >> 16) & 0xff) as u8);
        vals.push(((val >> 8) & 0xff) as u8);
        vals.push((val & 0xff) as u8);
        proof {
            assert(vals@ =~= u64_be_bytes(val));
        }
        self.load(vals)
    }

    /// Append the eight bytes of `val`, least significant first.
    pub fn push_u64_le(&mut self, val: u64) -> (r: bool)
        requires
            old(self).wf(),
        ensures
            final(self).wf(),
            r == can_append(old(self)@, 8),
            r ==> final(self)@ == appended(old(self)@, u64_le_bytes(val)),
            !r ==> *final(self) == *old(self),
    {
        let mut vals: Vec<u8> = Vec::new();
        vals.push((val & 0xff) as u8);
        vals.push(((val >> 8) & 0xff) as u8);
        vals.push(((val >> 16) & 0xff) as u8);
        vals.push(((val >> 24) & 0xff) as u8);
        vals.push(((val >> 32) & 0xff) as u8);
        vals.push(((val >> 40) & 0xff) as u8);
        vals.push(((val >> 48) & 0xff) as u8);
        vals.push(((val >> 56) & 0xff) as u8);
        proof {
            assert(vals@ =~= u64_le_bytes(val));
        }
        self.load(vals)
    }

    /// Read the byte at `index`, in either protection mode.  The index is
    /// checked against the capacity, not against the written length, so
    /// already-written code and the untouched tail can both be inspected.
    pub fn get(&self, index: usize) -> (r: u8)
        requires
            self.wf(),
            index < self@.bytes.len(),
        ensures
            r == self@.bytes[index as int],
    {
        match &self.w {
            Some(m) => region::read_byte(m, index),
            None => {
                let m = self.x.as_ref().unwrap();
                region::read_exec_byte(m, index)
            },
        }
    }

    /// Overwrite the byte at `index`, for patching already-written code.
    /// The region must be writable (see `writable`); the index is checked
    /// against the capacity, not against the written length.
    pub fn set(&mut self, index: usize, val: u8)
        requires
            old(self).wf(),
            old(self)@.writable,
            index < old(self)@.bytes.len(),
        ensures
            final(self).wf(),
            final(self)@.bytes == old(self)@.bytes.update(index as int, val),
            final(self)@.len == old(self)@.len,
            final(self)@.writable,
    {
        let mut m = self.w.take().unwrap();
        region::write_byte(&mut m, index, val);
        self.w = Some(m);
    }

    /// Make the region executable and hand out the mapping whose first
    /// byte is the entry point of the written code.  Jumping to it is the
    /// caller's escape hatch: nothing here can check that the bytes form a
    /// valid instruction sequence for the host.
    pub fn to_callable(&mut self) -> (r: &memmap2::Mmap)
        requires
            old(self).wf(),
        ensures
            final(self).wf(),
            final(self)@ == with_mode(old(self)@, false),
            exec_bytes(*r) == final(self)@.bytes,
    {
        self.executable();
        self.x.as_ref().unwrap()
    }
}

} // verus!
