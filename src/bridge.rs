use std::collections::HashMap;
use vstd::arithmetic::div_mod::{
    lemma_fundamental_div_mod, lemma_mod_multiples_vanish, lemma_mod_pos_bound,
};
use vstd::prelude::*;
use vstd::utf8::{decode_utf8, encode_utf8, encode_utf8_decode_utf8, valid_utf8};

use crate::greeting::{greet, greeting_of};

verus! {

broadcast use vstd::std_specs::hash::group_hash_axioms;

/// Why a call into the bridge was refused. A refused call leaves the bridge
/// as it was.
#[derive(Debug, Clone, Copy, PartialEq, Eq, Structural)]
pub enum BridgeError {
    /// The address space left cannot hold a buffer of the requested size.
    AllocationFailure,
    /// The pointer does not name a live buffer.
    UnknownPointer,
    /// The size given at release differs from the size given at allocation.
    SizeMismatch,
    /// The bytes named lie outside the buffer.
    OutOfBounds,
    /// The bytes named are not well-formed UTF-8.
    InvalidUtf8,
    /// Every handle value has been issued.
    HandleExhausted,
    /// The handle is not live: never issued, or already released.
    UnknownHandle,
}

/// The abstract state of a bridge.
pub struct BridgeModel {
    /// Word alignment; also the sentinel returned for empty requests.
    pub align: nat,
    /// The address the next buffer will get.
    pub next_addr: nat,
    /// Live buffers by address.
    pub buffers: Map<usize, Seq<u8>>,
    /// Bytes held by live buffers.
    pub outstanding: nat,
    /// The handle the next boxed value will get.
    pub next_handle: nat,
    /// Boxed values by handle.
    pub values: Map<u64, Seq<char>>,
}

/// The total length of the buffers in `m`.
pub open spec fn total_len(m: Map<usize, Seq<u8>>) -> nat
    decreases m.dom().len(),
{
    if m.dom().finite() && exists|k: usize| m.contains_key(k) {
        let k = choose|k: usize| m.contains_key(k);
        m[k].len() + total_len(m.remove(k))
    } else {
        0
    }
}

/// Room taken in the address space by a buffer of `size` bytes: the size
/// rounded past the next multiple of the alignment.
pub open spec fn span(size: nat, align: nat) -> nat {
    (size / align + 1) * align
}

/// A buffer of `n` zero bytes.
pub open spec fn zeros(n: nat) -> Seq<u8> {
    Seq::new(n, |i: int| 0u8)
}

/// Taking one buffer out of `m` takes its length off the total.
pub proof fn lemma_total_len_remove(m: Map<usize, Seq<u8>>, k: usize)
    requires
        m.dom().finite(),
        m.contains_key(k),
    ensures
        total_len(m) == m[k].len() + total_len(m.remove(k)),
    decreases m.dom().len(),
{
    let j = choose|j: usize| m.contains_key(j);
    if j != k {
        lemma_total_len_remove(m.remove(j), k);
        lemma_total_len_remove(m.remove(k), j);
        assert(m.remove(j).remove(k) =~= m.remove(k).remove(j));
    }
}

/// Putting a buffer in at `k` adds its length to the total of the other
/// buffers.
pub proof fn lemma_total_len_insert(m: Map<usize, Seq<u8>>, k: usize, v: Seq<u8>)
    requires
        m.dom().finite(),
    ensures
        total_len(m.insert(k, v)) == total_len(m.remove(k)) + v.len(),
{
    lemma_total_len_remove(m.insert(k, v), k);
    assert(m.insert(k, v).remove(k) =~= m.remove(k));
}

impl BridgeModel {
    /// The invariant of every bridge.
    pub open spec fn wf(self) -> bool {
        &&& self.align == vstd::layout::align_of::<usize>()
        &&& self.align > 0
        &&& self.next_addr <= usize::MAX
        &&& self.next_addr == usize::MAX || (self.next_addr % self.align == 0 && self.align
            < self.next_addr)
        &&& self.buffers.dom().finite()
        &&& forall|p: usize| #[trigger]
            self.buffers.contains_key(p) ==> self.align < p < self.next_addr && p as nat % self.align == 0
        &&& self.outstanding == total_len(self.buffers)
        &&& self.outstanding <= self.next_addr
        &&& 1 <= self.next_handle <= u64::MAX
        &&& forall|h: u64| #[trigger] self.values.contains_key(h) ==> 1 <= h < self.next_handle
    }

    /// Whether the address space left holds a buffer of `size` bytes.
    pub open spec fn can_reserve(self, size: nat) -> bool {
        self.next_addr + span(size, self.align) <= usize::MAX
    }

    /// What `allocate(size)` does: an empty request gets the sentinel; any
    /// other gets a fresh zeroed buffer at the next address, or fails when
    /// the address space is spent.
    pub open spec fn allocate_step(
        self,
        size: usize,
        post: Self,
        r: Result<usize, BridgeError>,
    ) -> bool {
        if size == 0 {
            r == Ok::<usize, BridgeError>(self.align as usize) && post == self
        } else if !self.can_reserve(size as nat) {
            r == Err::<usize, BridgeError>(BridgeError::AllocationFailure) && post == self
        } else {
            &&& r == Ok::<usize, BridgeError>(self.next_addr as usize)
            &&& post == BridgeModel {
                align: self.align,
                next_addr: self.next_addr + span(size as nat, self.align),
                buffers: self.buffers.insert(self.next_addr as usize, zeros(size as nat)),
                outstanding: self.outstanding + size as nat,
                next_handle: self.next_handle,
                values: self.values,
            }
        }
    }

    /// What `deallocate(ptr, size)` does: nothing for an empty size; else it
    /// drops the live buffer at `ptr` when `size` is its length.
    pub open spec fn deallocate_step(
        self,
        ptr: usize,
        size: usize,
        post: Self,
        r: Result<(), BridgeError>,
    ) -> bool {
        if size == 0 {
            r == Ok::<(), BridgeError>(()) && post == self
        } else if !self.buffers.contains_key(ptr) {
            r == Err::<(), BridgeError>(BridgeError::UnknownPointer) && post == self
        } else if self.buffers[ptr].len() != size {
            r == Err::<(), BridgeError>(BridgeError::SizeMismatch) && post == self
        } else {
            &&& r == Ok::<(), BridgeError>(())
            &&& post == BridgeModel {
                align: self.align,
                next_addr: self.next_addr,
                buffers: self.buffers.remove(ptr),
                outstanding: (self.outstanding - size) as nat,
                next_handle: self.next_handle,
                values: self.values,
            }
        }
    }
}

impl BridgeModel {
    /// `bytes` written into `buf` from `offset` on.
    pub open spec fn spliced(buf: Seq<u8>, offset: nat, bytes: Seq<u8>) -> Seq<u8> {
        buf.subrange(0, offset as int) + bytes + buf.subrange(
            (offset + bytes.len()) as int,
            buf.len() as int,
        )
    }

    /// What `write(ptr, offset, bytes)` does: nothing for no bytes; else it
    /// overwrites part of the live buffer at `ptr`, when the bytes fit in it.
    pub open spec fn write_step(
        self,
        ptr: usize,
        offset: usize,
        bytes: Seq<u8>,
        post: Self,
        r: Result<(), BridgeError>,
    ) -> bool {
        if bytes.len() == 0 {
            r == Ok::<(), BridgeError>(()) && post == self
        } else if !self.buffers.contains_key(ptr) {
            r == Err::<(), BridgeError>(BridgeError::UnknownPointer) && post == self
        } else if offset + bytes.len() > self.buffers[ptr].len() {
            r == Err::<(), BridgeError>(BridgeError::OutOfBounds) && post == self
        } else {
            &&& r == Ok::<(), BridgeError>(())
            &&& post == BridgeModel {
                align: self.align,
                next_addr: self.next_addr,
                buffers: self.buffers.insert(
                    ptr,
                    Self::spliced(self.buffers[ptr], offset as nat, bytes),
                ),
                outstanding: self.outstanding,
                next_handle: self.next_handle,
                values: self.values,
            }
        }
    }

    /// The `len` bytes at `ptr`: none for an empty length, else the start of
    /// the live buffer at `ptr` when it is that long.
    pub open spec fn region(self, ptr: usize, len: usize) -> Option<Seq<u8>> {
        if len == 0 {
            Some(Seq::<u8>::empty())
        } else if self.buffers.contains_key(ptr) && len <= self.buffers[ptr].len() {
            Some(self.buffers[ptr].subrange(0, len as int))
        } else {
            None
        }
    }

    /// What `box_value(text)` does: `text` gets the next handle.
    pub open spec fn box_step(self, text: Seq<char>, post: Self, r: Result<u64, BridgeError>) -> bool {
        if self.next_handle >= u64::MAX {
            r == Err::<u64, BridgeError>(BridgeError::HandleExhausted) && post == self
        } else {
            &&& r == Ok::<u64, BridgeError>(self.next_handle as u64)
            &&& post == BridgeModel {
                align: self.align,
                next_addr: self.next_addr,
                buffers: self.buffers,
                outstanding: self.outstanding,
                next_handle: self.next_handle + 1,
                values: self.values.insert(self.next_handle as u64, text),
            }
        }
    }

    /// What `transform(ptr, len)` does: it reads the text at `ptr` and boxes
    /// its greeting.
    pub open spec fn transform_step(
        self,
        ptr: usize,
        len: usize,
        post: Self,
        r: Result<u64, BridgeError>,
    ) -> bool {
        match self.region(ptr, len) {
            None => r == Err::<u64, BridgeError>(BridgeError::OutOfBounds) && post == self,
            Some(bytes) => if !valid_utf8(bytes) {
                r == Err::<u64, BridgeError>(BridgeError::InvalidUtf8) && post == self
            } else {
                self.box_step(greeting_of(decode_utf8(bytes)), post, r)
            },
        }
    }

    /// What `release_handle(h)` does: it drops the value boxed under a live
    /// handle.
    pub open spec fn release_step(self, h: u64, post: Self, r: Result<(), BridgeError>) -> bool {
        if self.values.contains_key(h) {
            &&& r == Ok::<(), BridgeError>(())
            &&& post == BridgeModel {
                align: self.align,
                next_addr: self.next_addr,
                buffers: self.buffers,
                outstanding: self.outstanding,
                next_handle: self.next_handle,
                values: self.values.remove(h),
            }
        } else {
            r == Err::<(), BridgeError>(BridgeError::UnknownHandle) && post == self
        }
    }
}

/// Relies on std::str::from_utf8: it accepts exactly the well-formed UTF-8
/// byte sequences, and views the same bytes as text.
#[verifier::external_body]
fn utf8_text(bytes: &[u8]) -> (r: Option<&str>)
    ensures
        r is Some <==> valid_utf8(bytes@),
        r matches Some(s) ==> encode_utf8(s@) == bytes@,
{
    std::str::from_utf8(bytes).ok()
}

/// Live buffers and boxed values, each named by an integer.
///
/// An address is an integer that names a buffer only through this bridge:
/// addresses are handed out in increasing order past the sentinel, aligned
/// to the word, and never reused. Handles are numbered from 1 and never
/// reused either, so a released handle stays invalid.
pub struct Bridge {
    align: usize,
    next_addr: usize,
    buffers: HashMap<usize, Vec<u8>>,
    outstanding: usize,
    next_handle: u64,
    cells: HashMap<u64, String>,
}

impl View for Bridge {
    type V = BridgeModel;

    closed spec fn view(&self) -> BridgeModel {
        BridgeModel {
            align: self.align as nat,
            next_addr: self.next_addr as nat,
            buffers: self.buffers@.map_values(|v: Vec<u8>| v@),
            outstanding: self.outstanding as nat,
            next_handle: self.next_handle as nat,
            values: self.cells@.map_values(|s: String| s@),
        }
    }
}

/// The word alignment of this machine.
pub fn word_align() -> (r: usize)
    ensures
        r as nat == vstd::layout::align_of::<usize>(),
        r > 0,
{
    vstd::layout::layout_for_type_is_valid::<usize>();
    core::mem::align_of::<usize>()
}

impl Bridge {
    /// A bridge with no buffers and no boxed values.
    pub fn new() -> (r: Bridge)
        ensures
            r@.wf(),
            r@.buffers == Map::<usize, Seq<u8>>::empty(),
            r@.values == Map::<u64, Seq<char>>::empty(),
            r@.outstanding == 0,
    {
        let align = word_align();
        // Addresses start past the sentinel; where no aligned address lies
        // past it, the address space is spent from the start.
        let start = match align.checked_add(align) {
            Some(s) => s,
            None => usize::MAX,
        };
        proof {
            assert(align * 2 == align + align);
            lemma_mod_multiples_vanish(2, 0, align as int);
        }
        let r = Bridge {
            align,
            next_addr: start,
            buffers: HashMap::new(),
            outstanding: 0,
            next_handle: 1,
            cells: HashMap::new(),
        };
        assert(r@.buffers =~= Map::<usize, Seq<u8>>::empty());
        assert(r@.values =~= Map::<u64, Seq<char>>::empty());
        r
    }

    /// Reserves a buffer of `size` bytes and returns its address. An empty
    /// request returns the sentinel, the alignment itself, which names no
    /// buffer.
    pub fn allocate(&mut self, size: usize) -> (r: Result<usize, BridgeError>)
        requires
            old(self)@.wf(),
        ensures
            final(self)@.wf(),
            old(self)@.allocate_step(size, final(self)@, r),
            r matches Ok(p) ==> p != 0,
            size > 0 ==> (r matches Ok(p) ==> p as nat != old(self)@.align && p as nat % old(
                self,
            )@.align == 0),
    {
        if size == 0 {
            return Ok(self.align);
        }
        let align = self.align;
        let words = size / align;
        proof {
            lemma_fundamental_div_mod(size as int, align as int);
            lemma_mod_pos_bound(size as int, align as int);
            assert((words + 1) * align == align * words + align) by (nonlinear_arith);
            assert((words + 1) * align >= words + 1) by (nonlinear_arith)
                requires
                    align >= 1,
            ;
        }
        let units = match words.checked_add(1) {
            Some(u) => u,
            None => return Err(BridgeError::AllocationFailure),
        };
        let room = match units.checked_mul(align) {
            Some(s) => s,
            None => return Err(BridgeError::AllocationFailure),
        };
        let end = match self.next_addr.checked_add(room) {
            Some(e) => e,
            None => return Err(BridgeError::AllocationFailure),
        };
        let ghost pre = self@;
        let ptr = self.next_addr;
        let mut block: Vec<u8> = Vec::with_capacity(size);
        while block.len() < size
            invariant
                block.len() <= size,
                block@ == zeros(block.len() as nat),
            decreases size - block.len(),
        {
            block.push(0u8);
            assert(block@ =~= zeros(block.len() as nat));
        }
        self.buffers.insert(ptr, block);
        self.next_addr = end;
        self.outstanding = self.outstanding + size;
        proof {
            lemma_mod_multiples_vanish(units as int, ptr as int, align as int);
            assert(units * align == align * units) by (nonlinear_arith);
            lemma_total_len_insert(pre.buffers, ptr, zeros(size as nat));
            assert(pre.buffers.remove(ptr) =~= pre.buffers);
            assert(self@.buffers =~= pre.buffers.insert(ptr, zeros(size as nat)));
            assert(self@.values == pre.values);
        }
        Ok(ptr)
    }

    /// Releases the buffer at `ptr`, which must have been reserved with the
    /// same `size`. An empty size releases nothing, whatever `ptr` is.
    pub fn deallocate(&mut self, ptr: usize, size: usize) -> (r: Result<(), BridgeError>)
        requires
            old(self)@.wf(),
        ensures
            final(self)@.wf(),
            old(self)@.deallocate_step(ptr, size, final(self)@, r),
    {
        if size == 0 {
            return Ok(());
        }
        let len = match self.buffers.get(&ptr) {
            Some(b) => b.len(),
            None => return Err(BridgeError::UnknownPointer),
        };
        if len != size {
            return Err(BridgeError::SizeMismatch);
        }
        let ghost pre = self@;
        proof {
            lemma_total_len_remove(pre.buffers, ptr);
        }
        self.buffers.remove(&ptr);
        self.outstanding = self.outstanding - size;
        assert(self@.buffers =~= pre.buffers.remove(ptr));
        assert(self@.values == pre.values);
        Ok(())
    }

    /// Copies `bytes` into the buffer at `ptr`, from `offset` on. Writing no
    /// bytes succeeds anywhere, the sentinel included.
    pub fn write(&mut self, ptr: usize, offset: usize, bytes: &[u8]) -> (r: Result<(), BridgeError>)
        requires
            old(self)@.wf(),
        ensures
            final(self)@.wf(),
            old(self)@.write_step(ptr, offset, bytes@, final(self)@, r),
    {
        if bytes.len() == 0 {
            return Ok(());
        }
        let len = match self.buffers.get(&ptr) {
            Some(b) => b.len(),
            None => return Err(BridgeError::UnknownPointer),
        };
        if offset > len || bytes.len() > len - offset {
            return Err(BridgeError::OutOfBounds);
        }
        let ghost pre = self@;
        let mut buf = match self.buffers.remove(&ptr) {
            Some(b) => b,
            None => return Err(BridgeError::UnknownPointer),
        };
        let ghost orig = buf@;
        let n = bytes.len();
        let mut i: usize = 0;
        while i < n
            invariant
                i <= n,
                n == bytes@.len(),
                len == orig.len(),
                offset + n <= len,
                buf@.len() == orig.len(),
                forall|j: int| 0 <= j < offset ==> buf@[j] == orig[j],
                forall|j: int| offset <= j < offset + i ==> buf@[j] == bytes@[j - offset],
                forall|j: int| offset + i <= j < orig.len() ==> buf@[j] == orig[j],
            decreases n - i,
        {
            buf.set(offset + i, bytes[i]);
            i = i + 1;
        }
        assert(buf@ =~= BridgeModel::spliced(orig, offset as nat, bytes@));
        self.buffers.insert(ptr, buf);
        proof {
            lemma_total_len_insert(pre.buffers, ptr, buf@);
            lemma_total_len_remove(pre.buffers, ptr);
            assert(self@.buffers =~= pre.buffers.insert(ptr, buf@));
            assert(self@.values == pre.values);
        }
        Ok(())
    }

    /// Moves `value` into a cell of its own and returns the cell's handle.
    /// The holder of the handle owns the value until it releases it.
    pub fn box_value(&mut self, value: String) -> (r: Result<u64, BridgeError>)
        requires
            old(self)@.wf(),
        ensures
            final(self)@.wf(),
            old(self)@.box_step(value@, final(self)@, r),
    {
        if self.next_handle == u64::MAX {
            return Err(BridgeError::HandleExhausted);
        }
        let ghost pre = self@;
        let h = self.next_handle;
        let ghost text = value@;
        self.cells.insert(h, value);
        self.next_handle = h + 1;
        assert(self@.values =~= pre.values.insert(h, text));
        assert(self@.buffers == pre.buffers);
        Ok(h)
    }

    /// Reads the `len` bytes at `ptr` as UTF-8 text, without copying them,
    /// and boxes its greeting. The buffer at `ptr` stays the caller's.
    pub fn transform(&mut self, ptr: usize, len: usize) -> (r: Result<u64, BridgeError>)
        requires
            old(self)@.wf(),
        ensures
            final(self)@.wf(),
            old(self)@.transform_step(ptr, len, final(self)@, r),
    {
        let text = if len == 0 {
            proof {
                reveal_strlit("");
            }
            greet("")
        } else {
            match self.buffers.get(&ptr) {
                None => return Err(BridgeError::OutOfBounds),
                Some(buf) => {
                    if len > buf.len() {
                        return Err(BridgeError::OutOfBounds);
                    }
                    let view = &buf.as_slice()[0..len];
                    assert(view@ == self@.region(ptr, len)->Some_0);
                    match utf8_text(view) {
                        None => return Err(BridgeError::InvalidUtf8),
                        Some(s) => {
                            proof {
                                encode_utf8_decode_utf8(s@);
                            }
                            greet(s)
                        },
                    }
                },
            }
        };
        self.box_value(text)
    }

    /// Destroys the value boxed under `h`. Each handle is released at most
    /// once: a second release, or one of a handle never issued, is refused.
    pub fn release_handle(&mut self, h: u64) -> (r: Result<(), BridgeError>)
        requires
            old(self)@.wf(),
        ensures
            final(self)@.wf(),
            old(self)@.release_step(h, final(self)@, r),
    {
        let ghost pre = self@;
        assert(pre.values.dom() =~= self.cells@.dom());
        match self.cells.remove(&h) {
            Some(_) => {
                assert(self@.values =~= pre.values.remove(h));
                assert(self@.buffers == pre.buffers);
                Ok(())
            },
            None => {
                assert(self@.values =~= pre.values);
                assert(self@.buffers == pre.buffers);
                Err(BridgeError::UnknownHandle)
            },
        }
    }

    /// The value boxed under `h`, while `h` is live.
    pub fn value(&self, h: u64) -> (r: Option<&String>)
        requires
            self@.wf(),
        ensures
            r is Some <==> self@.values.contains_key(h),
            r matches Some(s) ==> s@ == self@.values[h],
    {
        self.cells.get(&h)
    }

    /// Bytes held by live buffers.
    pub fn outstanding_bytes(&self) -> (r: usize)
        ensures
            r == self@.outstanding,
    {
        self.outstanding
    }

    /// How many handles are live.
    pub fn live_handles(&self) -> (r: usize)
        requires
            self@.wf(),
        ensures
            r == self@.values.len(),
    {
        assert(self@.values.dom() =~= self.cells@.dom());
        self.cells.len()
    }
}

} // verus!
