use vstd::prelude::*;
use vstd::utf8::{decode_utf8, valid_utf8};

use crate::bridge::{BridgeError, BridgeModel};
use crate::greeting::greeting_of;

verus! {

/// A buffer of `size > 0` bytes that the address space can hold is given a
/// non-null address; filling it with `size` bytes and releasing it with the
/// same size succeeds and brings the outstanding byte count, and the set of
/// live buffers, back to what they were before the allocation.
pub proof fn lemma_allocate_fill_release(
    s0: BridgeModel,
    s1: BridgeModel,
    s2: BridgeModel,
    s3: BridgeModel,
    size: usize,
    ra: Result<usize, BridgeError>,
    bytes: Seq<u8>,
    rw: Result<(), BridgeError>,
    rd: Result<(), BridgeError>,
)
    requires
        s0.wf(),
        size > 0,
        s0.can_reserve(size as nat),
        s0.allocate_step(size, s1, ra),
        bytes.len() == size,
        s1.write_step(ra->Ok_0, 0, bytes, s2, rw),
        s2.deallocate_step(ra->Ok_0, size, s3, rd),
    ensures
        ra is Ok,
        ra->Ok_0 != 0,
        rw is Ok,
        rd is Ok,
        s3.outstanding == s0.outstanding,
        s3.buffers == s0.buffers,
{
    let p = ra->Ok_0;
    assert(!s0.buffers.contains_key(p));
    assert(s3.buffers =~= s0.buffers);
}

/// For well-formed UTF-8 text `bytes` at `ptr`, `transform` succeeds while
/// handles remain, and the value under the new handle is the greeting of the
/// text; the handle was not live before, and the buffers are untouched.
pub proof fn lemma_transform_yields_greeting(
    s0: BridgeModel,
    s1: BridgeModel,
    ptr: usize,
    len: usize,
    bytes: Seq<u8>,
    r: Result<u64, BridgeError>,
)
    requires
        s0.wf(),
        s0.region(ptr, len) == Some(bytes),
        valid_utf8(bytes),
        s0.next_handle < u64::MAX,
        s0.transform_step(ptr, len, s1, r),
    ensures
        r is Ok,
        !s0.values.contains_key(r->Ok_0),
        s1.values.contains_key(r->Ok_0),
        s1.values[r->Ok_0] == greeting_of(decode_utf8(bytes)),
        s1.buffers == s0.buffers,
{
}

/// A handle that `transform` issued is released by the first release of it;
/// a second release of it is refused and changes nothing.
pub proof fn lemma_release_exactly_once(
    s0: BridgeModel,
    s1: BridgeModel,
    s2: BridgeModel,
    s3: BridgeModel,
    ptr: usize,
    len: usize,
    h: u64,
    r1: Result<(), BridgeError>,
    r2: Result<(), BridgeError>,
)
    requires
        s0.wf(),
        s0.transform_step(ptr, len, s1, Ok(h)),
        s1.release_step(h, s2, r1),
        s2.release_step(h, s3, r2),
    ensures
        r1 is Ok,
        !s2.values.contains_key(h),
        r2 == Err::<(), BridgeError>(BridgeError::UnknownHandle),
        s3 == s2,
{
}

/// Issuing a handle with `transform` and releasing it leaves no value
/// behind: the live handles and their values, and the live buffers, are
/// those from before the call.
pub proof fn lemma_transform_release_leaves_nothing(
    s0: BridgeModel,
    s1: BridgeModel,
    s2: BridgeModel,
    ptr: usize,
    len: usize,
    h: u64,
    r: Result<(), BridgeError>,
)
    requires
        s0.wf(),
        s0.transform_step(ptr, len, s1, Ok(h)),
        s1.release_step(h, s2, r),
    ensures
        r is Ok,
        s2.values == s0.values,
        s2.buffers == s0.buffers,
        s2.outstanding == s0.outstanding,
{
    assert(!s0.values.contains_key(h));
    assert(s2.values =~= s0.values);
}

} // verus!
