use crate::buffer::spec_ptr_add;
use crate::mappings::{
    counts_positive, installed, lemma_installed, lemma_released, released, MappingTransfer,
};
use crate::memory::{spec_bit_check, Buffer, Image, Mem, CL_MEM_USE_HOST_PTR};
use crate::pipe::{Device, RWFlags};
use crate::plan::{spec_unmap, BufferMap, BufferSubdata, MapRegion, UnmapPlan, WriteBack};
use crate::types::{CLResult, MemError};
use std::sync::Arc;
use vstd::prelude::*;

verus! {

/// One call on the mapped pointers of an object.
pub enum PointerOp {
    /// A pointer is installed after a map.
    Install(usize),
    /// A pointer is released by an unmap.
    Release(usize),
}

/// The reference count of `ptr`: zero where it is not mapped.
pub open spec fn count_of(pointers: Map<usize, u32>, ptr: usize) -> int {
    if pointers.contains_key(ptr) {
        pointers[ptr] as int
    } else {
        0
    }
}

/// The reference counts after one call.
pub open spec fn apply_op(pointers: Map<usize, u32>, op: PointerOp) -> Map<usize, u32> {
    match op {
        PointerOp::Install(p) => installed(pointers, p),
        PointerOp::Release(p) => released(pointers, p),
    }
}

/// The reference counts after a sequence of calls.
pub open spec fn replay(pointers: Map<usize, u32>, ops: Seq<PointerOp>) -> Map<usize, u32>
    decreases ops.len(),
{
    if ops.len() == 0 {
        pointers
    } else {
        apply_op(replay(pointers, ops.drop_last()), ops.last())
    }
}

/// How often `ptr` is installed in `ops`, less how often it is released.
pub open spec fn balance(ops: Seq<PointerOp>, ptr: usize) -> int
    decreases ops.len(),
{
    if ops.len() == 0 {
        0
    } else {
        balance(ops.drop_last(), ptr) + (match ops.last() {
            PointerOp::Install(p) => if p == ptr {
                1int
            } else {
                0int
            },
            PointerOp::Release(p) => if p == ptr {
                -1int
            } else {
                0int
            },
        })
    }
}

/// After every call of `ops` the pointer `ptr` has been released no more
/// often than it was mapped, and its count fits its counter.
pub open spec fn paired(pointers: Map<usize, u32>, ops: Seq<PointerOp>, ptr: usize) -> bool
    decreases ops.len(),
{
    ops.len() == 0 || (paired(pointers, ops.drop_last(), ptr) && 0 <= count_of(pointers, ptr)
        + balance(ops, ptr) <= u32::MAX)
}

/// After any sequence of installs and releases in which no pointer is
/// released more often than it was mapped, every pointer has exactly the
/// references that were installed and not released, and the mapped pointers
/// are exactly those that have a reference left.
pub proof fn lemma_replay_counts(pointers: Map<usize, u32>, ops: Seq<PointerOp>)
    requires
        counts_positive(pointers),
        forall|p: usize| paired(pointers, ops, p),
    ensures
        counts_positive(replay(pointers, ops)),
        forall|p: usize|
            count_of(replay(pointers, ops), p) == count_of(pointers, p) + balance(ops, p),
        forall|p: usize|
            replay(pointers, ops).contains_key(p) <==> count_of(pointers, p) + balance(ops, p) > 0,
    decreases ops.len(),
{
    if ops.len() > 0 {
        let before = replay(pointers, ops.drop_last());
        assert forall|p: usize| paired(pointers, ops.drop_last(), p) by {
            assert(paired(pointers, ops, p));
        }
        lemma_replay_counts(pointers, ops.drop_last());
        match ops.last() {
            PointerOp::Install(q) => {
                assert(paired(pointers, ops, q));
                assert(count_of(before, q) == count_of(pointers, q) + balance(ops.drop_last(), q));
                lemma_installed(before, q);
                assert forall|p: usize|
                    count_of(replay(pointers, ops), p) == count_of(pointers, p) + balance(
                        ops,
                        p,
                    ) by {
                    assert(count_of(before, p) == count_of(pointers, p) + balance(
                        ops.drop_last(),
                        p,
                    ));
                }
            },
            PointerOp::Release(q) => {
                assert(paired(pointers, ops, q));
                assert(count_of(before, q) == count_of(pointers, q) + balance(ops.drop_last(), q));
                lemma_released(before, q);
                assert forall|p: usize|
                    count_of(replay(pointers, ops), p) == count_of(pointers, p) + balance(
                        ops,
                        p,
                    ) by {
                    assert(count_of(before, p) == count_of(pointers, p) + balance(
                        ops.drop_last(),
                        p,
                    ));
                }
            },
        }
        assert forall|p: usize|
            replay(pointers, ops).contains_key(p) <==> count_of(pointers, p) + balance(ops, p)
                > 0 by {
            assert(count_of(replay(pointers, ops), p) == count_of(pointers, p) + balance(ops, p));
        }
    } else {
        assert forall|p: usize|
            replay(pointers, ops).contains_key(p) <==> count_of(pointers, p) + balance(ops, p)
                > 0 by {
            if pointers.contains_key(p) {
                assert(pointers[p] >= 1);
            }
        }
    }
}

/// Releasing a pointer a second time, after its only reference has been
/// released, changes nothing: the pointer is no longer mapped, and a release
/// of a pointer that is not mapped leaves the counts as they are.
pub proof fn lemma_second_release_is_noop(pointers: Map<usize, u32>, ptr: usize)
    requires
        count_of(pointers, ptr) <= 1,
    ensures
        !released(pointers, ptr).contains_key(ptr),
        released(released(pointers, ptr), ptr) == released(pointers, ptr),
{
}

/// Unmapping a pointer a second time, after an unmap has released its only
/// reference, is safe and does nothing: it succeeds, nothing is written
/// back, no session is retired, and the reference counts and the sessions
/// stay as the first unmap left them.
pub proof fn lemma_second_unmap_is_noop(
    pointers: Map<usize, u32>,
    sessions: Map<u64, MappingTransfer>,
    dev: u64,
    ptr: usize,
    first_write_back: CLResult<WriteBack>,
    second_write_back: CLResult<WriteBack>,
)
    requires
        count_of(pointers, ptr) <= 1,
        spec_unmap(pointers, sessions, dev, ptr, first_write_back).0.is_ok(),
    ensures
        ({
            let first = spec_unmap(pointers, sessions, dev, ptr, first_write_back);
            spec_unmap(first.1, first.2, dev, ptr, second_write_back) == (
                Ok::<UnmapPlan, MemError>(
                    UnmapPlan { write_back: WriteBack::Nothing, retire: None },
                ),
                first.1,
                first.2,
            )
        }),
{
}

/// An unmap on one device leaves the session of every other device as it
/// was: it neither retires it nor changes it.
pub proof fn lemma_unmap_keeps_other_sessions(
    pointers: Map<usize, u32>,
    sessions: Map<u64, MappingTransfer>,
    dev: u64,
    other: u64,
    ptr: usize,
    write_back: CLResult<WriteBack>,
)
    requires
        other != dev,
    ensures
        spec_unmap(pointers, sessions, dev, ptr, write_back).2.contains_key(other)
            == sessions.contains_key(other),
        sessions.contains_key(other) ==> spec_unmap(pointers, sessions, dev, ptr, write_back).2[other]
            == sessions[other],
{
}

/// Retiring the session of one device leaves the session of every other
/// device as it was.
pub proof fn lemma_retire_keeps_other_sessions(
    sessions: Map<u64, MappingTransfer>,
    dev: u64,
    other: u64,
)
    requires
        other != dev,
    ensures
        sessions.remove(dev).contains_key(other) == sessions.contains_key(other),
        sessions.contains_key(other) ==> sessions.remove(dev)[other] == sessions[other],
{
}

/// The write-back of an unmap on one device does not depend on the session
/// of any other device: with or without it, the same is written back.
pub proof fn lemma_write_back_ignores_other_sessions(
    buffer: Buffer,
    image: Image,
    sessions: Map<u64, MappingTransfer>,
    dev: Device,
    other: u64,
    session: MappingTransfer,
)
    requires
        other != dev.id,
    ensures
        buffer.spec_write_back(sessions.insert(other, session), dev) == buffer.spec_write_back(
            sessions,
            dev,
        ),
        buffer.spec_write_back(sessions.remove(other), dev) == buffer.spec_write_back(sessions, dev),
        image.spec_write_back(sessions.insert(other, session), dev) == image.spec_write_back(
            sessions,
            dev,
        ),
        image.spec_write_back(sessions.remove(other), dev) == image.spec_write_back(sessions, dev),
{
}

/// The bytes of a resource after the device has uploaded `data` as `w` asks.
pub open spec fn uploaded(mem: Seq<u8>, w: BufferSubdata, data: Seq<u8>) -> Seq<u8> {
    Seq::new(
        mem.len(),
        |i: int|
            if w.offset <= i < w.offset + w.size {
                data[i - w.offset]
            } else {
                mem[i]
            },
    )
}

/// The bytes of a resource that the window `m` shows.
pub open spec fn window_of(mem: Seq<u8>, m: BufferMap) -> Seq<u8> {
    mem.subrange(m.offset as int, m.offset + m.size)
}

/// What is written to a buffer at an offset is what a read of as many bytes
/// at that offset sees: the upload and the window address the same bytes of
/// the same resource, whatever the strategy by which the buffer is mapped.
pub proof fn lemma_write_read_round_trip(
    buffer: Buffer,
    dev: Device,
    offset: usize,
    data: Seq<u8>,
    mem: Seq<u8>,
)
    requires
        data.len() <= usize::MAX,
        buffer.spec_write(dev, offset, data.len() as usize).is_ok(),
        buffer.spec_tx(dev, offset, data.len() as usize, RWFlags::RD).is_ok(),
        buffer.spec_write(dev, offset, data.len() as usize).unwrap().offset + data.len()
            <= mem.len(),
    ensures
        buffer.spec_write(dev, offset, data.len() as usize).unwrap().res == buffer.spec_tx(
            dev,
            offset,
            data.len() as usize,
            RWFlags::RD,
        ).unwrap().res,
        window_of(
            uploaded(mem, buffer.spec_write(dev, offset, data.len() as usize).unwrap(), data),
            buffer.spec_tx(dev, offset, data.len() as usize, RWFlags::RD).unwrap(),
        ) == data,
{
    let w = buffer.spec_write(dev, offset, data.len() as usize).unwrap();
    let m = buffer.spec_tx(dev, offset, data.len() as usize, RWFlags::RD).unwrap();
    assert(window_of(uploaded(mem, w, data), m) =~= data);
}

/// `sub` is the part of `parent` that starts `k` bytes into it.
pub open spec fn is_sub_buffer(sub: Buffer, parent: Arc<Buffer>, k: usize) -> bool {
    &&& sub.base.parent == Some(Mem::Buffer(parent))
    &&& sub.offset == parent.offset + k
    &&& sub.base.host_ptr == (if parent.base.host_ptr == 0 {
        0
    } else {
        parent.base.host_ptr + k
    })
    &&& spec_bit_check(sub.base.flags, CL_MEM_USE_HOST_PTR) == spec_bit_check(
        parent.base.flags,
        CL_MEM_USE_HOST_PTR,
    )
}

/// A sub-buffer at offset `k` of its parent is served by the same resources
/// as the parent, and a copy from its byte `o` is the copy from byte `k + o`
/// of the parent: the offset of the sub-buffer is applied once.
pub proof fn lemma_sub_buffer_copy(
    sub: Buffer,
    parent: Arc<Buffer>,
    k: usize,
    dev: Device,
    dst: Buffer,
    o: usize,
    dst_offset: usize,
    size: usize,
)
    requires
        is_sub_buffer(sub, parent, k),
        k + o <= usize::MAX,
    ensures
        sub.base.resources() == parent.base.resources(),
        sub.spec_copy_to_buffer(dev, dst, o, dst_offset, size) == parent.spec_copy_to_buffer(
            dev,
            dst,
            (k + o) as usize,
            dst_offset,
            size,
        ),
{
    assert(sub.base.spec_root() == parent.base.spec_root());
}

/// Mapping a sub-buffer at offset `k` of its parent at its byte `o` gives
/// the address that mapping the parent at byte `k + o` gives.
///
/// Where the two have host memory of their own, this holds as it stands.
/// Where they are mapped through sessions, the session of the sub-buffer
/// opens the parent's resource `k` bytes further on, and the addresses agree
/// for windows `sub_tx` and `parent_tx` that lie where they were asked for
/// in one mapping of the resource at `base`.
pub proof fn lemma_sub_buffer_map(
    sub: Buffer,
    parent: Arc<Buffer>,
    k: usize,
    dev: Device,
    o: usize,
    sessions: Map<u64, MappingTransfer>,
    base: usize,
    sub_tx: usize,
    parent_tx: usize,
)
    requires
        is_sub_buffer(sub, parent, k),
        k + o <= usize::MAX,
        parent.base.host_ptr != 0,
        sub_tx == base + sub.offset,
        parent_tx == base + parent.offset,
    ensures
        sub.base.spec_has_user_shadow_buffer(dev) == parent.base.spec_has_user_shadow_buffer(dev),
        sub.base.spec_has_user_shadow_buffer(dev) == Ok::<bool, MemError>(true) ==> sub.spec_map(
            sessions,
            dev,
            o,
        ) == parent.spec_map(sessions, dev, (k + o) as usize),
        sub.spec_tx_raw_async(dev, RWFlags::RW).is_ok() && parent.spec_tx_raw_async(
            dev,
            RWFlags::RW,
        ).is_ok() ==> sub.spec_tx_raw_async(dev, RWFlags::RW).unwrap().res
            == parent.spec_tx_raw_async(dev, RWFlags::RW).unwrap().res,
        sub.spec_tx_raw_async(dev, RWFlags::RW).is_ok() ==> sub.spec_tx_raw_async(
            dev,
            RWFlags::RW,
        ).unwrap().region == (MapRegion::Buffer {
            offset: (parent.offset + k) as i32,
            size: sub.base.size as i32,
        }),
        spec_ptr_add(sub_tx, o as int) == spec_ptr_add(parent_tx, (k + o) as int),
{
    assert(sub.base.spec_root() == parent.base.spec_root());
}

} // verus!
