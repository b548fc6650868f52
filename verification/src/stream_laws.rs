//! What holds of the block cache in every state.

use vstd::prelude::*;
use crate::stream::{
    ActionModel, EventModel, SeekTarget, StreamAdapterError, StreamState, fill_step, flush_step,
    read_step, seek_step, write_step,
};

verus! {

/// Whether `t` still holds the dirty block of `s`, at the same place.
pub open spec fn keeps_block(s: StreamState, t: StreamState) -> bool {
    t.dirty && t.block_offset == s.block_offset && t.buffer == s.buffer
}

/// A dirty block is never dropped or replaced unless the device has
/// reported it stored: whatever step is taken on whatever other event, the
/// block stays cached and dirty at its place. Reading, filling, flushing
/// and seeking leave its bytes as they are; writing changes bytes of it
/// only.
pub proof fn lemma_dirty_block_survives(
    s: StreamState,
    e: EventModel,
    out: Seq<u8>,
    count: int,
    bytes: Seq<u8>,
    target: SeekTarget,
)
    requires
        s.wf(),
        s.dirty,
        !(e is Stored),
    ensures
        keeps_block(s, read_step(s, e, out, count).0),
        keeps_block(s, fill_step(s, e).0),
        keeps_block(s, flush_step(s, e).0),
        keeps_block(s, seek_step(s, e, target).0),
        write_step(s, e, bytes).0.dirty,
        write_step(s, e, bytes).0.block_offset == s.block_offset,
        write_step(s, e, bytes).0.buffer.len() == s.buffer.len(),
{
}

/// A flush writes at most once: the store that a dirty cache asks for is
/// its only one, and the flush is complete when the device reports it.
pub proof fn lemma_flush_stores_once(s: StreamState)
    requires
        s.wf(),
    ensures
        !s.dirty ==> flush_step(s, EventModel::Begin) == (s, Ok::<
            ActionModel,
            StreamAdapterError,
        >(ActionModel::Finish(0))),
        s.dirty ==> flush_step(s, EventModel::Begin) == (s, Ok::<ActionModel, StreamAdapterError>(
            s.store_action(),
        )),
        s.dirty ==> flush_step(s, EventModel::Stored).1 == Ok::<ActionModel, StreamAdapterError>(
            ActionModel::Finish(0),
        ),
        !flush_step(s, EventModel::Stored).0.dirty,
{
}

/// Flushing twice is flushing once: after a flush has completed, the next
/// flush is complete at once, asks the device for nothing and changes
/// nothing.
pub proof fn lemma_flush_idempotent(s: StreamState, e: EventModel)
    requires
        s.wf(),
        flush_step(s, e).1 == Ok::<ActionModel, StreamAdapterError>(ActionModel::Finish(0)),
    ensures
        flush_step(flush_step(s, e).0, EventModel::Begin) == (
            flush_step(s, e).0,
            Ok::<ActionModel, StreamAdapterError>(ActionModel::Finish(0)),
        ),
{
}

/// A failed store leaves the block dirty and the cache as it was, so that
/// the store can be tried again: whatever operation asked for the store,
/// its step fails with `FlushFailed` and changes nothing. The block that a
/// write has filled to its end is therefore still cached, with the bytes
/// written, when its store fails.
pub proof fn lemma_failed_store_keeps_block(
    s: StreamState,
    cause: crate::stream::BlockDeviceError,
    out: Seq<u8>,
    count: int,
    bytes: Seq<u8>,
    target: SeekTarget,
)
    requires
        s.wf(),
        s.dirty,
    ensures
        flush_step(s, EventModel::Failed(cause)) == (s, Err::<ActionModel, StreamAdapterError>(
            StreamAdapterError::FlushFailed,
        )),
        write_step(s, EventModel::Failed(cause), bytes) == (s, Err::<
            ActionModel,
            StreamAdapterError,
        >(StreamAdapterError::FlushFailed)),
        read_step(s, EventModel::Failed(cause), out, count) == (s, out, Err::<
            ActionModel,
            StreamAdapterError,
        >(StreamAdapterError::FlushFailed)),
        fill_step(s, EventModel::Failed(cause)) == (s, Err::<ActionModel, StreamAdapterError>(
            StreamAdapterError::FlushFailed,
        )),
        s.seek_goal(target) >= 0 ==> seek_step(s, EventModel::Failed(cause), target) == (s, Err::<
            ActionModel,
            StreamAdapterError,
        >(StreamAdapterError::FlushFailed)),
{
}

/// A seek from a dirty cache first hands the dirty block out for storing,
/// at its device offset, and changes nothing. Only when the device has
/// reported the block stored is the cache emptied and the cursor set.
pub proof fn lemma_seek_stores_dirty_block(s: StreamState, target: SeekTarget)
    requires
        s.wf(),
        s.dirty,
        s.seek_goal(target) >= 0,
    ensures
        seek_step(s, EventModel::Begin, target) == (s, Ok::<ActionModel, StreamAdapterError>(
            ActionModel::Store { offset: s.base_offset + s.block_offset, block: s.buffer },
        )),
        seek_step(s, EventModel::Stored, target) == (
            (StreamState { dirty: false, ..s }).moved_to(s.seek_goal(target)),
            Ok::<ActionModel, StreamAdapterError>(ActionModel::Finish(s.seek_goal(target))),
        ),
        !seek_step(s, EventModel::Stored, target).0.dirty,
        !seek_step(s, EventModel::Stored, target).0.loaded(),
        seek_step(s, EventModel::Stored, target).0.cursor == s.seek_goal(target),
{
}

/// A seek fails with `SeekUnderflow` exactly when its goal lies in front
/// of position zero; for a relative seek by `d`, exactly when the cursor
/// plus `d` is negative. The cursor never becomes negative.
pub proof fn lemma_seek_underflow_exactly(s: StreamState, e: EventModel, target: SeekTarget)
    requires
        s.wf(),
    ensures
        seek_step(s, e, target).1 == Err::<ActionModel, StreamAdapterError>(
            StreamAdapterError::SeekUnderflow,
        ) <==> s.seek_goal(target) < 0,
        seek_step(s, e, target).0.cursor >= 0,
        seek_step(s, e, target).1 matches Ok(ActionModel::Finish(n)) ==> n == s.seek_goal(target)
            && seek_step(s, e, target).0.cursor == n,
{
}

/// A write that stays inside the cached block places its bytes at the
/// cursor, keeps every other byte of the block, marks the block dirty and
/// is complete at once. This holds for a write of nothing too: the block
/// is dirty afterwards and its bytes are as they were.
pub proof fn lemma_write_inside_block(s: StreamState, bytes: Seq<u8>)
    requires
        s.wf(),
        s.loaded(),
        s.cursor + bytes.len() < s.block_offset + s.block_size,
    ensures
        ({
            let next = write_step(s, EventModel::Begin, bytes);
            let at = s.cursor - s.block_offset;
            &&& next.1 == Ok::<ActionModel, StreamAdapterError>(
                ActionModel::Finish(bytes.len() as int),
            )
            &&& next.0.dirty
            &&& next.0.cursor == s.cursor + bytes.len()
            &&& next.0.block_offset == s.block_offset
            &&& next.0.buffer.len() == s.block_size
            &&& next.0.buffer.subrange(at, at + bytes.len()) == bytes
            &&& next.0.buffer.subrange(0, at) == s.buffer.subrange(0, at)
            &&& next.0.buffer.subrange(at + bytes.len(), s.block_size) == s.buffer.subrange(
                at + bytes.len(),
                s.block_size,
            )
        }),
{
    let next = write_step(s, EventModel::Begin, bytes);
    let at = s.cursor - s.block_offset;
    assert(bytes.subrange(0, bytes.len() as int) =~= bytes);
    assert(next.0.buffer.subrange(at, at + bytes.len()) =~= bytes);
    assert(next.0.buffer.subrange(0, at) =~= s.buffer.subrange(0, at));
    assert(next.0.buffer.subrange(at + bytes.len(), s.block_size) =~= s.buffer.subrange(
        at + bytes.len(),
        s.block_size,
    ));
}

/// A write into an empty cache first asks for the block under the cursor,
/// and changes nothing of the cache but its count of bytes placed. Handed
/// the block, it goes on as a write inside that block does.
pub proof fn lemma_write_loads_first(s: StreamState, bytes: Seq<u8>, block: Seq<u8>)
    requires
        s.wf(),
        !s.loaded(),
        block.len() == s.block_size,
    ensures
        write_step(s, EventModel::Begin, bytes) == (
            StreamState { progress: 0, ..s },
            Ok::<ActionModel, StreamAdapterError>(
                ActionModel::Load { offset: s.base_offset + s.block_offset },
            ),
        ),
        s.progress == 0 && s.cursor + bytes.len() < s.block_offset + s.block_size ==> write_step(
            s,
            EventModel::Loaded(block),
            bytes,
        ) == write_step(StreamState { buffer: block, ..s }, EventModel::Begin, bytes),
{
}

/// Moving the cursor on never drops a dirty block: it stays cached, dirty
/// and in place. A clean block that the cursor has left is dropped, and
/// the block offset moves on by one block.
pub proof fn lemma_consume_settles(s: StreamState, amt: int)
    requires
        s.wf(),
        0 <= amt <= s.available(),
    ensures
        s.dirty ==> s.advanced(amt).settled() == s.advanced(amt),
        !s.dirty && s.loaded() && s.cursor + amt >= s.block_offset + s.block_size
            ==> s.advanced(amt).settled() == (StreamState {
            cursor: s.cursor + amt,
            buffer: Seq::<u8>::empty(),
            block_offset: s.block_offset + s.block_size,
            ..s
        }),
{
}

/// A relative seek to in front of position zero fails and leaves the
/// cache as it was, whatever the event.
pub proof fn lemma_seek_underflow(s: StreamState, e: EventModel, back: i64)
    requires
        s.cursor + back < 0,
    ensures
        seek_step(s, e, SeekTarget::Current(back)) == (s, Err::<ActionModel, StreamAdapterError>(
            StreamAdapterError::SeekUnderflow,
        )),
{
}

/// While the cursor lies in front of the end of the cached block's
/// range, which it does whenever the cache is empty, that range is the
/// block of the cursor: it starts at the cursor rounded down to a block
/// offset.
pub proof fn lemma_block_under_cursor(s: StreamState)
    requires
        s.wf(),
        s.cursor < s.block_offset + s.block_size,
    ensures
        s.block_offset == s.cursor - s.cursor % s.block_size,
{
    let q = s.block_offset / s.block_size;
    vstd::arithmetic::div_mod::lemma_fundamental_div_mod(s.block_offset, s.block_size);
    assert(s.block_offset == q * s.block_size) by (nonlinear_arith)
        requires
            s.block_offset == s.block_size * q + 0,
    ;
    vstd::arithmetic::div_mod::lemma_fundamental_div_mod_converse(
        s.cursor,
        s.block_size,
        q,
        s.cursor - s.block_offset,
    );
}

/// A block is taken in only into an empty cache, and then it is the block
/// of the cursor.
pub proof fn lemma_load_is_cursor_block(s: StreamState, e: EventModel)
    requires
        s.wf(),
        s.take(e).buffer != s.buffer,
    ensures
        !s.loaded(),
        s.take(e).loaded(),
        s.take(e).block_offset == s.cursor - s.cursor % s.block_size,
        s.take(e).cursor == s.cursor,
{
    lemma_block_under_cursor(s);
}

} // verus!
