//! A model of the block device and of whole operations on it.
//!
//! The device is a sequence of bytes that answers every load with the
//! block asked for and takes every store in. A whole operation is the run
//! of its step function against that device: each action is answered and
//! the answer handed to the next step, until the step reports a result.

use vstd::prelude::*;
use crate::stream::{
    ActionModel, EventModel, SeekTarget, StepModel, StreamAdapterError, StreamState, flush_step,
    read_step, seek_step, write_step,
};

verus! {

/// `disk` with `block` written at offset `at`.
pub open spec fn overlay(disk: Seq<u8>, at: int, block: Seq<u8>) -> Seq<u8> {
    Seq::new(
        disk.len(),
        |i: int|
            if at <= i < at + block.len() {
                block[i - at]
            } else {
                disk[i]
            },
    )
}

/// How a device holding `disk`, with blocks of `size` bytes, answers an
/// action: the device afterwards and the event. A load past the end of the
/// device is answered with an empty block.
pub open spec fn respond(disk: Seq<u8>, size: int, a: ActionModel) -> (Seq<u8>, EventModel) {
    match a {
        ActionModel::Load { offset } => (
            disk,
            EventModel::Loaded(
                if 0 <= offset && offset + size <= disk.len() {
                    disk.subrange(offset, offset + size)
                } else {
                    Seq::<u8>::empty()
                },
            ),
        ),
        ActionModel::Store { offset, block } => (overlay(disk, offset, block), EventModel::Stored),
        ActionModel::Finish(_) => (disk, EventModel::Begin),
    }
}

/// What the stream holds: the device with the cached block laid over it.
pub open spec fn contents(s: StreamState, disk: Seq<u8>) -> Seq<u8> {
    if s.loaded() {
        overlay(disk, s.device_offset(), s.buffer)
    } else {
        disk
    }
}

/// Whether the cache fits the device: the cached block lies on the
/// device, and a clean block equals what the device holds there.
pub open spec fn coherent(s: StreamState, disk: Seq<u8>) -> bool {
    &&& s.wf()
    &&& s.loaded() ==> s.device_offset() + s.block_size <= disk.len()
    &&& s.loaded() && !s.dirty ==> s.buffer == disk.subrange(
        s.device_offset(),
        s.device_offset() + s.block_size,
    )
}

/// Whether the stream covers whole blocks of the device.
pub open spec fn aligned(s: StreamState, disk: Seq<u8>) -> bool {
    s.base_offset <= disk.len() && (disk.len() - s.base_offset) % s.block_size == 0
}

/// Whether `e` is what the device holding `disk` has just answered to the
/// cache `s`: nothing, the block under the cache, or the store of the
/// cached block.
pub open spec fn truthful(s: StreamState, disk: Seq<u8>, e: EventModel) -> bool {
    match e {
        EventModel::Begin => true,
        EventModel::Loaded(b) => !s.loaded() && s.device_offset() + s.block_size <= disk.len()
            && b == disk.subrange(s.device_offset(), s.device_offset() + s.block_size),
        EventModel::Stored => s.loaded() && s.device_offset() + s.block_size <= disk.len()
            && s.buffer == disk.subrange(s.device_offset(), s.device_offset() + s.block_size),
        EventModel::Failed(_) => false,
    }
}

/// An operation of the stream.
pub enum Operation {
    Read { count: int },
    Write { bytes: Seq<u8> },
    Flush,
    Seek { target: SeekTarget },
}

/// One step of an operation: the new cache, the new output, the outcome.
pub open spec fn step(op: Operation, s: StreamState, e: EventModel, out: Seq<u8>) -> (
    StreamState,
    Seq<u8>,
    StepModel,
) {
    match op {
        Operation::Read { count } => read_step(s, e, out, count),
        Operation::Write { bytes } => (write_step(s, e, bytes).0, out, write_step(s, e, bytes).1),
        Operation::Flush => (flush_step(s, e).0, out, flush_step(s, e).1),
        Operation::Seek { target } => (
            seek_step(s, e, target).0,
            out,
            seek_step(s, e, target).1,
        ),
    }
}

/// Where a run stands: the cache, the device, the output, and the result
/// once there is one.
pub struct Run {
    pub state: StreamState,
    pub disk: Seq<u8>,
    pub out: Seq<u8>,
    pub result: Option<Result<int, StreamAdapterError>>,
}

/// The run of `op` from cache `s`, device `disk`, event `e` and output
/// `out`, for at most `fuel` transfers.
pub open spec fn run(
    op: Operation,
    s: StreamState,
    disk: Seq<u8>,
    e: EventModel,
    out: Seq<u8>,
    fuel: nat,
) -> Run
    decreases fuel,
{
    let next = step(op, s, e, out);
    match next.2 {
        Err(err) => Run { state: next.0, disk, out: next.1, result: Some(Err(err)) },
        Ok(ActionModel::Finish(n)) => Run {
            state: next.0,
            disk,
            out: next.1,
            result: Some(Ok(n)),
        },
        Ok(a) => if fuel == 0 {
            Run { state: next.0, disk, out: next.1, result: None }
        } else {
            let answer = respond(disk, s.block_size, a);
            run(op, next.0, answer.0, answer.1, next.1, (fuel - 1) as nat)
        },
    }
}

/// The whole operation `op` on cache `s` and device `disk`.
pub open spec fn perform(op: Operation, s: StreamState, disk: Seq<u8>, fuel: nat) -> Run {
    run(op, s, disk, EventModel::Begin, Seq::<u8>::empty(), fuel)
}

/// How many transfers a run may still need when `rest` bytes are left.
pub open spec fn effort(s: StreamState, e: EventModel, rest: int) -> int {
    3 * rest + if s.take(e).pending_store() {
        2int
    } else if !s.take(e).settled().loaded() {
        1int
    } else {
        0int
    }
}

} // verus!
