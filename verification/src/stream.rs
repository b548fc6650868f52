//! A single-slot write-back block cache that presents a byte stream over a
//! block-addressed device.
//!
//! The cache never touches the device. Each operation is a step function:
//! it takes what the device answered last, moves the cache as far as it can
//! without the device, and says what the device must do next. The caller
//! performs that transfer and calls the same operation again with the
//! answer, until the operation reports `Finish`.

use vstd::prelude::*;

verus! {

/// A failure reported by the block device.
#[derive(Clone, Copy, Debug, PartialEq, Eq, Structural)]
pub enum BlockDeviceError {
    IOFailure,
    ShortTransfer,
}

/// A failure of a stream operation.
#[derive(Clone, Copy, Debug, PartialEq, Eq, Structural)]
pub enum StreamAdapterError {
    /// The device ended before a write was placed completely.
    UnexpectedEndOfDevice,
    /// The device refused to take the dirty block; it stays dirty.
    FlushFailed,
    /// A relative seek would move in front of position zero.
    SeekUnderflow,
    /// The device failed to hand out a block.
    Device(BlockDeviceError),
}

/// Where a seek goes.
#[derive(Clone, Copy, Debug, PartialEq, Eq, Structural)]
pub enum SeekTarget {
    /// To this position.
    Start(u64),
    /// This far from the current position.
    Current(i64),
}

/// What the device answered to the last action.
#[derive(Clone, Debug)]
pub enum DeviceEvent {
    /// Nothing yet: the operation begins.
    Begin,
    /// The block asked for; empty when the device has ended.
    Loaded(Vec<u8>),
    /// The block handed over was written.
    Stored,
    /// The transfer failed.
    Failed(BlockDeviceError),
}

/// What the device must do next.
#[derive(Clone, Debug)]
pub enum DeviceAction {
    /// Read the block at this device offset.
    Load { offset: usize },
    /// Write this block at this device offset.
    Store { offset: usize, block: Vec<u8> },
    /// Nothing: the operation is complete, with this result.
    Finish(usize),
}

/// `DeviceEvent` over sequences.
pub enum EventModel {
    Begin,
    Loaded(Seq<u8>),
    Stored,
    Failed(BlockDeviceError),
}

/// `DeviceAction` over sequences and integers.
pub enum ActionModel {
    Load { offset: int },
    Store { offset: int, block: Seq<u8> },
    Finish(int),
}

impl DeviceEvent {
    pub open spec fn view(&self) -> EventModel {
        match *self {
            DeviceEvent::Begin => EventModel::Begin,
            DeviceEvent::Loaded(b) => EventModel::Loaded(b@),
            DeviceEvent::Stored => EventModel::Stored,
            DeviceEvent::Failed(e) => EventModel::Failed(e),
        }
    }
}

impl DeviceAction {
    pub open spec fn view(&self) -> ActionModel {
        match *self {
            DeviceAction::Load { offset } => ActionModel::Load { offset: offset as int },
            DeviceAction::Store { offset, block } => ActionModel::Store {
                offset: offset as int,
                block: block@,
            },
            DeviceAction::Finish(n) => ActionModel::Finish(n as int),
        }
    }
}

/// The outcome of one step, over the models.
pub type StepModel = Result<ActionModel, StreamAdapterError>;

/// The model of a step's outcome.
pub open spec fn outcome(r: Result<DeviceAction, StreamAdapterError>) -> StepModel {
    match r {
        Ok(a) => Ok(a@),
        Err(e) => Err(e),
    }
}

/// The cache as a mathematical value.
pub struct StreamState {
    /// The size of a device block.
    pub block_size: int,
    /// The device offset of stream position zero.
    pub base_offset: int,
    /// The stream position of the next byte read or written.
    pub cursor: int,
    /// The stream position of the first byte of the cached block.
    pub block_offset: int,
    /// The cached block: empty, or one whole block.
    pub buffer: Seq<u8>,
    /// Whether the cached block has still to be written to the device.
    pub dirty: bool,
    /// How many bytes of the write under way have been placed.
    pub progress: int,
}

impl StreamState {
    /// Whether a block is cached.
    pub open spec fn loaded(self) -> bool {
        self.buffer.len() > 0
    }

    /// The invariant of the cache.
    pub open spec fn wf(self) -> bool {
        &&& self.block_size > 0
        &&& self.base_offset >= 0
        &&& self.progress >= 0
        &&& self.block_offset >= 0
        &&& self.block_offset % self.block_size == 0
        &&& (self.buffer.len() == 0 || self.buffer.len() == self.block_size)
        &&& (self.dirty ==> self.loaded())
        &&& self.block_offset <= self.cursor <= self.block_offset + self.block_size
        &&& (!self.loaded() ==> self.cursor < self.block_offset + self.block_size)
        &&& self.base_offset + self.block_offset + self.block_size <= usize::MAX
    }

    /// The device offset of the cached block.
    pub open spec fn device_offset(self) -> int {
        self.base_offset + self.block_offset
    }

    /// The number of cached bytes from the cursor to the end of the block.
    pub open spec fn available(self) -> int {
        if self.loaded() {
            self.block_offset + self.block_size - self.cursor
        } else {
            0
        }
    }

    /// Whether the cursor has left the cached block.
    pub open spec fn at_boundary(self) -> bool {
        self.loaded() && self.cursor >= self.block_offset + self.block_size
    }

    /// Whether the cached block must be written before the cache can move.
    pub open spec fn pending_store(self) -> bool {
        self.at_boundary() && self.dirty
    }

    /// The action that writes the cached block.
    pub open spec fn store_action(self) -> ActionModel {
        ActionModel::Store { offset: self.device_offset(), block: self.buffer }
    }

    /// Whether the event is a failure, and which error it becomes: a failed
    /// transfer is a failed flush while the block is dirty and a device
    /// error otherwise; a block of the wrong length is a short transfer.
    pub open spec fn refusal(self, e: EventModel) -> Option<StreamAdapterError> {
        match e {
            EventModel::Failed(cause) => Some(
                if self.dirty {
                    StreamAdapterError::FlushFailed
                } else {
                    StreamAdapterError::Device(cause)
                },
            ),
            EventModel::Loaded(b) => if !self.loaded() && b.len() != 0 && b.len()
                != self.block_size {
                Some(StreamAdapterError::Device(BlockDeviceError::ShortTransfer))
            } else {
                None
            },
            _ => None,
        }
    }

    /// Whether the event says that the device has ended.
    pub open spec fn exhausted(self, e: EventModel) -> bool {
        match e {
            EventModel::Loaded(b) => !self.loaded() && b.len() == 0,
            _ => false,
        }
    }

    /// The cache after an event that is no failure: a block is taken in
    /// only while none is cached, and a store clears the dirty mark.
    pub open spec fn take(self, e: EventModel) -> StreamState {
        match e {
            EventModel::Loaded(b) => if !self.loaded() && b.len() == self.block_size {
                StreamState { buffer: b, ..self }
            } else {
                self
            },
            EventModel::Stored => StreamState { dirty: false, ..self },
            _ => self,
        }
    }

    /// The cache after a clean block that the cursor has left is dropped.
    pub open spec fn settled(self) -> StreamState {
        if self.at_boundary() && !self.dirty {
            StreamState {
                buffer: Seq::<u8>::empty(),
                block_offset: self.block_offset + self.block_size,
                ..self
            }
        } else {
            self
        }
    }

    /// How many of `want` bytes the cached block can serve.
    pub open spec fn chunk_len(self, want: int) -> int {
        if want <= 0 {
            0
        } else if want <= self.available() {
            want
        } else {
            self.available()
        }
    }

    /// The next `n` cached bytes from the cursor on.
    pub open spec fn window(self, n: int) -> Seq<u8> {
        if n <= 0 {
            Seq::<u8>::empty()
        } else {
            self.buffer.subrange(
                self.cursor - self.block_offset,
                self.cursor - self.block_offset + n,
            )
        }
    }

    /// The cache after the cursor moved `n` bytes on.
    pub open spec fn advanced(self, n: int) -> StreamState {
        StreamState { cursor: self.cursor + n, ..self }
    }

    /// The cache after `chunk` was written at the cursor: the block holds
    /// the chunk there and is dirty, cursor and progress have moved on.
    pub open spec fn overwritten(self, chunk: Seq<u8>) -> StreamState {
        if chunk.len() == 0 {
            self
        } else {
            let at = self.cursor - self.block_offset;
            StreamState {
                buffer: self.buffer.subrange(0, at) + chunk + self.buffer.subrange(
                    at + chunk.len(),
                    self.buffer.len() as int,
                ),
                dirty: true,
                cursor: self.cursor + chunk.len(),
                progress: self.progress + chunk.len(),
                ..self
            }
        }
    }

    /// The cache after a write of nothing touched the cached block: the
    /// block is dirty and nothing else has changed.
    pub open spec fn touched(self) -> StreamState {
        StreamState { dirty: true, ..self }
    }

    /// Whether a write of `len` bytes has done its work: every byte is
    /// placed, and a write of nothing has found its block cached.
    pub open spec fn write_done(self, len: int) -> bool {
        self.progress >= len && (len > 0 || self.loaded())
    }

    /// How a step ends: with a store while a dirty block is in the way,
    /// else with the result when `done`, else with the load of the block
    /// under the cursor.
    pub open spec fn conclude(self, done: bool, total: int) -> (StreamState, ActionModel) {
        if self.pending_store() {
            (self, self.store_action())
        } else {
            let t = self.settled();
            if done {
                (t, ActionModel::Finish(total))
            } else {
                (t, ActionModel::Load { offset: t.device_offset() })
            }
        }
    }

    /// The position a seek aims at; negative when in front of zero.
    pub open spec fn seek_goal(self, target: SeekTarget) -> int {
        match target {
            SeekTarget::Start(a) => a as int,
            SeekTarget::Current(d) => self.cursor + d,
        }
    }

    /// The cache after a seek to `goal`: empty, at the block of `goal`.
    pub open spec fn moved_to(self, goal: int) -> StreamState {
        StreamState {
            buffer: Seq::<u8>::empty(),
            block_offset: goal - goal % self.block_size,
            cursor: goal,
            ..self
        }
    }

    /// Whether `extra` more bytes from the cursor on, and the block after
    /// them, lie at device offsets that `usize` can express.
    pub open spec fn in_range(self, extra: int) -> bool {
        self.base_offset + self.cursor + extra + self.block_size <= usize::MAX
    }
}

/// One step of a read of `count` bytes into `out`: the new cache, the new
/// output and the action. Bytes are copied from the cached block until
/// `out` holds `count` bytes or the block ends; an empty block from the
/// device ends the read short.
pub open spec fn read_step(s: StreamState, e: EventModel, out: Seq<u8>, count: int) -> (
    StreamState,
    Seq<u8>,
    StepModel,
) {
    if s.refusal(e).is_some() {
        (s, out, Err(s.refusal(e).unwrap()))
    } else if s.exhausted(e) {
        (s, out, Ok(ActionModel::Finish(out.len() as int)))
    } else if s.take(e).pending_store() {
        (s.take(e), out, Ok(s.take(e).store_action()))
    } else {
        let t = s.take(e).settled();
        let n = t.chunk_len(count - out.len());
        let grown = out + t.window(n);
        let end = t.advanced(n).conclude(grown.len() >= count, grown.len() as int);
        (end.0, grown, Ok(end.1))
    }
}

/// One step of a write of `bytes`: the new cache and the action. Progress
/// starts at zero with `Begin`. Bytes are placed into the cached block,
/// which is loaded first so that the rest of it is kept; a block that the
/// write has filled to its end is stored before the next one is loaded.
/// A write of nothing still has the block under the cursor loaded and
/// marks it dirty. A device that ends before the write has done its work
/// fails the write.
pub open spec fn write_step(s: StreamState, e: EventModel, bytes: Seq<u8>) -> (
    StreamState,
    StepModel,
) {
    if s.refusal(e).is_some() {
        (s, Err(s.refusal(e).unwrap()))
    } else if s.exhausted(e) {
        (s, Err(StreamAdapterError::UnexpectedEndOfDevice))
    } else {
        let r = if e is Begin {
            StreamState { progress: 0, ..s }
        } else {
            s.take(e)
        };
        if r.pending_store() {
            (r, Ok(r.store_action()))
        } else {
            let t = r.settled();
            let n = t.chunk_len(bytes.len() - t.progress);
            let w = if n > 0 {
                t.overwritten(bytes.subrange(t.progress, t.progress + n))
            } else if bytes.len() == 0 && t.loaded() {
                t.touched()
            } else {
                t
            };
            let end = w.conclude(w.write_done(bytes.len() as int), bytes.len() as int);
            (end.0, Ok(end.1))
        }
    }
}

/// One step of a flush: a dirty block is stored, and the flush is complete
/// once the block is clean.
pub open spec fn flush_step(s: StreamState, e: EventModel) -> (StreamState, StepModel) {
    if s.refusal(e).is_some() {
        (s, Err(s.refusal(e).unwrap()))
    } else if s.take(e).dirty {
        (s.take(e), Ok(s.take(e).store_action()))
    } else {
        (s.take(e), Ok(ActionModel::Finish(0)))
    }
}

/// One step of a seek: a goal in front of zero is refused and nothing
/// changes; a dirty block is stored first; then the cache is emptied and
/// the cursor set.
pub open spec fn seek_step(s: StreamState, e: EventModel, target: SeekTarget) -> (
    StreamState,
    StepModel,
) {
    if s.seek_goal(target) < 0 {
        (s, Err(StreamAdapterError::SeekUnderflow))
    } else if s.refusal(e).is_some() {
        (s, Err(s.refusal(e).unwrap()))
    } else if s.take(e).dirty {
        (s.take(e), Ok(s.take(e).store_action()))
    } else {
        (s.take(e).moved_to(s.seek_goal(target)), Ok(ActionModel::Finish(s.seek_goal(target))))
    }
}

/// One step of filling the cache: complete, with the number of cached
/// bytes from the cursor on, once the block under the cursor is cached or
/// the device has ended.
pub open spec fn fill_step(s: StreamState, e: EventModel) -> (StreamState, StepModel) {
    if s.refusal(e).is_some() {
        (s, Err(s.refusal(e).unwrap()))
    } else if s.exhausted(e) {
        (s, Ok(ActionModel::Finish(0)))
    } else {
        let end = s.take(e).conclude(s.take(e).settled().loaded(), s.take(e).settled().available());
        (end.0, Ok(end.1))
    }
}

/// The event that the answer to a load stands for. `block` is the area
/// the device read into and `outcome` what the read reported: on success
/// the event carries the bytes read, which are the first `n` of the area
/// (all of it when `n` is larger); on failure it carries the cause.
pub open spec fn load_reply(block: Seq<u8>, outcome: Result<usize, BlockDeviceError>) -> EventModel {
    match outcome {
        Ok(n) => EventModel::Loaded(
            if n < block.len() {
                block.subrange(0, n as int)
            } else {
                block
            },
        ),
        Err(cause) => EventModel::Failed(cause),
    }
}

/// The event that the answer to a store of `length` bytes stands for:
/// stored when the device took them all, a short transfer when it took
/// another number, and the cause when it failed.
pub open spec fn store_reply(length: usize, outcome: Result<usize, BlockDeviceError>) -> EventModel {
    match outcome {
        Ok(n) => if n == length {
            EventModel::Stored
        } else {
            EventModel::Failed(BlockDeviceError::ShortTransfer)
        },
        Err(cause) => EventModel::Failed(cause),
    }
}

/// The address a device with 32-bit addresses is given for `offset`; an
/// offset that it cannot express is an I/O failure.
pub fn device_address(offset: usize) -> (r: Result<u32, BlockDeviceError>)
    ensures
        r == (if offset <= u32::MAX {
            Ok::<u32, BlockDeviceError>(offset as u32)
        } else {
            Err::<u32, BlockDeviceError>(BlockDeviceError::IOFailure)
        }),
{
    if offset <= 0xFFFF_FFFFusize {
        Ok(offset as u32)
    } else {
        Err(BlockDeviceError::IOFailure)
    }
}

/// Turns the answer to a load into its event: `load_reply`.
pub fn load_event(block: Vec<u8>, outcome: Result<usize, BlockDeviceError>) -> (e: DeviceEvent)
    ensures
        e@ == load_reply(block@, outcome),
{
    match outcome {
        Ok(n) => {
            let mut block = block;
            if n < block.len() {
                block.truncate(n);
            }
            DeviceEvent::Loaded(block)
        },
        Err(cause) => DeviceEvent::Failed(cause),
    }
}

/// Turns the answer to a store into its event: `store_reply`.
pub fn store_event(length: usize, outcome: Result<usize, BlockDeviceError>) -> (e: DeviceEvent)
    ensures
        e@ == store_reply(length, outcome),
{
    match outcome {
        Ok(n) => {
            if n == length {
                DeviceEvent::Stored
            } else {
                DeviceEvent::Failed(BlockDeviceError::ShortTransfer)
            }
        },
        Err(cause) => DeviceEvent::Failed(cause),
    }
}

/// The offset after a block is again the offset of a block.
pub proof fn lemma_next_block_aligned(offset: int, size: int)
    requires
        size > 0,
        offset >= 0,
        offset % size == 0,
    ensures
        (offset + size) % size == 0,
{
    vstd::arithmetic::div_mod::lemma_mod_adds(offset, size, size);
}

/// The block of a position starts at a block offset at or before it, less
/// than a block away.
pub proof fn lemma_block_of(goal: int, size: int)
    requires
        size > 0,
        goal >= 0,
    ensures
        0 <= goal % size < size,
        (goal - goal % size) % size == 0,
        goal - goal % size >= 0,
        goal - goal % size <= goal < goal - goal % size + size,
{
    vstd::arithmetic::div_mod::lemma_fundamental_div_mod(goal, size);
    vstd::arithmetic::div_mod::lemma_mod_multiples_basic(goal / size, size);
    vstd::arithmetic::div_mod::lemma_mod_pos_bound(goal, size);
    assert(goal - goal % size == size * (goal / size));
    assert(size * (goal / size) == (goal / size) * size) by (nonlinear_arith);
}

} // verus!
