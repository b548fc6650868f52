//! The executable block cache: the step functions of `stream` on machine
//! values.

use vstd::prelude::*;
use crate::stream::{
    ActionModel, BlockDeviceError, DeviceAction, DeviceEvent, EventModel, SeekTarget,
    StreamAdapterError, StreamState, fill_step, flush_step, lemma_block_of,
    lemma_next_block_aligned, outcome, read_step, seek_step, write_step,
};

verus! {

/// A byte stream over one partition of a block device, with one cached
/// block. Stream position zero lies at device offset `base_offset`.
pub struct OffsetScsiDevice {
    block_size: usize,
    block_buffer: Vec<u8>,
    buffered_block_offset: usize,
    base_offset: usize,
    curr_index: usize,
    needs_flush: bool,
    progress: usize,
}

/// How many bytes a read of `count` into an output of `have` still wants.
pub open spec fn read_rest(count: int, have: int) -> int {
    if count > have {
        count - have
    } else {
        0
    }
}

/// How many bytes a write of `len` still has to place when `e` comes in.
pub open spec fn write_rest(s: StreamState, e: EventModel, len: int) -> int {
    if e is Begin {
        len
    } else if len > s.progress {
        len - s.progress
    } else {
        0
    }
}

/// Appends `buffer[start..start + n]` to `out`.
fn append_window(out: &mut Vec<u8>, buffer: &Vec<u8>, start: usize, n: usize)
    requires
        start + n <= buffer@.len(),
    ensures
        final(out)@ == old(out)@ + buffer@.subrange(start as int, start + n),
{
    let ghost before = out@;
    let size: usize = buffer.len();
    let mut j: usize = 0;
    while j < n
        invariant
            j <= n,
            start + n <= size,
            buffer@.len() == size,
            out@ == before + buffer@.subrange(start as int, start + j),
        decreases n - j,
    {
        out.push(buffer[start + j]);
        j = j + 1;
        assert(out@ =~= before + buffer@.subrange(start as int, start + j));
    }
}

/// Writes `bytes[from..from + n]` over `buffer[start..start + n]`.
fn place(buffer: &mut Vec<u8>, start: usize, bytes: &[u8], from: usize, n: usize)
    requires
        start + n <= old(buffer)@.len(),
        from + n <= bytes@.len(),
    ensures
        final(buffer)@ == old(buffer)@.subrange(0, start as int) + bytes@.subrange(
            from as int,
            from + n,
        ) + old(buffer)@.subrange(start + n, old(buffer)@.len() as int),
{
    let ghost before = buffer@;
    let size: usize = buffer.len();
    let given: usize = bytes.len();
    let mut j: usize = 0;
    while j < n
        invariant
            j <= n,
            start + n <= size,
            from + n <= given,
            before.len() == size,
            bytes@.len() == given,
            buffer@.len() == size,
            buffer@ == before.subrange(0, start as int) + bytes@.subrange(from as int, from + j)
                + before.subrange(start + j, before.len() as int),
        decreases n - j,
    {
        buffer.set(start + j, bytes[from + j]);
        j = j + 1;
        assert(buffer@ =~= before.subrange(0, start as int) + bytes@.subrange(
            from as int,
            from + j,
        ) + before.subrange(start + j, before.len() as int));
    }
}

impl OffsetScsiDevice {
    /// The cache as a mathematical value.
    pub closed spec fn view(&self) -> StreamState {
        StreamState {
            block_size: self.block_size as int,
            base_offset: self.base_offset as int,
            cursor: self.curr_index as int,
            block_offset: self.buffered_block_offset as int,
            buffer: self.block_buffer@,
            dirty: self.needs_flush,
            progress: self.progress as int,
        }
    }

    /// An empty cache at position zero over a device of blocks of
    /// `block_size` bytes, for the partition that starts at `base_offset`.
    pub fn new(block_size: usize, base_offset: usize) -> (d: OffsetScsiDevice)
        requires
            block_size > 0,
            base_offset + block_size <= usize::MAX,
        ensures
            d@.wf(),
            d@ == (StreamState {
                block_size: block_size as int,
                base_offset: base_offset as int,
                cursor: 0,
                block_offset: 0,
                buffer: Seq::<u8>::empty(),
                dirty: false,
                progress: 0,
            }),
    {
        OffsetScsiDevice {
            block_size,
            block_buffer: Vec::new(),
            buffered_block_offset: 0,
            base_offset,
            curr_index: 0,
            needs_flush: false,
            progress: 0,
        }
    }

    /// The size of a device block.
    pub fn block_size(&self) -> (n: usize)
        ensures
            n == self@.block_size,
    {
        self.block_size
    }

    /// The device offset of stream position zero.
    pub fn base_offset(&self) -> (n: usize)
        ensures
            n == self@.base_offset,
    {
        self.base_offset
    }

    /// The stream position of the next byte read or written.
    pub fn position(&self) -> (n: usize)
        ensures
            n == self@.cursor,
    {
        self.curr_index
    }

    /// The stream position of the first byte of the cached block.
    pub fn buffered_block_offset(&self) -> (n: usize)
        ensures
            n == self@.block_offset,
    {
        self.buffered_block_offset
    }

    /// Whether the cached block has still to be written to the device.
    pub fn needs_flush(&self) -> (b: bool)
        ensures
            b == self@.dirty,
    {
        self.needs_flush
    }

    /// Whether a block is cached.
    pub fn is_loaded(&self) -> (b: bool)
        ensures
            b == self@.loaded(),
    {
        self.block_buffer.len() > 0
    }

    /// The cached block: empty, or one whole block.
    pub fn block(&self) -> (b: &[u8])
        ensures
            b@ == self@.buffer,
    {
        self.block_buffer.as_slice()
    }

    /// Whether `extra` more bytes from the cursor on, and the block after
    /// them, lie at device offsets that `usize` can express.
    pub fn in_range(&self, extra: usize) -> (b: bool)
        ensures
            b == self@.in_range(extra as int),
    {
        let limit: usize = usize::MAX;
        if self.base_offset > limit - self.curr_index {
            return false;
        }
        let a: usize = self.base_offset + self.curr_index;
        if extra > limit - a {
            return false;
        }
        let b: usize = a + extra;
        self.block_size <= limit - b
    }

    fn refuse(&self, event: &DeviceEvent) -> (r: Option<StreamAdapterError>)
        ensures
            r == self@.refusal(event@),
    {
        match event {
            DeviceEvent::Failed(cause) => {
                if self.needs_flush {
                    Some(StreamAdapterError::FlushFailed)
                } else {
                    Some(StreamAdapterError::Device(*cause))
                }
            },
            DeviceEvent::Loaded(b) => {
                if self.block_buffer.len() == 0 && b.len() != 0 && b.len() != self.block_size {
                    Some(StreamAdapterError::Device(BlockDeviceError::ShortTransfer))
                } else {
                    None
                }
            },
            _ => None,
        }
    }

    fn is_exhausted(&self, event: &DeviceEvent) -> (r: bool)
        ensures
            r == self@.exhausted(event@),
    {
        match event {
            DeviceEvent::Loaded(b) => self.block_buffer.len() == 0 && b.len() == 0,
            _ => false,
        }
    }

    fn take(&mut self, event: DeviceEvent)
        requires
            old(self)@.wf(),
            old(self)@.refusal(event@).is_none(),
            !old(self)@.exhausted(event@),
        ensures
            final(self)@.wf(),
            final(self)@ == old(self)@.take(event@),
    {
        match event {
            DeviceEvent::Loaded(b) => {
                if self.block_buffer.len() == 0 && b.len() == self.block_size {
                    self.block_buffer = b;
                }
            },
            DeviceEvent::Stored => {
                self.needs_flush = false;
            },
            _ => {},
        }
    }

    fn store_action(&self) -> (a: DeviceAction)
        requires
            self@.wf(),
        ensures
            a@ == self@.store_action(),
    {
        let block = self.block_buffer.clone();
        assert(block@ =~= self.block_buffer@);
        DeviceAction::Store { offset: self.base_offset + self.buffered_block_offset, block }
    }

    fn pending_store(&self) -> (b: bool)
        requires
            self@.wf(),
        ensures
            b == self@.pending_store(),
    {
        self.needs_flush && self.curr_index >= self.buffered_block_offset + self.block_size
    }

    fn settle(&mut self)
        requires
            old(self)@.wf(),
            old(self)@.in_range(0),
        ensures
            final(self)@.wf(),
            final(self)@ == old(self)@.settled(),
    {
        if self.block_buffer.len() > 0 && !self.needs_flush && self.curr_index
            >= self.buffered_block_offset + self.block_size {
            proof {
                lemma_next_block_aligned(
                    self.buffered_block_offset as int,
                    self.block_size as int,
                );
            }
            self.block_buffer.clear();
            self.buffered_block_offset = self.buffered_block_offset + self.block_size;
        }
    }

    fn chunk_len(&self, want: usize) -> (n: usize)
        requires
            self@.wf(),
        ensures
            n == self@.chunk_len(want as int),
    {
        if want == 0 || self.block_buffer.len() == 0 {
            0
        } else {
            let available: usize = self.buffered_block_offset + self.block_size
                - self.curr_index;
            if want <= available {
                want
            } else {
                available
            }
        }
    }

    fn conclude(&mut self, done: bool, total: usize) -> (a: DeviceAction)
        requires
            old(self)@.wf(),
            old(self)@.in_range(0),
        ensures
            final(self)@.wf(),
            final(self)@ == old(self)@.conclude(done, total as int).0,
            a@ == old(self)@.conclude(done, total as int).1,
    {
        if self.pending_store() {
            self.store_action()
        } else {
            self.settle();
            if done {
                DeviceAction::Finish(total)
            } else {
                DeviceAction::Load { offset: self.base_offset + self.buffered_block_offset }
            }
        }
    }

    /// Moves the cursor `amt` bytes on within the cached block. When the
    /// cursor leaves a clean block, the block is dropped and the block
    /// offset moves on to the next block. A dirty block stays cached, dirty
    /// and in place: the next step of any operation asks for its store and
    /// drops it once the device has reported it stored.
    pub fn consume(&mut self, amt: usize)
        requires
            old(self)@.wf(),
            amt <= old(self)@.available(),
            old(self)@.in_range(amt as int),
        ensures
            final(self)@.wf(),
            final(self)@ == old(self)@.advanced(amt as int).settled(),
            old(self)@.dirty ==> final(self)@.dirty && final(self)@.buffer == old(self)@.buffer
                && final(self)@.block_offset == old(self)@.block_offset,
    {
        self.curr_index = self.curr_index + amt;
        self.settle();
    }

    /// Whether a step of a write of `len` bytes may be taken on `event`:
    /// whether the bytes still to place, and the block after them, lie at
    /// device offsets that `usize` can express.
    pub fn write_fits(&self, event: &DeviceEvent, len: usize) -> (b: bool)
        ensures
            b == self@.in_range(write_rest(self@, event@, len as int)),
    {
        let rest: usize = match event {
            DeviceEvent::Begin => len,
            _ => if len > self.progress {
                len - self.progress
            } else {
                0
            },
        };
        self.in_range(rest)
    }

    /// One step of filling the cache: `fill_step`. On `Finish(n)` the last
    /// `n` bytes of `block()` are the cached bytes from the cursor on.
    pub fn fill_buf(&mut self, event: DeviceEvent) -> (r: Result<DeviceAction, StreamAdapterError>)
        requires
            old(self)@.wf(),
            old(self)@.in_range(0),
        ensures
            final(self)@.wf(),
            final(self)@ == fill_step(old(self)@, event@).0,
            outcome(r) == fill_step(old(self)@, event@).1,
            old(self)@.dirty && !(event@ is Stored) ==> final(self)@.dirty && final(self)@.block_offset == old(self)@.block_offset && final(self)@.buffer == old(self)@.buffer,
    {
        match self.refuse(&event) {
            Some(err) => {
                return Err(err);
            },
            None => {},
        }
        if self.is_exhausted(&event) {
            return Ok(DeviceAction::Finish(0));
        }
        self.take(event);
        if self.pending_store() {
            return Ok(self.store_action());
        }
        self.settle();
        if self.block_buffer.len() > 0 {
            Ok(
                DeviceAction::Finish(
                    self.buffered_block_offset + self.block_size - self.curr_index,
                ),
            )
        } else {
            Ok(DeviceAction::Load { offset: self.base_offset + self.buffered_block_offset })
        }
    }

    /// One step of reading until `out` holds `count` bytes: `read_step`.
    /// `Finish(n)` gives the length of `out`; it is less than `count` only
    /// when the device has ended.
    pub fn read(&mut self, event: DeviceEvent, out: &mut Vec<u8>, count: usize) -> (r: Result<
        DeviceAction,
        StreamAdapterError,
    >)
        requires
            old(self)@.wf(),
            old(self)@.in_range(read_rest(count as int, old(out)@.len() as int)),
        ensures
            final(self)@.wf(),
            final(self)@ == read_step(old(self)@, event@, old(out)@, count as int).0,
            final(out)@ == read_step(old(self)@, event@, old(out)@, count as int).1,
            outcome(r) == read_step(old(self)@, event@, old(out)@, count as int).2,
            old(self)@.dirty && !(event@ is Stored) ==> final(self)@.dirty && final(self)@.block_offset == old(self)@.block_offset && final(self)@.buffer == old(self)@.buffer,
    {
        match self.refuse(&event) {
            Some(err) => {
                return Err(err);
            },
            None => {},
        }
        if self.is_exhausted(&event) {
            return Ok(DeviceAction::Finish(out.len()));
        }
        self.take(event);
        if self.pending_store() {
            return Ok(self.store_action());
        }
        self.settle();
        let want: usize = if count > out.len() {
            count - out.len()
        } else {
            0
        };
        let n: usize = self.chunk_len(want);
        let ghost before = out@;
        let ghost t = self@;
        if n > 0 {
            let start: usize = self.curr_index - self.buffered_block_offset;
            append_window(out, &self.block_buffer, start, n);
            self.curr_index = self.curr_index + n;
        }
        assert(out@ =~= before + t.window(n as int));
        assert(self@ == t.advanced(n as int));
        let done = out.len() >= count;
        let total: usize = out.len();
        Ok(self.conclude(done, total))
    }

    /// One step of writing `bytes` at the cursor: `write_step`. `Finish(n)`
    /// gives the length of `bytes`: a write is never short.
    pub fn write(&mut self, event: DeviceEvent, bytes: &[u8]) -> (r: Result<
        DeviceAction,
        StreamAdapterError,
    >)
        requires
            old(self)@.wf(),
            old(self)@.in_range(write_rest(old(self)@, event@, bytes@.len() as int)),
        ensures
            final(self)@.wf(),
            final(self)@ == write_step(old(self)@, event@, bytes@).0,
            outcome(r) == write_step(old(self)@, event@, bytes@).1,
            old(self)@.dirty && !(event@ is Stored) ==> final(self)@.dirty && final(self)@.block_offset == old(self)@.block_offset && final(self)@.buffer.len() == old(self)@.buffer.len(),
            old(self)@.dirty && event@ is Failed ==> final(self)@ == old(self)@ && r == Err::<
                DeviceAction,
                StreamAdapterError,
            >(StreamAdapterError::FlushFailed),
    {
        match self.refuse(&event) {
            Some(err) => {
                return Err(err);
            },
            None => {},
        }
        if self.is_exhausted(&event) {
            return Err(StreamAdapterError::UnexpectedEndOfDevice);
        }
        match event {
            DeviceEvent::Begin => {
                self.progress = 0;
            },
            other => {
                self.take(other);
            },
        }
        if self.pending_store() {
            return Ok(self.store_action());
        }
        self.settle();
        let want: usize = if bytes.len() > self.progress {
            bytes.len() - self.progress
        } else {
            0
        };
        let n: usize = self.chunk_len(want);
        let ghost t = self@;
        if n > 0 {
            let start: usize = self.curr_index - self.buffered_block_offset;
            let from: usize = self.progress;
            let ghost chunk = bytes@.subrange(from as int, from + n);
            place(&mut self.block_buffer, start, bytes, from, n);
            self.needs_flush = true;
            self.curr_index = self.curr_index + n;
            self.progress = self.progress + n;
            assert(self@ == t.overwritten(chunk));
        } else if bytes.len() == 0 && self.block_buffer.len() > 0 {
            self.needs_flush = true;
        }
        let done = self.progress >= bytes.len() && (bytes.len() > 0 || self.block_buffer.len()
            > 0);
        Ok(self.conclude(done, bytes.len()))
    }

    /// One step of a flush: `flush_step`. A clean cache is complete at
    /// once; a failed store leaves the block dirty.
    pub fn flush(&mut self, event: DeviceEvent) -> (r: Result<DeviceAction, StreamAdapterError>)
        requires
            old(self)@.wf(),
        ensures
            final(self)@.wf(),
            final(self)@ == flush_step(old(self)@, event@).0,
            outcome(r) == flush_step(old(self)@, event@).1,
            old(self)@.dirty && !(event@ is Stored) ==> final(self)@.dirty && final(self)@.block_offset == old(self)@.block_offset && final(self)@.buffer == old(self)@.buffer,
    {
        match self.refuse(&event) {
            Some(err) => {
                return Err(err);
            },
            None => {},
        }
        if self.is_exhausted(&event) {
            return Ok(self.idle_or_store());
        }
        self.take(event);
        Ok(self.idle_or_store())
    }

    fn idle_or_store(&self) -> (a: DeviceAction)
        requires
            self@.wf(),
        ensures
            a@ == (if self@.dirty {
                self@.store_action()
            } else {
                ActionModel::Finish(0)
            }),
    {
        if self.needs_flush {
            self.store_action()
        } else {
            DeviceAction::Finish(0)
        }
    }

    /// One step of a seek: `seek_step`. A relative seek to in front of
    /// position zero fails and changes nothing.
    pub fn seek(&mut self, event: DeviceEvent, target: SeekTarget) -> (r: Result<
        DeviceAction,
        StreamAdapterError,
    >)
        requires
            old(self)@.wf(),
            old(self)@.base_offset + old(self)@.seek_goal(target) + old(self)@.block_size
                <= usize::MAX,
        ensures
            final(self)@.wf(),
            final(self)@ == seek_step(old(self)@, event@, target).0,
            outcome(r) == seek_step(old(self)@, event@, target).1,
            old(self)@.dirty && !(event@ is Stored) ==> final(self)@.dirty && final(self)@.block_offset == old(self)@.block_offset && final(self)@.buffer == old(self)@.buffer,
            old(self)@.seek_goal(target) < 0 <==> r == Err::<DeviceAction, StreamAdapterError>(
                StreamAdapterError::SeekUnderflow,
            ),
            r is Ok ==> final(self)@.cursor >= 0,
            old(self)@.seek_goal(target) < 0 ==> final(self)@ == old(self)@ && r == Err::<
                DeviceAction,
                StreamAdapterError,
            >(StreamAdapterError::SeekUnderflow),
    {
        let goal: usize = match target {
            SeekTarget::Start(a) => a as usize,
            SeekTarget::Current(d) => {
                if d < 0 {
                    let back: u64 = if d == i64::MIN {
                        0x8000_0000_0000_0000u64
                    } else {
                        (-d) as u64
                    };
                    if back > self.curr_index as u64 {
                        return Err(StreamAdapterError::SeekUnderflow);
                    }
                    self.curr_index - (back as usize)
                } else {
                    self.curr_index + (d as usize)
                }
            },
        };
        assert(goal == self@.seek_goal(target));
        match self.refuse(&event) {
            Some(err) => {
                return Err(err);
            },
            None => {},
        }
        if !self.is_exhausted(&event) {
            self.take(event);
        }
        if self.needs_flush {
            return Ok(self.store_action());
        }
        proof {
            lemma_block_of(goal as int, self.block_size as int);
        }
        self.buffered_block_offset = goal - goal % self.block_size;
        self.block_buffer.clear();
        self.curr_index = goal;
        Ok(DeviceAction::Finish(goal))
    }
}

} // verus!
