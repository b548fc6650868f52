//! What whole operations do to the stream, on every device that answers
//! truthfully.

use vstd::prelude::*;
use crate::device_model::{
    Operation, aligned, coherent, contents, effort, overlay, perform, respond, run, truthful,
};
use crate::stream::{
    ActionModel, EventModel, SeekTarget, StreamAdapterError, StreamState, flush_step,
    lemma_block_of, read_step, seek_step, write_step,
};

verus! {

proof fn lemma_block_fits(offset: int, limit: int, size: int)
    requires
        size > 0,
        offset >= 0,
        offset % size == 0,
        limit % size == 0,
        offset < limit,
    ensures
        offset + size <= limit,
{
    vstd::arithmetic::div_mod::lemma_fundamental_div_mod(offset, size);
    vstd::arithmetic::div_mod::lemma_fundamental_div_mod(limit, size);
    let a = offset / size;
    let b = limit / size;
    assert(offset == size * a);
    assert(limit == size * b);
    assert(a < b) by (nonlinear_arith)
        requires
            size > 0,
            size * a < size * b,
    ;
    assert(size * (a + 1) <= size * b) by (nonlinear_arith)
        requires
            size > 0,
            a + 1 <= b,
    ;
    assert(size * (a + 1) == size * a + size) by (nonlinear_arith);
}

proof fn lemma_device_block_fits(s: StreamState, disk: Seq<u8>)
    requires
        s.wf(),
        aligned(s, disk),
        s.base_offset + s.block_offset < disk.len(),
    ensures
        s.device_offset() + s.block_size <= disk.len(),
{
    let limit = disk.len() - s.base_offset;
    lemma_block_fits(s.block_offset, limit, s.block_size);
}

/// One step of a read on a truthful device.
proof fn lemma_read_step(s: StreamState, disk: Seq<u8>, e: EventModel, out: Seq<u8>, count: int)
    requires
        coherent(s, disk),
        aligned(s, disk),
        truthful(s, disk, e),
        out.len() <= count,
        s.base_offset + s.cursor + (count - out.len()) <= disk.len(),
        s.in_range(count - out.len()),
    ensures
        ({
            let next = read_step(s, e, out, count);
            let t = next.0;
            let n = next.1.len() - out.len();
            &&& next.2 is Ok
            &&& 0 <= n <= count - out.len()
            &&& t.cursor == s.cursor + n
            &&& t.base_offset == s.base_offset
            &&& t.block_size == s.block_size
            &&& next.1 == out + contents(s, disk).subrange(
                s.base_offset + s.cursor,
                s.base_offset + s.cursor + n,
            )
            &&& ({
                let answer = respond(disk, s.block_size, next.2.unwrap());
                &&& answer.0.len() == disk.len()
                &&& coherent(t, answer.0)
                &&& contents(t, answer.0) == contents(s, disk)
                &&& (next.2.unwrap() is Finish ==> next.2.unwrap() == ActionModel::Finish(count)
                    && next.1.len() == count)
                &&& (!(next.2.unwrap() is Finish) ==> truthful(t, answer.0, answer.1) && 0
                    <= effort(t, answer.1, count - next.1.len()) < effort(
                    s,
                    e,
                    count - out.len(),
                ))
            })
        }),
{
    let s1 = s.take(e);
    vstd::arithmetic::div_mod::lemma_mod_adds(s.block_offset, s.block_size, s.block_size);
    assert(s.refusal(e).is_none());
    assert(!s.exhausted(e));
    assert(coherent(s1, disk));
    assert(contents(s1, disk) =~= contents(s, disk));
    let c = contents(s, disk);
    if s1.pending_store() {
        let d2 = overlay(disk, s1.device_offset(), s1.buffer);
        assert(d2.subrange(s1.device_offset(), s1.device_offset() + s1.block_size) =~= s1.buffer);
        assert(contents(s1, d2) =~= contents(s1, disk));
        assert(c.subrange(s.base_offset + s.cursor, s.base_offset + s.cursor) =~= Seq::<u8>::empty());
        assert(out + Seq::<u8>::empty() =~= out);
    } else {
        let s2 = s1.settled();
        assert(contents(s2, disk) =~= c);
        assert(coherent(s2, disk));
        let rest = count - out.len();
        let n = s2.chunk_len(rest);
        let grown = out + s2.window(n);
        assert(s2.window(n) =~= c.subrange(s.base_offset + s.cursor, s.base_offset + s.cursor + n));
        let s3 = s2.advanced(n);
        assert(contents(s3, disk) =~= c);
        assert(coherent(s3, disk));
        if s3.pending_store() {
            let d2 = overlay(disk, s3.device_offset(), s3.buffer);
            assert(d2.subrange(s3.device_offset(), s3.device_offset() + s3.block_size)
                =~= s3.buffer);
            assert(contents(s3, d2) =~= contents(s3, disk));
        } else {
            let s4 = s3.settled();
            assert(contents(s4, disk) =~= c);
            assert(coherent(s4, disk));
            if grown.len() < count {
                assert(!s4.loaded());
                lemma_device_block_fits(s4, disk);
            }
        }
    }
}

/// A read run on a truthful device.
proof fn lemma_read_run(
    s: StreamState,
    disk: Seq<u8>,
    e: EventModel,
    out: Seq<u8>,
    count: int,
    fuel: nat,
)
    requires
        coherent(s, disk),
        aligned(s, disk),
        truthful(s, disk, e),
        out.len() <= count,
        s.base_offset + s.cursor + (count - out.len()) <= disk.len(),
        s.in_range(count - out.len()),
        fuel >= effort(s, e, count - out.len()),
    ensures
        ({
            let r = run(Operation::Read { count }, s, disk, e, out, fuel);
            &&& r.result == Some(Ok::<int, StreamAdapterError>(count))
            &&& r.out == out + contents(s, disk).subrange(
                s.base_offset + s.cursor,
                s.base_offset + s.cursor + (count - out.len()),
            )
            &&& r.state.cursor == s.cursor + (count - out.len())
            &&& r.state.base_offset == s.base_offset
            &&& r.state.block_size == s.block_size
            &&& r.disk.len() == disk.len()
            &&& contents(r.state, r.disk) == contents(s, disk)
            &&& coherent(r.state, r.disk)
        }),
    decreases fuel,
{
    lemma_read_step(s, disk, e, out, count);
    let next = read_step(s, e, out, count);
    let a = next.2.unwrap();
    let c = contents(s, disk);
    let from = s.base_offset + s.cursor;
    let n = next.1.len() - out.len();
    assert(c.len() == disk.len());
    if a is Finish {
        assert(next.1 =~= out + c.subrange(from, from + (count - out.len())));
    } else {
        let answer = respond(disk, s.block_size, a);
        assert(fuel > 0);
        lemma_read_run(next.0, answer.0, answer.1, next.1, count, (fuel - 1) as nat);
        let rest = count - next.1.len();
        assert(c.subrange(from, from + n) + c.subrange(from + n, from + n + rest) =~= c.subrange(
            from,
            from + (count - out.len()),
        ));
        let r = run(Operation::Read { count }, s, disk, e, out, fuel);
        assert(r.out =~= out + c.subrange(from, from + (count - out.len())));
    }
}

/// How many bytes a write of `len` has placed when `e` comes in.
pub open spec fn placed(s: StreamState, e: EventModel) -> int {
    if e is Begin {
        0
    } else {
        s.progress
    }
}

/// Storing the cached block changes nothing of the stream.
proof fn lemma_store_answer(w: StreamState, disk: Seq<u8>)
    requires
        coherent(w, disk),
        w.loaded(),
    ensures
        ({
            let d2 = overlay(disk, w.device_offset(), w.buffer);
            &&& d2.len() == disk.len()
            &&& coherent(w, d2)
            &&& contents(w, d2) == contents(w, disk)
            &&& truthful(w, d2, EventModel::Stored)
        }),
{
    let d2 = overlay(disk, w.device_offset(), w.buffer);
    assert(d2.subrange(w.device_offset(), w.device_offset() + w.block_size) =~= w.buffer);
    assert(contents(w, d2) =~= contents(w, disk));
}

/// Dropping a clean block that the cursor has left changes nothing of the
/// stream.
proof fn lemma_settled(w: StreamState, disk: Seq<u8>)
    requires
        coherent(w, disk),
        !w.pending_store(),
        w.in_range(0),
    ensures
        coherent(w.settled(), disk),
        contents(w.settled(), disk) == contents(w, disk),
        !w.settled().at_boundary(),
{
    vstd::arithmetic::div_mod::lemma_mod_adds(w.block_offset, w.block_size, w.block_size);
    assert(contents(w.settled(), disk) =~= contents(w, disk));
}

/// Placing a chunk into the cached block lays it over the stream.
proof fn lemma_overwritten(t: StreamState, disk: Seq<u8>, chunk: Seq<u8>)
    requires
        coherent(t, disk),
        t.loaded(),
        chunk.len() > 0,
        t.cursor + chunk.len() <= t.block_offset + t.block_size,
    ensures
        coherent(t.overwritten(chunk), disk),
        contents(t.overwritten(chunk), disk) == overlay(
            contents(t, disk),
            t.base_offset + t.cursor,
            chunk,
        ),
{
    let w = t.overwritten(chunk);
    assert(w.buffer.len() == t.buffer.len());
    assert(contents(w, disk) =~= overlay(contents(t, disk), t.base_offset + t.cursor, chunk));
}

/// One step of a write on a truthful device.
proof fn lemma_write_step(s: StreamState, disk: Seq<u8>, e: EventModel, bytes: Seq<u8>)
    requires
        coherent(s, disk),
        aligned(s, disk),
        truthful(s, disk, e),
        0 <= placed(s, e) <= bytes.len(),
        s.base_offset + s.cursor + (bytes.len() - placed(s, e)) <= disk.len(),
        bytes.len() == 0 ==> s.base_offset + s.cursor < disk.len(),
        s.in_range(bytes.len() - placed(s, e)),
    ensures
        ({
            let next = write_step(s, e, bytes);
            let t = next.0;
            let p = placed(s, e);
            let n = t.progress - p;
            &&& next.1 is Ok
            &&& 0 <= n <= bytes.len() - p
            &&& t.cursor == s.cursor + n
            &&& t.base_offset == s.base_offset
            &&& t.block_size == s.block_size
            &&& ({
                let answer = respond(disk, s.block_size, next.1.unwrap());
                &&& answer.0.len() == disk.len()
                &&& coherent(t, answer.0)
                &&& contents(t, answer.0) == overlay(
                    contents(s, disk),
                    s.base_offset + s.cursor,
                    bytes.subrange(p, p + n),
                )
                &&& (next.1.unwrap() is Finish ==> next.1.unwrap() == ActionModel::Finish(
                    bytes.len() as int,
                ) && t.progress == bytes.len())
                &&& (!(next.1.unwrap() is Finish) ==> truthful(t, answer.0, answer.1) && 0
                    <= effort(t, answer.1, bytes.len() - t.progress) < effort(
                    s,
                    e,
                    bytes.len() - p,
                ))
            })
        }),
{
    let p = placed(s, e);
    let r = if e is Begin {
        StreamState { progress: 0, ..s }
    } else {
        s.take(e)
    };
    let c = contents(s, disk);
    let from = s.base_offset + s.cursor;
    assert(coherent(r, disk) && contents(r, disk) == c) by {
        assert(contents(r, disk) =~= c);
    }
    assert(r.progress == p);
    assert(bytes.subrange(p, p) =~= Seq::<u8>::empty());
    assert(overlay(c, from, Seq::<u8>::empty()) =~= c);
    if r.pending_store() {
        lemma_store_answer(r, disk);
    } else {
        lemma_settled(r, disk);
        let t = r.settled();
        let n = t.chunk_len(bytes.len() - t.progress);
        let chunk = bytes.subrange(p, p + n);
        let w = if n > 0 {
            t.overwritten(chunk)
        } else if bytes.len() == 0 && t.loaded() {
            t.touched()
        } else {
            t
        };
        if n > 0 {
            lemma_overwritten(t, disk, chunk);
        } else {
            assert(contents(w, disk) =~= contents(t, disk));
        }
        assert(w.in_range(0));
        if w.pending_store() {
            lemma_store_answer(w, disk);
        } else {
            lemma_settled(w, disk);
            let v = w.settled();
            if !w.write_done(bytes.len() as int) {
                assert(!v.loaded());
                lemma_device_block_fits(v, disk);
            }
        }
    }
}

/// A write run on a truthful device.
proof fn lemma_write_run(
    s: StreamState,
    disk: Seq<u8>,
    e: EventModel,
    out: Seq<u8>,
    bytes: Seq<u8>,
    fuel: nat,
)
    requires
        coherent(s, disk),
        aligned(s, disk),
        truthful(s, disk, e),
        0 <= placed(s, e) <= bytes.len(),
        s.base_offset + s.cursor + (bytes.len() - placed(s, e)) <= disk.len(),
        bytes.len() == 0 ==> s.base_offset + s.cursor < disk.len(),
        s.in_range(bytes.len() - placed(s, e)),
        fuel >= effort(s, e, bytes.len() - placed(s, e)),
    ensures
        ({
            let r = run(Operation::Write { bytes }, s, disk, e, out, fuel);
            let p = placed(s, e);
            &&& r.result == Some(Ok::<int, StreamAdapterError>(bytes.len() as int))
            &&& r.out == out
            &&& r.state.cursor == s.cursor + (bytes.len() - p)
            &&& r.state.base_offset == s.base_offset
            &&& r.state.block_size == s.block_size
            &&& r.disk.len() == disk.len()
            &&& contents(r.state, r.disk) == overlay(
                contents(s, disk),
                s.base_offset + s.cursor,
                bytes.subrange(p, bytes.len() as int),
            )
            &&& coherent(r.state, r.disk)
        }),
    decreases fuel,
{
    lemma_write_step(s, disk, e, bytes);
    let next = write_step(s, e, bytes);
    let a = next.1.unwrap();
    let c = contents(s, disk);
    let from = s.base_offset + s.cursor;
    let p = placed(s, e);
    let n = next.0.progress - p;
    let len = bytes.len() as int;
    assert(c.len() == disk.len());
    if a is Finish {
        assert(bytes.subrange(p, p + n) =~= bytes.subrange(p, len));
    } else {
        let answer = respond(disk, s.block_size, a);
        assert(fuel > 0);
        assert(!(answer.1 is Begin));
        lemma_write_run(next.0, answer.0, answer.1, out, bytes, (fuel - 1) as nat);
        let r = run(Operation::Write { bytes }, s, disk, e, out, fuel);
        assert(overlay(overlay(c, from, bytes.subrange(p, p + n)), from + n, bytes.subrange(p + n, len))
            =~= overlay(c, from, bytes.subrange(p, len)));
    }
}

/// A whole read returns what the stream holds from the cursor on, moves
/// the cursor past it and leaves the stream as it was.
pub proof fn lemma_read_returns_contents(s: StreamState, disk: Seq<u8>, count: int, fuel: nat)
    requires
        coherent(s, disk),
        aligned(s, disk),
        0 <= count,
        s.base_offset + s.cursor + count <= disk.len(),
        s.in_range(count),
        fuel >= 3 * count + 2,
    ensures
        ({
            let r = perform(Operation::Read { count }, s, disk, fuel);
            &&& r.result == Some(Ok::<int, StreamAdapterError>(count))
            &&& r.out == contents(s, disk).subrange(
                s.base_offset + s.cursor,
                s.base_offset + s.cursor + count,
            )
            &&& r.state.cursor == s.cursor + count
            &&& r.state.base_offset == s.base_offset
            &&& r.state.block_size == s.block_size
            &&& r.disk.len() == disk.len()
            &&& contents(r.state, r.disk) == contents(s, disk)
            &&& coherent(r.state, r.disk)
        }),
{
    let none = Seq::<u8>::empty();
    lemma_read_run(s, disk, EventModel::Begin, none, count, fuel);
    let r = perform(Operation::Read { count }, s, disk, fuel);
    assert(r.out =~= contents(s, disk).subrange(
        s.base_offset + s.cursor,
        s.base_offset + s.cursor + count,
    ));
}

/// A whole write lays its bytes over the stream at the cursor, changes
/// nothing else of it and moves the cursor past them. A write of nothing
/// has the block under the cursor loaded, so the cursor must then lie on
/// the device.
pub proof fn lemma_write_updates_contents(
    s: StreamState,
    disk: Seq<u8>,
    bytes: Seq<u8>,
    fuel: nat,
)
    requires
        coherent(s, disk),
        aligned(s, disk),
        s.base_offset + s.cursor + bytes.len() <= disk.len(),
        bytes.len() == 0 ==> s.base_offset + s.cursor < disk.len(),
        s.in_range(bytes.len() as int),
        fuel >= 3 * bytes.len() + 2,
    ensures
        ({
            let r = perform(Operation::Write { bytes }, s, disk, fuel);
            &&& r.result == Some(Ok::<int, StreamAdapterError>(bytes.len() as int))
            &&& r.state.cursor == s.cursor + bytes.len()
            &&& r.state.base_offset == s.base_offset
            &&& r.state.block_size == s.block_size
            &&& r.disk.len() == disk.len()
            &&& contents(r.state, r.disk) == overlay(
                contents(s, disk),
                s.base_offset + s.cursor,
                bytes,
            )
            &&& coherent(r.state, r.disk)
        }),
{
    lemma_write_run(s, disk, EventModel::Begin, Seq::<u8>::empty(), bytes, fuel);
    assert(bytes.subrange(0, bytes.len() as int) =~= bytes);
}

/// A whole flush brings the device to what the stream holds and leaves
/// the cache clean. One transfer is enough for it.
pub proof fn lemma_flush_persists(s: StreamState, disk: Seq<u8>, fuel: nat)
    requires
        coherent(s, disk),
        fuel >= 1,
    ensures
        ({
            let r = perform(Operation::Flush, s, disk, fuel);
            &&& r.result == Some(Ok::<int, StreamAdapterError>(0))
            &&& r.state == (StreamState { dirty: false, ..s })
            &&& r.disk == contents(s, disk)
            &&& contents(r.state, r.disk) == contents(s, disk)
            &&& coherent(r.state, r.disk)
        }),
{
    let none = Seq::<u8>::empty();
    let first = flush_step(s, EventModel::Begin);
    if s.dirty {
        let d2 = overlay(disk, s.device_offset(), s.buffer);
        assert(d2.subrange(s.device_offset(), s.device_offset() + s.block_size) =~= s.buffer);
        assert(overlay(d2, s.device_offset(), s.buffer) =~= d2);
        let second = flush_step(s, EventModel::Stored);
        assert(run(Operation::Flush, s, d2, EventModel::Stored, none, (fuel - 1) as nat).state
            == second.0);
    } else {
        assert(contents(s, disk) =~= disk);
    }
}

/// A whole seek to a position at or after zero stores a dirty block, empties
/// the cache and sets the cursor; the stream holds what it held.
pub proof fn lemma_seek_keeps_contents(
    s: StreamState,
    disk: Seq<u8>,
    target: SeekTarget,
    fuel: nat,
)
    requires
        coherent(s, disk),
        s.seek_goal(target) >= 0,
        s.base_offset + s.seek_goal(target) + s.block_size <= usize::MAX,
        fuel >= 1,
    ensures
        ({
            let r = perform(Operation::Seek { target }, s, disk, fuel);
            &&& r.result == Some(Ok::<int, StreamAdapterError>(s.seek_goal(target)))
            &&& r.state.cursor == s.seek_goal(target)
            &&& r.state.base_offset == s.base_offset
            &&& r.state.block_size == s.block_size
            &&& !r.state.loaded()
            &&& r.disk == contents(s, disk)
            &&& contents(r.state, r.disk) == contents(s, disk)
            &&& coherent(r.state, r.disk)
        }),
{
    let none = Seq::<u8>::empty();
    let goal = s.seek_goal(target);
    lemma_block_of(goal, s.block_size);
    if s.dirty {
        let d2 = overlay(disk, s.device_offset(), s.buffer);
        let second = seek_step(s, EventModel::Stored, target);
        assert(run(Operation::Seek { target }, s, d2, EventModel::Stored, none, (fuel - 1) as nat).state
            == second.0);
    } else {
        assert(contents(s, disk) =~= disk);
    }
}

/// Round trip: bytes written at a position are the bytes read back from
/// it, whatever blocks they span. From any cache that fits the device,
/// seeking to `offset`, writing `bytes`, seeking to `offset` again and
/// reading as many bytes returns `bytes` and leaves the cursor behind
/// them, and the stream holds `bytes` there and what it held elsewhere.
/// A write of nothing has its block loaded, so it needs a position on the
/// device.
pub proof fn lemma_round_trip(
    s: StreamState,
    disk: Seq<u8>,
    offset: u64,
    bytes: Seq<u8>,
    fuel: nat,
)
    requires
        coherent(s, disk),
        aligned(s, disk),
        s.base_offset + offset + bytes.len() <= disk.len(),
        bytes.len() == 0 ==> s.base_offset + offset < disk.len(),
        s.base_offset + offset + bytes.len() + s.block_size <= usize::MAX,
        fuel >= 3 * bytes.len() + 2,
    ensures
        ({
            let to = Operation::Seek { target: SeekTarget::Start(offset) };
            let a = perform(to, s, disk, fuel);
            let b = perform(Operation::Write { bytes }, a.state, a.disk, fuel);
            let c = perform(to, b.state, b.disk, fuel);
            let d = perform(Operation::Read { count: bytes.len() as int }, c.state, c.disk, fuel);
            &&& b.result == Some(Ok::<int, StreamAdapterError>(bytes.len() as int))
            &&& d.result == Some(Ok::<int, StreamAdapterError>(bytes.len() as int))
            &&& d.out == bytes
            &&& d.state.cursor == offset + bytes.len()
            &&& contents(d.state, d.disk) == overlay(
                contents(s, disk),
                s.base_offset + offset,
                bytes,
            )
        }),
{
    let start = SeekTarget::Start(offset);
    let to = Operation::Seek { target: start };
    lemma_seek_keeps_contents(s, disk, start, fuel);
    let a = perform(to, s, disk, fuel);
    lemma_write_updates_contents(a.state, a.disk, bytes, fuel);
    let b = perform(Operation::Write { bytes }, a.state, a.disk, fuel);
    lemma_seek_keeps_contents(b.state, b.disk, start, fuel);
    let c = perform(to, b.state, b.disk, fuel);
    lemma_read_returns_contents(c.state, c.disk, bytes.len() as int, fuel);
    let d = perform(Operation::Read { count: bytes.len() as int }, c.state, c.disk, fuel);
    let from = s.base_offset + offset;
    assert(overlay(contents(s, disk), from, bytes).subrange(from, from + bytes.len()) =~= bytes);
}

/// What a read returns depends on the position and on what the stream
/// holds, not on how the cache got there: two caches at the same position
/// over streams that hold the same bytes read the same bytes, which are
/// the stream's bytes from the position on.
pub proof fn lemma_read_depends_on_position(
    s1: StreamState,
    disk1: Seq<u8>,
    s2: StreamState,
    disk2: Seq<u8>,
    n: int,
    fuel: nat,
)
    requires
        coherent(s1, disk1),
        aligned(s1, disk1),
        coherent(s2, disk2),
        aligned(s2, disk2),
        s1.base_offset == s2.base_offset,
        s1.block_size == s2.block_size,
        s1.cursor == s2.cursor,
        contents(s1, disk1) == contents(s2, disk2),
        0 <= n,
        s1.base_offset + s1.cursor + n <= disk1.len(),
        s1.in_range(n),
        fuel >= 3 * n + 2,
    ensures
        ({
            let a = perform(Operation::Read { count: n }, s1, disk1, fuel);
            let b = perform(Operation::Read { count: n }, s2, disk2, fuel);
            &&& a.result == Some(Ok::<int, StreamAdapterError>(n))
            &&& b.result == a.result
            &&& b.out == a.out
            &&& a.out == contents(s1, disk1).subrange(
                s1.base_offset + s1.cursor,
                s1.base_offset + s1.cursor + n,
            )
        }),
{
    assert(contents(s1, disk1).len() == disk1.len());
    assert(contents(s2, disk2).len() == disk2.len());
    lemma_read_returns_contents(s1, disk1, n, fuel);
    lemma_read_returns_contents(s2, disk2, n, fuel);
}

/// Reading in two calls is reading in one: a read of `a` bytes followed by
/// a read of `b` bytes returns, one after the other, what one read of
/// `a + b` bytes returns, and ends at the same position over the same
/// stream. So however many calls a sequential reader makes, it observes
/// the stream's bytes in order.
pub proof fn lemma_reads_concatenate(s: StreamState, disk: Seq<u8>, a: int, b: int, fuel: nat)
    requires
        coherent(s, disk),
        aligned(s, disk),
        0 <= a,
        0 <= b,
        s.base_offset + s.cursor + a + b <= disk.len(),
        s.in_range(a + b),
        fuel >= 3 * (a + b) + 2,
    ensures
        ({
            let first = perform(Operation::Read { count: a }, s, disk, fuel);
            let second = perform(Operation::Read { count: b }, first.state, first.disk, fuel);
            let whole = perform(Operation::Read { count: a + b }, s, disk, fuel);
            &&& first.result == Some(Ok::<int, StreamAdapterError>(a))
            &&& second.result == Some(Ok::<int, StreamAdapterError>(b))
            &&& whole.result == Some(Ok::<int, StreamAdapterError>(a + b))
            &&& first.out + second.out == whole.out
            &&& second.state.cursor == whole.state.cursor
            &&& contents(second.state, second.disk) == contents(whole.state, whole.disk)
            &&& coherent(second.state, second.disk)
        }),
{
    lemma_read_returns_contents(s, disk, a, fuel);
    let first = perform(Operation::Read { count: a }, s, disk, fuel);
    lemma_read_returns_contents(first.state, first.disk, b, fuel);
    let second = perform(Operation::Read { count: b }, first.state, first.disk, fuel);
    lemma_read_returns_contents(s, disk, a + b, fuel);
    let whole = perform(Operation::Read { count: a + b }, s, disk, fuel);
    assert(first.out + second.out =~= whole.out);
}

/// Seek consistency: a reader that starts at position zero and reads on to
/// `x`, and one that seeks to `x`, observe the same next `n` bytes: the
/// stream's bytes from `x` on. The sequential reader may read up to `x` in
/// one call or, by `lemma_reads_concatenate`, in any number of calls.
pub proof fn lemma_seek_consistency(s: StreamState, disk: Seq<u8>, x: u64, n: int, fuel: nat)
    requires
        coherent(s, disk),
        aligned(s, disk),
        0 <= n,
        s.base_offset + x + n <= disk.len(),
        s.base_offset + x + n + s.block_size <= usize::MAX,
        fuel >= 3 * (x + n) + 2,
    ensures
        ({
            let a = perform(Operation::Seek { target: SeekTarget::Start(0) }, s, disk, fuel);
            let b = perform(Operation::Read { count: x + n }, a.state, a.disk, fuel);
            let upto = perform(Operation::Read { count: x as int }, a.state, a.disk, fuel);
            let next = perform(Operation::Read { count: n }, upto.state, upto.disk, fuel);
            let c = perform(Operation::Seek { target: SeekTarget::Start(x) }, s, disk, fuel);
            let d = perform(Operation::Read { count: n }, c.state, c.disk, fuel);
            &&& b.result == Some(Ok::<int, StreamAdapterError>(x + n))
            &&& next.result == Some(Ok::<int, StreamAdapterError>(n))
            &&& d.result == Some(Ok::<int, StreamAdapterError>(n))
            &&& b.out.subrange(x as int, x + n) == d.out
            &&& next.out == d.out
            &&& d.out == contents(s, disk).subrange(
                s.base_offset + x,
                s.base_offset + x + n,
            )
        }),
{
    lemma_seek_keeps_contents(s, disk, SeekTarget::Start(0), fuel);
    let a = perform(Operation::Seek { target: SeekTarget::Start(0) }, s, disk, fuel);
    assert(contents(s, disk).len() == disk.len());
    lemma_read_returns_contents(a.state, a.disk, x + n, fuel);
    let b = perform(Operation::Read { count: x + n }, a.state, a.disk, fuel);
    lemma_read_returns_contents(a.state, a.disk, x as int, fuel);
    let upto = perform(Operation::Read { count: x as int }, a.state, a.disk, fuel);
    lemma_read_returns_contents(upto.state, upto.disk, n, fuel);
    let next = perform(Operation::Read { count: n }, upto.state, upto.disk, fuel);
    lemma_seek_keeps_contents(s, disk, SeekTarget::Start(x), fuel);
    let c = perform(Operation::Seek { target: SeekTarget::Start(x) }, s, disk, fuel);
    lemma_read_returns_contents(c.state, c.disk, n, fuel);
    let d = perform(Operation::Read { count: n }, c.state, c.disk, fuel);
    assert(b.out.subrange(x as int, x + n) =~= d.out);
}

/// Flush idempotence: of two flushes in a row the first needs at most one
/// transfer and the second none, and the second changes neither the cache
/// nor the device.
pub proof fn lemma_flush_twice(s: StreamState, disk: Seq<u8>)
    requires
        coherent(s, disk),
    ensures
        ({
            let a = perform(Operation::Flush, s, disk, 1);
            let b = perform(Operation::Flush, a.state, a.disk, 0);
            &&& a.result == Some(Ok::<int, StreamAdapterError>(0))
            &&& b.result == Some(Ok::<int, StreamAdapterError>(0))
            &&& b.state == a.state
            &&& b.disk == a.disk
        }),
{
    lemma_flush_persists(s, disk, 1);
}

} // verus!
