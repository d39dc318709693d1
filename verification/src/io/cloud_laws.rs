//! What holds of a cloud object's buffer whatever its readers and its demuxer do.
use vstd::prelude::*;

use crate::io::cloud::{
    is_covered, lookahead, read_action, read_step, seek_action, BufferState, DataReader, ReadAction,
    ReadRange, ReadStep, SeekAction, MAX_READER_RESPAWNS,
};
use crate::io::seek::AVERROR_EOF;

verus! {

/// Something that happens to a buffer: a chunk arrives, or the cursor moves.
pub enum BufferEvent {
    Chunk { at: int, bytes: Seq<u8> },
    Cursor { to: int },
}

impl BufferEvent {
    /// The chunk lies in the object and holds the object's own bytes.
    pub open spec fn is_of(self, object: Seq<u8>) -> bool {
        match self {
            BufferEvent::Chunk { at, bytes } => {
                &&& 0 <= at
                &&& at + bytes.len() <= object.len()
                &&& bytes == object.subrange(at, at + bytes.len())
            },
            BufferEvent::Cursor { to } => 0 <= to <= object.len(),
        }
    }

    pub open spec fn apply(self, state: BufferState) -> BufferState {
        match self {
            BufferEvent::Chunk { at, bytes } => state.with_chunk(at, bytes),
            BufferEvent::Cursor { to } => state.at(to),
        }
    }
}

/// The state after `events`, in their order.
pub open spec fn after_events(state: BufferState, events: Seq<BufferEvent>) -> BufferState
    decreases events.len(),
{
    if events.len() == 0 {
        state
    } else {
        events.last().apply(after_events(state, events.drop_last()))
    }
}

/// A buffer that has just been made mirrors every object of its size.
pub proof fn law_fresh_buffer_mirrors(object: Seq<u8>)
    requires
        object.len() <= i64::MAX,
    ensures
        BufferState::fresh(object.len()).wf(),
        BufferState::fresh(object.len()).mirrors(object),
{
}

/// However the object's chunks and the cursor's moves follow on one another, the buffer holds no
/// byte as arrived that differs from the object's.
pub proof fn law_history_mirrors(object: Seq<u8>, events: Seq<BufferEvent>)
    requires
        object.len() <= i64::MAX,
        forall|k: int| 0 <= k < events.len() ==> (#[trigger] events[k]).is_of(object),
    ensures
        after_events(BufferState::fresh(object.len()), events).wf(),
        after_events(BufferState::fresh(object.len()), events).mirrors(object),
    decreases events.len(),
{
    if events.len() > 0 {
        law_history_mirrors(object, events.drop_last());
        assert(events.last().is_of(object));
    }
}

/// What has arrived stays: later chunks and moves of the cursor take no mark away.
pub proof fn law_marks_only_grow(state: BufferState, events: Seq<BufferEvent>, i: int)
    requires
        0 <= i < state.ready.len(),
        state.ready[i],
    ensures
        after_events(state, events).ready.len() == state.ready.len(),
        after_events(state, events).ready[i],
    decreases events.len(),
{
    if events.len() > 0 {
        law_marks_only_grow(state, events.drop_last(), i);
    }
}

/// Where a stream is cut into chunks makes no difference.
pub proof fn law_chunks_join(state: BufferState, at: int, first: Seq<u8>, second: Seq<u8>)
    ensures
        state.with_chunk(at, first).with_chunk(at + first.len(), second) == state.with_chunk(
            at,
            first + second,
        ),
{
    let twice = state.with_chunk(at, first).with_chunk(at + first.len(), second);
    let once = state.with_chunk(at, first + second);
    assert(twice.data =~= once.data);
    assert(twice.ready =~= once.ready);
}

/// The chunks one after the other.
pub open spec fn joined_chunks(chunks: Seq<Seq<u8>>) -> Seq<u8>
    decreases chunks.len(),
{
    if chunks.len() == 0 {
        seq![]
    } else {
        chunks[0] + joined_chunks(chunks.skip(1))
    }
}

/// Why a reader has stopped.
pub enum ReaderEnd {
    /// Its stream has no more chunks.
    Exhausted,
    /// It was told to.
    Stopped,
    /// A chunk reached beyond the end of the object.
    Overrun,
}

/// What a reader has done: the state that it leaves, its next byte, how many chunks it has taken
/// in, and why it has stopped.
pub struct ReaderRun {
    pub state: BufferState,
    pub position: int,
    pub taken: int,
    pub end: ReaderEnd,
}

/// A reader takes in the chunks of its stream from byte `at` on, each as `write_chunk` does.
pub open spec fn reader_run(state: BufferState, at: int, chunks: Seq<Seq<u8>>) -> ReaderRun
    decreases chunks.len(),
{
    if chunks.len() == 0 {
        ReaderRun { state, position: at, taken: 0, end: ReaderEnd::Exhausted }
    } else if at + chunks[0].len() > state.size() {
        ReaderRun { state, position: at, taken: 0, end: ReaderEnd::Overrun }
    } else {
        let end = at + chunks[0].len();
        let after = state.with_chunk(at, chunks[0]);
        if after.ready[lookahead(state.size(), end)] {
            ReaderRun { state: after, position: end, taken: 1, end: ReaderEnd::Stopped }
        } else {
            let rest = reader_run(after, end, chunks.skip(1));
            ReaderRun { taken: rest.taken + 1, ..rest }
        }
    }
}

/// A reader leaves its chunks in the buffer, in their order and marked, and nothing else changed.
/// It ends before its stream does only where the next byte had been fetched already, where the
/// object ends, or where a chunk is too long for the object.
pub proof fn law_reader_stops_only_at_fetched_bytes(
    state: BufferState,
    at: int,
    chunks: Seq<Seq<u8>>,
)
    requires
        state.wf(),
        state.size() > 0 || chunks.len() == 0 || chunks[0].len() > 0,
        0 <= at <= state.size(),
    ensures
        ({
            let run = reader_run(state, at, chunks);
            let bytes = joined_chunks(chunks.take(run.taken));
            &&& 0 <= run.taken <= chunks.len()
            &&& run.position == at + bytes.len()
            &&& run.position <= state.size()
            &&& run.state == state.with_chunk(at, bytes)
            &&& run.state.data.subrange(at, run.position) == bytes
            &&& run.state.all_ready(at, run.position)
            &&& run.end is Exhausted ==> run.taken == chunks.len()
            &&& run.end is Stopped ==> run.position == state.size() || state.ready[run.position]
        }),
    decreases chunks.len(),
{
    let run = reader_run(state, at, chunks);
    lemma_chunk_is_stored(state, at, seq![]);
    assert(joined_chunks(chunks.take(0)) =~= seq![]);
    assert(state.with_chunk(at, seq![]).data =~= state.data);
    assert(state.with_chunk(at, seq![]).ready =~= state.ready);
    if chunks.len() > 0 && at + chunks[0].len() <= state.size() {
        let end = at + chunks[0].len();
        let after = state.with_chunk(at, chunks[0]);
        if after.ready[lookahead(state.size(), end)] {
            assert(chunks.take(1).skip(1) =~= seq![]);
            assert(joined_chunks(chunks.take(1)) =~= chunks[0]) by {
                assert(joined_chunks(chunks.take(1).skip(1)) =~= seq![]);
            }
            lemma_chunk_is_stored(state, at, chunks[0]);
        } else {
            let rest = reader_run(after, end, chunks.skip(1));
            law_reader_stops_only_at_fetched_bytes(after, end, chunks.skip(1));
            let more = joined_chunks(chunks.skip(1).take(rest.taken));
            assert(chunks.take(run.taken).skip(1) =~= chunks.skip(1).take(rest.taken));
            assert(joined_chunks(chunks.take(run.taken)) == chunks[0] + more);
            law_chunks_join(state, at, chunks[0], more);
            lemma_chunk_is_stored(state, at, chunks[0] + more);
        }
    }
}

proof fn lemma_chunk_is_stored(state: BufferState, at: int, bytes: Seq<u8>)
    requires
        state.wf(),
        0 <= at,
        at + bytes.len() <= state.size(),
    ensures
        state.with_chunk(at, bytes).wf(),
        state.with_chunk(at, bytes).data.subrange(at, at + bytes.len()) == bytes,
        state.with_chunk(at, bytes).all_ready(at, at + bytes.len()),
{
    assert(state.with_chunk(at, bytes).data.subrange(at, at + bytes.len()) =~= bytes);
}

/// A stream that is taken in to the object's end leaves nothing missing from where it began.
pub proof fn law_whole_stream_fills_the_rest(state: BufferState, at: int, stream: Seq<u8>)
    requires
        state.wf(),
        0 <= at,
        at + stream.len() == state.size(),
    ensures
        state.with_chunk(at, stream).wf(),
        state.with_chunk(at, stream).all_ready(at, state.size()),
        state.all_ready(0, at) ==> state.with_chunk(at, stream).all_ready(0, state.size()),
{
    let after = state.with_chunk(at, stream);
    if state.all_ready(0, at) {
        assert forall|i: int| 0 <= i < state.size() implies #[trigger] after.ready[i] by {
            if i < at {
                assert(state.ready[i]);
            }
        }
    }
}

/// A read changes nothing of what is known of the object but the cursor, and leaves that in the
/// object or at its end.
pub proof fn law_read_only_moves_the_cursor(
    before: BufferState,
    readers: Seq<DataReader>,
    want: Seq<u8>,
    after: BufferState,
    got: Seq<u8>,
    step: ReadStep,
)
    requires
        before.wf(),
        read_step(before, readers, want, after, got, step),
    ensures
        after == before.at(after.position),
        after.wf(),
        got.len() == want.len(),
        !(step is Filled) ==> after == before && got == want,
{
}

/// A read hands out the object's bytes at the cursor, as many as were asked for or as the object
/// still has, and leaves the cursor behind them.
pub proof fn law_read_gives_object(
    object: Seq<u8>,
    before: BufferState,
    readers: Seq<DataReader>,
    want: Seq<u8>,
    after: BufferState,
    got: Seq<u8>,
    n: usize,
)
    requires
        before.wf(),
        before.mirrors(object),
        want.len() <= usize::MAX,
        read_step(before, readers, want, after, got, ReadStep::Filled(n)),
    ensures
        0 < n <= want.len(),
        n == want.len() || before.position + n == object.len(),
        got.len() == want.len(),
        got.subrange(0, n as int) == object.subrange(before.position, before.position + n),
        after == before.at(before.position + n),
        after.mirrors(object),
{
    let pos = before.position;
    let right = before.window_end(want.len() as int);
    assert(got.subrange(0, n as int) =~= object.subrange(pos, pos + n)) by {
        assert forall|j: int| 0 <= j < n implies got[j] == object[pos + j] by {
            assert(before.ready[pos + j]);
            assert(before.data[pos + j] == object[pos + j]);
        }
    }
}

/// Two reads in a row hand out neighbouring bytes of the object: what is read is the object, with
/// no byte lost or repeated.
pub proof fn law_reads_join(
    object: Seq<u8>,
    before: BufferState,
    readers: Seq<DataReader>,
    want1: Seq<u8>,
    middle: BufferState,
    got1: Seq<u8>,
    n1: usize,
    later: BufferState,
    later_readers: Seq<DataReader>,
    want2: Seq<u8>,
    after: BufferState,
    got2: Seq<u8>,
    n2: usize,
)
    requires
        before.wf(),
        before.mirrors(object),
        want1.len() <= usize::MAX,
        want2.len() <= usize::MAX,
        read_step(before, readers, want1, middle, got1, ReadStep::Filled(n1)),
        later.wf(),
        later.mirrors(object),
        later.position == middle.position,
        read_step(later, later_readers, want2, after, got2, ReadStep::Filled(n2)),
    ensures
        got1.subrange(0, n1 as int) + got2.subrange(0, n2 as int) == object.subrange(
            before.position,
            before.position + n1 + n2,
        ),
{
    law_read_gives_object(object, before, readers, want1, middle, got1, n1);
    law_read_gives_object(object, later, later_readers, want2, after, got2, n2);
    assert(got1.subrange(0, n1 as int) + got2.subrange(0, n2 as int) =~= object.subrange(
        before.position,
        before.position + n1 + n2,
    ));
}

/// Once the bytes are here, a read succeeds whatever has become of the readers.
pub proof fn law_ready_bytes_are_read(
    before: BufferState,
    readers: Seq<DataReader>,
    want: Seq<u8>,
    after: BufferState,
    got: Seq<u8>,
    step: ReadStep,
)
    requires
        before.wf(),
        want.len() > 0,
        before.position < before.size(),
        before.all_ready(before.position, before.window_end(want.len() as int)),
        read_step(before, readers, want, after, got, step),
    ensures
        step == ReadStep::Filled(
            (before.window_end(want.len() as int) - before.position) as usize,
        ),
{
}

/// The end of the object is reported exactly when the cursor is there or nothing was asked for.
pub proof fn law_eof_only_at_end(
    before: BufferState,
    readers: Seq<DataReader>,
    want: Seq<u8>,
    after: BufferState,
    got: Seq<u8>,
    step: ReadStep,
)
    requires
        before.wf(),
        read_step(before, readers, want, after, got, step),
    ensures
        step is Eof <==> before.position == before.size() || want.len() == 0,
{
}

/// A look that finds bytes missing changes nothing, and names or waits for a byte that is missing.
pub proof fn law_missing_bytes_are_never_read(
    before: BufferState,
    readers: Seq<DataReader>,
    want: Seq<u8>,
    after: BufferState,
    got: Seq<u8>,
    step: ReadStep,
)
    requires
        before.wf(),
        want.len() <= usize::MAX,
        before.data.len() <= usize::MAX,
        read_step(before, readers, want, after, got, step),
        !before.all_ready(before.position, before.window_end(want.len() as int)),
    ensures
        after == before,
        got == want,
        step is Pending || step is Stalled,
        step matches ReadStep::Stalled(hole) ==> {
            &&& before.is_first_missing(
                before.position,
                before.window_end(want.len() as int),
                hole as int,
            )
            &&& !is_covered(readers, hole as int)
        },
{
}

/// A reader started at the byte that a read stalled on covers that byte, so the read does not
/// stall on it again while that reader runs.
pub proof fn law_respawn_covers_the_hole(
    before: BufferState,
    readers: Seq<DataReader>,
    hole: usize,
    want: Seq<u8>,
    after: BufferState,
    got: Seq<u8>,
    step: ReadStep,
)
    requires
        before.wf(),
        before.data.len() <= usize::MAX,
        want.len() <= usize::MAX,
        hole < before.size(),
        read_step(
            before,
            readers.push(
                DataReader {
                    range: ReadRange { start: hole, end: before.size() as usize },
                    finished: false,
                },
            ),
            want,
            after,
            got,
            step,
        ),
    ensures
        step != ReadStep::Stalled(hole),
        !(step matches ReadStep::Stalled(other) && other >= hole),
{
    let grown = readers.push(
        DataReader {
            range: ReadRange { start: hole, end: before.size() as usize },
            finished: false,
        },
    );
    assert forall|b: int| hole <= b < before.size() implies is_covered(grown, b) by {
        assert(grown[readers.len() as int].fetches(b));
    }
}

/// One read replaces at most three readers, with pauses of 10, 20 and 40 milliseconds, and then
/// fails; nothing but a stalled byte makes it do either.
pub proof fn law_respawns_are_bounded(step: ReadStep, respawns: u32)
    requires
        respawns <= MAX_READER_RESPAWNS,
    ensures
        read_action(step, respawns) matches ReadAction::Respawn { from, attempt, backoff_millis }
            ==> {
            &&& step == ReadStep::Stalled(from)
            &&& attempt == respawns + 1
            &&& attempt <= MAX_READER_RESPAWNS
            &&& attempt == 1 ==> backoff_millis == 10
            &&& attempt == 2 ==> backoff_millis == 20
            &&& attempt == 3 ==> backoff_millis == 40
        },
        read_action(step, respawns) is GiveUp <==> step is Stalled && respawns
            == MAX_READER_RESPAWNS,
        read_action(step, respawns) == ReadAction::Reply(AVERROR_EOF) || step !is Eof,
{
    reveal_with_fuel(crate::io::cloud::backoff_millis, 3);
}

/// A seek moves the cursor and nothing else: the bytes and the marks stay, and the cursor stays in
/// the object or at its end.
pub proof fn law_seek_keeps_bytes(
    before: BufferState,
    readers: Seq<DataReader>,
    offset: i64,
    whence: i32,
    after: BufferState,
    action: SeekAction,
)
    requires
        before.wf(),
        seek_action(before, readers, offset, whence, after, action),
    ensures
        after.data == before.data,
        after.ready == before.ready,
        after.wf(),
        action is Refuse ==> after == before,
{
}

/// After a seek into the object the next bytes read are those at the place that the seek answered.
pub proof fn law_seek_then_read(
    object: Seq<u8>,
    before: BufferState,
    readers: Seq<DataReader>,
    offset: i64,
    whence: i32,
    middle: BufferState,
    action: SeekAction,
    place: i64,
    want: Seq<u8>,
    after: BufferState,
    got: Seq<u8>,
    n: usize,
)
    requires
        before.wf(),
        before.mirrors(object),
        whence != crate::io::seek::AVSEEK_SIZE,
        seek_action(before, readers, offset, whence, middle, action),
        action == SeekAction::Reply(place) || action == (SeekAction::Fetch {
            from: place as usize,
            reply: place,
        }),
        0 <= place <= object.len(),
        crate::io::seek::seek_fits(before.position, before.size(), offset, whence),
        want.len() <= usize::MAX,
        read_step(middle, readers, want, after, got, ReadStep::Filled(n)),
    ensures
        got.subrange(0, n as int) == object.subrange(place as int, place + n),
{
    assert(middle.position == place);
    law_read_gives_object(object, middle, readers, want, after, got, n);
}

/// The reader that a seek asks for starts at the cursor and covers every byte from there on.
pub proof fn law_fetch_covers_the_rest(
    before: BufferState,
    readers: Seq<DataReader>,
    offset: i64,
    whence: i32,
    after: BufferState,
    action: SeekAction,
    byte: int,
)
    requires
        before.wf(),
        before.data.len() <= usize::MAX,
        seek_action(before, readers, offset, whence, after, action),
        action is Fetch,
        after.position <= byte < before.size(),
    ensures
        action->from == after.position,
        action->reply == after.position,
        is_covered(
            readers.push(
                DataReader {
                    range: ReadRange { start: action->from, end: before.size() as usize },
                    finished: false,
                },
            ),
            byte,
        ),
{
    let grown = readers.push(
        DataReader {
            range: ReadRange { start: action->from, end: before.size() as usize },
            finished: false,
        },
    );
    assert(grown[readers.len() as int].fetches(byte));
}

} // verus!
