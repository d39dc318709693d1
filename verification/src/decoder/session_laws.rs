//! What holds of decoding as a whole, whatever the input and the decoders answer.
use vstd::prelude::*;

use crate::decoder::frame::{frames_in_range, law_range_filter, Frame, Seek, StreamType};
use crate::decoder::session::{
    first_place, is_output, is_result, last_place, lemma_first_place, lemma_last_place,
    session_next, DecodedStream, FilledOutput, SessionAction, SessionEvent, SessionState, Stage,
    StreamMetadata,
};
use crate::decoder::stream::{Action, Event, Fault, StreamState};
use crate::decoder::stream_laws::{
    flush_goes_on, frames_belong, in_flush, in_packet, law_flush_ends_finished,
    law_one_frame_per_row, law_packet_ends_idle, law_step_keeps_sound, overflows, packet_goes_on,
    sound, unlisted_rows,
};
use crate::double::Double;

verus! {

/// While packets are read no stream is busy; a packet keeps one stream busy, and the emptying of
/// the streams goes through them in their order.
pub open spec fn calm<D>(state: SessionState<D>) -> bool {
    match state.stage {
        Stage::Reading => forall|j: int|
            0 <= j < state.streams.len() ==> (#[trigger] state.streams[j]).phase is Idle,
        Stage::Decoding(k) => {
            &&& k < state.streams.len()
            &&& in_packet(state.streams[k as int].phase)
            &&& forall|j: int|
                0 <= j < state.streams.len() && j != k ==> (
                #[trigger] state.streams[j]).phase is Idle
        },
        Stage::Flushing(k) => {
            &&& k < state.streams.len()
            &&& in_flush(state.streams[k as int].phase)
            &&& forall|j: int|
                0 <= j < k ==> (#[trigger] state.streams[j]).phase is Finished
            &&& forall|j: int|
                k < j < state.streams.len() ==> (#[trigger] state.streams[j]).phase is Idle
        },
        Stage::Done => forall|j: int|
            0 <= j < state.streams.len() ==> (#[trigger] state.streams[j]).phase is Finished,
        Stage::Failed => true,
    }
}

proof fn lemma_flush_calm<D>(state: SessionState<D>, k: int)
    requires
        state.wf(),
        0 <= k <= state.streams.len(),
        forall|j: int| 0 <= j < k ==> (#[trigger] state.streams[j]).phase is Finished,
        forall|j: int|
            k <= j < state.streams.len() ==> (#[trigger] state.streams[j]).phase is Idle,
    ensures
        calm(state.flush(k).0),
        !(state.flush(k).1 is OutOfTurn),
{
    if k < state.streams.len() {
        assert(state.streams[k].phase is Idle);
        let (stream, action) = state.streams[k].next(Event::EndOfInput, state.seek);
        assert(stream.phase is SendingEnd);
        let next = state.flush(k).0;
        assert forall|j: int| k < j < next.streams.len() implies (
        #[trigger] next.streams[j]).phase is Idle by {
            assert(next.streams[j] == state.streams[j]);
        }
        assert forall|j: int| 0 <= j < k implies (#[trigger] next.streams[j]).phase is Finished by {
            assert(next.streams[j] == state.streams[j]);
        }
    }
}

proof fn lemma_after_packet_calm<D>(state: SessionState<D>)
    requires
        state.wf(),
        forall|j: int|
            0 <= j < state.streams.len() ==> (#[trigger] state.streams[j]).phase is Idle,
    ensures
        calm(state.after_packet().0),
        !(state.after_packet().1 is OutOfTurn),
{
    lemma_flush_calm(state, 0);
}

/// Streams take their turns: whatever the input and the decoders answer, packets are read only
/// while every stream is idle, one stream works at a time, and decoding is done only when every
/// stream has been emptied.
pub proof fn law_streams_take_turns<D>(
    state: SessionState<D>,
    event: SessionEvent<D>,
    result: (SessionState<D>, SessionAction),
)
    requires
        state.wf(),
        calm(state),
        session_next(state, event, result),
    ensures
        calm(result.0),
{
    match (state.stage, event) {
        (Stage::Reading, SessionEvent::Packet { stream_index, pts_seconds }) => {
            let k = choose|k: int|
                #[trigger] state.is_taker(k, stream_index) && result == if k
                    < state.streams.len() {
                    state.deliver(k, pts_seconds)
                } else {
                    state.after_packet()
                };
            if k < state.streams.len() {
                assert(state.streams[k].phase is Idle);
                let next = result.0;
                assert(next.streams[k].phase is Sending);
                assert forall|j: int| 0 <= j < next.streams.len() && j != k implies (
                #[trigger] next.streams[j]).phase is Idle by {
                    assert(next.streams[j] == state.streams[j]);
                }
            } else {
                lemma_after_packet_calm(state);
            }
        },
        (Stage::Reading, SessionEvent::EndOfInput) => {
            lemma_flush_calm(state, 0);
        },
        (Stage::Decoding(k), SessionEvent::Stream(event)) => {
            let k = k as int;
            law_packet_ends_idle(state.streams[k], event, state.seek);
            lemma_advance_calm(state, k, event);
        },
        (Stage::Flushing(k), SessionEvent::Stream(event)) => {
            let k = k as int;
            law_flush_ends_finished(state.streams[k], event, state.seek);
            lemma_advance_calm(state, k, event);
        },
        _ => {},
    }
}

proof fn lemma_advance_calm<D>(state: SessionState<D>, k: int, event: Event<D>)
    requires
        state.wf(),
        calm(state),
        state.stage == Stage::Decoding(k as usize) || state.stage == Stage::Flushing(k as usize),
        0 <= k < state.streams.len(),
        state.stage is Decoding ==> packet_goes_on(state.streams[k].next(event, state.seek)),
        state.stage is Flushing ==> flush_goes_on(state.streams[k].next(event, state.seek)),
    ensures
        calm(state.advance(k, event).0),
{
    let (stream, action) = state.streams[k].next(event, state.seek);
    assert(state.streams[k].wf());
    crate::decoder::stream::law_step_keeps_order(state.streams[k], event, state.seek);
    let stepped = state.with_stream(k, stream);
    assert(stepped.wf());
    assert forall|j: int| 0 <= j < stepped.streams.len() && j != k implies (
    #[trigger] stepped.streams[j]).phase == state.streams[j].phase by {}
    if action is PacketDone || action is StreamDone {
        lemma_first_place(stepped.indices, stepped.indices[k]);
        let next = stepped.collected(k);
        assert forall|j: int| 0 <= j < next.streams.len() implies (
        #[trigger] next.streams[j]).phase == stepped.streams[j].phase && next.streams[j].wf() by {
            assert(stepped.streams[j].wf());
        }
        assert(next.streams[k].phase == stream.phase);
        assert(next.wf());
        if action is PacketDone {
            assert forall|j: int| 0 <= j < next.streams.len() implies (
            #[trigger] next.streams[j]).phase is Idle by {
                if j != k {
                    assert(state.streams[j].phase is Idle);
                    assert(stepped.streams[j].phase is Idle);
                }
            }
            lemma_after_packet_calm(next);
        } else {
            assert forall|j: int| 0 <= j < k + 1 implies (
            #[trigger] next.streams[j]).phase is Finished by {
                if j != k {
                    assert(state.streams[j].phase is Finished);
                    assert(stepped.streams[j].phase is Finished);
                }
            }
            assert forall|j: int| k + 1 <= j < next.streams.len() implies (
            #[trigger] next.streams[j]).phase is Idle by {
                assert(state.streams[j].phase is Idle);
                assert(stepped.streams[j].phase is Idle);
            }
            lemma_flush_calm(next, k + 1);
        }
    }
}

/// Every frame that is handed out lies in the range that is asked for.
pub open spec fn frames_admitted<D>(state: SessionState<D>) -> bool {
    forall|j: int, i: int|
        0 <= j < state.frames.len() && 0 <= i < state.frames[j].len() ==> state.seek.admits(
            (#[trigger] state.frames[j][i]).seconds(),
        )
}

proof fn lemma_collected_admitted<D>(state: SessionState<D>, k: int)
    requires
        0 <= k < state.streams.len(),
        state.streams.len() == state.indices.len(),
        state.frames.len() == state.indices.len(),
        frames_admitted(state),
    ensures
        frames_admitted(state.collected(k)),
{
    let target = first_place(state.indices, state.indices[k]);
    lemma_first_place(state.indices, state.indices[k]);
    let more = frames_in_range(state.streams[k].gathered, state.seek);
    law_range_filter(state.streams[k].gathered, state.seek);
    let next = state.collected(k);
    assert forall|j: int, i: int|
        0 <= j < next.frames.len() && 0 <= i < next.frames[j].len() implies state.seek.admits(
        (#[trigger] next.frames[j][i]).seconds(),
    ) by {
        if j == target {
            if i < state.frames[j].len() {
                assert(next.frames[j][i] == state.frames[j][i]);
            } else {
                assert(next.frames[j][i] == more[i - state.frames[j].len()]);
            }
        } else {
            assert(next.frames[j][i] == state.frames[j][i]);
        }
    }
}

/// Every frame that is ever handed out lies at the start of the range or later, and before its
/// end.
pub proof fn law_frames_lie_in_range<D>(
    state: SessionState<D>,
    event: SessionEvent<D>,
    result: (SessionState<D>, SessionAction),
)
    requires
        state.wf(),
        frames_admitted(state),
        session_next(state, event, result),
    ensures
        frames_admitted(result.0),
{
    match (state.stage, event) {
        (Stage::Decoding(k), SessionEvent::Stream(event)) => {
            lemma_advance_admitted(state, k as int, event);
        },
        (Stage::Flushing(k), SessionEvent::Stream(event)) => {
            lemma_advance_admitted(state, k as int, event);
        },
        _ => {},
    }
}

proof fn lemma_advance_admitted<D>(state: SessionState<D>, k: int, event: Event<D>)
    requires
        state.wf(),
        frames_admitted(state),
        0 <= k < state.streams.len(),
    ensures
        frames_admitted(state.advance(k, event).0),
{
    let (stream, action) = state.streams[k].next(event, state.seek);
    let stepped = state.with_stream(k, stream);
    lemma_collected_admitted(stepped, k);
}

/// A packet behind the end of the range is the last one that its stream is given.
pub proof fn law_late_packet_is_the_last<D>(
    state: SessionState<D>,
    stream_index: usize,
    pts_seconds: Double,
    k: int,
)
    requires
        state.wf(),
        state.stage is Reading,
        calm(state),
        state.is_taker(k, stream_index),
        k < state.streams.len(),
        state.seek.is_late(pts_seconds),
    ensures
        state.deliver(k, pts_seconds).0.streams[k].finished,
        forall|other: usize| !#[trigger] state.deliver(k, pts_seconds).0.takes(k, other),
{
    assert(state.streams[k].phase is Idle);
}

/// Where no index stands twice, each stream is handed its own output, filled as far as it was
/// written.
pub proof fn law_each_stream_gets_its_own_output<D>(
    state: SessionState<D>,
    j: int,
    result: DecodedStream<D>,
)
    requires
        state.wf(),
        0 <= j < state.indices.len(),
        forall|a: int, b: int|
            0 <= a < b < state.indices.len() ==> #[trigger] state.indices[a]
                != #[trigger] state.indices[b],
        is_output(state, state.indices, j, result),
    ensures
        result.data == Some(
            FilledOutput { place: j as usize, extent: state.streams[j].slots.written as usize },
        ),
        result.frame_pts@ == state.streams[j].slots.pts,
        state.streams[j].slots.stream_type == StreamType::Video ==> result.frame_pts@.len()
            == state.streams[j].slots.written,
{
    let index = state.indices[j];
    lemma_first_place(state.indices, index);
    lemma_last_place(state.indices, index);
    assert(state.indices.contains(index));
    assert(state.streams[j].wf());
}

/// Rows of the stream at place `j` that no frame stands for, neither one that is handed out nor one
/// on its way there.
pub open spec fn spare_rows<D>(state: SessionState<D>, j: int) -> int {
    unlisted_rows(state.streams[j]) - state.frames[j].len()
}

/// No index stands twice.
pub open spec fn indices_differ<D>(state: SessionState<D>) -> bool {
    forall|a: int, b: int|
        0 <= a < b < state.indices.len() ==> #[trigger] state.indices[a]
            != #[trigger] state.indices[b]
}

/// The filter graph of the stream at work gives a frame for which there is no row left.
pub open spec fn session_overflows<D>(state: SessionState<D>, event: SessionEvent<D>) -> bool {
    match (state.stage, event) {
        (Stage::Decoding(k), SessionEvent::Stream(event)) => overflows(
            state.streams[k as int],
            event,
            state.seek,
        ),
        (Stage::Flushing(k), SessionEvent::Stream(event)) => overflows(
            state.streams[k as int],
            event,
            state.seek,
        ),
        _ => false,
    }
}

proof fn lemma_flush_keeps_spare_rows<D>(state: SessionState<D>, k: int, j: int)
    requires
        state.wf(),
        0 <= k <= state.streams.len(),
        0 <= j < state.streams.len(),
        k < state.streams.len() ==> state.streams[k].phase is Idle,
    ensures
        spare_rows(state.flush(k).0, j) == spare_rows(state, j),
{
}

/// Frames of a video that the range keeps all lie in it.
proof fn lemma_kept_frames_lie_in_range<D>(frames: Seq<Frame<D>>, seek: Seek)
    requires
        frames_belong(frames, StreamType::Video, seek),
    ensures
        frames_in_range(frames, seek) == frames,
    decreases frames.len(),
{
    reveal(Seq::filter);
    if frames.len() > 0 {
        assert(frames[frames.len() - 1].kind() == StreamType::Video);
        assert forall|i: int| 0 <= i < frames.drop_last().len() implies (
        #[trigger] frames.drop_last()[i]).kind() == StreamType::Video && seek.keeps(
            StreamType::Video,
            frames.drop_last()[i].seconds(),
        ) by {
            assert(frames[i].kind() == StreamType::Video);
        }
        lemma_kept_frames_lie_in_range(frames.drop_last(), seek);
        assert(frames.drop_last().push(frames.last()) =~= frames);
    }
}

proof fn lemma_collected_keeps_spare_rows<D>(state: SessionState<D>, k: int, j: int)
    requires
        state.streams.len() == state.indices.len(),
        state.frames.len() == state.indices.len(),
        indices_differ(state),
        all_sound(state),
        0 <= k < state.streams.len(),
        0 <= j < state.streams.len(),
        state.streams[j].slots.stream_type == StreamType::Video,
    ensures
        spare_rows(state.collected(k), j) == spare_rows(state, j),
{
    lemma_first_place(state.indices, state.indices[k]);
    let target = first_place(state.indices, state.indices[k]);
    assert(target == k);
    assert(sound(state.streams[k], state.seek));
    if state.streams[k].slots.stream_type == StreamType::Video {
        lemma_kept_frames_lie_in_range(state.streams[k].gathered, state.seek);
    }
}

proof fn lemma_advance_keeps_spare_rows<D>(
    state: SessionState<D>,
    k: int,
    event: Event<D>,
    j: int,
)
    requires
        state.wf(),
        calm(state),
        indices_differ(state),
        all_sound(state),
        state.stage == Stage::Decoding(k as usize) || state.stage == Stage::Flushing(k as usize),
        0 <= k < state.streams.len(),
        0 <= j < state.streams.len(),
        state.streams[j].slots.stream_type == StreamType::Video,
        !overflows(state.streams[k], event, state.seek),
        !(state.advance(k, event).0.stage is Failed),
    ensures
        spare_rows(state.advance(k, event).0, j) == spare_rows(state, j),
{
    let (stream, action) = state.streams[k].next(event, state.seek);
    assert(state.streams[k].wf());
    crate::decoder::stream::law_step_keeps_order(state.streams[k], event, state.seek);
    if state.stage is Decoding {
        law_packet_ends_idle(state.streams[k], event, state.seek);
    } else {
        law_flush_ends_finished(state.streams[k], event, state.seek);
    }
    let stepped = state.with_stream(k, stream);
    assert(!(action is Fail));
    assert(!(stream.phase is Failed));
    if j == k {
        law_one_frame_per_row(state.streams[k], event, state.seek);
    }
    assert(spare_rows(stepped, j) == spare_rows(state, j));
    assert(sound(state.streams[k], state.seek));
    law_step_keeps_sound(state.streams[k], event, state.seek);
    lemma_stepped_sound(state, k, stream);
    if action is PacketDone || action is StreamDone {
        lemma_first_place(stepped.indices, stepped.indices[k]);
        lemma_collected_keeps_spare_rows(stepped, k, j);
        let next = stepped.collected(k);
        assert(next.wf()) by {
            assert forall|i: int| 0 <= i < next.streams.len() implies (
            #[trigger] next.streams[i]).wf() by {
                assert(state.streams[i].wf());
            }
        }
        if action is PacketDone {
            assert forall|i: int| 0 <= i < next.streams.len() implies (
            #[trigger] next.streams[i]).phase is Idle by {
                if i != k {
                    assert(state.streams[i].phase is Idle);
                }
            }
            if next.streams.len() > 0 {
                assert(next.streams[0].phase is Idle);
            }
            lemma_flush_keeps_spare_rows(next, 0, j);
        } else {
            if k + 1 < next.streams.len() {
                assert(state.streams[k + 1].phase is Idle);
                assert(next.streams[k + 1].phase is Idle);
            }
            lemma_flush_keeps_spare_rows(next, k + 1, j);
        }
    }
}

/// Each row of a video is one frame that is handed out, whatever range is asked for: whatever the
/// input and the decoders answer, rows and frames grow together, except where a filter graph gives
/// more frames than there are rows, or where decoding fails.
pub proof fn law_rows_are_frames_handed_out<D>(
    state: SessionState<D>,
    event: SessionEvent<D>,
    result: (SessionState<D>, SessionAction),
    j: int,
)
    requires
        state.wf(),
        calm(state),
        indices_differ(state),
        all_sound(state),
        0 <= j < state.streams.len(),
        state.streams[j].slots.stream_type == StreamType::Video,
        session_next(state, event, result),
        !session_overflows(state, event),
        !(result.0.stage is Failed),
    ensures
        spare_rows(result.0, j) == spare_rows(state, j),
{
    match (state.stage, event) {
        (Stage::Reading, SessionEvent::Packet { stream_index, pts_seconds }) => {
            let k = choose|k: int|
                #[trigger] state.is_taker(k, stream_index) && result == if k
                    < state.streams.len() {
                    state.deliver(k, pts_seconds)
                } else {
                    state.after_packet()
                };
            if k < state.streams.len() {
                assert(state.streams[k].phase is Idle);
            } else {
                assert(state.streams[0].phase is Idle);
                lemma_flush_keeps_spare_rows(state, 0, j);
            }
        },
        (Stage::Reading, SessionEvent::EndOfInput) => {
            assert(state.streams[0].phase is Idle);
            lemma_flush_keeps_spare_rows(state, 0, j);
        },
        (Stage::Decoding(k), SessionEvent::Stream(event)) => {
            lemma_advance_keeps_spare_rows(state, k as int, event, j);
        },
        (Stage::Flushing(k), SessionEvent::Stream(event)) => {
            lemma_advance_keeps_spare_rows(state, k as int, event, j);
        },
        _ => {},
    }
}

/// Every frame is of this type.
pub open spec fn frames_of_type<D>(frames: Seq<Frame<D>>, stream_type: StreamType) -> bool {
    forall|i: int| 0 <= i < frames.len() ==> (#[trigger] frames[i]).kind() == stream_type
}

/// Each stream is sound, and the frames that are handed out for it are of its type.
pub open spec fn all_sound<D>(state: SessionState<D>) -> bool {
    forall|j: int|
        0 <= j < state.streams.len() ==> sound(#[trigger] state.streams[j], state.seek)
            && frames_of_type(state.frames[j], state.streams[j].slots.stream_type)
}

proof fn lemma_stepped_sound<D>(state: SessionState<D>, k: int, stream: StreamState<D>)
    requires
        state.wf(),
        all_sound(state),
        0 <= k < state.streams.len(),
        sound(stream, state.seek),
        stream.slots.stream_type == state.streams[k].slots.stream_type,
    ensures
        state.with_stream(k, stream).wf(),
        all_sound(state.with_stream(k, stream)),
{
    let next = state.with_stream(k, stream);
    assert forall|j: int| 0 <= j < next.streams.len() implies (#[trigger] next.streams[j]).wf() by {
        assert(state.streams[j].wf());
    }
    assert forall|j: int| 0 <= j < next.streams.len() implies sound(
        #[trigger] next.streams[j],
        next.seek,
    ) && frames_of_type(next.frames[j], next.streams[j].slots.stream_type) by {
        assert(sound(state.streams[j], state.seek));
    }
}

proof fn lemma_collected_sound<D>(state: SessionState<D>, k: int)
    requires
        state.wf(),
        all_sound(state),
        indices_differ(state),
        0 <= k < state.streams.len(),
    ensures
        state.collected(k).wf(),
        all_sound(state.collected(k)),
        indices_differ(state.collected(k)),
{
    lemma_first_place(state.indices, state.indices[k]);
    let next = state.collected(k);
    let stream = state.streams[k];
    assert(sound(stream, state.seek));
    let more = frames_in_range(stream.gathered, state.seek);
    lemma_filter_keeps_type(stream.gathered, state.seek, stream.slots.stream_type);
    assert forall|j: int| 0 <= j < next.streams.len() implies (#[trigger] next.streams[j]).wf() by {
        assert(state.streams[j].wf());
    }
    assert forall|j: int| 0 <= j < next.streams.len() implies sound(
        #[trigger] next.streams[j],
        next.seek,
    ) && frames_of_type(next.frames[j], next.streams[j].slots.stream_type) by {
        assert(sound(state.streams[j], state.seek));
        if j == k {
            let old_list = state.frames[k];
            assert forall|i: int| 0 <= i < next.frames[k].len() implies (
            #[trigger] next.frames[k][i]).kind() == stream.slots.stream_type by {
                if i < old_list.len() {
                    assert(next.frames[k][i] == old_list[i]);
                } else {
                    assert(next.frames[k][i] == more[i - old_list.len()]);
                }
            }
        }
    }
}

proof fn lemma_filter_keeps_type<D>(frames: Seq<Frame<D>>, seek: Seek, stream_type: StreamType)
    requires
        frames_of_type(frames, stream_type),
    ensures
        frames_of_type(frames_in_range(frames, seek), stream_type),
    decreases frames.len(),
{
    reveal(Seq::filter);
    if frames.len() > 0 {
        assert forall|i: int| 0 <= i < frames.drop_last().len() implies (
        #[trigger] frames.drop_last()[i]).kind() == stream_type by {
            assert(frames[i].kind() == stream_type);
        }
        lemma_filter_keeps_type(frames.drop_last(), seek, stream_type);
        assert(frames[frames.len() - 1].kind() == stream_type);
        let before = frames_in_range(frames.drop_last(), seek);
        let after = frames_in_range(frames, seek);
        assert forall|i: int| 0 <= i < after.len() implies (#[trigger] after[i]).kind()
            == stream_type by {
            if i < before.len() {
                assert(after[i] == before[i]);
            }
        }
    }
}

proof fn lemma_flush_sound<D>(state: SessionState<D>, k: int)
    requires
        state.wf(),
        all_sound(state),
        0 <= k <= state.streams.len(),
    ensures
        all_sound(state.flush(k).0),
        forall|place: usize|
            state.flush(k).1 != #[trigger] out_of_storage_at(place),
{
    if k < state.streams.len() {
        assert(sound(state.streams[k], state.seek));
        law_step_keeps_sound(state.streams[k], Event::EndOfInput, state.seek);
        crate::decoder::stream::law_step_keeps_order(
            state.streams[k],
            Event::EndOfInput,
            state.seek,
        );
        let (stream, action) = state.streams[k].next(Event::EndOfInput, state.seek);
        lemma_stepped_sound(state, k, stream);
        let next = state.flush(k).0;
        assert(next.streams == state.with_stream(k, stream).streams);
        assert forall|j: int| 0 <= j < next.streams.len() implies sound(
            #[trigger] next.streams[j],
            next.seek,
        ) && frames_of_type(next.frames[j], next.streams[j].slots.stream_type) by {
            assert(sound(state.with_stream(k, stream).streams[j], state.seek));
        }
    }
}

/// The failure of a stream that has no room for its first frame.
pub open spec fn out_of_storage_at(place: usize) -> SessionAction {
    SessionAction::Stream { place, action: Action::Fail(Fault::NoStorage) }
}

/// Whatever the input and the decoders answer, the frames that are handed out for a stream are of
/// its type, every row of a video lies in the range, and no stream ever fails for want of room for
/// its first frame.
pub proof fn law_session_stays_sound<D>(
    state: SessionState<D>,
    event: SessionEvent<D>,
    result: (SessionState<D>, SessionAction),
)
    requires
        state.wf(),
        all_sound(state),
        indices_differ(state),
        session_next(state, event, result),
    ensures
        all_sound(result.0),
        forall|place: usize| result.1 != #[trigger] out_of_storage_at(place),
{
    match (state.stage, event) {
        (Stage::Reading, SessionEvent::Packet { stream_index, pts_seconds }) => {
            let k = choose|k: int|
                #[trigger] state.is_taker(k, stream_index) && result == if k
                    < state.streams.len() {
                    state.deliver(k, pts_seconds)
                } else {
                    state.after_packet()
                };
            if k < state.streams.len() {
                assert(sound(state.streams[k], state.seek));
                let told = StreamState {
                    finished: state.streams[k].finished || state.seek.is_late(pts_seconds),
                    ..state.streams[k]
                };
                assert(sound(told, state.seek));
                law_step_keeps_sound(told, Event::Packet, state.seek);
                crate::decoder::stream::law_step_keeps_order(told, Event::Packet, state.seek);
                let (stream, action) = told.next(Event::Packet, state.seek);
                lemma_stepped_sound(state, k, stream);
                let next = result.0;
                assert forall|j: int| 0 <= j < next.streams.len() implies sound(
                    #[trigger] next.streams[j],
                    next.seek,
                ) && frames_of_type(next.frames[j], next.streams[j].slots.stream_type) by {
                    assert(sound(state.with_stream(k, stream).streams[j], state.seek));
                }
            } else {
                lemma_flush_sound(state, 0);
            }
        },
        (Stage::Reading, SessionEvent::EndOfInput) => {
            lemma_flush_sound(state, 0);
        },
        (Stage::Decoding(k), SessionEvent::Stream(event)) => {
            lemma_advance_sound(state, k as int, event);
        },
        (Stage::Flushing(k), SessionEvent::Stream(event)) => {
            lemma_advance_sound(state, k as int, event);
        },
        _ => {},
    }
}

proof fn lemma_advance_sound<D>(state: SessionState<D>, k: int, event: Event<D>)
    requires
        state.wf(),
        all_sound(state),
        indices_differ(state),
        0 <= k < state.streams.len(),
    ensures
        all_sound(state.advance(k, event).0),
        forall|place: usize| state.advance(k, event).1 != #[trigger] out_of_storage_at(place),
{
    assert(sound(state.streams[k], state.seek));
    law_step_keeps_sound(state.streams[k], event, state.seek);
    crate::decoder::stream::law_step_keeps_order(state.streams[k], event, state.seek);
    let (stream, action) = state.streams[k].next(event, state.seek);
    lemma_stepped_sound(state, k, stream);
    let stepped = state.with_stream(k, stream);
    match action {
        Action::PacketDone => {
            lemma_collected_sound(stepped, k);
            let next = stepped.collected(k);
            lemma_flush_sound(next, 0);
            let done = next.after_packet().0;
            assert forall|j: int| 0 <= j < done.streams.len() implies sound(
                #[trigger] done.streams[j],
                done.seek,
            ) && frames_of_type(done.frames[j], done.streams[j].slots.stream_type) by {
                if !next.all_finished() {
                    assert(sound(next.streams[j], next.seek));
                }
            }
        },
        Action::StreamDone => {
            lemma_collected_sound(stepped, k);
            lemma_flush_sound(stepped.collected(k), k + 1);
        },
        _ => {
            let next = state.advance(k, event).0;
            assert forall|j: int| 0 <= j < next.streams.len() implies sound(
                #[trigger] next.streams[j],
                next.seek,
            ) && frames_of_type(next.frames[j], next.streams[j].slots.stream_type) by {
                assert(sound(stepped.streams[j], stepped.seek));
            }
        },
    }
}

/// What is handed out of a video lies in the range that is asked for: each row of its output, and
/// each of its frames, is shown at the start of the range or later, and before its end.
pub proof fn law_handed_out_rows_lie_in_range<D>(
    state: SessionState<D>,
    metadata: Seq<StreamMetadata>,
    j: int,
    result: DecodedStream<D>,
    row: int,
    i: int,
)
    requires
        state.wf(),
        all_sound(state),
        frames_admitted(state),
        0 <= j < state.indices.len(),
        is_result(state, metadata, j, result),
    ensures
        0 <= row < result.frame_pts@.len() ==> state.seek.admits(result.frame_pts@[row]),
        0 <= i < result.decoded_frames@.len() ==> state.seek.admits(
            result.decoded_frames@[i].seconds(),
        ),
{
    lemma_last_place(state.indices, state.indices[j]);
    if let Some(k) = last_place(state.indices, state.indices[j]) {
        assert(sound(state.streams[k], state.seek));
    }
    if 0 <= i < result.decoded_frames@.len() {
        assert(state.seek.admits(state.frames[j][i].seconds()));
    }
}

/// Streams that have not begun yet take their turns, are sound, have no rows to spare, and nothing
/// of them has been handed out.
pub proof fn law_fresh_session<D>(state: SessionState<D>)
    requires
        is_fresh_session(state),
    ensures
        state.wf(),
        calm(state),
        all_sound(state),
        frames_admitted(state),
        forall|j: int| 0 <= j < state.streams.len() ==> #[trigger] spare_rows(state, j) == 0,
{
    assert forall|j: int| 0 <= j < state.streams.len() implies (#[trigger] state.streams[j]).wf()
        && state.streams[j].phase is Idle && sound(state.streams[j], state.seek) && frames_of_type(
        state.frames[j],
        state.streams[j].slots.stream_type,
    ) by {
        assert(is_fresh(state.streams[j]));
        assert(state.frames[j].len() == 0);
    }
    assert forall|j: int| 0 <= j < state.streams.len() implies #[trigger] spare_rows(state, j)
        == 0 by {
        assert(is_fresh(state.streams[j]));
        assert(state.frames[j].len() == 0);
    }
}

/// The stream is as it is before its first packet.
pub open spec fn is_fresh<D>(stream: StreamState<D>) -> bool {
    &&& stream.path.serves(stream.slots.stream_type)
    &&& 0 <= stream.slots.capacity <= usize::MAX
    &&& stream == StreamState::<D>::fresh(
        stream.path,
        stream.slots.stream_type,
        stream.slots.capacity,
    )
}

/// No packet has been read yet.
pub open spec fn is_fresh_session<D>(state: SessionState<D>) -> bool {
    &&& state.stage is Reading
    &&& state.streams.len() == state.indices.len()
    &&& state.frames.len() == state.indices.len()
    &&& state.indices.len() <= usize::MAX
    &&& forall|j: int| 0 <= j < state.streams.len() ==> is_fresh(#[trigger] state.streams[j])
    &&& forall|j: int| 0 <= j < state.frames.len() ==> (#[trigger] state.frames[j]).len() == 0
}

} // verus!
