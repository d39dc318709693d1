//! What holds of whole runs of decoding, from before the first packet on.
use vstd::prelude::*;

use crate::decoder::frame::{Seek, StreamType};
use crate::decoder::session::{
    is_result, last_place, lemma_first_place, session_next, DecodedStream, SessionAction,
    SessionEvent, SessionState, Stage, StreamMetadata,
};
use crate::decoder::session_laws::{
    all_sound, calm, frames_admitted, indices_differ, is_fresh, is_fresh_session,
    law_frames_lie_in_range, law_fresh_session, law_session_stays_sound, law_streams_take_turns,
};
use crate::decoder::stream::{law_step_keeps_order, Event, StreamState};
use crate::decoder::stream_laws::{
    increasing, law_rows_grow_by_offers, lemma_increasing_before, lemma_rows_go_on_following,
    offered, rows_follow_offers, rows_grow, with_offer,
};
use crate::double::Double;

verus! {

/// Decoding begins with reading, for the streams and the range that it was given, and with nothing
/// handed out.
pub proof fn law_decoding_begins_with_reading<D>(
    indices: Seq<usize>,
    streams: Seq<StreamState<D>>,
    seek: Seek,
)
    requires
        indices.len() == streams.len(),
        indices.len() <= usize::MAX,
        forall|j: int| 0 <= j < streams.len() ==> is_fresh(#[trigger] streams[j]),
    ensures
        is_fresh_session(SessionState::begun(indices, streams, seek)),
        SessionState::begun(indices, streams, seek).seek == seek,
        SessionState::begun(indices, streams, seek).indices == indices,
        SessionState::begun(indices, streams, seek).streams == streams,
{
}

/// `event` takes decoding from `before` to `after`.
pub open spec fn leads_to<D>(
    before: SessionState<D>,
    event: SessionEvent<D>,
    after: SessionState<D>,
) -> bool {
    exists|action: SessionAction| session_next(before, event, (after, action))
}

/// Decoding goes through `states`, from one that has not begun yet on, as `events` come.
pub open spec fn is_run<D>(states: Seq<SessionState<D>>, events: Seq<SessionEvent<D>>) -> bool {
    &&& states.len() == events.len() + 1
    &&& is_fresh_session(states[0])
    &&& forall|i: int|
        0 <= i < events.len() ==> leads_to(states[i], #[trigger] events[i], states[i + 1])
}

pub proof fn lemma_run_before_last<D>(states: Seq<SessionState<D>>, events: Seq<SessionEvent<D>>)
    requires
        is_run(states, events),
        events.len() > 0,
    ensures
        is_run(states.drop_last(), events.drop_last()),
        leads_to(states.drop_last().last(), events.last(), states.last()),
{
    let n = events.len() - 1;
    assert(leads_to(states[n], events[n], states[n + 1]));
    assert forall|i: int| 0 <= i < events.drop_last().len() implies leads_to(
        states.drop_last()[i],
        #[trigger] events.drop_last()[i],
        states.drop_last()[i + 1],
    ) by {
        assert(leads_to(states[i], events[i], states[i + 1]));
    }
}

/// What a step leaves as it was.
pub open spec fn same_streams<D>(before: SessionState<D>, after: SessionState<D>) -> bool {
    &&& after.indices == before.indices
    &&& after.seek == before.seek
    &&& after.streams.len() == before.streams.len()
    &&& forall|j: int|
        0 <= j < before.streams.len() ==> (#[trigger] after.streams[j]).slots.stream_type
            == before.streams[j].slots.stream_type
}

/// The time of a frame that is put before the output of the stream at place `j` in this step.
pub open spec fn offered_to<D>(
    state: SessionState<D>,
    event: SessionEvent<D>,
    j: int,
) -> Option<Double> {
    match (state.stage, event) {
        (Stage::Decoding(k), SessionEvent::Stream(event)) if k == j => offered(
            state.streams[j],
            event,
        ),
        (Stage::Flushing(k), SessionEvent::Stream(event)) if k == j => offered(
            state.streams[j],
            event,
        ),
        _ => None,
    }
}

/// The times of the frames that were put before the output of the stream at place `j`, in their
/// order.
pub open spec fn run_offers<D>(
    states: Seq<SessionState<D>>,
    events: Seq<SessionEvent<D>>,
    j: int,
) -> Seq<Double>
    decreases events.len(),
{
    if events.len() == 0 {
        seq![]
    } else {
        with_offer(
            run_offers(states.drop_last(), events.drop_last(), j),
            offered_to(states[events.len() - 1], events.last(), j),
        )
    }
}

/// A stream that is told of a packet or of the end of the input puts nothing into its output.
proof fn lemma_told_keeps_rows<D>(state: StreamState<D>, event: Event<D>, seek: Seek)
    requires
        state.wf(),
        event is Packet || event is EndOfInput,
    ensures
        state.next(event, seek).0.slots == state.slots,
        !(state.next(event, seek).0.phase is Converting),
        state.next(event, seek).0.wf(),
{
    law_step_keeps_order(state, event, seek);
}

proof fn lemma_flush_keeps_rows<D>(state: SessionState<D>, k: int)
    requires
        state.wf(),
        0 <= k <= state.streams.len(),
    ensures
        state.flush(k).0.wf(),
        same_streams(state, state.flush(k).0),
        forall|j: int|
            0 <= j < state.streams.len() ==> {
                let after = #[trigger] state.flush(k).0.streams[j];
                &&& after.slots == state.streams[j].slots
                &&& after.phase == state.streams[j].phase || !(after.phase is Converting)
            },
{
    if k < state.streams.len() {
        assert(state.streams[k].wf());
        lemma_told_keeps_rows(state.streams[k], Event::EndOfInput, state.seek);
    }
}

proof fn lemma_collected_keeps_rows<D>(state: SessionState<D>, k: int)
    requires
        state.wf(),
        0 <= k < state.streams.len(),
    ensures
        state.collected(k).wf(),
        same_streams(state, state.collected(k)),
        forall|j: int|
            0 <= j < state.streams.len() ==> {
                let after = #[trigger] state.collected(k).streams[j];
                &&& after.slots == state.streams[j].slots
                &&& after.phase == state.streams[j].phase
            },
{
    lemma_first_place(state.indices, state.indices[k]);
    assert forall|j: int| 0 <= j < state.streams.len() implies (
    #[trigger] state.collected(k).streams[j]).wf() by {
        assert(state.streams[j].wf());
    }
}

proof fn lemma_advance_grows<D>(state: SessionState<D>, k: int, event: Event<D>, j: int)
    requires
        state.wf(),
        state.stage == Stage::Decoding(k as usize) || state.stage == Stage::Flushing(k as usize),
        0 <= k < state.streams.len(),
        0 <= j < state.streams.len(),
        state.streams[j].slots.stream_type == StreamType::Video,
    ensures
        rows_grow(
            state.streams[j],
            state.advance(k, event).0.streams[j],
            offered_to(state, SessionEvent::Stream(event), j),
        ),
{
    let (stream, action) = state.streams[k].next(event, state.seek);
    assert(state.streams[k].wf());
    law_step_keeps_order(state.streams[k], event, state.seek);
    if j == k {
        law_rows_grow_by_offers(state.streams[k], event, state.seek);
    }
    let stepped = state.with_stream(k, stream);
    assert(stepped.wf());
    if action is PacketDone || action is StreamDone {
        lemma_collected_keeps_rows(stepped, k);
        let next = stepped.collected(k);
        let at = if action is PacketDone {
            0
        } else {
            k + 1
        };
        lemma_flush_keeps_rows(next, at);
        assert(next.streams[j].slots == stepped.streams[j].slots);
        assert(next.flush(at).0.streams[j].slots == next.streams[j].slots);
    }
}

/// A step keeps the streams in order, and which streams they are.
pub proof fn lemma_step_keeps_streams<D>(
    state: SessionState<D>,
    event: SessionEvent<D>,
    result: (SessionState<D>, SessionAction),
)
    requires
        state.wf(),
        session_next(state, event, result),
    ensures
        result.0.wf(),
        same_streams(state, result.0),
{
    match (state.stage, event) {
        (Stage::Reading, SessionEvent::Packet { stream_index, pts_seconds }) => {
            let k = choose|k: int|
                #[trigger] state.is_taker(k, stream_index) && result == if k
                    < state.streams.len() {
                    state.deliver(k, pts_seconds)
                } else {
                    state.after_packet()
                };
            if k < state.streams.len() {
                assert(state.streams[k].wf());
                let told = StreamState {
                    finished: state.streams[k].finished || state.seek.is_late(pts_seconds),
                    ..state.streams[k]
                };
                lemma_told_keeps_rows(told, Event::Packet, state.seek);
            } else {
                lemma_flush_keeps_rows(state, 0);
            }
        },
        (Stage::Reading, SessionEvent::EndOfInput) => {
            lemma_flush_keeps_rows(state, 0);
        },
        (Stage::Decoding(k), SessionEvent::Stream(event)) => {
            lemma_advance_keeps_streams(state, k as int, event);
        },
        (Stage::Flushing(k), SessionEvent::Stream(event)) => {
            lemma_advance_keeps_streams(state, k as int, event);
        },
        _ => {},
    }
}

proof fn lemma_advance_keeps_streams<D>(state: SessionState<D>, k: int, event: Event<D>)
    requires
        state.wf(),
        0 <= k < state.streams.len(),
    ensures
        state.advance(k, event).0.wf(),
        same_streams(state, state.advance(k, event).0),
{
    let (stream, action) = state.streams[k].next(event, state.seek);
    assert(state.streams[k].wf());
    law_step_keeps_order(state.streams[k], event, state.seek);
    let stepped = state.with_stream(k, stream);
    assert(stepped.wf());
    if action is PacketDone || action is StreamDone {
        lemma_collected_keeps_rows(stepped, k);
        lemma_flush_keeps_rows(
            stepped.collected(k),
            if action is PacketDone {
                0
            } else {
                k + 1
            },
        );
    }
}

/// A step of decoding adds to the rows of a video at most the frame that was being converted, or
/// the one that is offered to it.
pub proof fn law_session_rows_grow_by_offers<D>(
    state: SessionState<D>,
    event: SessionEvent<D>,
    result: (SessionState<D>, SessionAction),
    j: int,
)
    requires
        state.wf(),
        session_next(state, event, result),
        0 <= j < state.streams.len(),
        state.streams[j].slots.stream_type == StreamType::Video,
    ensures
        rows_grow(state.streams[j], result.0.streams[j], offered_to(state, event, j)),
{
    match (state.stage, event) {
        (Stage::Reading, SessionEvent::Packet { stream_index, pts_seconds }) => {
            let k = choose|k: int|
                #[trigger] state.is_taker(k, stream_index) && result == if k
                    < state.streams.len() {
                    state.deliver(k, pts_seconds)
                } else {
                    state.after_packet()
                };
            if k < state.streams.len() {
                assert(state.streams[k].wf());
                let told = StreamState {
                    finished: state.streams[k].finished || state.seek.is_late(pts_seconds),
                    ..state.streams[k]
                };
                lemma_told_keeps_rows(told, Event::Packet, state.seek);
            } else {
                lemma_flush_keeps_rows(state, 0);
                assert(state.flush(0).0.streams[j].slots == state.streams[j].slots);
            }
        },
        (Stage::Reading, SessionEvent::EndOfInput) => {
            lemma_flush_keeps_rows(state, 0);
            assert(state.flush(0).0.streams[j].slots == state.streams[j].slots);
        },
        (Stage::Decoding(k), SessionEvent::Stream(event)) => {
            lemma_advance_grows(state, k as int, event, j);
        },
        (Stage::Flushing(k), SessionEvent::Stream(event)) => {
            lemma_advance_grows(state, k as int, event, j);
        },
        _ => {},
    }
}

proof fn lemma_run_rows_follow_offers<D>(
    states: Seq<SessionState<D>>,
    events: Seq<SessionEvent<D>>,
    j: int,
)
    requires
        is_run(states, events),
        0 <= j < states[0].streams.len(),
        states[0].streams[j].slots.stream_type == StreamType::Video,
        increasing(run_offers(states, events, j)),
    ensures
        states.last().wf(),
        same_streams(states[0], states.last()),
        rows_follow_offers(states.last().streams[j], run_offers(states, events, j)),
    decreases events.len(),
{
    if events.len() == 0 {
        law_fresh_session(states[0]);
    } else {
        let n = events.len() - 1;
        let times = run_offers(states.drop_last(), events.drop_last(), j);
        let offer = offered_to(states[n], events.last(), j);
        lemma_run_before_last(states, events);
        lemma_increasing_before(times, offer);
        lemma_run_rows_follow_offers(states.drop_last(), events.drop_last(), j);
        let before = states[n];
        assert(before.streams[j].slots.stream_type == StreamType::Video);
        let action = choose|action: SessionAction|
            session_next(before, events.last(), (states.last(), action));
        lemma_step_keeps_streams(before, events.last(), (states.last(), action));
        law_session_rows_grow_by_offers(before, events.last(), (states.last(), action), j);
        lemma_rows_go_on_following(before.streams[j], states.last().streams[j], times, offer);
    }
}

/// Where the decoder of a video, or its filter graph, gives its frames in the order in which they
/// are shown, decoding hands out rows in that order: whatever else the input and the other decoders
/// do, the time of each row is smaller than the times of all rows behind it.
pub proof fn law_handed_out_row_times_increase<D>(
    states: Seq<SessionState<D>>,
    events: Seq<SessionEvent<D>>,
    j: int,
    metadata: Seq<StreamMetadata>,
    place: int,
    result: DecodedStream<D>,
)
    requires
        is_run(states, events),
        0 <= j < states[0].streams.len(),
        states[0].streams[j].slots.stream_type == StreamType::Video,
        increasing(run_offers(states, events, j)),
        0 <= place < states[0].indices.len(),
        is_result(states.last(), metadata, place, result),
        last_place(states[0].indices, states[0].indices[place]) == Some(j),
    ensures
        increasing(states.last().streams[j].slots.pts),
        increasing(result.frame_pts@),
{
    lemma_run_rows_follow_offers(states, events, j);
}

/// In every run in which no index stands twice, whatever the input and the decoders answer, the
/// streams take their turns, each of them and what is handed out for it is sound, and what is
/// handed out lies in the range.
pub proof fn law_every_session_is_sound<D>(
    states: Seq<SessionState<D>>,
    events: Seq<SessionEvent<D>>,
)
    requires
        is_run(states, events),
        indices_differ(states[0]),
    ensures
        states.last().wf(),
        states.last().indices == states[0].indices,
        calm(states.last()),
        all_sound(states.last()),
        frames_admitted(states.last()),
    decreases events.len(),
{
    if events.len() == 0 {
        law_fresh_session(states[0]);
    } else {
        lemma_run_before_last(states, events);
        law_every_session_is_sound(states.drop_last(), events.drop_last());
        let before = states.drop_last().last();
        let event = events.last();
        let action = choose|action: SessionAction|
            session_next(before, event, (states.last(), action));
        let result = (states.last(), action);
        lemma_step_keeps_streams(before, event, result);
        law_streams_take_turns(before, event, result);
        law_session_stays_sound(before, event, result);
        law_frames_lie_in_range(before, event, result);
    }
}

/// What comes decides what is done: from the same state the same event leads to the same state and
/// asks for the same action.
pub proof fn law_events_decide<D>(
    state: SessionState<D>,
    event: SessionEvent<D>,
    first: (SessionState<D>, SessionAction),
    second: (SessionState<D>, SessionAction),
)
    requires
        session_next(state, event, first),
        session_next(state, event, second),
    ensures
        first == second,
{
    if let (Stage::Reading, SessionEvent::Packet { stream_index, pts_seconds }) = (
        state.stage,
        event,
    ) {
        let a = choose|k: int|
            #[trigger] state.is_taker(k, stream_index) && first == if k < state.streams.len() {
                state.deliver(k, pts_seconds)
            } else {
                state.after_packet()
            };
        let b = choose|k: int|
            #[trigger] state.is_taker(k, stream_index) && second == if k < state.streams.len() {
                state.deliver(k, pts_seconds)
            } else {
                state.after_packet()
            };
        if a < b {
            assert(!state.takes(a, stream_index));
        } else if b < a {
            assert(!state.takes(b, stream_index));
        }
    }
}

proof fn lemma_events_decide_runs<D>(
    first: Seq<SessionState<D>>,
    second: Seq<SessionState<D>>,
    events: Seq<SessionEvent<D>>,
)
    requires
        is_run(first, events),
        is_run(second, events),
        first[0] == second[0],
    ensures
        first.last() == second.last(),
    decreases events.len(),
{
    if events.len() > 0 {
        lemma_run_before_last(first, events);
        lemma_run_before_last(second, events);
        lemma_events_decide_runs(first.drop_last(), second.drop_last(), events.drop_last());
        let before = first.drop_last().last();
        let event = events.last();
        let a = choose|action: SessionAction|
            session_next(before, event, (first.last(), action));
        let b = choose|action: SessionAction|
            session_next(before, event, (second.last(), action));
        law_events_decide(before, event, (first.last(), a), (second.last(), b));
    }
}

/// Where the media comes from makes no difference: two inputs whose demuxers and decoders answer
/// alike are decoded to the same frames, the same rows or samples and the same times.
pub proof fn law_same_answers_same_results<D>(
    first: Seq<SessionState<D>>,
    second: Seq<SessionState<D>>,
    events: Seq<SessionEvent<D>>,
    metadata: Seq<StreamMetadata>,
    place: int,
    a: DecodedStream<D>,
    b: DecodedStream<D>,
)
    requires
        is_run(first, events),
        is_run(second, events),
        first[0] == second[0],
        is_result(first.last(), metadata, place, a),
        is_result(second.last(), metadata, place, b),
    ensures
        a.src_stream_index == b.src_stream_index,
        a.decoded_frames@ == b.decoded_frames@,
        a.data == b.data,
        a.frame_pts@ == b.frame_pts@,
        a.metadata == b.metadata,
{
    lemma_events_decide_runs(first, second, events);
    assert(a.frame_pts@ =~= b.frame_pts@);
}

} // verus!
