//! Decoding as a whole loses nothing: packets reach their streams, and what comes of them is handed
//! out.
use vstd::prelude::*;

use crate::decoder::frame::{
    frames_in_range, law_frames_are_kept_one_by_one, Frame, Seek, StreamType,
};
use crate::decoder::offer_laws::{
    belongs, has_room_while_asking, law_frames_are_asked_for_while_there_is_room,
    law_frames_are_listed_in_order, law_streams_stay_on_their_path, lemma_step_keeps_kept_rows,
    listed, not_above, on_its_path, ready_frame, rows_with_converting, samples_in,
    samples_with_converting, smaller, tells, times_of,
};
use crate::decoder::session::{
    is_result, last_place, lemma_first_place, session_next, DecodedStream, SessionAction,
    SessionEvent, SessionState, Stage, StreamMetadata,
};
use crate::decoder::session_laws::{
    calm, indices_differ, law_fresh_session, law_streams_take_turns, session_overflows,
};
use crate::decoder::session_run_laws::{
    is_run, lemma_run_before_last, lemma_step_keeps_streams, same_streams,
};
use crate::decoder::stream::{law_step_keeps_order, Action, Event, FrameInfo, Phase, StreamState};
use crate::double::Double;

verus! {

/// A packet of a stream goes to the decoder of that stream: the first one with its index that wants
/// more packets. It wants no more once a packet lies behind the end of the range. Nothing else
/// changes.
pub proof fn law_packets_reach_their_stream<D>(
    state: SessionState<D>,
    stream_index: usize,
    pts_seconds: Double,
    result: (SessionState<D>, SessionAction),
    k: int,
    j: int,
)
    requires
        state.wf(),
        state.stage is Reading,
        calm(state),
        session_next(state, SessionEvent::Packet { stream_index, pts_seconds }, result),
        0 <= k < state.streams.len(),
        state.indices[k] == stream_index,
        !state.streams[k].finished,
        forall|i: int|
            0 <= i < k ==> state.indices[i] != stream_index || (
            #[trigger] state.streams[i]).finished,
        0 <= j < state.streams.len(),
    ensures
        result.1 == (SessionAction::Stream { place: k as usize, action: Action::SendPacket }),
        result.0.stage == Stage::Decoding(k as usize),
        result.0.frames == state.frames,
        result.0.indices == state.indices,
        result.0.seek == state.seek,
        result.0.streams[k].phase is Sending,
        result.0.streams[k].finished <==> state.seek.end_time is Some && not_above(
            state.seek.end_time->0,
            pts_seconds,
        ) && state.seek.end_time->0.rank() != pts_seconds.rank(),
        result.0.streams[j].slots == state.streams[j].slots,
        result.0.streams[j].gathered == state.streams[j].gathered,
        result.0.streams[j].pending == state.streams[j].pending,
        j != k ==> result.0.streams[j] == state.streams[j],
{
    let taker = choose|t: int|
        #[trigger] state.is_taker(t, stream_index) && result == if t < state.streams.len() {
            state.deliver(t, pts_seconds)
        } else {
            state.after_packet()
        };
    if taker > k {
        assert(!state.takes(k, stream_index));
    }
    if taker < k {
        assert(state.takes(taker, stream_index));
        assert(state.streams[taker].finished || state.indices[taker] != stream_index);
    }
    assert(state.streams[k].phase is Idle);
}

/// A packet that no stream wants is skipped, and the next one is read, as long as some stream wants
/// more.
pub proof fn law_unwanted_packets_are_skipped<D>(
    state: SessionState<D>,
    stream_index: usize,
    pts_seconds: Double,
    result: (SessionState<D>, SessionAction),
    wanting: int,
)
    requires
        state.wf(),
        state.stage is Reading,
        session_next(state, SessionEvent::Packet { stream_index, pts_seconds }, result),
        forall|i: int|
            0 <= i < state.streams.len() ==> state.indices[i] != stream_index || (
            #[trigger] state.streams[i]).finished,
        0 <= wanting < state.streams.len(),
        !state.streams[wanting].finished,
    ensures
        result == (state, SessionAction::ReadPacket),
{
    let taker = choose|t: int|
        #[trigger] state.is_taker(t, stream_index) && result == if t < state.streams.len() {
            state.deliver(t, pts_seconds)
        } else {
            state.after_packet()
        };
    if taker < state.streams.len() {
        assert(state.takes(taker, stream_index));
        assert(state.streams[taker].finished || state.indices[taker] != stream_index);
    }
    assert(!state.all_finished());
}

/// At the end of the input the streams are emptied one after the other, from the first to the last;
/// then decoding is done. That is also what happens as soon as no stream wants more packets, and not
/// before.
#[verifier::rlimit(40)]
pub proof fn law_streams_are_emptied_in_order<D>(
    state: SessionState<D>,
    event: SessionEvent<D>,
    result: (SessionState<D>, SessionAction),
)
    requires
        state.wf(),
        calm(state),
        session_next(state, event, result),
    ensures
        state.stage is Reading && event is EndOfInput ==> if state.streams.len() > 0 {
            &&& result.1 == (SessionAction::Stream { place: 0, action: Action::SendEnd })
            &&& result.0.stage == Stage::Flushing(0)
        } else {
            result.1 == SessionAction::Done && result.0.stage is Done
        },
        state.stage is Flushing && event is Stream ==> {
            let k = state.stage->Flushing_0 as int;
            let action = state.streams[k].next(event->Stream_0, state.seek).1;
            if action is StreamDone {
                if k + 1 < state.streams.len() {
                    &&& result.1 == (SessionAction::Stream {
                        place: (k + 1) as usize,
                        action: Action::SendEnd,
                    })
                    &&& result.0.stage == Stage::Flushing((k + 1) as usize)
                } else {
                    result.1 == SessionAction::Done && result.0.stage is Done
                }
            } else {
                result.1 == (SessionAction::Stream { place: k as usize, action }) && (
                result.0.stage == state.stage || action is Fail || action is PacketDone)
            }
        },
        state.stage is Decoding && event is Stream ==> {
            let k = state.stage->Decoding_0 as int;
            let action = state.streams[k].next(event->Stream_0, state.seek).1;
            if action is PacketDone {
                if exists|i: int|
                    0 <= i < state.streams.len() && !(#[trigger] state.streams[i]).finished {
                    result.1 == SessionAction::ReadPacket && result.0.stage is Reading
                } else {
                    &&& result.1 == (SessionAction::Stream { place: 0, action: Action::SendEnd })
                    &&& result.0.stage == Stage::Flushing(0)
                }
            } else {
                &&& result.1 == (SessionAction::Stream { place: k as usize, action })
                &&& result.0.stage == if action is Fail {
                    Stage::Failed
                } else {
                    state.stage
                }
            }
        },
        state.stage is Reading && event is ReadFailed ==> result.1 == SessionAction::ReadFailed
            && result.0.stage is Failed,
        result.0.stage is Done ==> state.stage is Flushing || state.streams.len() == 0
            || state.stage is Done,
{
    match (state.stage, event) {
        (Stage::Reading, SessionEvent::EndOfInput) => {
            if state.streams.len() > 0 {
                assert(state.streams[0].phase is Idle);
            }
        },
        (Stage::Reading, SessionEvent::Packet { stream_index, pts_seconds }) => {
            let k = choose|k: int|
                #[trigger] state.is_taker(k, stream_index) && result == if k
                    < state.streams.len() {
                    state.deliver(k, pts_seconds)
                } else {
                    state.after_packet()
                };
        },
        (Stage::Flushing(k), SessionEvent::Stream(event)) => {
            let k = k as int;
            assert(state.streams[k].wf());
            crate::decoder::stream_laws::law_flush_ends_finished(
                state.streams[k],
                event,
                state.seek,
            );
            let (stream, action) = state.streams[k].next(event, state.seek);
            let stepped = state.with_stream(k, stream);
            lemma_first_place(stepped.indices, stepped.indices[k]);
            if k + 1 < state.streams.len() {
                assert(state.streams[k + 1].phase is Idle);
                assert(stepped.collected(k).streams[k + 1].phase is Idle);
            }
        },
        (Stage::Decoding(k), SessionEvent::Stream(event)) => {
            let k = k as int;
            assert(state.streams[k].wf());
            crate::decoder::stream_laws::law_packet_ends_idle(
                state.streams[k],
                event,
                state.seek,
            );
            law_frames_are_listed_in_order(state.streams[k], event, state.seek);
            let (stream, action) = state.streams[k].next(event, state.seek);
            let stepped = state.with_stream(k, stream);
            lemma_first_place(stepped.indices, stepped.indices[k]);
            let next = stepped.collected(k);
            assert forall|i: int| 0 <= i < state.streams.len() implies (
            #[trigger] next.streams[i]).finished == state.streams[i].finished by {}
            assert forall|i: int| 0 <= i < state.streams.len() && action is PacketDone implies (
            #[trigger] next.streams[i]).phase is Idle by {
                if i != k {
                    assert(state.streams[i].phase is Idle);
                }
            }
            if action is PacketDone {
                assert(next.streams[0].phase is Idle);
                if exists|i: int|
                    0 <= i < state.streams.len() && !(#[trigger] state.streams[i]).finished {
                    let i = choose|i: int|
                        0 <= i < state.streams.len() && !(#[trigger] state.streams[i]).finished;
                    assert(!next.streams[i].finished);
                    assert(!next.all_finished());
                } else {
                    assert(next.all_finished()) by {
                        assert forall|i: int| 0 <= i < next.streams.len() implies (
                        #[trigger] next.streams[i]).finished by {
                            assert(state.streams[i].finished);
                        }
                    }
                }
            }
        },
        _ => {},
    }
}

/// The frames of the stream at place `j` that are handed out, and those on their way there.
pub open spec fn handed<D>(state: SessionState<D>, j: int) -> Seq<Frame<D>> {
    state.frames[j] + frames_in_range(listed(state.streams[j]), state.seek)
}

/// The stream at place `j` is at work.
pub open spec fn at_work<D>(state: SessionState<D>, j: int) -> bool {
    state.stage == Stage::Decoding(j as usize) || state.stage == Stage::Flushing(j as usize)
}

/// What is being converted.
pub open spec fn converting<D>(stream: StreamState<D>) -> Option<FrameInfo> {
    match stream.phase {
        Phase::Converting(_, info, _) => Some(info),
        Phase::Storing(_, info, _) => Some(info),
        _ => None,
    }
}

/// The part of the two lists of a stream that is handed out is that of the one behind the other.
proof fn lemma_listed_in_range<D>(stream: StreamState<D>, seek: Seek)
    ensures
        frames_in_range(listed(stream), seek) == frames_in_range(stream.gathered, seek)
            + frames_in_range(stream.pending, seek),
{
    if stream.gathered.len() > 0 {
        law_frames_are_kept_one_by_one(stream.gathered, stream.pending, stream.gathered[0], seek);
    } else if stream.pending.len() > 0 {
        law_frames_are_kept_one_by_one(stream.gathered, stream.pending, stream.pending[0], seek);
    } else {
        reveal(Seq::filter);
        assert(listed(stream) =~= seq![]);
        assert(frames_in_range(stream.gathered, seek) + frames_in_range(stream.pending, seek)
            =~= seq![]);
    }
}

proof fn lemma_collected_keeps_handed<D>(state: SessionState<D>, k: int, j: int)
    requires
        state.wf(),
        indices_differ(state),
        0 <= k < state.streams.len(),
        0 <= j < state.streams.len(),
    ensures
        handed(state.collected(k), j) == handed(state, j),
        state.collected(k).wf(),
{
    lemma_first_place(state.indices, state.indices[k]);
    assert(crate::decoder::session::first_place(state.indices, state.indices[k]) == k);
    let next = state.collected(k);
    assert forall|i: int| 0 <= i < next.streams.len() implies (#[trigger] next.streams[i]).wf() by {
        assert(state.streams[i].wf());
    }
    if j == k {
        lemma_listed_in_range(state.streams[k], state.seek);
        lemma_listed_in_range(next.streams[k], state.seek);
        reveal(Seq::filter);
        assert(frames_in_range(next.streams[k].gathered, state.seek) =~= seq![]);
        assert(handed(next, k) =~= handed(state, k));
    }
}

proof fn lemma_told_keeps_lists<D>(stream: StreamState<D>, event: Event<D>, seek: Seek)
    requires
        stream.wf(),
        event is Packet || event is EndOfInput,
    ensures
        listed(stream.next(event, seek).0) == listed(stream),
        stream.next(event, seek).0.slots == stream.slots,
{
    law_frames_are_listed_in_order(stream, event, seek);
}

proof fn lemma_flush_keeps_handed<D>(state: SessionState<D>, k: int, j: int)
    requires
        state.wf(),
        0 <= k <= state.streams.len(),
        0 <= j < state.streams.len(),
    ensures
        handed(state.flush(k).0, j) == handed(state, j),
{
    if k < state.streams.len() {
        assert(state.streams[k].wf());
        lemma_told_keeps_lists(state.streams[k], Event::EndOfInput, state.seek);
    }
}

/// Each frame that is converted is handed out, behind all others of its stream, if and only if it
/// lies in the range, with what the decoder said of it and the data that it was converted to. No
/// other frame is handed out, and none is ever taken back, unless a filter graph gives more frames
/// than there is room for.
#[verifier::rlimit(40)]
pub proof fn law_converted_frames_are_handed_out<D>(
    state: SessionState<D>,
    event: SessionEvent<D>,
    result: (SessionState<D>, SessionAction),
    j: int,
)
    requires
        state.wf(),
        indices_differ(state),
        session_next(state, event, result),
        !session_overflows(state, event),
        0 <= j < state.streams.len(),
        on_its_path(state.streams[j]),
    ensures
        on_its_path(result.0.streams[j]),
        ({
            let arrived = at_work(state, j) && event is Stream && event->Stream_0 is Converted
                && converting(state.streams[j]) is Some;
            let info = converting(state.streams[j])->0;
            if arrived && belongs(StreamType::Video, state.seek, info.pts_seconds) {
                &&& handed(result.0, j).len() == handed(state, j).len() + 1
                &&& handed(result.0, j).drop_last() == handed(state, j)
                &&& tells(
                    handed(result.0, j).last(),
                    state.streams[j].path,
                    state.streams[j].slots.stream_type,
                    info,
                    event->Stream_0->Converted_0,
                )
            } else {
                handed(result.0, j) == handed(state, j)
            }
        }),
{
    match (state.stage, event) {
        (Stage::Reading, SessionEvent::Packet { stream_index, pts_seconds }) => {
            let k = choose|k: int|
                #[trigger] state.is_taker(k, stream_index) && result == if k
                    < state.streams.len() {
                    state.deliver(k, pts_seconds)
                } else {
                    state.after_packet()
                };
            if k < state.streams.len() {
                assert(state.streams[k].wf());
                let told = StreamState {
                    finished: state.streams[k].finished || state.seek.is_late(pts_seconds),
                    ..state.streams[k]
                };
                lemma_told_keeps_lists(told, Event::Packet, state.seek);
            } else {
                lemma_flush_keeps_handed(state, 0, j);
            }
        },
        (Stage::Reading, SessionEvent::EndOfInput) => {
            lemma_flush_keeps_handed(state, 0, j);
        },
        (Stage::Decoding(k), SessionEvent::Stream(event)) => {
            lemma_advance_hands_out(state, k as int, event, j);
        },
        (Stage::Flushing(k), SessionEvent::Stream(event)) => {
            lemma_advance_hands_out(state, k as int, event, j);
        },
        _ => {},
    }
}

#[verifier::rlimit(40)]
proof fn lemma_advance_hands_out<D>(state: SessionState<D>, k: int, event: Event<D>, j: int)
    requires
        state.wf(),
        indices_differ(state),
        0 <= k < state.streams.len(),
        0 <= j < state.streams.len(),
        !crate::decoder::stream_laws::overflows(state.streams[k], event, state.seek),
        on_its_path(state.streams[j]),
    ensures
        on_its_path(state.advance(k, event).0.streams[j]),
        ({
            let after = state.advance(k, event).0;
            let info = converting(state.streams[k])->0;
            if j == k && event is Converted && converting(state.streams[k]) is Some && belongs(
                StreamType::Video,
                state.seek,
                info.pts_seconds,
            ) {
                &&& handed(after, j).len() == handed(state, j).len() + 1
                &&& handed(after, j).drop_last() == handed(state, j)
                &&& tells(
                    handed(after, j).last(),
                    state.streams[j].path,
                    state.streams[j].slots.stream_type,
                    info,
                    event->Converted_0,
                )
            } else {
                handed(after, j) == handed(state, j)
            }
        }),
{
    let (stream, action) = state.streams[k].next(event, state.seek);
    lemma_stepped_hands_out(state, k, event, j);
    let stepped = state.with_stream(k, stream);
    if action is PacketDone || action is StreamDone {
        lemma_collected_keeps_handed(stepped, k, j);
        let next = stepped.collected(k);
        lemma_flush_keeps_handed(
            next,
            if action is PacketDone {
                0
            } else {
                k + 1
            },
            j,
        );
        assert(on_its_path(next.streams[j]));
    }
}

#[verifier::rlimit(40)]
proof fn lemma_stepped_hands_out<D>(state: SessionState<D>, k: int, event: Event<D>, j: int)
    requires
        state.wf(),
        0 <= k < state.streams.len(),
        0 <= j < state.streams.len(),
        !crate::decoder::stream_laws::overflows(state.streams[k], event, state.seek),
        on_its_path(state.streams[j]),
    ensures
        ({
            let stepped = state.with_stream(k, state.streams[k].next(event, state.seek).0);
            let info = converting(state.streams[k])->0;
            &&& stepped.wf()
            &&& on_its_path(stepped.streams[j])
            &&& if j == k && event is Converted && converting(state.streams[k]) is Some && belongs(
                StreamType::Video,
                state.seek,
                info.pts_seconds,
            ) {
                &&& handed(stepped, j).len() == handed(state, j).len() + 1
                &&& handed(stepped, j).drop_last() == handed(state, j)
                &&& tells(
                    handed(stepped, j).last(),
                    state.streams[j].path,
                    state.streams[j].slots.stream_type,
                    info,
                    event->Converted_0,
                )
            } else {
                handed(stepped, j) == handed(state, j)
            }
        }),
{
    let before = state.streams[k];
    assert(before.wf());
    let stream = before.next(event, state.seek).0;
    law_step_keeps_order(before, event, state.seek);
    let stepped = state.with_stream(k, stream);
    assert(stepped.wf());
    if j == k {
        law_streams_stay_on_their_path(before, event, state.seek);
        lemma_step_lists(before, event, state.seek);
        let kept = frames_in_range(listed(before), state.seek);
        if event is Converted && converting(before) is Some && belongs(
            StreamType::Video,
            state.seek,
            converting(before)->0.pts_seconds,
        ) {
            let f = frames_in_range(listed(stream), state.seek).last();
            assert(handed(stepped, j) =~= handed(state, j).push(f));
            assert(handed(stepped, j).drop_last() =~= handed(state, j));
        }
    }
}

/// How a step changes the frames of a stream that lie in the range.
#[verifier::rlimit(40)]
proof fn lemma_step_lists<D>(before: StreamState<D>, event: Event<D>, seek: Seek)
    requires
        before.wf(),
        on_its_path(before),
        !crate::decoder::stream_laws::overflows(before, event, seek),
    ensures
        ({
            let old_list = frames_in_range(listed(before), seek);
            let list = frames_in_range(listed(before.next(event, seek).0), seek);
            let info = converting(before)->0;
            if event is Converted && converting(before) is Some && belongs(
                StreamType::Video,
                seek,
                info.pts_seconds,
            ) {
                &&& list == old_list.push(list.last())
                &&& list.len() == old_list.len() + 1
                &&& tells(
                    list.last(),
                    before.path,
                    before.slots.stream_type,
                    info,
                    event->Converted_0,
                )
            } else {
                list == old_list
            }
        }),
{
    let stream = before.next(event, seek).0;
    law_frames_are_listed_in_order(before, event, seek);
    if event is Converted && converting(before) is Some {
        let f = listed(stream).last();
        if before.phase is Converting {
            assert(before.pending =~= seq![]);
            assert(listed(before) =~= before.gathered);
            assert(listed(stream) =~= stream.gathered);
            assert(f == stream.gathered.last());
        }
        assert(listed(stream) =~= listed(before) + seq![f]);
        law_frames_are_kept_one_by_one(listed(before), seq![f], f, seek);
        let old_list = frames_in_range(listed(before), seek);
        if belongs(StreamType::Video, seek, f.seconds()) {
            assert(frames_in_range(listed(stream), seek) =~= old_list.push(f));
        } else {
            assert(frames_in_range(listed(stream), seek) =~= old_list);
        }
    } else {
        assert(listed(stream) =~= listed(before));
    }
}

/// The frames that were ready to go to the output of the stream at place `j`, as far as they belong
/// to it, in their order.
pub open spec fn run_kept<D>(
    states: Seq<SessionState<D>>,
    events: Seq<SessionEvent<D>>,
    j: int,
) -> Seq<FrameInfo>
    decreases events.len(),
{
    if events.len() == 0 {
        seq![]
    } else {
        let kept = run_kept(states.drop_last(), events.drop_last(), j);
        let state = states[events.len() - 1];
        match events.last() {
            SessionEvent::Stream(event) => if at_work(state, j) {
                with_kept(kept, state.streams[j], event, state.seek)
            } else {
                kept
            },
            _ => kept,
        }
    }
}

/// The kept frames, and perhaps one more.
pub open spec fn with_kept<D>(
    kept: Seq<FrameInfo>,
    stream: StreamState<D>,
    event: Event<D>,
    seek: Seek,
) -> Seq<FrameInfo> {
    match ready_frame(stream, event) {
        Some(info) if belongs(stream.slots.stream_type, seek, info.pts_seconds) => kept.push(info),
        _ => kept,
    }
}

/// The output of a stream holds what was kept for it, as much as there is room for.
pub open spec fn holds_kept<D>(stream: StreamState<D>, kept: Seq<FrameInfo>) -> bool {
    match stream.slots.stream_type {
        StreamType::Video => rows_with_converting(stream) == times_of(kept).take(
            smaller(kept.len() as int, stream.slots.capacity),
        ),
        StreamType::Audio => samples_in(kept) >= 0 && samples_with_converting(stream) == smaller(
            samples_in(kept),
            stream.slots.capacity,
        ),
    }
}

proof fn lemma_step_keeps_kept<D>(
    stream: StreamState<D>,
    event: Event<D>,
    seek: Seek,
    kept: Seq<FrameInfo>,
)
    requires
        stream.wf(),
        has_room_while_asking(stream),
        holds_kept(stream, kept),
        !(stream.next(event, seek).0.phase is Failed),
    ensures
        holds_kept(stream.next(event, seek).0, with_kept(kept, stream, event, seek)),
        has_room_while_asking(stream.next(event, seek).0),
{
    law_frames_are_listed_in_order(stream, event, seek);
    law_frames_are_asked_for_while_there_is_room(stream, event, seek);
    if stream.slots.stream_type == StreamType::Video {
        lemma_step_keeps_kept_rows(stream, event, seek, kept);
    } else if let Some(info) = ready_frame(stream, event) {
        if belongs(StreamType::Audio, seek, info.pts_seconds) {
            assert(kept.push(info).drop_last() =~= kept);
            assert(seek.keeps(StreamType::Audio, info.pts_seconds));
        } else {
            assert(!seek.keeps(StreamType::Audio, info.pts_seconds));
        }
    }
}

/// What became of the stream at place `j` besides its own step.
pub open spec fn settled_alike<D>(stepped: StreamState<D>, after: StreamState<D>) -> bool {
    &&& after.slots == stepped.slots
    &&& after.phase == stepped.phase || {
        &&& !(stepped.phase is Converting || stepped.phase is Failed)
        &&& after.phase is Sending || after.phase is SendingEnd
    } || after.phase is Failed
}

proof fn lemma_flush_settles<D>(state: SessionState<D>, k: int, j: int)
    requires
        state.wf(),
        0 <= k <= state.streams.len(),
        0 <= j < state.streams.len(),
    ensures
        settled_alike(state.streams[j], state.flush(k).0.streams[j]),
{
    if k < state.streams.len() {
        assert(state.streams[k].wf());
        lemma_told_keeps_lists(state.streams[k], Event::EndOfInput, state.seek);
    }
}

#[verifier::rlimit(40)]
proof fn lemma_session_step_settles<D>(
    state: SessionState<D>,
    event: SessionEvent<D>,
    result: (SessionState<D>, SessionAction),
    j: int,
)
    requires
        state.wf(),
        session_next(state, event, result),
        0 <= j < state.streams.len(),
    ensures
        event is Stream && at_work(state, j) ==> settled_alike(
            state.streams[j].next(event->Stream_0, state.seek).0,
            result.0.streams[j],
        ),
        !(event is Stream && at_work(state, j)) ==> settled_alike(
            state.streams[j],
            result.0.streams[j],
        ),
{
    match (state.stage, event) {
        (Stage::Reading, SessionEvent::Packet { stream_index, pts_seconds }) => {
            let k = choose|k: int|
                #[trigger] state.is_taker(k, stream_index) && result == if k
                    < state.streams.len() {
                    state.deliver(k, pts_seconds)
                } else {
                    state.after_packet()
                };
            if k < state.streams.len() {
                assert(state.streams[k].wf());
                let told = StreamState {
                    finished: state.streams[k].finished || state.seek.is_late(pts_seconds),
                    ..state.streams[k]
                };
                lemma_told_keeps_lists(told, Event::Packet, state.seek);
            } else {
                lemma_flush_settles(state, 0, j);
            }
        },
        (Stage::Reading, SessionEvent::EndOfInput) => {
            lemma_flush_settles(state, 0, j);
        },
        (Stage::Decoding(k), SessionEvent::Stream(event)) => {
            lemma_advance_settles(state, k as int, event, j);
        },
        (Stage::Flushing(k), SessionEvent::Stream(event)) => {
            lemma_advance_settles(state, k as int, event, j);
        },
        _ => {},
    }
}

proof fn lemma_advance_settles<D>(state: SessionState<D>, k: int, event: Event<D>, j: int)
    requires
        state.wf(),
        0 <= k < state.streams.len(),
        0 <= j < state.streams.len(),
    ensures
        settled_alike(
            if j == k {
                state.streams[k].next(event, state.seek).0
            } else {
                state.streams[j]
            },
            state.advance(k, event).0.streams[j],
        ),
{
    let (stream, action) = state.streams[k].next(event, state.seek);
    assert(state.streams[k].wf());
    law_step_keeps_order(state.streams[k], event, state.seek);
    let stepped = state.with_stream(k, stream);
    assert(stepped.wf());
    if action is PacketDone || action is StreamDone {
        lemma_first_place(stepped.indices, stepped.indices[k]);
        let next = stepped.collected(k);
        assert forall|i: int| 0 <= i < next.streams.len() implies (
        #[trigger] next.streams[i]).wf() by {
            assert(stepped.streams[i].wf());
        }
        assert(next.wf());
        lemma_flush_settles(
            next,
            if action is PacketDone {
                0
            } else {
                k + 1
            },
            j,
        );
    }
}

#[verifier::rlimit(40)]
proof fn lemma_run_holds_kept<D>(
    states: Seq<SessionState<D>>,
    events: Seq<SessionEvent<D>>,
    j: int,
)
    requires
        is_run(states, events),
        0 <= j < states[0].streams.len(),
        !(states.last().streams[j].phase is Failed),
    ensures
        states.last().wf(),
        same_streams(states[0], states.last()),
        states.last().streams[j].slots.capacity == states[0].streams[j].slots.capacity,
        has_room_while_asking(states.last().streams[j]),
        holds_kept(states.last().streams[j], run_kept(states, events, j)),
    decreases events.len(),
{
    if events.len() == 0 {
        law_fresh_session(states[0]);
        assert(times_of(seq![]).take(0) =~= seq![]);
        assert(crate::decoder::session_laws::is_fresh(states[0].streams[j]));
    } else {
        let n = events.len() - 1;
        let before = states[n];
        let event = events.last();
        lemma_run_before_last(states, events);
        lemma_run_wf(states.drop_last(), events.drop_last());
        let action = choose|action: SessionAction|
            session_next(before, event, (states.last(), action));
        let result = (states.last(), action);
        lemma_step_keeps_streams(before, event, result);
        lemma_session_step_settles(before, event, result, j);
        assert(before.streams[j].wf());
        if event is Stream && at_work(before, j) {
            if before.streams[j].phase is Failed {
                assert(before.streams[j].next(event->Stream_0, before.seek).0.phase is Failed);
            }
        }
        lemma_run_holds_kept(states.drop_last(), events.drop_last(), j);
        if event is Stream && at_work(before, j) {
            law_frames_are_listed_in_order(before.streams[j], event->Stream_0, before.seek);
            lemma_step_keeps_kept(
                before.streams[j],
                event->Stream_0,
                before.seek,
                run_kept(states.drop_last(), events.drop_last(), j),
            );
        }
    }
}

proof fn lemma_run_wf<D>(states: Seq<SessionState<D>>, events: Seq<SessionEvent<D>>)
    requires
        is_run(states, events),
    ensures
        states.last().wf(),
        calm(states.last()),
        same_streams(states[0], states.last()),
    decreases events.len(),
{
    if events.len() == 0 {
        law_fresh_session(states[0]);
    } else {
        lemma_run_before_last(states, events);
        lemma_run_wf(states.drop_last(), events.drop_last());
        let before = states.drop_last().last();
        let action = choose|action: SessionAction|
            session_next(before, events.last(), (states.last(), action));
        lemma_step_keeps_streams(before, events.last(), (states.last(), action));
        law_streams_take_turns(before, events.last(), (states.last(), action));
    }
}

/// Once decoding is done, what is handed out of a stream is complete. A video has the times of the
/// frames that belong to it, as many as there is room for, and as many rows. Audio has as many
/// samples as the frames bring that belong to it, or as there is room for.
pub proof fn law_results_are_complete<D>(
    states: Seq<SessionState<D>>,
    events: Seq<SessionEvent<D>>,
    metadata: Seq<StreamMetadata>,
    j: int,
    place: int,
    result: DecodedStream<D>,
)
    requires
        is_run(states, events),
        states.last().stage is Done,
        0 <= j < states[0].streams.len(),
        0 <= place <= j,
        states[0].indices[place] == states[0].indices[j],
        forall|i: int|
            0 <= i < place || j < i < states[0].indices.len() ==> #[trigger] states[0].indices[i]
                != states[0].indices[j],
        is_result(states.last(), metadata, place, result),
    ensures
        result.src_stream_index == states[0].indices[place],
        result.metadata == metadata[place],
        result.decoded_frames@ == states.last().frames[place],
        result.data is Some,
        result.data->0.place == j,
        ({
            let kept = run_kept(states, events, j);
            let capacity = states[0].streams[j].slots.capacity;
            match states[0].streams[j].slots.stream_type {
                StreamType::Video => {
                    &&& result.frame_pts@ == times_of(kept).take(
                        smaller(kept.len() as int, capacity),
                    )
                    &&& result.data->0.extent == smaller(kept.len() as int, capacity)
                },
                StreamType::Audio => {
                    &&& result.frame_pts@.len() == 0
                    &&& result.data->0.extent == smaller(samples_in(kept), capacity)
                },
            }
        }),
{
    lemma_run_wf(states, events);
    assert(states.last().streams[j].phase is Finished);
    lemma_run_holds_kept(states, events, j);
    assert(states.last().streams[j].wf());
    lemma_places(states[0].indices, place, j);
}

/// The frames that a stream has gathered are handed out, as far as they lie in the range, at the
/// first place of its index, and are then gone from the stream. Nothing else changes.
pub proof fn law_frames_go_to_the_first_place<D>(
    state: SessionState<D>,
    k: int,
    first: int,
    j: int,
)
    requires
        state.wf(),
        0 <= first <= k < state.indices.len(),
        state.indices[first] == state.indices[k],
        forall|i: int| 0 <= i < first ==> #[trigger] state.indices[i] != state.indices[k],
        0 <= j < state.indices.len(),
    ensures
        state.collected(k).frames[first] == state.frames[first] + frames_in_range(
            state.streams[k].gathered,
            state.seek,
        ),
        j != first ==> state.collected(k).frames[j] == state.frames[j],
        state.collected(k).streams[k].gathered.len() == 0,
        state.collected(k).streams[k].slots == state.streams[k].slots,
        state.collected(k).streams[k].phase == state.streams[k].phase,
        state.collected(k).streams[k].finished == state.streams[k].finished,
        j != k ==> state.collected(k).streams[j] == state.streams[j],
{
    lemma_first_place(state.indices, state.indices[k]);
    let place = crate::decoder::session::first_place(state.indices, state.indices[k]);
    if place < first {
        assert(state.indices[place] != state.indices[k]);
    }
}

/// Where an index stands more than once, only its first place is handed an output.
pub proof fn law_one_output_per_index<D>(
    state: SessionState<D>,
    metadata: Seq<StreamMetadata>,
    place: int,
    earlier: int,
    result: DecodedStream<D>,
)
    requires
        state.wf(),
        0 <= earlier < place < state.indices.len(),
        state.indices[earlier] == state.indices[place],
        is_result(state, metadata, place, result),
    ensures
        result.data is None,
        result.frame_pts@.len() == 0,
        result.src_stream_index == state.indices[place],
        result.metadata == metadata[place],
        result.decoded_frames@ == state.frames[place],
{
    lemma_first_place(state.indices, state.indices[place]);
}

proof fn lemma_places(indices: Seq<usize>, place: int, j: int)
    requires
        0 <= place <= j < indices.len(),
        indices[place] == indices[j],
        forall|i: int|
            0 <= i < place || j < i < indices.len() ==> #[trigger] indices[i] != indices[j],
    ensures
        crate::decoder::session::first_place(indices, indices[j]) == place,
        last_place(indices, indices[j]) == Some(j),
    decreases indices.len(),
{
    lemma_first_place(indices, indices[j]);
    let first = crate::decoder::session::first_place(indices, indices[j]);
    if first < place {
        assert(indices[first] != indices[j]);
    }
    if j < indices.len() - 1 {
        let rest = indices.drop_last();
        assert(indices[indices.len() - 1] != indices[j]);
        assert forall|i: int| 0 <= i < place || j < i < rest.len() implies #[trigger] rest[i]
            != rest[j] by {
            assert(indices[i] != indices[j]);
        }
        lemma_places(rest, place, j);
    }
}

} // verus!
