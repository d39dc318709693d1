//! What holds of a stream in every run, whatever its decoder and its filter graph answer.
use vstd::prelude::*;

use crate::decoder::format::PixelFormat;
use crate::decoder::frame::{Frame, Seek, StreamType};
use crate::decoder::stream::{
    law_step_keeps_order, placed_frame, Action, Drain, Event, Fault, FrameInfo, FramePath, Origin,
    Phase, Purpose, StreamState,
};
use crate::double::Double;

verus! {

/// Every frame is of the stream's type and is one that the range keeps.
pub open spec fn frames_belong<D>(
    frames: Seq<Frame<D>>,
    stream_type: StreamType,
    seek: Seek,
) -> bool {
    forall|i: int|
        0 <= i < frames.len() ==> (#[trigger] frames[i]).kind() == stream_type && seek.keeps(
            stream_type,
            frames[i].seconds(),
        )
}

/// Every row is shown in the range.
pub open spec fn rows_admitted(pts: Seq<Double>, seek: Seek) -> bool {
    forall|r: int| 0 <= r < pts.len() ==> seek.admits(#[trigger] pts[r])
}

/// What a phase is entered with: no frame is asked of the decoder for an output without room, and
/// no frame that the range does not keep is converted.
pub open spec fn phase_sound<D>(state: StreamState<D>, seek: Seek) -> bool {
    match state.phase {
        Phase::Receiving(_) => state.slots.capacity > 0,
        Phase::Downloading(_) => state.slots.capacity > 0,
        Phase::Converting(_, info, _) => state.slots.capacity > 0 && seek.keeps(
            state.slots.stream_type,
            info.pts_seconds,
        ),
        Phase::Submitting(Origin::Decoder(_)) => state.slots.capacity > 0,
        Phase::Collecting(Origin::Decoder(_)) => state.slots.capacity > 0,
        Phase::Storing(Origin::Decoder(_), info, _) => state.slots.capacity > 0 && seek.keeps(
            state.slots.stream_type,
            info.pts_seconds,
        ),
        Phase::Storing(Origin::GraphFlush, info, _) => seek.keeps(
            state.slots.stream_type,
            info.pts_seconds,
        ),
        _ => true,
    }
}

/// The frames of a stream belong to it, its rows lie in the range, and its phase was entered as it
/// should be.
pub open spec fn sound<D>(state: StreamState<D>, seek: Seek) -> bool {
    &&& state.wf()
    &&& frames_belong(state.gathered, state.slots.stream_type, seek)
    &&& frames_belong(state.pending, state.slots.stream_type, seek)
    &&& rows_admitted(state.slots.pts, seek)
    &&& phase_sound(state, seek)
}

proof fn lemma_drained_sound<D>(state: StreamState<D>, drain: Drain, seek: Seek)
    requires
        state.slots.wf(),
        state.path.serves(state.slots.stream_type),
        frames_belong(state.gathered, state.slots.stream_type, seek),
        frames_belong(state.pending, state.slots.stream_type, seek),
        rows_admitted(state.slots.pts, seek),
    ensures
        sound(state.drained(drain).0, seek),
        sound(state.keep_draining(drain).0, seek),
        state.drained(drain).1 != Action::Fail(Fault::NoStorage),
        state.keep_draining(drain).1 != Action::Fail(Fault::NoStorage),
{
}

proof fn lemma_route_sound<D>(state: StreamState<D>, drain: Drain, info: FrameInfo, seek: Seek)
    requires
        sound(state, seek),
        state.slots.capacity > 0,
    ensures
        sound(state.route(drain, info, seek).0, seek),
        state.route(drain, info, seek).1 != Action::Fail(Fault::NoStorage),
{
    lemma_drained_sound(state, state.passed_over(drain, info.pts_seconds, seek), seek);
}

proof fn lemma_filtered_sound<D>(
    state: StreamState<D>,
    origin: Origin,
    info: FrameInfo,
    seek: Seek,
)
    requires
        sound(state, seek),
        state.phase == Phase::Collecting(origin),
    ensures
        sound(state.take_filtered(origin, info, seek).0, seek),
        state.take_filtered(origin, info, seek).1 != Action::Fail(Fault::NoStorage),
{
    if let Origin::Decoder(drain) = origin {
        lemma_drained_sound(StreamState { pending: seq![], ..state }, drain, seek);
    }
}

proof fn lemma_graph_drained_sound<D>(state: StreamState<D>, origin: Origin, seek: Seek)
    requires
        sound(state, seek),
        state.phase == Phase::Collecting(origin),
    ensures
        sound(state.graph_drained(origin).0, seek),
        state.graph_drained(origin).1 != Action::Fail(Fault::NoStorage),
{
    let next = StreamState {
        gathered: state.gathered + state.pending,
        pending: seq![],
        ..state
    };
    assert(frames_belong(next.gathered, state.slots.stream_type, seek)) by {
        assert forall|i: int| 0 <= i < next.gathered.len() implies (
        #[trigger] next.gathered[i]).kind() == state.slots.stream_type && seek.keeps(
            state.slots.stream_type,
            next.gathered[i].seconds(),
        ) by {
            if i < state.gathered.len() {
                assert(next.gathered[i] == state.gathered[i]);
            } else {
                assert(next.gathered[i] == state.pending[i - state.gathered.len()]);
            }
        }
    }
    if let Origin::Decoder(drain) = origin {
        lemma_drained_sound(
            next,
            Drain {
                purpose: drain.purpose,
                received: drain.received || state.pending.len() > 0,
            },
            seek,
        );
    }
}

proof fn lemma_push_belongs<D>(
    frames: Seq<Frame<D>>,
    frame: Frame<D>,
    stream_type: StreamType,
    seek: Seek,
)
    requires
        frames_belong(frames, stream_type, seek),
        frame.kind() == stream_type,
        seek.keeps(stream_type, frame.seconds()),
    ensures
        frames_belong(frames.push(frame), stream_type, seek),
{
    assert forall|i: int| 0 <= i < frames.push(frame).len() implies (#[trigger] frames.push(
        frame,
    )[i]).kind() == stream_type && seek.keeps(stream_type, frames.push(frame)[i].seconds()) by {
        if i < frames.len() {
            assert(frames.push(frame)[i] == frames[i]);
        }
    }
}

/// Whatever comes, every row lies in the range that is asked for, every frame in the lists is of
/// the stream's type and one that the range keeps, and there is room for the first frame whenever
/// one is asked for.
pub proof fn law_step_keeps_sound<D>(state: StreamState<D>, event: Event<D>, seek: Seek)
    requires
        sound(state, seek),
    ensures
        sound(state.next(event, seek).0, seek),
        state.next(event, seek).1 != Action::Fail(Fault::NoStorage),
{
    law_step_keeps_order(state, event, seek);
    match (state.phase, event) {
        (Phase::Sending, Event::Sent) => {
            lemma_drained_sound(state, Drain { purpose: Purpose::Rest, received: false }, seek);
        },
        (Phase::Sending, Event::DecoderFull) => {
            lemma_drained_sound(
                state,
                Drain { purpose: Purpose::MakeRoom, received: false },
                seek,
            );
        },
        (Phase::SendingEnd, Event::Sent) => {
            lemma_drained_sound(state, Drain { purpose: Purpose::Flush, received: false }, seek);
        },
        (Phase::Receiving(drain), Event::Received(info)) => {
            lemma_route_sound(state, drain, info, seek);
        },
        (Phase::Receiving(drain), Event::DecoderEmpty) => {
            lemma_drained_sound(state, drain, seek);
        },
        (Phase::Downloading(drain), Event::Downloaded(info)) => {
            lemma_route_sound(state, drain, info, seek);
        },
        (Phase::Converting(drain, info, slot), Event::Converted(data)) => {
            let frame = placed_frame(state.path, state.slots.stream_type, info, data);
            lemma_push_belongs(state.gathered, frame, state.slots.stream_type, seek);
            lemma_drained_sound(
                StreamState {
                    slots: state.slots.taken(slot, info.pts_seconds),
                    gathered: state.gathered.push(frame),
                    ..state
                },
                Drain { purpose: drain.purpose, received: true },
                seek,
            );
        },
        (Phase::Collecting(origin), Event::Filtered(info)) => {
            lemma_filtered_sound(state, origin, info, seek);
        },
        (Phase::Collecting(origin), Event::GraphEmpty) => {
            lemma_graph_drained_sound(state, origin, seek);
        },
        (Phase::Storing(origin, info, slot), Event::Converted(data)) => {
            let frame = placed_frame(state.path, state.slots.stream_type, info, data);
            lemma_push_belongs(state.pending, frame, state.slots.stream_type, seek);
        },
        _ => {},
    }
}

/// The state after `events`, in their order.
pub open spec fn after_events<D>(
    state: StreamState<D>,
    events: Seq<Event<D>>,
    seek: Seek,
) -> StreamState<D>
    decreases events.len(),
{
    if events.len() == 0 {
        state
    } else {
        after_events(state, events.drop_last(), seek).next(events.last(), seek).0
    }
}

/// In every run of a stream, from its empty output on, the output is in order, every frame belongs
/// to the stream, and storage never runs out before the first frame.
pub proof fn law_every_run_is_sound<D>(
    path: FramePath,
    stream_type: StreamType,
    capacity: usize,
    events: Seq<Event<D>>,
    seek: Seek,
    last: Event<D>,
)
    requires
        path.serves(stream_type),
    ensures
        sound(
            after_events(
                StreamState::<D>::fresh(path, stream_type, capacity as int),
                events,
                seek,
            ),
            seek,
        ),
        after_events(
            StreamState::<D>::fresh(path, stream_type, capacity as int),
            events,
            seek,
        ).next(last, seek).1 != Action::Fail(Fault::NoStorage),
    decreases events.len(),
{
    let start = StreamState::<D>::fresh(path, stream_type, capacity as int);
    if events.len() > 0 {
        law_every_run_is_sound(
            path,
            stream_type,
            capacity,
            events.drop_last(),
            seek,
            events.last(),
        );
        law_step_keeps_sound(after_events(start, events.drop_last(), seek), events.last(), seek);
    }
    law_step_keeps_sound(after_events(start, events, seek), last, seek);
}

/// In every run of a stream, whatever its decoder and its filter graph give, each row of its output
/// is shown at the start of the range or later, and before its end.
pub proof fn law_rows_lie_in_range<D>(
    path: FramePath,
    stream_type: StreamType,
    capacity: usize,
    events: Seq<Event<D>>,
    seek: Seek,
    row: int,
)
    requires
        path.serves(stream_type),
        0 <= row < after_events(
            StreamState::<D>::fresh(path, stream_type, capacity as int),
            events,
            seek,
        ).slots.pts.len(),
    ensures
        seek.admits(
            after_events(
                StreamState::<D>::fresh(path, stream_type, capacity as int),
                events,
                seek,
            ).slots.pts[row],
        ),
{
    law_every_run_is_sound::<D>(path, stream_type, capacity, events, seek, Event::Packet);
}

/// Rows that are taken and stand for no frame in the lists, nor for one being converted.
pub open spec fn unlisted_rows<D>(state: StreamState<D>) -> int {
    let in_flight: int = if state.phase is Storing {
        1
    } else {
        0
    };
    state.slots.written - state.gathered.len() - state.pending.len() - in_flight
}

/// The filter graph gives a frame for which there is no row left.
pub open spec fn overflows<D>(state: StreamState<D>, event: Event<D>, seek: Seek) -> bool {
    match (state.phase, event) {
        (Phase::Collecting(_), Event::Filtered(info)) => seek.keeps(
            state.slots.stream_type,
            info.pts_seconds,
        ) && state.slots.next_slot(info.nb_samples) is None,
        _ => false,
    }
}

/// Each row of a video is one frame: rows and frames grow together, except where the filter graph
/// gives more frames than there are rows, or where decoding fails.
pub proof fn law_one_frame_per_row<D>(state: StreamState<D>, event: Event<D>, seek: Seek)
    requires
        state.wf(),
        state.slots.stream_type == StreamType::Video,
        !overflows(state, event, seek),
        !(state.next(event, seek).0.phase is Failed),
    ensures
        unlisted_rows(state.next(event, seek).0) == unlisted_rows(state),
{
}

/// A video that needs no filter graph has, in every run that has not failed, exactly one frame in
/// its list for each row of its output.
pub proof fn law_direct_video_rows_are_frames<D>(
    path: FramePath,
    capacity: usize,
    events: Seq<Event<D>>,
    seek: Seek,
)
    requires
        path.serves(StreamType::Video),
        !(path is Graph),
        !(after_events(
            StreamState::<D>::fresh(path, StreamType::Video, capacity as int),
            events,
            seek,
        ).phase is Failed),
    ensures
        ({
            let end = after_events(
                StreamState::<D>::fresh(path, StreamType::Video, capacity as int),
                events,
                seek,
            );
            &&& end.wf()
            &&& end.path == path
            &&& end.slots.stream_type == StreamType::Video
            &&& end.gathered.len() == end.slots.written
            &&& end.gathered.len() == end.slots.pts.len()
            &&& end.pending.len() == 0
            &&& !(end.phase is Submitting || end.phase is Collecting || end.phase is Storing)
        }),
    decreases events.len(),
{
    let start = StreamState::<D>::fresh(path, StreamType::Video, capacity as int);
    if events.len() > 0 {
        let before = after_events(start, events.drop_last(), seek);
        let end = before.next(events.last(), seek).0;
        if before.phase is Failed {
            assert(end.phase is Failed);
        }
        law_direct_video_rows_are_frames::<D>(path, capacity, events.drop_last(), seek);
        law_step_keeps_order(before, events.last(), seek);
        lemma_direct_stays_direct(before, events.last(), seek);
        law_one_frame_per_row(before, events.last(), seek);
    }
}

proof fn lemma_direct_stays_direct<D>(state: StreamState<D>, event: Event<D>, seek: Seek)
    requires
        state.wf(),
        !(state.path is Graph),
        !(state.phase is Submitting || state.phase is Collecting || state.phase is Storing),
    ensures
        ({
            let next = state.next(event, seek).0;
            &&& next.path == state.path
            &&& next.pending == state.pending
            &&& next.slots.stream_type == state.slots.stream_type
            &&& !(next.phase is Submitting || next.phase is Collecting || next.phase is Storing)
        }),
{
}

/// A video's rows are in the order in which their frames were placed, and each carries its frame's
/// time: on a path without a filter graph the k-th row's time is the k-th frame's.
pub proof fn law_direct_video_times_are_frames_times<D>(
    path: FramePath,
    capacity: usize,
    events: Seq<Event<D>>,
    seek: Seek,
    row: int,
)
    requires
        path.serves(StreamType::Video),
        !(path is Graph),
        !(after_events(
            StreamState::<D>::fresh(path, StreamType::Video, capacity as int),
            events,
            seek,
        ).phase is Failed),
        0 <= row < after_events(
            StreamState::<D>::fresh(path, StreamType::Video, capacity as int),
            events,
            seek,
        ).slots.written,
    ensures
        ({
            let end = after_events(
                StreamState::<D>::fresh(path, StreamType::Video, capacity as int),
                events,
                seek,
            );
            &&& end.gathered.len() == end.slots.written
            &&& end.slots.pts.len() == end.slots.written
            &&& end.slots.pts[row] == end.gathered[row].seconds()
        }),
    decreases events.len(),
{
    let start = StreamState::<D>::fresh(path, StreamType::Video, capacity as int);
    law_direct_video_rows_are_frames::<D>(path, capacity, events, seek);
    if events.len() > 0 {
        let before = after_events(start, events.drop_last(), seek);
        let end = before.next(events.last(), seek).0;
        if before.phase is Failed {
            assert(end.phase is Failed);
        }
        law_direct_video_rows_are_frames::<D>(path, capacity, events.drop_last(), seek);
        if row < before.slots.written {
            law_direct_video_times_are_frames_times::<D>(
                path,
                capacity,
                events.drop_last(),
                seek,
                row,
            );
        }
        lemma_direct_adds_frame_with_time(before, events.last(), seek);
    }
}

proof fn lemma_direct_adds_frame_with_time<D>(state: StreamState<D>, event: Event<D>, seek: Seek)
    requires
        state.wf(),
        !(state.path is Graph),
        state.slots.stream_type == StreamType::Video,
        !(state.phase is Submitting || state.phase is Collecting || state.phase is Storing),
    ensures
        ({
            let next = state.next(event, seek).0;
            ||| next.gathered == state.gathered && next.slots == state.slots
            ||| exists|frame: Frame<D>|
                next.gathered == #[trigger] state.gathered.push(frame) && next.slots.pts
                    == state.slots.pts.push(frame.seconds())
        }),
{
}

/// A decoder that is full and yields nothing is a failure only while the stream still wants
/// something: not once its output is full, nor once its end time has passed.
pub proof fn law_stuck_only_while_unfinished<D>(state: StreamState<D>, event: Event<D>, seek: Seek)
    requires
        state.wf(),
        state.next(event, seek).1 == Action::Fail(Fault::DecoderStuck),
    ensures
        !state.finished,
        !state.slots.is_full(),
        state.phase == Phase::Receiving(Drain { purpose: Purpose::MakeRoom, received: false }),
        event is DecoderEmpty,
{
}

/// The stream is busy with a packet.
pub open spec fn in_packet(phase: Phase) -> bool {
    match phase {
        Phase::Sending => true,
        Phase::Receiving(drain) => !(drain.purpose is Flush),
        Phase::Downloading(drain) => !(drain.purpose is Flush),
        Phase::Converting(drain, _, _) => !(drain.purpose is Flush),
        Phase::Submitting(Origin::Decoder(drain)) => !(drain.purpose is Flush),
        Phase::Collecting(Origin::Decoder(drain)) => !(drain.purpose is Flush),
        Phase::Storing(Origin::Decoder(drain), _, _) => !(drain.purpose is Flush),
        _ => false,
    }
}

/// The stream is being emptied at the end of the input.
pub open spec fn in_flush(phase: Phase) -> bool {
    match phase {
        Phase::SendingEnd => true,
        Phase::Receiving(drain) => drain.purpose is Flush,
        Phase::Downloading(drain) => drain.purpose is Flush,
        Phase::Converting(drain, _, _) => drain.purpose is Flush,
        Phase::Submitting(Origin::Decoder(drain)) => drain.purpose is Flush,
        Phase::Collecting(Origin::Decoder(drain)) => drain.purpose is Flush,
        Phase::Storing(Origin::Decoder(drain), _, _) => drain.purpose is Flush,
        Phase::Submitting(Origin::GraphFlush) => true,
        Phase::Collecting(Origin::GraphFlush) => true,
        Phase::Storing(Origin::GraphFlush, _, _) => true,
        Phase::Synchronizing => true,
        _ => false,
    }
}

/// The stream is still busy as before, or has ended what it was asked for, or has failed, and the
/// action says which.
pub open spec fn packet_goes_on<D>(result: (StreamState<D>, Action)) -> bool {
    ||| in_packet(result.0.phase) && !(result.1 is PacketDone || result.1 is StreamDone
        || result.1 is Fail)
    ||| result.0.phase is Idle && result.1 is PacketDone
    ||| result.0.phase is Failed && result.1 is Fail
}

/// As [`packet_goes_on`], for a stream that is being emptied.
pub open spec fn flush_goes_on<D>(result: (StreamState<D>, Action)) -> bool {
    ||| in_flush(result.0.phase) && !(result.1 is PacketDone || result.1 is StreamDone
        || result.1 is Fail)
    ||| result.0.phase is Finished && result.1 is StreamDone
    ||| result.0.phase is Failed && result.1 is Fail
}

proof fn lemma_drain_goes_on<D>(state: StreamState<D>, drain: Drain)
    ensures
        drain.purpose is Flush ==> flush_goes_on(state.drained(drain)) && flush_goes_on(
            state.keep_draining(drain),
        ),
        !(drain.purpose is Flush) ==> packet_goes_on(state.drained(drain)) && packet_goes_on(
            state.keep_draining(drain),
        ),
{
}

proof fn lemma_frame_goes_on<D>(state: StreamState<D>, drain: Drain, info: FrameInfo, seek: Seek)
    ensures
        drain.purpose is Flush ==> flush_goes_on(state.route(drain, info, seek)),
        !(drain.purpose is Flush) ==> packet_goes_on(state.route(drain, info, seek)),
{
    lemma_drain_goes_on(state, drain);
}

proof fn lemma_graph_goes_on<D>(
    state: StreamState<D>,
    origin: Origin,
    info: FrameInfo,
    seek: Seek,
)
    ensures
        origin matches Origin::Decoder(drain) ==> (!(drain.purpose is Flush) ==> packet_goes_on(
            state.take_filtered(origin, info, seek),
        )),
        origin matches Origin::Decoder(drain) ==> (drain.purpose is Flush ==> flush_goes_on(
            state.take_filtered(origin, info, seek),
        )),
        origin is GraphFlush ==> flush_goes_on(state.take_filtered(origin, info, seek)),
{
    if let Origin::Decoder(drain) = origin {
        lemma_drain_goes_on(StreamState { pending: seq![], ..state }, drain);
    }
}

/// A packet that a stream has taken on ends with the stream idle again, or with a failure.
pub proof fn law_packet_ends_idle<D>(state: StreamState<D>, event: Event<D>, seek: Seek)
    requires
        in_packet(state.phase),
    ensures
        packet_goes_on(state.next(event, seek)),
{
    lemma_step_goes_on(state, event, seek);
}

/// Emptying a stream ends with the stream finished, or with a failure.
pub proof fn law_flush_ends_finished<D>(state: StreamState<D>, event: Event<D>, seek: Seek)
    requires
        in_flush(state.phase),
    ensures
        flush_goes_on(state.next(event, seek)),
{
    lemma_step_goes_on(state, event, seek);
}

proof fn lemma_step_goes_on<D>(state: StreamState<D>, event: Event<D>, seek: Seek)
    ensures
        in_packet(state.phase) ==> packet_goes_on(state.next(event, seek)),
        in_flush(state.phase) ==> flush_goes_on(state.next(event, seek)),
{
    match (state.phase, event) {
        (Phase::Sending, Event::Sent) => {
            lemma_drain_goes_on(state, Drain { purpose: Purpose::Rest, received: false });
        },
        (Phase::Sending, Event::DecoderFull) => {
            lemma_drain_goes_on(state, Drain { purpose: Purpose::MakeRoom, received: false });
        },
        (Phase::SendingEnd, Event::Sent) => {
            lemma_drain_goes_on(state, Drain { purpose: Purpose::Flush, received: false });
        },
        (Phase::Receiving(drain), Event::Received(info)) => {
            lemma_frame_goes_on(state, drain, info, seek);
        },
        (Phase::Receiving(drain), Event::DecoderEmpty) => {
            lemma_drain_goes_on(state, drain);
        },
        (Phase::Downloading(drain), Event::Downloaded(info)) => {
            lemma_frame_goes_on(state, drain, info, seek);
        },
        (Phase::Converting(drain, info, slot), Event::Converted(data)) => {
            lemma_drain_goes_on(
                StreamState {
                    slots: state.slots.taken(slot, info.pts_seconds),
                    gathered: state.gathered.push(
                        placed_frame(state.path, state.slots.stream_type, info, data),
                    ),
                    ..state
                },
                Drain { purpose: drain.purpose, received: true },
            );
        },
        (Phase::Collecting(origin), Event::Filtered(info)) => {
            lemma_graph_goes_on(state, origin, info, seek);
        },
        (Phase::Collecting(origin), Event::GraphEmpty) => {
            lemma_graph_drained_goes_on(state, origin);
        },
        _ => {},
    }
}

proof fn lemma_graph_drained_goes_on<D>(state: StreamState<D>, origin: Origin)
    ensures
        origin matches Origin::Decoder(drain) ==> (!(drain.purpose is Flush) ==> packet_goes_on(
            state.graph_drained(origin),
        )),
        origin matches Origin::Decoder(drain) ==> (drain.purpose is Flush ==> flush_goes_on(
            state.graph_drained(origin),
        )),
        origin is GraphFlush ==> flush_goes_on(state.graph_drained(origin)),
{
    if let Origin::Decoder(drain) = origin {
        lemma_drain_goes_on(
            StreamState { gathered: state.gathered + state.pending, pending: seq![], ..state },
            Drain {
                purpose: drain.purpose,
                received: drain.received || state.pending.len() > 0,
            },
        );
    }
}

/// The time of a frame that is put before the output in this step: one that the decoder or the
/// download gives, where there is no filter graph, and one that the graph gives otherwise.
pub open spec fn offered<D>(state: StreamState<D>, event: Event<D>) -> Option<Double> {
    match (state.phase, event) {
        (Phase::Receiving(_), Event::Received(info)) => if state.path is Graph || (
        info.pixel_format == PixelFormat::Cuda && !(state.path is CudaConvert)) {
            None
        } else {
            Some(info.pts_seconds)
        },
        (Phase::Downloading(_), Event::Downloaded(info)) => if state.path is Graph {
            None
        } else {
            Some(info.pts_seconds)
        },
        (Phase::Collecting(_), Event::Filtered(info)) => Some(info.pts_seconds),
        _ => None,
    }
}

/// The times of the frames that were put before the output, in their order.
pub open spec fn offers<D>(
    state: StreamState<D>,
    events: Seq<Event<D>>,
    seek: Seek,
) -> Seq<Double>
    decreases events.len(),
{
    if events.len() == 0 {
        seq![]
    } else {
        let before = offers(state, events.drop_last(), seek);
        with_offer(before, offered(after_events(state, events.drop_last(), seek), events.last()))
    }
}

/// Each time is smaller than all later ones.
pub open spec fn increasing(times: Seq<Double>) -> bool {
    forall|i: int, j: int|
        0 <= i < j < times.len() ==> (#[trigger] times[i]).less(#[trigger] times[j])
}

/// The times of the rows are times that were offered, in the same order; a frame that is being
/// converted past the graph is the last one that was offered, and has no row yet.
pub open spec fn rows_follow_offers<D>(state: StreamState<D>, times: Seq<Double>) -> bool {
    let settled = if state.phase is Converting {
        times.len() - 1
    } else {
        times.len() as int
    };
    &&& settled >= 0
    &&& state.phase matches Phase::Converting(_, info, _) ==> times[settled] == info.pts_seconds
    &&& increasing(state.slots.pts)
    &&& forall|r: int|
        0 <= r < state.slots.pts.len() ==> is_among(
            times,
            settled,
            #[trigger] state.slots.pts[r],
        )
}

/// `time` is one of the first `n` times.
pub open spec fn is_among(times: Seq<Double>, n: int, time: Double) -> bool {
    exists|i: int| 0 <= i < n && #[trigger] times[i] == time
}

/// How the rows of a video may change while at most one frame is put before its output: not at all,
/// or by the frame that was being converted, or by the one that is offered.
pub open spec fn rows_grow<D>(
    before: StreamState<D>,
    after: StreamState<D>,
    offer: Option<Double>,
) -> bool {
    ||| {
        &&& after.slots.pts == before.slots.pts
        &&& after.phase == before.phase
        &&& offer is None
    }
    ||| {
        &&& after.slots.pts == before.slots.pts
        &&& after.phase is Converting ==> offer == Some(after.phase->Converting_1.pts_seconds)
        &&& before.phase is Converting ==> !(after.phase is Converting)
    }
    ||| {
        &&& before.phase is Converting
        &&& offer is None
        &&& !(after.phase is Converting)
        &&& after.slots.pts == before.slots.pts.push(before.phase->Converting_1.pts_seconds)
    }
    ||| {
        &&& !(before.phase is Converting)
        &&& !(after.phase is Converting)
        &&& offer matches Some(time)
        &&& after.slots.pts == before.slots.pts.push(time)
    }
}

/// A step adds to the rows of a video at most the frame that was being converted, or the one that
/// is offered.
pub proof fn law_rows_grow_by_offers<D>(state: StreamState<D>, event: Event<D>, seek: Seek)
    requires
        state.wf(),
        state.slots.stream_type == StreamType::Video,
    ensures
        rows_grow(state, state.next(event, seek).0, offered(state, event)),
{
}

/// The times that were offered, and perhaps one more.
pub open spec fn with_offer(times: Seq<Double>, offer: Option<Double>) -> Seq<Double> {
    match offer {
        Some(time) => times.push(time),
        None => times,
    }
}

/// Where the decoder, or the filter graph, gives its frames in the order in which they are shown,
/// the rows of a video are in that order too: the time of each row is smaller than the times of
/// all rows behind it.
pub proof fn law_row_times_increase<D>(
    path: FramePath,
    capacity: usize,
    events: Seq<Event<D>>,
    seek: Seek,
)
    requires
        path.serves(StreamType::Video),
        increasing(
            offers(
                StreamState::<D>::fresh(path, StreamType::Video, capacity as int),
                events,
                seek,
            ),
        ),
    ensures
        increasing(
            after_events(
                StreamState::<D>::fresh(path, StreamType::Video, capacity as int),
                events,
                seek,
            ).slots.pts,
        ),
{
    lemma_rows_follow_offers::<D>(path, capacity, events, seek);
}

proof fn lemma_rows_follow_offers<D>(
    path: FramePath,
    capacity: usize,
    events: Seq<Event<D>>,
    seek: Seek,
)
    requires
        path.serves(StreamType::Video),
        increasing(
            offers(
                StreamState::<D>::fresh(path, StreamType::Video, capacity as int),
                events,
                seek,
            ),
        ),
    ensures
        ({
            let start = StreamState::<D>::fresh(path, StreamType::Video, capacity as int);
            let end = after_events(start, events, seek);
            &&& end.wf()
            &&& end.slots.stream_type == StreamType::Video
            &&& rows_follow_offers(end, offers(start, events, seek))
        }),
    decreases events.len(),
{
    let start = StreamState::<D>::fresh(path, StreamType::Video, capacity as int);
    if events.len() > 0 {
        let before = after_events(start, events.drop_last(), seek);
        let event = events.last();
        let times = offers(start, events.drop_last(), seek);
        let offer = offered(before, event);
        lemma_increasing_before(times, offer);
        lemma_rows_follow_offers::<D>(path, capacity, events.drop_last(), seek);
        law_step_keeps_order(before, event, seek);
        law_rows_grow_by_offers(before, event, seek);
        lemma_rows_go_on_following(before, before.next(event, seek).0, times, offer);
    }
}

/// Times that increase did so before the last one came.
pub proof fn lemma_increasing_before(times: Seq<Double>, offer: Option<Double>)
    requires
        increasing(with_offer(times, offer)),
    ensures
        increasing(times),
{
    let all = with_offer(times, offer);
    assert forall|i: int, j: int| 0 <= i < j < times.len() implies (#[trigger] times[i]).less(
        #[trigger] times[j],
    ) by {
        assert(all[i] == times[i] && all[j] == times[j]);
    }
}

/// Rows that grow by what is offered go on following the offers.
pub proof fn lemma_rows_go_on_following<D>(
    before: StreamState<D>,
    end: StreamState<D>,
    old_times: Seq<Double>,
    offer: Option<Double>,
)
    requires
        rows_follow_offers(before, old_times),
        rows_grow(before, end, offer),
        increasing(with_offer(old_times, offer)),
    ensures
        rows_follow_offers(end, with_offer(old_times, offer)),
{
    let times = with_offer(old_times, offer);
    let old_settled = if before.phase is Converting {
        old_times.len() - 1
    } else {
        old_times.len() as int
    };
    let settled = if end.phase is Converting {
        times.len() - 1
    } else {
        times.len() as int
    };
    assert forall|i: int| 0 <= i < old_times.len() implies #[trigger] times[i]
        == old_times[i] by {}
    let pts = end.slots.pts;
    let old_pts = before.slots.pts;
    assert(old_settled <= settled);
    assert forall|r: int| 0 <= r < pts.len() implies is_among(
        times,
        settled,
        #[trigger] pts[r],
    ) by {
        if r < old_pts.len() {
            assert(pts[r] == old_pts[r]);
            assert(is_among(old_times, old_settled, old_pts[r]));
            let i = choose|i: int|
                0 <= i < old_settled && #[trigger] old_times[i] == old_pts[r];
            assert(times[i] == pts[r]);
        } else if before.phase is Converting {
            assert(times[old_settled] == pts[r]);
        } else {
            assert(times[old_times.len() as int] == pts[r]);
        }
    }
    assert forall|a: int, b: int| 0 <= a < b < pts.len() implies (#[trigger] pts[a]).less(
        #[trigger] pts[b],
    ) by {
        if b < old_pts.len() {
            assert(pts[a] == old_pts[a] && pts[b] == old_pts[b]);
        } else {
            assert(pts[a] == old_pts[a]);
            assert(is_among(old_times, old_settled, old_pts[a]));
            let i = choose|i: int|
                0 <= i < old_settled && #[trigger] old_times[i] == old_pts[a];
            if before.phase is Converting {
                assert(times[i].less(times[old_settled]));
            } else {
                assert(times[i].less(times[old_times.len() as int]));
            }
        }
    }
}

} // verus!
