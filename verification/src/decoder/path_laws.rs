//! Frames that go past the filter graph end up as those do that a graph gives back as they are.
use vstd::prelude::*;

use crate::decoder::filter::FilterConfig;
use crate::decoder::format::PixelFormat;
use crate::decoder::frame::{Seek, StreamType};
use crate::decoder::graph::frame_path;
use crate::decoder::stream::{
    placed_frame, Drain, Event, FrameInfo, FramePath, Origin, Phase, StreamState,
};

verus! {

/// What a decoder does, and what is done with its stream, on either path.
pub enum DecoderEvent<D> {
    Packet,
    EndOfInput,
    Sent,
    Full,
    SendFailed,
    /// It gives a frame, whose conversion into the output is `data`.
    Frame { info: FrameInfo, data: D },
    Empty,
    ReceiveFailed,
    /// The stream wants no more packets.
    Finish,
    /// The frames that were gathered are taken away.
    Collect,
}

impl<D> DecoderEvent<D> {
    /// A frame is in system memory, and one of audio has samples.
    pub open spec fn is_ordinary(self, stream_type: StreamType) -> bool {
        self matches DecoderEvent::Frame { info, .. } ==> info.pixel_format != PixelFormat::Cuda
            && (stream_type == StreamType::Audio ==> info.nb_samples != 0)
    }
}

/// The events besides frames, which are the same on both paths.
pub open spec fn play_other<D>(
    state: StreamState<D>,
    event: DecoderEvent<D>,
    seek: Seek,
) -> StreamState<D> {
    match event {
        DecoderEvent::Packet => state.next(Event::Packet, seek).0,
        DecoderEvent::EndOfInput => state.next(Event::EndOfInput, seek).0,
        DecoderEvent::Sent => state.next(Event::Sent, seek).0,
        DecoderEvent::Full => state.next(Event::DecoderFull, seek).0,
        DecoderEvent::SendFailed => state.next(Event::SendFailed, seek).0,
        DecoderEvent::Empty => state.next(Event::DecoderEmpty, seek).0,
        DecoderEvent::ReceiveFailed => state.next(Event::ReceiveFailed, seek).0,
        DecoderEvent::Finish => StreamState { finished: true, ..state },
        DecoderEvent::Collect => StreamState { gathered: seq![], ..state },
        DecoderEvent::Frame { .. } => state,
    }
}

/// Past the graph: a frame that gets a slot is converted into it.
pub open spec fn play_direct<D>(
    state: StreamState<D>,
    event: DecoderEvent<D>,
    seek: Seek,
) -> StreamState<D> {
    match event {
        DecoderEvent::Frame { info, data } => {
            let routed = state.next(Event::Received(info), seek).0;
            if routed.phase is Converting {
                routed.next(Event::Converted(data), seek).0
            } else {
                routed
            }
        },
        _ => play_other(state, event, seek),
    }
}

/// What a graph that only converts gives for a frame: the frame with its time, in the format and
/// the size of the output's rows.
pub open spec fn given_back(direct: FramePath, info: FrameInfo) -> FrameInfo {
    match direct {
        FramePath::VideoScale { dst_width, dst_height } => FrameInfo {
            pixel_format: PixelFormat::Rgb24,
            width: dst_width,
            height: dst_height,
            ..info
        },
        _ => info,
    }
}

/// A graph that holds nothing back has nothing to give at the end of the input.
pub open spec fn flushed<D>(state: StreamState<D>, seek: Seek) -> StreamState<D> {
    if state.phase == Phase::Submitting(Origin::GraphFlush) {
        state.next(Event::Submitted, seek).0.next(Event::GraphEmpty, seek).0
    } else {
        state
    }
}

/// Through a graph that gives each frame back as it is: the graph takes the frame, gives it back,
/// and has no more.
pub open spec fn play_graph<D>(
    direct: FramePath,
    state: StreamState<D>,
    event: DecoderEvent<D>,
    seek: Seek,
) -> StreamState<D> {
    match event {
        DecoderEvent::Frame { info, data } => {
            let routed = state.next(Event::Received(info), seek).0;
            if routed.phase is Submitting {
                let given = routed.next(Event::Submitted, seek).0.next(
                    Event::Filtered(given_back(direct, info)),
                    seek,
                ).0;
                let stored = if given.phase is Storing {
                    given.next(Event::Converted(data), seek).0
                } else {
                    given
                };
                flushed(stored.next(Event::GraphEmpty, seek).0, seek)
            } else {
                routed
            }
        },
        _ => flushed(play_other(state, event, seek), seek),
    }
}

/// The state past the graph after `events`, in their order.
pub open spec fn played_direct<D>(
    state: StreamState<D>,
    events: Seq<DecoderEvent<D>>,
    seek: Seek,
) -> StreamState<D>
    decreases events.len(),
{
    if events.len() == 0 {
        state
    } else {
        play_direct(played_direct(state, events.drop_last(), seek), events.last(), seek)
    }
}

/// The state through the graph after `events`, in their order.
pub open spec fn played_graph<D>(
    direct: FramePath,
    state: StreamState<D>,
    events: Seq<DecoderEvent<D>>,
    seek: Seek,
) -> StreamState<D>
    decreases events.len(),
{
    if events.len() == 0 {
        state
    } else {
        play_graph(
            direct,
            played_graph(direct, state, events.drop_last(), seek),
            events.last(),
            seek,
        )
    }
}

/// The two streams have the same rows or samples, with the same times, the same frames, and wait
/// for the same thing, which is nothing that a frame is still on its way to.
pub open spec fn agree<D>(direct: StreamState<D>, graph: StreamState<D>) -> bool {
    &&& direct.slots == graph.slots
    &&& direct.slots.wf()
    &&& direct.finished == graph.finished
    &&& direct.gathered == graph.gathered
    &&& direct.pending.len() == 0
    &&& graph.pending.len() == 0
    &&& direct.phase == graph.phase
    &&& graph.path is Graph
    &&& direct.path.serves(direct.slots.stream_type)
    &&& direct.path is VideoScale || direct.path is AudioPassthrough
    &&& match direct.phase {
        Phase::Receiving(_) => !direct.slots.is_full(),
        Phase::Idle => true,
        Phase::Sending => true,
        Phase::SendingEnd => true,
        Phase::Finished => true,
        Phase::Failed => true,
        _ => false,
    }
}

proof fn lemma_drains_agree<D>(
    direct: StreamState<D>,
    graph: StreamState<D>,
    drain: Drain,
    seek: Seek,
)
    requires
        direct.slots == graph.slots,
        direct.slots.wf(),
        direct.finished == graph.finished,
        direct.gathered == graph.gathered,
        direct.pending.len() == 0,
        graph.pending.len() == 0,
        graph.path is Graph,
        direct.path.serves(direct.slots.stream_type),
        direct.path is VideoScale || direct.path is AudioPassthrough,
    ensures
        agree(direct.drained(drain).0, flushed(graph.drained(drain).0, seek)),
        agree(direct.keep_draining(drain).0, flushed(graph.keep_draining(drain).0, seek)),
        direct.drained(drain).0.path == direct.path,
        direct.keep_draining(drain).0.path == direct.path,
{
    assert(graph.gathered + graph.pending =~= graph.gathered);
}

proof fn lemma_others_agree<D>(
    direct: StreamState<D>,
    graph: StreamState<D>,
    event: DecoderEvent<D>,
    seek: Seek,
)
    requires
        agree(direct, graph),
        !(event is Frame),
    ensures
        agree(play_other(direct, event, seek), flushed(play_other(graph, event, seek), seek)),
        play_other(direct, event, seek).path == direct.path,
{
    lemma_all_drains_agree(direct, graph, seek);
}

/// [`lemma_drains_agree`] for every emptying of the decoder.
proof fn lemma_all_drains_agree<D>(direct: StreamState<D>, graph: StreamState<D>, seek: Seek)
    requires
        agree(direct, graph),
    ensures
        forall|drain: Drain|
            agree(
                (#[trigger] direct.drained(drain)).0,
                flushed(graph.drained(drain).0, seek),
            ) && direct.drained(drain).0.path == direct.path,
        forall|drain: Drain|
            agree(
                (#[trigger] direct.keep_draining(drain)).0,
                flushed(graph.keep_draining(drain).0, seek),
            ) && direct.keep_draining(drain).0.path == direct.path,
{
    assert forall|drain: Drain|
        agree(
            (#[trigger] direct.drained(drain)).0,
            flushed(graph.drained(drain).0, seek),
        ) && direct.drained(drain).0.path == direct.path by {
        lemma_drains_agree(direct, graph, drain, seek);
    }
    assert forall|drain: Drain|
        agree(
            (#[trigger] direct.keep_draining(drain)).0,
            flushed(graph.keep_draining(drain).0, seek),
        ) && direct.keep_draining(drain).0.path == direct.path by {
        lemma_drains_agree(direct, graph, drain, seek);
    }
}

proof fn lemma_frames_agree<D>(
    direct: StreamState<D>,
    graph: StreamState<D>,
    info: FrameInfo,
    data: D,
    seek: Seek,
)
    requires
        agree(direct, graph),
        info.pixel_format != PixelFormat::Cuda,
        direct.slots.stream_type == StreamType::Audio ==> info.nb_samples != 0,
    ensures
        agree(
            play_direct(direct, DecoderEvent::Frame { info, data }, seek),
            play_graph(direct.path, graph, DecoderEvent::Frame { info, data }, seek),
        ),
        play_direct(direct, DecoderEvent::Frame { info, data }, seek).path == direct.path,
{
    if let Phase::Receiving(drain) = direct.phase {
        let given = given_back(direct.path, info);
        let stream_type = direct.slots.stream_type;
        if seek.keeps(stream_type, info.pts_seconds) {
            let slot = direct.slots.next_slot(info.nb_samples)->0;
            assert(direct.slots.direct_slot(info.pts_seconds, info.nb_samples, seek) == Some(
                slot,
            ));
            let frame = placed_frame(direct.path, stream_type, info, data);
            assert(frame == placed_frame(graph.path, stream_type, given, data));
            let done = Drain { purpose: drain.purpose, received: true };
            let taken = direct.slots.taken(slot, info.pts_seconds);
            let direct_after = StreamState {
                slots: taken,
                gathered: direct.gathered.push(frame),
                phase: Phase::Converting(drain, info, slot),
                ..direct
            };
            let graph_after = StreamState {
                slots: taken,
                gathered: graph.gathered.push(frame),
                pending: seq![],
                phase: Phase::Collecting(Origin::Decoder(drain)),
                ..graph
            };
            assert(graph.gathered + graph.pending.push(frame) =~= graph.gathered.push(frame));
            lemma_drains_agree(direct_after, graph_after, done, seek);
            assert(play_direct(direct, DecoderEvent::Frame { info, data }, seek)
                == direct_after.keep_draining(done).0);
            let routed = graph.next(Event::Received(info), seek).0;
            let asked = routed.next(Event::Submitted, seek).0;
            assert(asked.phase == Phase::Collecting(Origin::Decoder(drain)));
            let offered = asked.next(Event::Filtered(given), seek).0;
            assert(offered.phase == Phase::Storing(Origin::Decoder(drain), given, slot));
            let stored = offered.next(Event::Converted(data), seek).0;
            assert(stored.pending =~= graph.pending.push(frame));
            assert(stored.next(Event::GraphEmpty, seek).0 == graph_after.keep_draining(done).0);
        } else {
            let passed = direct.passed_over(drain, info.pts_seconds, seek);
            lemma_drains_agree(direct, graph, passed, seek);
            assert(play_direct(direct, DecoderEvent::Frame { info, data }, seek)
                == direct.keep_draining(passed).0);
            let routed = graph.next(Event::Received(info), seek).0;
            let asked = routed.next(Event::Submitted, seek).0;
            let offered = asked.next(Event::Filtered(given), seek).0;
            assert(offered.phase == Phase::Collecting(Origin::Decoder(passed)));
            assert(graph.gathered + graph.pending =~= graph.gathered);
            let emptied = StreamState {
                gathered: graph.gathered,
                pending: seq![],
                phase: offered.phase,
                ..graph
            };
            assert(offered.next(Event::GraphEmpty, seek).0 == emptied.keep_draining(passed).0);
            lemma_drains_agree(direct, emptied, passed, seek);
        }
    }
}

/// Whatever the decoder does, a stream whose frames go past the filter graph ends up with the same
/// rows or samples, the same times and the same frames as one whose frames go through a graph that
/// gives each of them back as it is, with its time.
pub proof fn law_paths_agree<D>(
    path: FramePath,
    stream_type: StreamType,
    capacity: usize,
    events: Seq<DecoderEvent<D>>,
    seek: Seek,
)
    requires
        path.serves(stream_type),
        path is VideoScale || path is AudioPassthrough,
        forall|k: int| 0 <= k < events.len() ==> (#[trigger] events[k]).is_ordinary(stream_type),
    ensures
        ({
            let direct = played_direct(
                StreamState::<D>::fresh(path, stream_type, capacity as int),
                events,
                seek,
            );
            let graph = played_graph(
                path,
                StreamState::<D>::fresh(FramePath::Graph, stream_type, capacity as int),
                events,
                seek,
            );
            &&& direct.slots == graph.slots
            &&& direct.gathered == graph.gathered
            &&& direct.phase == graph.phase
            &&& direct.finished == graph.finished
        }),
{
    lemma_paths_agree(path, stream_type, capacity, events, seek);
}

proof fn lemma_paths_agree<D>(
    path: FramePath,
    stream_type: StreamType,
    capacity: usize,
    events: Seq<DecoderEvent<D>>,
    seek: Seek,
)
    requires
        path.serves(stream_type),
        path is VideoScale || path is AudioPassthrough,
        forall|k: int| 0 <= k < events.len() ==> (#[trigger] events[k]).is_ordinary(stream_type),
    ensures
        ({
            let direct = played_direct(
                StreamState::<D>::fresh(path, stream_type, capacity as int),
                events,
                seek,
            );
            let graph = played_graph(
                path,
                StreamState::<D>::fresh(FramePath::Graph, stream_type, capacity as int),
                events,
                seek,
            );
            &&& agree(direct, graph)
            &&& direct.path == path
            &&& direct.slots.stream_type == stream_type
        }),
    decreases events.len(),
{
    if events.len() > 0 {
        let rest = events.drop_last();
        assert forall|k: int| 0 <= k < rest.len() implies (#[trigger] rest[k]).is_ordinary(
            stream_type,
        ) by {
            assert(events[k].is_ordinary(stream_type));
        }
        lemma_paths_agree(path, stream_type, capacity, rest, seek);
        let direct = played_direct(
            StreamState::<D>::fresh(path, stream_type, capacity as int),
            rest,
            seek,
        );
        let graph = played_graph(
            path,
            StreamState::<D>::fresh(FramePath::Graph, stream_type, capacity as int),
            rest,
            seek,
        );
        let event = events.last();
        assert(event == events[events.len() - 1]);
        assert(event.is_ordinary(stream_type));
        match event {
            DecoderEvent::Frame { info, data } => {
                lemma_frames_agree(direct, graph, info, data, seek);
                lemma_direct_keeps_type(direct, event, seek);
            },
            _ => {
                lemma_others_agree(direct, graph, event, seek);
                lemma_direct_keeps_type(direct, event, seek);
            },
        }
    }
}

proof fn lemma_direct_keeps_type<D>(state: StreamState<D>, event: DecoderEvent<D>, seek: Seek)
    ensures
        play_direct(state, event, seek).slots.stream_type == state.slots.stream_type,
{
    match event {
        DecoderEvent::Frame { info, data } => {
            lemma_next_keeps_type(state, Event::Received(info), seek);
            lemma_next_keeps_type(
                state.next(Event::Received(info), seek).0,
                Event::Converted(data),
                seek,
            );
        },
        DecoderEvent::Packet => lemma_next_keeps_type(state, Event::Packet, seek),
        DecoderEvent::EndOfInput => lemma_next_keeps_type(state, Event::EndOfInput, seek),
        DecoderEvent::Sent => lemma_next_keeps_type(state, Event::Sent, seek),
        DecoderEvent::Full => lemma_next_keeps_type(state, Event::DecoderFull, seek),
        DecoderEvent::SendFailed => lemma_next_keeps_type(state, Event::SendFailed, seek),
        DecoderEvent::Empty => lemma_next_keeps_type(state, Event::DecoderEmpty, seek),
        DecoderEvent::ReceiveFailed => lemma_next_keeps_type(state, Event::ReceiveFailed, seek),
        _ => {},
    }
}

proof fn lemma_next_keeps_type<D>(state: StreamState<D>, event: Event<D>, seek: Seek)
    ensures
        state.next(event, seek).0.slots.stream_type == state.slots.stream_type,
{
}

/// With direct paths disabled every stream goes through its graph, but for frames that stay on the
/// GPU. A stream that would go past its graph otherwise ends up with the same rows or samples, the
/// same times and the same frames, where the graph gives each frame back as it is.
pub proof fn law_disabling_direct_paths_changes_nothing<D>(
    config: FilterConfig,
    shape: Seq<i64>,
    stream_type: StreamType,
    capacity: usize,
    events: Seq<DecoderEvent<D>>,
    seek: Seek,
)
    requires
        stream_type == match config {
            FilterConfig::Video(_) => StreamType::Video,
            FilterConfig::Audio(_) => StreamType::Audio,
        },
        config matches FilterConfig::Video(video) ==> video.device is None,
        !(frame_path(config, shape, false, true) is Graph),
        forall|k: int| 0 <= k < events.len() ==> (#[trigger] events[k]).is_ordinary(stream_type),
    ensures
        frame_path(config, shape, false, false) is Graph,
        ({
            let path = frame_path(config, shape, false, true);
            let direct = played_direct(
                StreamState::<D>::fresh(path, stream_type, capacity as int),
                events,
                seek,
            );
            let graph = played_graph(
                path,
                StreamState::<D>::fresh(
                    frame_path(config, shape, false, false),
                    stream_type,
                    capacity as int,
                ),
                events,
                seek,
            );
            &&& direct.slots == graph.slots
            &&& direct.gathered == graph.gathered
            &&& direct.phase == graph.phase
        }),
{
    let path = frame_path(config, shape, false, true);
    law_paths_agree(path, stream_type, capacity, events, seek);
}

} // verus!
