//! No frame is lost: what a decoder, or a filter graph, gives ends up in the output.
use vstd::prelude::*;

use crate::decoder::format::PixelFormat;
use crate::decoder::frame::{Frame, Seek, StreamType};
use crate::decoder::slots::Slot;
use crate::decoder::stream::{
    law_step_keeps_order, Action, Drain, Event, Fault, FrameInfo, FramePath, Origin, Phase, Purpose,
    StreamState,
};
use crate::decoder::stream_laws::after_events;
use crate::double::Double;

verus! {

/// Both are numbers, and `a` is the smaller one or they are the same.
pub open spec fn not_above(a: Double, b: Double) -> bool {
    !a.is_nan() && !b.is_nan() && a.rank() <= b.rank()
}

/// A frame of a video belongs to the output when it is shown at the start of the range or later,
/// and before its end; one of audio when it does not begin before the start.
pub open spec fn belongs(stream_type: StreamType, seek: Seek, time: Double) -> bool {
    match stream_type {
        StreamType::Video => {
            &&& seek.start_time is Some ==> not_above(seek.start_time->0, time)
            &&& seek.end_time is Some ==> not_above(time, seek.end_time->0) && time.rank()
                != seek.end_time->0.rank()
        },
        StreamType::Audio => seek.start_time is Some ==> !(not_above(time, seek.start_time->0)
            && time.rank() != seek.start_time->0.rank()),
    }
}

/// The GPU can convert the frame: it is there, has the size of the output's rows, and its planes
/// have rows that are equally far apart.
pub open spec fn fits_gpu(path: FramePath, info: FrameInfo) -> bool {
    path matches FramePath::CudaConvert { dst_width, dst_height, .. } ==> {
        &&& info.pixel_format == PixelFormat::Cuda
        &&& info.width == dst_width
        &&& info.height == dst_height
        &&& info.pitch == info.chroma_pitch
    }
}

/// How many samples a frame brings.
pub open spec fn samples_of(info: FrameInfo) -> int {
    if info.nb_samples >= 0 {
        info.nb_samples as int
    } else {
        usize::MAX as int
    }
}

pub open spec fn smaller(a: int, b: int) -> int {
    if a <= b {
        a
    } else {
        b
    }
}

/// The frame that is ready to go to the output in this step: one that the decoder gives, or that
/// was brought to system memory, where there is no filter graph; one that the graph gives where
/// there is one.
pub open spec fn ready_frame<D>(state: StreamState<D>, event: Event<D>) -> Option<FrameInfo> {
    match event {
        Event::Received(info) => if state.phase is Receiving && !(state.path is Graph) && (
        state.path is CudaConvert || info.pixel_format != PixelFormat::Cuda) {
            Some(info)
        } else {
            None
        },
        Event::Downloaded(info) => if state.phase is Downloading && !(state.path is Graph) {
            Some(info)
        } else {
            None
        },
        Event::Filtered(info) => if state.phase is Collecting {
            Some(info)
        } else {
            None
        },
        _ => None,
    }
}

/// The frames that were ready to go to the output, as far as they belong to it, in their order.
pub open spec fn kept_frames<D>(
    state: StreamState<D>,
    events: Seq<Event<D>>,
    seek: Seek,
) -> Seq<FrameInfo>
    decreases events.len(),
{
    if events.len() == 0 {
        seq![]
    } else {
        let kept = kept_frames(state, events.drop_last(), seek);
        match ready_frame(after_events(state, events.drop_last(), seek), events.last()) {
            Some(info) if belongs(state.slots.stream_type, seek, info.pts_seconds) => kept.push(
                info,
            ),
            _ => kept,
        }
    }
}

/// The times of the rows, with that of a frame that is on its way into its row.
pub open spec fn rows_with_converting<D>(state: StreamState<D>) -> Seq<Double> {
    match state.phase {
        Phase::Converting(_, info, _) => state.slots.pts.push(info.pts_seconds),
        _ => state.slots.pts,
    }
}

/// How many samples are taken, with those of a frame that is on its way to them.
pub open spec fn samples_with_converting<D>(state: StreamState<D>) -> int {
    match state.phase {
        Phase::Converting(_, _, slot) => state.slots.written + slot.len,
        _ => state.slots.written,
    }
}

/// The time of each frame.
pub open spec fn times_of(frames: Seq<FrameInfo>) -> Seq<Double> {
    Seq::new(frames.len(), |i: int| frames[i].pts_seconds)
}

/// All samples of all frames.
pub open spec fn samples_in(frames: Seq<FrameInfo>) -> int
    decreases frames.len(),
{
    if frames.len() == 0 {
        0
    } else {
        samples_in(frames.drop_last()) + samples_of(frames.last())
    }
}

/// A frame is asked of the decoder only while there is room.
pub open spec fn has_room_while_asking<D>(state: StreamState<D>) -> bool {
    state.phase is Receiving || state.phase is Downloading ==> state.slots.written
        < state.slots.capacity
}

/// Whatever the decoder is emptied for, a frame that belongs to the output, that can be converted,
/// and for which there is room is converted into the next row, or into as many of the next samples
/// as it has and as there are. It is never dropped.
#[verifier::rlimit(40)]
pub proof fn law_no_frame_is_dropped<D>(
    state: StreamState<D>,
    event: Event<D>,
    info: FrameInfo,
    seek: Seek,
)
    requires
        state.wf(),
        ready_frame(state, event) == Some(info),
        belongs(state.slots.stream_type, seek, info.pts_seconds),
        fits_gpu(state.path, info),
        state.phase is Collecting && state.slots.stream_type == StreamType::Video ==> info.pixel_format
            == PixelFormat::Rgb24 || info.pixel_format == PixelFormat::Gbrpf32le,
        state.slots.written < state.slots.capacity,
        state.slots.stream_type == StreamType::Audio ==> info.nb_samples != 0,
    ensures
        ({
            let (next, action) = state.next(event, seek);
            let len = match state.slots.stream_type {
                StreamType::Video => 1,
                StreamType::Audio => smaller(
                    samples_of(info),
                    state.slots.capacity - state.slots.written,
                ),
            };
            &&& action matches Action::ConvertFrame(slot)
            &&& slot.start == state.slots.written
            &&& slot.len == len
            &&& match next.phase {
                Phase::Converting(drain, converting, into) => {
                    &&& converting == info && into == slot
                    &&& state.phase == Phase::Receiving(drain) || state.phase == Phase::Downloading(
                        drain,
                    )
                },
                Phase::Storing(origin, storing, into) => {
                    &&& storing == info && into == slot
                    &&& state.phase == Phase::Collecting(origin)
                },
                _ => false,
            }
            &&& next.gathered == state.gathered
            &&& next.pending == state.pending
        }),
{
}

/// Where there is a filter graph, it is handed every frame that the decoder gives, whatever the
/// decoder is emptied for. A frame on the GPU is brought to system memory first, unless the GPU
/// converts it.
pub proof fn law_graph_is_handed_every_frame<D>(state: StreamState<D>, info: FrameInfo, seek: Seek)
    ensures
        state.phase is Receiving && state.path is Graph && info.pixel_format != PixelFormat::Cuda
            ==> state.next(Event::Received(info), seek).1 == Action::SubmitFrame,
        state.phase is Downloading && state.path is Graph ==> state.next(
            Event::Downloaded(info),
            seek,
        ).1 == Action::SubmitFrame,
        state.phase is Receiving && !(state.path is CudaConvert) && info.pixel_format
            == PixelFormat::Cuda ==> state.next(Event::Received(info), seek).1
            == Action::DownloadFrame,
        state.phase is Submitting ==> state.next(Event::Submitted, seek).1
            == Action::CollectFrame,
{
}

/// A frame that the GPU cannot convert fails the stream, and the fault tells why.
pub proof fn law_gpu_faults_tell_why<D>(
    state: StreamState<D>,
    info: FrameInfo,
    seek: Seek,
    dst_width: i32,
    dst_height: i32,
)
    requires
        state.phase is Receiving,
        state.path matches FramePath::CudaConvert { dst_width: w, dst_height: h, .. } && w
            == dst_width && h == dst_height,
        !fits_gpu(state.path, info),
    ensures
        state.next(Event::Received(info), seek).0.phase is Failed,
        match state.next(Event::Received(info), seek).1 {
            Action::Fail(Fault::NotOnGpu(format)) => format == info.pixel_format && format
                != PixelFormat::Cuda,
            Action::Fail(Fault::WrongSize { width, height, dst_width: w, dst_height: h }) => {
                &&& info.pixel_format == PixelFormat::Cuda
                &&& (width, height) == (info.width, info.height)
                &&& (w, h) == (dst_width, dst_height)
                &&& (width, height) != (w, h)
            },
            Action::Fail(Fault::UnequalPitches { pitch, chroma_pitch }) => {
                &&& info.pixel_format == PixelFormat::Cuda
                &&& (info.width, info.height) == (dst_width, dst_height)
                &&& (pitch, chroma_pitch) == (info.pitch, info.chroma_pitch)
                &&& pitch != chroma_pitch
            },
            _ => false,
        },
{
}

/// A frame that does not belong to the output takes no room in it, and the stream goes on: the next
/// frame is asked for, or what the emptying was for is done.
pub proof fn law_other_frames_take_no_room<D>(
    state: StreamState<D>,
    event: Event<D>,
    info: FrameInfo,
    seek: Seek,
)
    requires
        state.wf(),
        has_room_while_asking(state),
        ready_frame(state, event) == Some(info),
        fits_gpu(state.path, info),
        !belongs(state.slots.stream_type, seek, info.pts_seconds),
    ensures
        ({
            let (next, action) = state.next(event, seek);
            &&& next.slots == state.slots
            &&& next.gathered == state.gathered
            &&& next.pending == state.pending
            &&& action == if state.phase is Collecting {
                Action::CollectFrame
            } else {
                Action::ReceiveFrame
            }
        }),
{
}

/// While there is room, the decoder is emptied until it has no more frames: nothing but an empty
/// decoder ends the emptying, or a failure.
#[verifier::rlimit(40)]
pub proof fn law_decoder_is_emptied<D>(state: StreamState<D>, event: Event<D>, seek: Seek)
    requires
        state.wf(),
        match state.phase {
            Phase::Receiving(_) => true,
            Phase::Downloading(_) => true,
            Phase::Converting(..) => true,
            Phase::Submitting(origin) => origin is Decoder,
            Phase::Collecting(origin) => origin is Decoder,
            Phase::Storing(origin, _, _) => origin is Decoder,
            _ => false,
        },
        !(event is DecoderEmpty),
    ensures
        ({
            let (next, action) = state.next(event, seek);
            next.slots.written < next.slots.capacity ==> match action {
                Action::ReceiveFrame => true,
                Action::DownloadFrame => true,
                Action::ConvertFrame(_) => true,
                Action::SubmitFrame => true,
                Action::CollectFrame => true,
                Action::Fail(_) => true,
                _ => false,
            }
        }),
{
}

/// No more frames are asked of the decoder once the output is full.
pub proof fn law_frames_are_asked_for_while_there_is_room<D>(
    state: StreamState<D>,
    event: Event<D>,
    seek: Seek,
)
    requires
        state.wf(),
        has_room_while_asking(state),
    ensures
        has_room_while_asking(state.next(event, seek).0),
        state.next(event, seek).1 == Action::ReceiveFrame ==> state.next(event, seek).0.slots.written
            < state.next(event, seek).0.slots.capacity,
{
}

/// What comes of an empty decoder: a packet that had no room is sent again once a frame has made
/// room for it; one that is in is done; at the end of the input the graph is emptied too, and the
/// GPU waited for.
pub proof fn law_what_follows_the_emptying<D>(state: StreamState<D>, drain: Drain, seek: Seek)
    requires
        state.phase == Phase::Receiving(drain),
        state.slots.written < state.slots.capacity,
    ensures
        state.next(Event::DecoderEmpty, seek).1 == match drain.purpose {
            Purpose::MakeRoom => if drain.received {
                Action::SendPacket
            } else if state.finished {
                Action::ReceiveFrame
            } else {
                Action::Fail(Fault::DecoderStuck)
            },
            Purpose::Rest => Action::PacketDone,
            Purpose::Flush => if state.path is Graph {
                Action::SubmitEnd
            } else if state.path is CudaConvert {
                Action::Synchronize
            } else {
                Action::StreamDone
            },
        },
{
}

/// A stream ends once everything behind its decoder is emptied too: with a graph, only after the
/// graph was told of the end and has nothing more to give or there is no room for it; on the GPU,
/// only after the GPU was waited for.
#[verifier::rlimit(40)]
pub proof fn law_streams_end_emptied<D>(state: StreamState<D>, event: Event<D>, seek: Seek)
    requires
        state.wf(),
        state.phase is Synchronizing ==> state.path is CudaConvert,
        state.phase is Collecting ==> state.path is Graph,
        state.next(event, seek).1 == Action::StreamDone,
    ensures
        state.path is Graph ==> state.phase == Phase::Collecting(Origin::GraphFlush) && (
        event is GraphEmpty || state.slots.written >= state.slots.capacity),
        state.path is CudaConvert ==> state.phase is Synchronizing && event is Synchronized,
        state.path is VideoScale || state.path is AudioPassthrough ==> {
            &&& match state.phase {
                Phase::Receiving(drain) => drain.purpose is Flush,
                Phase::Downloading(drain) => drain.purpose is Flush,
                Phase::Converting(drain, _, _) => drain.purpose is Flush,
                Phase::SendingEnd => true,
                _ => false,
            }
            &&& event is DecoderEmpty || state.next(event, seek).0.slots.written
                >= state.slots.capacity
        },
{
}

/// A packet is done only once the decoder has taken it and was emptied, or where no more of the
/// stream is wanted, or where the output is full.
#[verifier::rlimit(40)]
pub proof fn law_packets_are_done_once_decoded<D>(state: StreamState<D>, event: Event<D>, seek: Seek)
    requires
        state.wf(),
    ensures
        state.next(event, seek).1 == Action::PacketDone ==> {
            ||| state.next(event, seek).0.slots.written >= state.slots.capacity
            ||| event is DecoderEmpty && state.phase is Receiving
                && state.phase->Receiving_0.purpose is Rest
        },
        state.next(event, seek).0.phase matches Phase::Receiving(after) ==> (
        after.purpose is Rest ==> match state.phase {
            Phase::Sending => event is Sent,
            Phase::Receiving(before) => before.purpose is Rest || (before.purpose is MakeRoom
                && state.finished && event is DecoderEmpty),
            Phase::Downloading(before) => before.purpose is Rest,
            Phase::Converting(before, _, _) => before.purpose is Rest,
            Phase::Collecting(Origin::Decoder(before)) => before.purpose is Rest,
            _ => false,
        }),
{
}

/// A frame that goes to the output makes room in the decoder, and so does one that lies behind the
/// range; one before the range does not.
pub proof fn law_what_makes_room<D>(
    state: StreamState<D>,
    drain: Drain,
    info: FrameInfo,
    slot: Slot,
    data: D,
    seek: Seek,
)
    requires
        state.wf(),
        state.slots.written + slot.len < state.slots.capacity,
    ensures
        state.phase == Phase::Converting(drain, info, slot) ==> state.next(
            Event::Converted(data),
            seek,
        ).0.phase == Phase::Receiving(Drain { purpose: drain.purpose, received: true }),
        state.phase == Phase::Receiving(drain) && ready_frame(state, Event::Received(info)) is Some
            && state.slots.stream_type == StreamType::Video && fits_gpu(state.path, info)
            && !belongs(StreamType::Video, seek, info.pts_seconds) ==> state.next(Event::Received(info), seek).0.phase == Phase::Receiving(
            Drain {
                purpose: drain.purpose,
                received: drain.received || !(seek.start_time is Some && not_above(
                    info.pts_seconds,
                    seek.start_time->0,
                ) && info.pts_seconds.rank() != seek.start_time->0.rank()),
            },
        ),
        state.phase == Phase::Collecting(Origin::Decoder(drain)) ==> state.next(
            Event::GraphEmpty,
            seek,
        ).0.phase == Phase::Receiving(
            Drain {
                purpose: drain.purpose,
                received: drain.received || state.pending.len() > 0,
            },
        ),
{
}

/// A frame for which there is no slot leaves the emptying of the decoder as it was, except that one
/// behind the range counts as received. That holds past the graph and through it.
pub proof fn law_dropped_frames_change_little<D>(
    state: StreamState<D>,
    drain: Drain,
    event: Event<D>,
    info: FrameInfo,
    seek: Seek,
)
    requires
        state.wf(),
        has_room_while_asking(state),
        ready_frame(state, event) == Some(info),
        fits_gpu(state.path, info),
        !belongs(state.slots.stream_type, seek, info.pts_seconds) || (
        state.slots.stream_type == StreamType::Audio && info.nb_samples == 0 && !(
        state.phase is Collecting)),
        state.phase == Phase::Receiving(drain) || state.phase == Phase::Downloading(drain)
            || state.phase == Phase::Collecting(Origin::Decoder(drain)),
    ensures
        ({
            let before_start = seek.start_time is Some && not_above(
                info.pts_seconds,
                seek.start_time->0,
            ) && info.pts_seconds.rank() != seek.start_time->0.rank();
            let behind = state.slots.stream_type == StreamType::Video && !before_start;
            let after = Drain { purpose: drain.purpose, received: drain.received || behind };
            state.next(event, seek).0.phase == if state.phase is Collecting {
                Phase::Collecting(Origin::Decoder(after))
            } else {
                Phase::Receiving(after)
            }
        }),
{
}

/// It stays known why the decoder is being emptied, and where the frames of the graph come from, on
/// the whole way of a frame through the graph.
pub proof fn law_purposes_are_kept<D>(
    state: StreamState<D>,
    drain: Drain,
    origin: Origin,
    info: FrameInfo,
    slot: Slot,
    data: D,
    seek: Seek,
)
    ensures
        state.path is Graph && info.pixel_format != PixelFormat::Cuda && state.phase
            == Phase::Receiving(drain) ==> state.next(Event::Received(info), seek).0.phase
            == Phase::Submitting(Origin::Decoder(drain)),
        state.path is Graph && state.phase == Phase::Downloading(drain) ==> state.next(
            Event::Downloaded(info),
            seek,
        ).0.phase == Phase::Submitting(Origin::Decoder(drain)),
        !(state.path is CudaConvert) && info.pixel_format == PixelFormat::Cuda && state.phase
            == Phase::Receiving(drain) ==> state.next(Event::Received(info), seek).0.phase
            == Phase::Downloading(drain),
        state.phase == Phase::Submitting(origin) ==> state.next(Event::Submitted, seek).0.phase
            == Phase::Collecting(origin),
        state.phase == Phase::Storing(origin, info, slot) ==> state.next(
            Event::Converted(data),
            seek,
        ).0.phase == Phase::Collecting(origin),
        state.phase == Phase::Collecting(Origin::GraphFlush) ==> state.next(
            Event::GraphEmpty,
            seek,
        ).1 == Action::StreamDone,
        state.phase is Synchronizing ==> state.next(Event::Synchronized, seek).1
            == Action::StreamDone,
        state.path is Graph && state.phase == Phase::Receiving(drain) && drain.purpose is Flush
            ==> state.next(Event::DecoderEmpty, seek).0.phase == Phase::Submitting(
            Origin::GraphFlush,
        ),
        !(state.path is Graph) && state.phase == Phase::Collecting(Origin::GraphFlush)
            ==> state.next(Event::GraphEmpty, seek).0.phase is Finished,
{
}

/// Once a frame fills the output, what the emptying was for is done: a packet that had no room is
/// sent again, one that is in is done, and at the end of the input the stream ends.
pub proof fn law_what_follows_the_last_row<D>(
    state: StreamState<D>,
    drain: Drain,
    info: FrameInfo,
    slot: Slot,
    data: D,
    seek: Seek,
)
    requires
        state.wf(),
        state.phase == Phase::Converting(drain, info, slot),
        slot.start + slot.len == state.slots.capacity,
    ensures
        state.next(Event::Converted(data), seek).1 == match drain.purpose {
            Purpose::MakeRoom => Action::SendPacket,
            Purpose::Rest => Action::PacketDone,
            Purpose::Flush => if state.path is Graph {
                Action::SubmitEnd
            } else if state.path is CudaConvert {
                Action::Synchronize
            } else {
                Action::StreamDone
            },
        },
        state.next(Event::Converted(data), seek).0.slots.written == state.slots.capacity,
{
}

/// The frames that the graph gives of audio are all taken, also those for which there is no room any
/// more: these take no samples.
pub proof fn law_audio_from_the_graph_is_taken<D>(
    state: StreamState<D>,
    origin: Origin,
    info: FrameInfo,
    seek: Seek,
)
    requires
        state.wf(),
        state.slots.stream_type == StreamType::Audio,
        state.phase == Phase::Collecting(origin),
        belongs(StreamType::Audio, seek, info.pts_seconds),
    ensures
        ({
            let (next, action) = state.next(Event::Filtered(info), seek);
            let len = smaller(samples_of(info), state.slots.capacity - state.slots.written);
            &&& action matches Action::ConvertFrame(slot)
            &&& slot.start == state.slots.written
            &&& slot.len == len
            &&& next.phase == Phase::Storing(origin, info, slot)
            &&& next.slots.written == state.slots.written + len
        }),
{
}

/// What follows once the output is full: what the decoder was emptied for.
pub open spec fn done_emptying<D>(state: StreamState<D>, drain: Drain) -> Action {
    match drain.purpose {
        Purpose::MakeRoom => if drain.received {
            Action::SendPacket
        } else {
            Action::PacketDone
        },
        Purpose::Rest => Action::PacketDone,
        Purpose::Flush => if state.path is Graph {
            Action::SubmitEnd
        } else if state.path is CudaConvert {
            Action::Synchronize
        } else {
            Action::StreamDone
        },
    }
}

/// A graph that gives a frame of a video for which there is no row, and one that has given all of a
/// frame that filled the output, end the emptying of the decoder; at the end of the input they end
/// the stream.
pub proof fn law_a_full_output_ends_the_emptying<D>(
    state: StreamState<D>,
    drain: Drain,
    info: FrameInfo,
    seek: Seek,
)
    requires
        state.wf(),
        state.slots.written == state.slots.capacity,
        state.slots.capacity > 0,
    ensures
        state.phase == Phase::Collecting(Origin::Decoder(drain)) && state.slots.stream_type
            == StreamType::Video && belongs(StreamType::Video, seek, info.pts_seconds)
            ==> state.next(Event::Filtered(info), seek).1 == done_emptying(state, drain),
        state.phase == Phase::Collecting(Origin::GraphFlush) && state.slots.stream_type
            == StreamType::Video && belongs(StreamType::Video, seek, info.pts_seconds)
            ==> state.next(Event::Filtered(info), seek).1 == Action::StreamDone,
        state.phase == Phase::Collecting(Origin::Decoder(drain)) ==> state.next(
            Event::GraphEmpty,
            seek,
        ).1 == done_emptying(
            state,
            Drain {
                purpose: drain.purpose,
                received: drain.received || state.pending.len() > 0,
            },
        ),
{
}

/// A stream begins with nothing in its output, and wants packets.
pub proof fn law_streams_begin_empty<D>(path: FramePath, stream_type: StreamType, capacity: int)
    ensures
        ({
            let state = StreamState::<D>::fresh(path, stream_type, capacity);
            &&& state.path == path
            &&& state.slots.stream_type == stream_type
            &&& state.slots.capacity == capacity
            &&& state.slots.written == 0
            &&& state.slots.pts.len() == 0
            &&& state.gathered.len() == 0 && state.pending.len() == 0
            &&& !state.finished
            &&& state.phase is Idle
        }),
{
}

/// A packet, or the end of the input, is sent to the decoder first. As long as there is room the
/// decoder is then asked for frames, and it is known why: to make room for a packet that it did not
/// take, to have what came of one that it took, or to have all that is left.
pub proof fn law_what_is_sent_is_decoded<D>(state: StreamState<D>, seek: Seek)
    requires
        state.slots.written < state.slots.capacity,
    ensures
        state.phase is Idle ==> state.next(Event::Packet, seek).1 == Action::SendPacket
            && state.next(Event::Packet, seek).0.phase is Sending,
        state.phase is Idle ==> state.next(Event::EndOfInput, seek).1 == Action::SendEnd
            && state.next(Event::EndOfInput, seek).0.phase is SendingEnd,
        state.phase is Sending ==> {
            let (taken, asked) = state.next(Event::Sent, seek);
            let (refused, emptied) = state.next(Event::DecoderFull, seek);
            &&& asked == Action::ReceiveFrame && emptied == Action::ReceiveFrame
            &&& taken.phase == Phase::Receiving(Drain { purpose: Purpose::Rest, received: false })
            &&& refused.phase == Phase::Receiving(
                Drain { purpose: Purpose::MakeRoom, received: false },
            )
        },
        state.phase is SendingEnd ==> {
            let (told, asked) = state.next(Event::Sent, seek);
            &&& asked == Action::ReceiveFrame
            &&& told.phase == Phase::Receiving(Drain { purpose: Purpose::Flush, received: false })
        },
{
}

/// A packet for an output that is full already is done at once, and at the end of the input only
/// the graph and the GPU are left to be emptied.
pub proof fn law_a_full_output_wants_nothing<D>(state: StreamState<D>, seek: Seek)
    requires
        state.slots.written >= state.slots.capacity,
    ensures
        state.phase is Sending ==> {
            &&& state.next(Event::Sent, seek).1 == Action::PacketDone
            &&& state.next(Event::DecoderFull, seek).1 == Action::PacketDone
            &&& state.next(Event::Sent, seek).0.phase is Idle
            &&& state.next(Event::DecoderFull, seek).0.phase is Idle
        },
        state.phase is SendingEnd ==> state.next(Event::Sent, seek).1 == if state.path is Graph {
            Action::SubmitEnd
        } else if state.path is CudaConvert {
            Action::Synchronize
        } else {
            Action::StreamDone
        },
{
}

/// What fails is told, and ends the stream.
pub proof fn law_failures_are_told<D>(state: StreamState<D>, info: FrameInfo, seek: Seek)
    ensures
        state.phase is Sending || state.phase is SendingEnd ==> state.next(
            Event::SendFailed,
            seek,
        ).1 == Action::Fail(Fault::SendFailed),
        state.phase is Receiving ==> state.next(Event::ReceiveFailed, seek).1 == Action::Fail(
            Fault::ReceiveFailed,
        ),
        state.phase is Downloading ==> state.next(Event::DownloadFailed, seek).1 == Action::Fail(
            Fault::DownloadFailed,
        ),
        state.phase is Converting || state.phase is Storing ==> state.next(
            Event::ConvertFailed,
            seek,
        ).1 == Action::Fail(Fault::ConvertFailed),
        state.phase is Submitting ==> state.next(Event::SubmitFailed, seek).1 == Action::Fail(
            Fault::SubmitFailed,
        ),
        state.phase is Collecting ==> state.next(Event::FilterFailed, seek).1 == Action::Fail(
            Fault::FilterFailed,
        ),
        state.phase is Synchronizing ==> state.next(Event::SyncFailed, seek).1 == Action::Fail(
            Fault::SyncFailed,
        ),
        state.phase is Collecting && state.slots.stream_type == StreamType::Video && belongs(
            StreamType::Video,
            seek,
            info.pts_seconds,
        ) && state.slots.written < state.slots.capacity && info.pixel_format != PixelFormat::Rgb24
            && info.pixel_format != PixelFormat::Gbrpf32le ==> state.next(
            Event::Filtered(info),
            seek,
        ).1 == Action::Fail(Fault::UnsupportedPixelFormat(info.pixel_format)),
        state.phase is Failed || state.phase is Finished ==> forall|event: Event<D>|
            (#[trigger] state.next(event, seek)).1 == Action::Fail(Fault::OutOfTurn),
        forall|event: Event<D>|
            (#[trigger] state.next(event, seek)).1 is Fail <==> state.next(
                event,
                seek,
            ).0.phase is Failed,
{
}

/// The frames in the lists, in their order.
pub open spec fn listed<D>(state: StreamState<D>) -> Seq<Frame<D>> {
    state.gathered + state.pending
}

/// What a frame in the lists tells: what the decoder or the graph said of it, and the data that it
/// was converted to. A video frame past the graph has the size of the output's rows.
pub open spec fn tells<D>(
    frame: Frame<D>,
    path: FramePath,
    stream_type: StreamType,
    info: FrameInfo,
    converted: D,
) -> bool {
    match frame {
        Frame::Video {
            width,
            height,
            pts,
            best_effort_timestamp,
            data,
            time_base,
            pts_seconds,
        } => {
            &&& stream_type == StreamType::Video
            &&& data == converted
            &&& pts == info.pts
            &&& best_effort_timestamp == info.best_effort_timestamp
            &&& time_base == info.time_base
            &&& pts_seconds == info.pts_seconds
            &&& match path {
                FramePath::VideoScale { dst_width, dst_height } => width == dst_width && height
                    == dst_height,
                FramePath::CudaConvert { dst_width, dst_height, .. } => width == dst_width
                    && height == dst_height,
                _ => width == info.width && height == info.height,
            }
        },
        Frame::Audio {
            sample_rate,
            nb_samples,
            pts,
            best_effort_timestamp,
            time_base,
            data,
            pts_seconds,
        } => {
            &&& stream_type == StreamType::Audio
            &&& data == converted
            &&& sample_rate == info.sample_rate
            &&& nb_samples == info.nb_samples
            &&& pts == info.pts
            &&& best_effort_timestamp == info.best_effort_timestamp
            &&& time_base == info.time_base
            &&& pts_seconds == info.pts_seconds
        },
    }
}

/// Each frame that is converted is added to the lists, behind all others, and nothing else is. No
/// frame ever leaves them, except those that the graph gave together with one for which there is no
/// room. What the stream is about never changes.
#[verifier::rlimit(40)]
pub proof fn law_frames_are_listed_in_order<D>(state: StreamState<D>, event: Event<D>, seek: Seek)
    requires
        state.wf(),
    ensures
        ({
            let next = state.next(event, seek).0;
            &&& next.path == state.path
            &&& next.finished == state.finished
            &&& next.slots.stream_type == state.slots.stream_type
            &&& next.slots.capacity == state.slots.capacity
            &&& match (state.phase, event) {
                (Phase::Converting(_, info, slot), Event::Converted(data)) => {
                    &&& next.gathered.len() == state.gathered.len() + 1
                    &&& next.gathered.drop_last() == state.gathered
                    &&& tells(
                        next.gathered.last(),
                        state.path,
                        state.slots.stream_type,
                        info,
                        data,
                    )
                    &&& next.pending == state.pending
                    &&& next.slots.written == slot.start + slot.len
                },
                (Phase::Storing(_, info, _), Event::Converted(data)) => {
                    &&& listed(next).len() == listed(state).len() + 1
                    &&& listed(next).drop_last() == listed(state)
                    &&& tells(
                        listed(next).last(),
                        state.path,
                        state.slots.stream_type,
                        info,
                        data,
                    )
                    &&& next.slots == state.slots
                },
                (Phase::Collecting(_), Event::Filtered(info)) => {
                    &&& next.gathered == state.gathered
                    &&& next.pending == if state.slots.stream_type == StreamType::Video
                        && state.slots.written >= state.slots.capacity && belongs(
                        StreamType::Video,
                        seek,
                        info.pts_seconds,
                    ) {
                        seq![]
                    } else {
                        state.pending
                    }
                },
                (Phase::Collecting(_), Event::GraphEmpty) => {
                    &&& next.gathered == listed(state)
                    &&& next.pending.len() == 0
                    &&& next.slots == state.slots
                },
                _ => {
                    &&& next.gathered == state.gathered
                    &&& next.pending == state.pending
                    &&& next.slots == state.slots
                },
            }
        }),
{
    let next = state.next(event, seek).0;
    if let (Phase::Converting(_, info, _), Event::Converted(data)) = (state.phase, event) {
        assert(next.gathered.drop_last() =~= state.gathered);
    }
    if let (Phase::Storing(_, info, _), Event::Converted(data)) = (state.phase, event) {
        assert(listed(next).drop_last() =~= listed(state));
        assert(listed(next).last() == next.pending.last());
    }
}

#[verifier::rlimit(40)]
pub proof fn lemma_step_keeps_kept_rows<D>(
    state: StreamState<D>,
    event: Event<D>,
    seek: Seek,
    kept: Seq<FrameInfo>,
)
    requires
        state.wf(),
        state.slots.stream_type == StreamType::Video,
        has_room_while_asking(state),
        rows_with_converting(state) == times_of(kept).take(
            smaller(kept.len() as int, state.slots.capacity),
        ),
        !(state.next(event, seek).0.phase is Failed),
    ensures
        ({
            let next = state.next(event, seek).0;
            let more = match ready_frame(state, event) {
                Some(info) if belongs(StreamType::Video, seek, info.pts_seconds) => kept.push(info),
                _ => kept,
            };
            rows_with_converting(next) == times_of(more).take(
                smaller(more.len() as int, state.slots.capacity),
            )
        }),
{
    let next = state.next(event, seek).0;
    if let Some(info) = ready_frame(state, event) {
        if belongs(StreamType::Video, seek, info.pts_seconds) {
            let more = kept.push(info);
            assert(seek.keeps(StreamType::Video, info.pts_seconds));
            let cap = state.slots.capacity;
            if state.slots.written < cap {
                assert(rows_with_converting(next) =~= state.slots.pts.push(info.pts_seconds));
                assert(kept.len() == state.slots.pts.len());
                assert(times_of(more).take(smaller(more.len() as int, cap)) =~= times_of(
                    kept,
                ).take(smaller(kept.len() as int, cap)).push(info.pts_seconds));
            } else {
                assert(rows_with_converting(next) == state.slots.pts);
                assert(times_of(more).take(smaller(more.len() as int, cap)) =~= times_of(
                    kept,
                ).take(smaller(kept.len() as int, cap)));
            }
        } else {
            assert(!seek.keeps(StreamType::Video, info.pts_seconds));
            assert(rows_with_converting(next) == rows_with_converting(state));
        }
    }
}

/// Frames that go past the graph are never on the graph's way, and those that go through it never
/// past it.
pub open spec fn on_its_path<D>(state: StreamState<D>) -> bool {
    &&& state.path is Graph ==> !(state.phase is Converting)
    &&& !(state.path is Graph) ==> {
        &&& state.pending.len() == 0
        &&& !(state.phase is Submitting || state.phase is Collecting || state.phase is Storing)
    }
}

/// A stream stays on its path, whatever comes.
pub proof fn law_streams_stay_on_their_path<D>(state: StreamState<D>, event: Event<D>, seek: Seek)
    requires
        on_its_path(state),
    ensures
        on_its_path(state.next(event, seek).0),
{
}

proof fn lemma_rows_are_kept_frames<D>(
    path: FramePath,
    capacity: usize,
    events: Seq<Event<D>>,
    seek: Seek,
)
    requires
        path.serves(StreamType::Video),
        !(after_events(
            StreamState::<D>::fresh(path, StreamType::Video, capacity as int),
            events,
            seek,
        ).phase is Failed),
    ensures
        ({
            let start = StreamState::<D>::fresh(path, StreamType::Video, capacity as int);
            let end = after_events(start, events, seek);
            let kept = kept_frames(start, events, seek);
            &&& end.wf()
            &&& end.slots.stream_type == StreamType::Video
            &&& end.slots.capacity == capacity
            &&& has_room_while_asking(end)
            &&& rows_with_converting(end) == times_of(kept).take(
                smaller(kept.len() as int, capacity as int),
            )
        }),
    decreases events.len(),
{
    let start = StreamState::<D>::fresh(path, StreamType::Video, capacity as int);
    if events.len() > 0 {
        let before = after_events(start, events.drop_last(), seek);
        if before.phase is Failed {
            assert(before.next(events.last(), seek).0.phase is Failed);
        }
        lemma_rows_are_kept_frames::<D>(path, capacity, events.drop_last(), seek);
        let kept = kept_frames(start, events.drop_last(), seek);
        law_step_keeps_order(before, events.last(), seek);
        law_frames_are_asked_for_while_there_is_room(before, events.last(), seek);
        law_frames_are_listed_in_order(before, events.last(), seek);
        lemma_step_keeps_kept_rows(before, events.last(), seek, kept);
    } else {
        assert(times_of(seq![]).take(0) =~= seq![]);
    }
}

/// In every run that has not failed, on every path and up to the very end of the input, the rows of
/// a video are the frames that belong to it, as many as there is room for, in their order: none is
/// missing, and none stands there twice.
pub proof fn law_rows_are_the_frames_that_belong<D>(
    path: FramePath,
    capacity: usize,
    events: Seq<Event<D>>,
    seek: Seek,
)
    requires
        path.serves(StreamType::Video),
        !(after_events(
            StreamState::<D>::fresh(path, StreamType::Video, capacity as int),
            events,
            seek,
        ).phase is Failed),
    ensures
        ({
            let start = StreamState::<D>::fresh(path, StreamType::Video, capacity as int);
            let end = after_events(start, events, seek);
            let kept = kept_frames(start, events, seek);
            rows_with_converting(end) == times_of(kept).take(
                smaller(kept.len() as int, capacity as int),
            )
        }),
{
    lemma_rows_are_kept_frames::<D>(path, capacity, events, seek);
}

#[verifier::rlimit(40)]
proof fn lemma_samples_are_kept<D>(
    path: FramePath,
    capacity: usize,
    events: Seq<Event<D>>,
    seek: Seek,
)
    requires
        path.serves(StreamType::Audio),
        !(after_events(
            StreamState::<D>::fresh(path, StreamType::Audio, capacity as int),
            events,
            seek,
        ).phase is Failed),
    ensures
        ({
            let start = StreamState::<D>::fresh(path, StreamType::Audio, capacity as int);
            let end = after_events(start, events, seek);
            &&& end.wf()
            &&& end.slots.stream_type == StreamType::Audio
            &&& end.slots.capacity == capacity
            &&& has_room_while_asking(end)
            &&& samples_in(kept_frames(start, events, seek)) >= 0
            &&& samples_with_converting(end) == smaller(
                samples_in(kept_frames(start, events, seek)),
                capacity as int,
            )
        }),
    decreases events.len(),
{
    let start = StreamState::<D>::fresh(path, StreamType::Audio, capacity as int);
    if events.len() > 0 {
        let before = after_events(start, events.drop_last(), seek);
        let event = events.last();
        if before.phase is Failed {
            assert(before.next(event, seek).0.phase is Failed);
        }
        lemma_samples_are_kept::<D>(path, capacity, events.drop_last(), seek);
        let kept = kept_frames(start, events.drop_last(), seek);
        law_step_keeps_order(before, event, seek);
        law_frames_are_asked_for_while_there_is_room(before, event, seek);
        law_frames_are_listed_in_order(before, event, seek);
        if let Some(info) = ready_frame(before, event) {
            if belongs(StreamType::Audio, seek, info.pts_seconds) {
                assert(kept.push(info).drop_last() =~= kept);
                assert(seek.keeps(StreamType::Audio, info.pts_seconds));
            } else {
                assert(!seek.keeps(StreamType::Audio, info.pts_seconds));
            }
        }
    }
}

/// In every run that has not failed, on every path and up to the very end of the input, as many
/// samples of an audio stream are taken as the frames bring that belong to it, or as there is room
/// for.
pub proof fn law_samples_are_those_of_the_frames_that_belong<D>(
    path: FramePath,
    capacity: usize,
    events: Seq<Event<D>>,
    seek: Seek,
)
    requires
        path.serves(StreamType::Audio),
        !(after_events(
            StreamState::<D>::fresh(path, StreamType::Audio, capacity as int),
            events,
            seek,
        ).phase is Failed),
    ensures
        ({
            let start = StreamState::<D>::fresh(path, StreamType::Audio, capacity as int);
            samples_with_converting(after_events(start, events, seek)) == smaller(
                samples_in(kept_frames(start, events, seek)),
                capacity as int,
            )
        }),
{
    lemma_samples_are_kept::<D>(path, capacity, events, seek);
}

} // verus!
