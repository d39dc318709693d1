//! How one stream's packets become frames in its output.
//!
//! The decoder, the filter graph and the conversions are driven from outside. This module says
//! what to do next, and takes in what came of it: a packet is sent; where the decoder is full it
//! is emptied first; each frame it gives back goes to its slot, through the filter graph or past
//! it. At the end of the input the decoder and the graph are emptied the same way.
use vstd::prelude::*;

use crate::decoder::format::PixelFormat;
use crate::decoder::frame::{Frame, Rational, Seek, StreamType};
use crate::decoder::slots::{OutputSlots, Slot, SlotsState};
use crate::double::Double;

verus! {

/// How decoded frames reach the output.
#[derive(Clone, Copy, Debug, PartialEq, Eq, Structural)]
pub enum FramePath {
    /// Through the filter graph.
    Graph,
    /// Video frames are converted into the output as they are.
    VideoScale { dst_width: i32, dst_height: i32 },
    /// Audio frames are converted into the output as they are.
    AudioPassthrough,
    /// Video frames are converted into the output without leaving the GPU `device`.
    CudaConvert { device: i32, dst_width: i32, dst_height: i32 },
}

impl FramePath {
    /// The path is one for streams of this type.
    pub open spec fn serves(self, stream_type: StreamType) -> bool {
        match self {
            FramePath::Graph => true,
            FramePath::VideoScale { .. } => stream_type == StreamType::Video,
            FramePath::AudioPassthrough => stream_type == StreamType::Audio,
            FramePath::CudaConvert { .. } => stream_type == StreamType::Video,
        }
    }
}

/// What is known of a frame besides its data.
#[derive(Clone, Copy, Debug, PartialEq, Eq, Structural)]
pub struct FrameInfo {
    pub pixel_format: PixelFormat,
    pub width: i32,
    pub height: i32,
    /// Bytes from one row to the next in the first plane.
    pub pitch: i32,
    /// Bytes from one row to the next in the second plane.
    pub chroma_pitch: i32,
    pub sample_rate: i32,
    pub nb_samples: i32,
    pub pts: i64,
    pub best_effort_timestamp: i64,
    pub time_base: Rational,
    /// `pts` in seconds.
    pub pts_seconds: Double,
}

/// Why the decoder is being emptied.
#[derive(Clone, Copy, Debug, PartialEq, Eq, Structural)]
pub enum Purpose {
    /// It had no room for the packet.
    MakeRoom,
    /// The packet is in.
    Rest,
    /// The input is at its end.
    Flush,
}

/// The emptying of the decoder.
#[derive(Clone, Copy, Debug, PartialEq, Eq, Structural)]
pub struct Drain {
    pub purpose: Purpose,
    /// Whether it has given a frame that was kept, or one that lies behind the range.
    pub received: bool,
}

/// Where the frames that the filter graph gives come from.
#[derive(Clone, Copy, Debug, PartialEq, Eq, Structural)]
pub enum Origin {
    /// A frame from the decoder.
    Decoder(Drain),
    /// The graph itself, which is being emptied at the end of the input.
    GraphFlush,
}

/// What the stream waits for.
#[derive(Clone, Copy, Debug, PartialEq, Eq, Structural)]
pub enum Phase {
    /// The next packet.
    Idle,
    /// Whether the decoder took the packet.
    Sending,
    /// Whether the decoder took the end of the input.
    SendingEnd,
    /// A frame from the decoder.
    Receiving(Drain),
    /// The copy in system memory of a frame that is on the GPU.
    Downloading(Drain),
    /// The conversion of a frame into its slot.
    Converting(Drain, FrameInfo, Slot),
    /// Whether the filter graph took the frame, or the end of the input.
    Submitting(Origin),
    /// A frame from the filter graph.
    Collecting(Origin),
    /// The conversion of a frame from the filter graph into its slot.
    Storing(Origin, FrameInfo, Slot),
    /// The end of what the GPU was asked to do.
    Synchronizing,
    /// Nothing: everything is in the output.
    Finished,
    /// Nothing: decoding failed.
    Failed,
}

/// What came of what was asked for.
pub enum Event<D> {
    /// There is a packet.
    Packet,
    /// There are no more packets.
    EndOfInput,
    /// The decoder took what was sent.
    Sent,
    /// The decoder has no room for the packet.
    DecoderFull,
    SendFailed,
    /// The decoder gave a frame.
    Received(FrameInfo),
    /// The decoder has no frame now, or none any more.
    DecoderEmpty,
    ReceiveFailed,
    /// The frame is in system memory.
    Downloaded(FrameInfo),
    DownloadFailed,
    /// The frame is in its slot, which `data` stands for.
    Converted(D),
    ConvertFailed,
    Submitted,
    SubmitFailed,
    /// The filter graph gave a frame.
    Filtered(FrameInfo),
    /// The filter graph has no frame now, or none any more.
    GraphEmpty,
    FilterFailed,
    Synchronized,
    SyncFailed,
}

/// What to do next.
#[derive(Clone, Copy, Debug, PartialEq, Eq, Structural)]
pub enum Action {
    /// Send the packet to the decoder.
    SendPacket,
    /// Tell the decoder that the input is at its end.
    SendEnd,
    /// Ask the decoder for a frame.
    ReceiveFrame,
    /// Copy the frame from the GPU to system memory.
    DownloadFrame,
    /// Convert the frame into this slot.
    ConvertFrame(Slot),
    /// Hand the frame to the filter graph.
    SubmitFrame,
    /// Tell the filter graph that the input is at its end.
    SubmitEnd,
    /// Ask the filter graph for a frame.
    CollectFrame,
    /// Wait for the GPU.
    Synchronize,
    /// The packet is done.
    PacketDone,
    /// The stream is done.
    StreamDone,
    Fail(Fault),
}

/// Why decoding failed.
#[derive(Clone, Copy, Debug, PartialEq, Eq, Structural)]
pub enum Fault {
    SendFailed,
    /// The decoder is full and gives no frames.
    DecoderStuck,
    ReceiveFailed,
    DownloadFailed,
    /// A frame on the GPU was due, and this format came.
    NotOnGpu(PixelFormat),
    /// A frame does not have the size of the output's rows.
    WrongSize { width: i32, height: i32, dst_width: i32, dst_height: i32 },
    /// The rows of the two planes are not equally far apart.
    UnequalPitches { pitch: i32, chroma_pitch: i32 },
    ConvertFailed,
    SubmitFailed,
    FilterFailed,
    /// The filter graph gave a pixel format that has no conversion.
    UnsupportedPixelFormat(PixelFormat),
    /// There was no room for the first frame.
    NoStorage,
    SyncFailed,
    /// What came is not what the stream waits for.
    OutOfTurn,
}

/// What is known of a stream.
pub struct StreamState<D> {
    pub path: FramePath,
    pub slots: SlotsState,
    /// No more packets are wanted.
    pub finished: bool,
    /// The frames that came of the packet.
    pub gathered: Seq<Frame<D>>,
    /// The frames that the filter graph has given for one frame, or for the end of the input.
    pub pending: Seq<Frame<D>>,
    pub phase: Phase,
}

/// The frame of a video that `info` tells of.
pub open spec fn video_frame<D>(info: FrameInfo, width: i32, height: i32, data: D) -> Frame<D> {
    Frame::Video {
        width,
        height,
        pts: info.pts,
        best_effort_timestamp: info.best_effort_timestamp,
        data,
        time_base: info.time_base,
        pts_seconds: info.pts_seconds,
    }
}

/// The frame of audio that `info` tells of.
pub open spec fn audio_frame<D>(info: FrameInfo, data: D) -> Frame<D> {
    Frame::Audio {
        sample_rate: info.sample_rate,
        nb_samples: info.nb_samples,
        pts: info.pts,
        best_effort_timestamp: info.best_effort_timestamp,
        time_base: info.time_base,
        data,
        pts_seconds: info.pts_seconds,
    }
}

/// The frame that takes a slot on this path.
pub open spec fn placed_frame<D>(
    path: FramePath,
    stream_type: StreamType,
    info: FrameInfo,
    data: D,
) -> Frame<D> {
    match path {
        FramePath::VideoScale { dst_width, dst_height } => video_frame(
            info,
            dst_width,
            dst_height,
            data,
        ),
        FramePath::CudaConvert { dst_width, dst_height, .. } => video_frame(
            info,
            dst_width,
            dst_height,
            data,
        ),
        FramePath::AudioPassthrough => audio_frame(info, data),
        FramePath::Graph => match stream_type {
            StreamType::Video => video_frame(info, info.width, info.height, data),
            StreamType::Audio => audio_frame(info, data),
        },
    }
}

/// What is wrong with a frame that is to be converted on the GPU.
pub open spec fn cuda_frame_fault(info: FrameInfo, dst_width: i32, dst_height: i32) -> Option<
    Fault,
> {
    if info.pixel_format != PixelFormat::Cuda {
        Some(Fault::NotOnGpu(info.pixel_format))
    } else if info.width != dst_width || info.height != dst_height {
        Some(Fault::WrongSize { width: info.width, height: info.height, dst_width, dst_height })
    } else if info.pitch != info.chroma_pitch {
        Some(Fault::UnequalPitches { pitch: info.pitch, chroma_pitch: info.chroma_pitch })
    } else {
        None
    }
}

impl<D> StreamState<D> {
    pub open spec fn fail(self, fault: Fault) -> (StreamState<D>, Action) {
        (StreamState { phase: Phase::Failed, ..self }, Action::Fail(fault))
    }

    pub open spec fn go(self, phase: Phase, action: Action) -> (StreamState<D>, Action) {
        (StreamState { phase, ..self }, action)
    }

    /// Goes on emptying the decoder, unless there is no room for what it might give.
    pub open spec fn keep_draining(self, drain: Drain) -> (StreamState<D>, Action) {
        if self.slots.is_full() {
            self.drained(drain)
        } else {
            self.go(Phase::Receiving(drain), Action::ReceiveFrame)
        }
    }

    /// The decoder is empty, or nothing that it gives is wanted any more.
    pub open spec fn drained(self, drain: Drain) -> (StreamState<D>, Action) {
        match drain.purpose {
            Purpose::MakeRoom => if drain.received {
                self.go(Phase::Sending, Action::SendPacket)
            } else if self.slots.is_full() {
                self.go(Phase::Idle, Action::PacketDone)
            } else if self.finished {
                self.go(
                    Phase::Receiving(Drain { purpose: Purpose::Rest, received: false }),
                    Action::ReceiveFrame,
                )
            } else {
                self.fail(Fault::DecoderStuck)
            },
            Purpose::Rest => self.go(Phase::Idle, Action::PacketDone),
            Purpose::Flush => match self.path {
                FramePath::CudaConvert { .. } => self.go(
                    Phase::Synchronizing,
                    Action::Synchronize,
                ),
                FramePath::Graph => self.go(
                    Phase::Submitting(Origin::GraphFlush),
                    Action::SubmitEnd,
                ),
                _ => self.go(Phase::Finished, Action::StreamDone),
            },
        }
    }

    /// A frame in its final place in memory is put on its path.
    pub open spec fn route(self, drain: Drain, info: FrameInfo, seek: Seek) -> (
        StreamState<D>,
        Action,
    ) {
        match self.path {
            FramePath::Graph => self.go(
                Phase::Submitting(Origin::Decoder(drain)),
                Action::SubmitFrame,
            ),
            FramePath::CudaConvert { dst_width, dst_height, .. } => match cuda_frame_fault(
                info,
                dst_width,
                dst_height,
            ) {
                Some(fault) => self.fail(fault),
                None => self.place(drain, info, seek),
            },
            _ => self.place(drain, info, seek),
        }
    }

    /// The emptying of the decoder once it has given a frame that was dropped. One that lies behind
    /// the range counts as received: the decoder has moved on.
    pub open spec fn passed_over(self, drain: Drain, pts: Double, seek: Seek) -> Drain {
        Drain {
            purpose: drain.purpose,
            received: drain.received || seek.is_behind(self.slots.stream_type, pts),
        }
    }

    /// A frame gets its slot, or is dropped where there is none for it.
    pub open spec fn place(self, drain: Drain, info: FrameInfo, seek: Seek) -> (
        StreamState<D>,
        Action,
    ) {
        match self.slots.direct_slot(info.pts_seconds, info.nb_samples, seek) {
            Some(slot) => self.go(
                Phase::Converting(drain, info, slot),
                Action::ConvertFrame(slot),
            ),
            None => self.keep_draining(self.passed_over(drain, info.pts_seconds, seek)),
        }
    }

    /// A frame from the filter graph gets its slot, or is dropped where it is not kept.
    pub open spec fn take_filtered(self, origin: Origin, info: FrameInfo, seek: Seek) -> (
        StreamState<D>,
        Action,
    ) {
        if !seek.keeps(self.slots.stream_type, info.pts_seconds) {
            let origin = match origin {
                Origin::Decoder(drain) => Origin::Decoder(
                    self.passed_over(drain, info.pts_seconds, seek),
                ),
                Origin::GraphFlush => Origin::GraphFlush,
            };
            self.go(Phase::Collecting(origin), Action::CollectFrame)
        } else {
            match self.slots.next_slot(info.nb_samples) {
                None => self.out_of_storage(origin),
                Some(slot) => {
                    let next = StreamState {
                        slots: self.slots.taken(slot, info.pts_seconds),
                        ..self
                    };
                    if self.slots.stream_type == StreamType::Video && info.pixel_format
                        != PixelFormat::Rgb24 && info.pixel_format != PixelFormat::Gbrpf32le {
                        next.fail(Fault::UnsupportedPixelFormat(info.pixel_format))
                    } else {
                        next.go(Phase::Storing(origin, info, slot), Action::ConvertFrame(slot))
                    }
                },
            }
        }
    }

    /// There is no room for a frame from the filter graph. What the graph gave together with it is
    /// dropped from the list of frames.
    pub open spec fn out_of_storage(self, origin: Origin) -> (StreamState<D>, Action) {
        let next = StreamState { pending: seq![], ..self };
        match origin {
            Origin::Decoder(drain) => if self.slots.written > 0 {
                next.keep_draining(drain)
            } else {
                next.fail(Fault::NoStorage)
            },
            Origin::GraphFlush => next.go(Phase::Finished, Action::StreamDone),
        }
    }

    /// The filter graph has given all that it had for one frame, or for the end of the input.
    pub open spec fn graph_drained(self, origin: Origin) -> (StreamState<D>, Action) {
        let next = StreamState {
            gathered: self.gathered + self.pending,
            pending: seq![],
            ..self
        };
        match origin {
            Origin::Decoder(drain) => next.keep_draining(
                Drain {
                    purpose: drain.purpose,
                    received: drain.received || self.pending.len() > 0,
                },
            ),
            Origin::GraphFlush => next.go(Phase::Finished, Action::StreamDone),
        }
    }

    /// What becomes of the stream, and what to do next.
    pub open spec fn next(self, event: Event<D>, seek: Seek) -> (StreamState<D>, Action) {
        match (self.phase, event) {
            (Phase::Idle, Event::Packet) => self.go(Phase::Sending, Action::SendPacket),
            (Phase::Idle, Event::EndOfInput) => self.go(Phase::SendingEnd, Action::SendEnd),
            (Phase::Sending, Event::Sent) => self.keep_draining(
                Drain { purpose: Purpose::Rest, received: false },
            ),
            (Phase::Sending, Event::DecoderFull) => self.keep_draining(
                Drain { purpose: Purpose::MakeRoom, received: false },
            ),
            (Phase::Sending, Event::SendFailed) => self.fail(Fault::SendFailed),
            (Phase::SendingEnd, Event::Sent) => self.keep_draining(
                Drain { purpose: Purpose::Flush, received: false },
            ),
            (Phase::SendingEnd, Event::SendFailed) => self.fail(Fault::SendFailed),
            (Phase::Receiving(drain), Event::Received(info)) => if info.pixel_format
                == PixelFormat::Cuda && !(self.path is CudaConvert) {
                self.go(Phase::Downloading(drain), Action::DownloadFrame)
            } else {
                self.route(drain, info, seek)
            },
            (Phase::Receiving(drain), Event::DecoderEmpty) => self.drained(drain),
            (Phase::Receiving(_), Event::ReceiveFailed) => self.fail(Fault::ReceiveFailed),
            (Phase::Downloading(drain), Event::Downloaded(info)) => self.route(drain, info, seek),
            (Phase::Downloading(_), Event::DownloadFailed) => self.fail(Fault::DownloadFailed),
            (Phase::Converting(drain, info, slot), Event::Converted(data)) => (StreamState {
                slots: self.slots.taken(slot, info.pts_seconds),
                gathered: self.gathered.push(
                    placed_frame(self.path, self.slots.stream_type, info, data),
                ),
                ..self
            }).keep_draining(Drain { purpose: drain.purpose, received: true }),
            (Phase::Converting(..), Event::ConvertFailed) => self.fail(Fault::ConvertFailed),
            (Phase::Submitting(origin), Event::Submitted) => self.go(
                Phase::Collecting(origin),
                Action::CollectFrame,
            ),
            (Phase::Submitting(_), Event::SubmitFailed) => self.fail(Fault::SubmitFailed),
            (Phase::Collecting(origin), Event::Filtered(info)) => self.take_filtered(
                origin,
                info,
                seek,
            ),
            (Phase::Collecting(origin), Event::GraphEmpty) => self.graph_drained(origin),
            (Phase::Collecting(_), Event::FilterFailed) => self.fail(Fault::FilterFailed),
            (Phase::Storing(origin, info, slot), Event::Converted(data)) => (StreamState {
                pending: self.pending.push(
                    placed_frame(self.path, self.slots.stream_type, info, data),
                ),
                ..self
            }).go(Phase::Collecting(origin), Action::CollectFrame),
            (Phase::Storing(..), Event::ConvertFailed) => self.fail(Fault::ConvertFailed),
            (Phase::Synchronizing, Event::Synchronized) => self.go(
                Phase::Finished,
                Action::StreamDone,
            ),
            (Phase::Synchronizing, Event::SyncFailed) => self.fail(Fault::SyncFailed),
            _ => self.fail(Fault::OutOfTurn),
        }
    }
}

impl<D> StreamState<D> {
    /// The output is in order, the path fits the stream, and a slot that a frame is being
    /// converted into is the next one, or the last one taken.
    pub open spec fn wf(self) -> bool {
        &&& self.slots.wf()
        &&& self.path.serves(self.slots.stream_type)
        &&& match self.phase {
            Phase::Converting(_, _, slot) => {
                &&& slot.start == self.slots.written
                &&& 0 < slot.len <= self.slots.capacity - self.slots.written
                &&& self.slots.stream_type == StreamType::Video ==> slot.len == 1
            },
            Phase::Storing(_, _, slot) => slot.start + slot.len == self.slots.written,
            _ => true,
        }
    }

    /// A stream whose output is empty and that waits for its first packet.
    pub open spec fn fresh(path: FramePath, stream_type: StreamType, capacity: int) -> StreamState<
        D,
    > {
        StreamState {
            path,
            slots: SlotsState { stream_type, capacity, written: 0, pts: seq![] },
            finished: false,
            gathered: seq![],
            pending: seq![],
            phase: Phase::Idle,
        }
    }
}

/// One stream on its way from packets to output.
pub struct StreamDecoder<D> {
    path: FramePath,
    slots: OutputSlots,
    finished: bool,
    gathered: Vec<Frame<D>>,
    pending: Vec<Frame<D>>,
    phase: Phase,
}

impl<D> View for StreamDecoder<D> {
    type V = StreamState<D>;

    closed spec fn view(&self) -> StreamState<D> {
        StreamState {
            path: self.path,
            slots: self.slots@,
            finished: self.finished,
            gathered: self.gathered@,
            pending: self.pending@,
            phase: self.phase,
        }
    }
}

fn build_video_frame<D>(info: FrameInfo, width: i32, height: i32, data: D) -> (frame: Frame<D>)
    ensures
        frame == video_frame(info, width, height, data),
{
    Frame::Video {
        width,
        height,
        pts: info.pts,
        best_effort_timestamp: info.best_effort_timestamp,
        data,
        time_base: info.time_base,
        pts_seconds: info.pts_seconds,
    }
}

fn build_audio_frame<D>(info: FrameInfo, data: D) -> (frame: Frame<D>)
    ensures
        frame == audio_frame(info, data),
{
    Frame::Audio {
        sample_rate: info.sample_rate,
        nb_samples: info.nb_samples,
        pts: info.pts,
        best_effort_timestamp: info.best_effort_timestamp,
        time_base: info.time_base,
        data,
        pts_seconds: info.pts_seconds,
    }
}

impl<D> StreamDecoder<D> {
    /// A stream whose output is empty and that waits for its first packet.
    pub fn new(path: FramePath, stream_type: StreamType, capacity: usize) -> (stream: StreamDecoder<
        D,
    >)
        requires
            path.serves(stream_type),
        ensures
            stream@.wf(),
            stream@ == StreamState::<D>::fresh(path, stream_type, capacity as int),
    {
        let stream = StreamDecoder {
            path,
            slots: OutputSlots::new(stream_type, capacity),
            finished: false,
            gathered: Vec::new(),
            pending: Vec::new(),
            phase: Phase::Idle,
        };
        assert(stream@.gathered =~= seq![]);
        assert(stream@.pending =~= seq![]);
        stream
    }

    pub fn is_finished(&self) -> (r: bool)
        ensures
            r == self@.finished,
    {
        self.finished
    }

    /// Wants no more packets.
    pub fn finish(&mut self)
        ensures
            final(self)@ == (StreamState { finished: true, ..old(self)@ }),
    {
        self.finished = true;
    }

    /// The frames that came of the packet, which are then gone from here.
    pub fn take_gathered(&mut self) -> (frames: Vec<Frame<D>>)
        ensures
            frames@ == old(self)@.gathered,
            final(self)@ == (StreamState { gathered: seq![], ..old(self)@ }),
    {
        let mut frames: Vec<Frame<D>> = Vec::new();
        frames.append(&mut self.gathered);
        assert(frames@ =~= old(self)@.gathered);
        assert(self@.gathered =~= seq![]);
        frames
    }

    /// The output as it was filled.
    pub fn into_slots(self) -> (slots: OutputSlots)
        ensures
            slots@ == self@.slots,
    {
        self.slots
    }

    fn fail(&mut self, fault: Fault) -> (action: Action)
        ensures
            (final(self)@, action) == old(self)@.fail(fault),
    {
        self.phase = Phase::Failed;
        Action::Fail(fault)
    }

    fn keep_draining(&mut self, drain: Drain) -> (action: Action)
        ensures
            (final(self)@, action) == old(self)@.keep_draining(drain),
    {
        if self.slots.has_finished_decoding() {
            self.drained(drain)
        } else {
            self.phase = Phase::Receiving(drain);
            Action::ReceiveFrame
        }
    }

    fn drained(&mut self, drain: Drain) -> (action: Action)
        ensures
            (final(self)@, action) == old(self)@.drained(drain),
    {
        match drain.purpose {
            Purpose::MakeRoom => {
                if drain.received {
                    self.phase = Phase::Sending;
                    Action::SendPacket
                } else if self.slots.has_finished_decoding() {
                    self.phase = Phase::Idle;
                    Action::PacketDone
                } else if self.finished {
                    self.phase = Phase::Receiving(
                        Drain { purpose: Purpose::Rest, received: false },
                    );
                    Action::ReceiveFrame
                } else {
                    self.fail(Fault::DecoderStuck)
                }
            },
            Purpose::Rest => {
                self.phase = Phase::Idle;
                Action::PacketDone
            },
            Purpose::Flush => match self.path {
                FramePath::CudaConvert { .. } => {
                    self.phase = Phase::Synchronizing;
                    Action::Synchronize
                },
                FramePath::Graph => {
                    self.phase = Phase::Submitting(Origin::GraphFlush);
                    Action::SubmitEnd
                },
                _ => {
                    self.phase = Phase::Finished;
                    Action::StreamDone
                },
            },
        }
    }

    fn passed_over(&self, drain: Drain, pts: &Double, seek: &Seek) -> (r: Drain)
        ensures
            r == self@.passed_over(drain, *pts, *seek),
    {
        let behind = !seek.wants(self.slots.stream_type(), pts) && !seek.before_start(pts);
        Drain { purpose: drain.purpose, received: drain.received || behind }
    }

    fn place(&mut self, drain: Drain, info: FrameInfo, seek: &Seek) -> (action: Action)
        requires
            old(self)@.slots.wf(),
        ensures
            (final(self)@, action) == old(self)@.place(drain, info, *seek),
    {
        match self.slots.direct_slot(&info.pts_seconds, info.nb_samples, seek) {
            Some(slot) => {
                self.phase = Phase::Converting(drain, info, slot);
                Action::ConvertFrame(slot)
            },
            None => {
                let drain = self.passed_over(drain, &info.pts_seconds, seek);
                self.keep_draining(drain)
            },
        }
    }

    fn route(&mut self, drain: Drain, info: FrameInfo, seek: &Seek) -> (action: Action)
        requires
            old(self)@.slots.wf(),
        ensures
            (final(self)@, action) == old(self)@.route(drain, info, *seek),
    {
        match self.path {
            FramePath::Graph => {
                self.phase = Phase::Submitting(Origin::Decoder(drain));
                Action::SubmitFrame
            },
            FramePath::CudaConvert { dst_width, dst_height, .. } => {
                if info.pixel_format != PixelFormat::Cuda {
                    self.fail(Fault::NotOnGpu(info.pixel_format))
                } else if info.width != dst_width || info.height != dst_height {
                    self.fail(
                        Fault::WrongSize {
                            width: info.width,
                            height: info.height,
                            dst_width,
                            dst_height,
                        },
                    )
                } else if info.pitch != info.chroma_pitch {
                    self.fail(
                        Fault::UnequalPitches {
                            pitch: info.pitch,
                            chroma_pitch: info.chroma_pitch,
                        },
                    )
                } else {
                    self.place(drain, info, seek)
                }
            },
            _ => self.place(drain, info, seek),
        }
    }

    fn take_filtered(&mut self, origin: Origin, info: FrameInfo, seek: &Seek) -> (action: Action)
        requires
            old(self)@.slots.wf(),
        ensures
            (final(self)@, action) == old(self)@.take_filtered(origin, info, *seek),
    {
        if !seek.wants(self.slots.stream_type(), &info.pts_seconds) {
            let origin = match origin {
                Origin::Decoder(drain) => Origin::Decoder(
                    self.passed_over(drain, &info.pts_seconds, seek),
                ),
                Origin::GraphFlush => Origin::GraphFlush,
            };
            self.phase = Phase::Collecting(origin);
            return Action::CollectFrame;
        }
        match self.slots.next_slot(info.nb_samples) {
            None => self.out_of_storage(origin),
            Some(slot) => {
                self.slots.take(slot, info.pts_seconds);
                if self.slots.stream_type() == StreamType::Video && info.pixel_format
                    != PixelFormat::Rgb24 && info.pixel_format != PixelFormat::Gbrpf32le {
                    self.fail(Fault::UnsupportedPixelFormat(info.pixel_format))
                } else {
                    self.phase = Phase::Storing(origin, info, slot);
                    Action::ConvertFrame(slot)
                }
            },
        }
    }

    fn out_of_storage(&mut self, origin: Origin) -> (action: Action)
        ensures
            (final(self)@, action) == old(self)@.out_of_storage(origin),
    {
        self.pending.clear();
        assert(self@.pending =~= seq![]);
        match origin {
            Origin::Decoder(drain) => {
                if self.slots.written() > 0 {
                    self.keep_draining(drain)
                } else {
                    self.fail(Fault::NoStorage)
                }
            },
            Origin::GraphFlush => {
                self.phase = Phase::Finished;
                Action::StreamDone
            },
        }
    }

    fn graph_drained(&mut self, origin: Origin) -> (action: Action)
        ensures
            (final(self)@, action) == old(self)@.graph_drained(origin),
    {
        let some = self.pending.len() > 0;
        self.gathered.append(&mut self.pending);
        assert(self@.pending =~= seq![]);
        match origin {
            Origin::Decoder(drain) => self.keep_draining(
                Drain { purpose: drain.purpose, received: drain.received || some },
            ),
            Origin::GraphFlush => {
                self.phase = Phase::Finished;
                Action::StreamDone
            },
        }
    }

    fn build_frame(&self, info: FrameInfo, data: D) -> (frame: Frame<D>)
        ensures
            frame == placed_frame(self@.path, self@.slots.stream_type, info, data),
    {
        match self.path {
            FramePath::VideoScale { dst_width, dst_height } => build_video_frame(
                info,
                dst_width,
                dst_height,
                data,
            ),
            FramePath::CudaConvert { dst_width, dst_height, .. } => build_video_frame(
                info,
                dst_width,
                dst_height,
                data,
            ),
            FramePath::AudioPassthrough => build_audio_frame(info, data),
            FramePath::Graph => match self.slots.stream_type() {
                StreamType::Video => build_video_frame(info, info.width, info.height, data),
                StreamType::Audio => build_audio_frame(info, data),
            },
        }
    }

    /// Takes in what came of the last action, and says what to do next.
    pub fn step(&mut self, event: Event<D>, seek: &Seek) -> (action: Action)
        requires
            old(self)@.wf(),
        ensures
            final(self)@.wf(),
            (final(self)@, action) == old(self)@.next(event, *seek),
    {
        proof {
            law_step_keeps_order(self@, event, *seek);
        }
        match (self.phase, event) {
            (Phase::Idle, Event::Packet) => {
                self.phase = Phase::Sending;
                Action::SendPacket
            },
            (Phase::Idle, Event::EndOfInput) => {
                self.phase = Phase::SendingEnd;
                Action::SendEnd
            },
            (Phase::Sending, Event::Sent) => self.keep_draining(
                Drain { purpose: Purpose::Rest, received: false },
            ),
            (Phase::Sending, Event::DecoderFull) => self.keep_draining(
                Drain { purpose: Purpose::MakeRoom, received: false },
            ),
            (Phase::Sending, Event::SendFailed) => self.fail(Fault::SendFailed),
            (Phase::SendingEnd, Event::Sent) => self.keep_draining(
                Drain { purpose: Purpose::Flush, received: false },
            ),
            (Phase::SendingEnd, Event::SendFailed) => self.fail(Fault::SendFailed),
            (Phase::Receiving(drain), Event::Received(info)) => {
                let stays = matches!(self.path, FramePath::CudaConvert { .. });
                if info.pixel_format == PixelFormat::Cuda && !stays {
                    self.phase = Phase::Downloading(drain);
                    Action::DownloadFrame
                } else {
                    self.route(drain, info, seek)
                }
            },
            (Phase::Receiving(drain), Event::DecoderEmpty) => self.drained(drain),
            (Phase::Receiving(_), Event::ReceiveFailed) => self.fail(Fault::ReceiveFailed),
            (Phase::Downloading(drain), Event::Downloaded(info)) => self.route(drain, info, seek),
            (Phase::Downloading(_), Event::DownloadFailed) => self.fail(Fault::DownloadFailed),
            (Phase::Converting(drain, info, slot), Event::Converted(data)) => {
                let frame = self.build_frame(info, data);
                self.slots.take(slot, info.pts_seconds);
                self.gathered.push(frame);
                self.keep_draining(Drain { purpose: drain.purpose, received: true })
            },
            (Phase::Converting(..), Event::ConvertFailed) => self.fail(Fault::ConvertFailed),
            (Phase::Submitting(origin), Event::Submitted) => {
                self.phase = Phase::Collecting(origin);
                Action::CollectFrame
            },
            (Phase::Submitting(_), Event::SubmitFailed) => self.fail(Fault::SubmitFailed),
            (Phase::Collecting(origin), Event::Filtered(info)) => self.take_filtered(
                origin,
                info,
                seek,
            ),
            (Phase::Collecting(origin), Event::GraphEmpty) => self.graph_drained(origin),
            (Phase::Collecting(_), Event::FilterFailed) => self.fail(Fault::FilterFailed),
            (Phase::Storing(origin, info, slot), Event::Converted(data)) => {
                let frame = self.build_frame(info, data);
                self.pending.push(frame);
                self.phase = Phase::Collecting(origin);
                Action::CollectFrame
            },
            (Phase::Storing(..), Event::ConvertFailed) => self.fail(Fault::ConvertFailed),
            (Phase::Synchronizing, Event::Synchronized) => {
                self.phase = Phase::Finished;
                Action::StreamDone
            },
            (Phase::Synchronizing, Event::SyncFailed) => self.fail(Fault::SyncFailed),
            _ => self.fail(Fault::OutOfTurn),
        }
    }
}

/// `result` is a state in order with nothing lost from the output of `before`, and a slot that is
/// handed out is the next one.
pub open spec fn goes_on_in_order<D>(
    before: StreamState<D>,
    result: (StreamState<D>, Action),
) -> bool {
    &&& result.0.wf()
    &&& result.0.slots.written >= before.slots.written
    &&& result.0.slots.capacity == before.slots.capacity
    &&& result.0.slots.stream_type == before.slots.stream_type
    &&& result.1 matches Action::ConvertFrame(slot) ==> slot.start == before.slots.written
        && slot.start + slot.len <= before.slots.capacity
}

proof fn lemma_drained_in_order<D>(state: StreamState<D>, drain: Drain)
    requires
        state.slots.wf(),
        state.path.serves(state.slots.stream_type),
    ensures
        goes_on_in_order(state, state.drained(drain)),
        goes_on_in_order(state, state.keep_draining(drain)),
{
}

proof fn lemma_route_in_order<D>(state: StreamState<D>, drain: Drain, info: FrameInfo, seek: Seek)
    requires
        state.slots.wf(),
        state.path.serves(state.slots.stream_type),
    ensures
        goes_on_in_order(state, state.route(drain, info, seek)),
{
    lemma_drained_in_order(state, state.passed_over(drain, info.pts_seconds, seek));
}

proof fn lemma_filtered_in_order<D>(
    state: StreamState<D>,
    origin: Origin,
    info: FrameInfo,
    seek: Seek,
)
    requires
        state.slots.wf(),
        state.path.serves(state.slots.stream_type),
    ensures
        goes_on_in_order(state, state.take_filtered(origin, info, seek)),
{
    if let Origin::Decoder(drain) = origin {
        lemma_drained_in_order(StreamState { pending: seq![], ..state }, drain);
    }
}

/// Whatever comes, the output stays in order: no more is taken than there is room for, each row of
/// a video has its time, and a frame is only ever converted into a slot inside the output.
pub proof fn law_step_keeps_order<D>(state: StreamState<D>, event: Event<D>, seek: Seek)
    requires
        state.wf(),
    ensures
        goes_on_in_order(state, state.next(event, seek)),
{
    match (state.phase, event) {
        (Phase::Sending, Event::Sent) => {
            lemma_drained_in_order(state, Drain { purpose: Purpose::Rest, received: false });
        },
        (Phase::Sending, Event::DecoderFull) => {
            lemma_drained_in_order(state, Drain { purpose: Purpose::MakeRoom, received: false });
        },
        (Phase::SendingEnd, Event::Sent) => {
            lemma_drained_in_order(state, Drain { purpose: Purpose::Flush, received: false });
        },
        (Phase::Receiving(drain), Event::Received(info)) => {
            lemma_route_in_order(state, drain, info, seek);
        },
        (Phase::Receiving(drain), Event::DecoderEmpty) => {
            lemma_drained_in_order(state, drain);
        },
        (Phase::Downloading(drain), Event::Downloaded(info)) => {
            lemma_route_in_order(state, drain, info, seek);
        },
        (Phase::Converting(drain, info, slot), Event::Converted(data)) => {
            lemma_drained_in_order(
                StreamState {
                    slots: state.slots.taken(slot, info.pts_seconds),
                    gathered: state.gathered.push(
                        placed_frame(state.path, state.slots.stream_type, info, data),
                    ),
                    ..state
                },
                Drain { purpose: drain.purpose, received: true },
            );
        },
        (Phase::Collecting(origin), Event::Filtered(info)) => {
            lemma_filtered_in_order(state, origin, info, seek);
        },
        (Phase::Collecting(origin), Event::GraphEmpty) => {
            lemma_graph_drained_in_order(state, origin);
        },
        _ => {},
    }
}

proof fn lemma_graph_drained_in_order<D>(state: StreamState<D>, origin: Origin)
    requires
        state.slots.wf(),
        state.path.serves(state.slots.stream_type),
    ensures
        goes_on_in_order(state, state.graph_drained(origin)),
{
    if let Origin::Decoder(drain) = origin {
        lemma_drained_in_order(
            StreamState { gathered: state.gathered + state.pending, pending: seq![], ..state },
            Drain {
                purpose: drain.purpose,
                received: drain.received || state.pending.len() > 0,
            },
        );
    }
}

} // verus!
