//! How packets are given to the streams that are decoded, and when decoding ends.
use vstd::prelude::*;

use crate::decoder::frame::{filter_frames_seek, frames_in_range, Frame, Seek, StreamType};
use crate::decoder::stream::{Action, Event, StreamDecoder, StreamState};
use crate::double::Double;

verus! {

/// What is known of a decoded stream besides its data.
#[derive(Clone, Copy, Debug, PartialEq, Eq, Structural)]
pub enum StreamMetadata {
    Video { frame_rate: Double },
    Audio { sample_rate: u32 },
}

/// Where decoding stands.
#[derive(Clone, Copy, Debug, PartialEq, Eq, Structural)]
pub enum Stage {
    /// A packet is being read.
    Reading,
    /// A packet is being decoded by the stream at this place.
    Decoding(usize),
    /// The input is at its end, and the stream at this place is being emptied.
    Flushing(usize),
    Done,
    Failed,
}

/// What came of what was asked for.
pub enum SessionEvent<D> {
    /// A packet of the stream with this index, and when what it holds is shown, in seconds.
    Packet { stream_index: usize, pts_seconds: Double },
    EndOfInput,
    ReadFailed,
    /// What came of a stream's action.
    Stream(Event<D>),
}

/// What to do next.
#[derive(Clone, Copy, Debug, PartialEq, Eq, Structural)]
pub enum SessionAction {
    ReadPacket,
    /// Do this for the stream at this place.
    Stream { place: usize, action: Action },
    Done,
    /// A packet could not be read.
    ReadFailed,
    /// What came is not what decoding waits for.
    OutOfTurn,
}

/// What is known of the streams that are decoded.
pub struct SessionState<D> {
    /// Their indices in the input.
    pub indices: Seq<usize>,
    pub streams: Seq<StreamState<D>>,
    /// The frames that are handed out for each of them.
    pub frames: Seq<Seq<Frame<D>>>,
    pub seek: Seek,
    pub stage: Stage,
}

/// The first place at which `index` stands, or the length where it does not.
pub open spec fn first_place(indices: Seq<usize>, index: usize) -> int
    decreases indices.len(),
{
    if indices.len() == 0 {
        0
    } else if first_place(indices.drop_last(), index) < indices.len() - 1 {
        first_place(indices.drop_last(), index)
    } else if indices.last() == index {
        indices.len() - 1
    } else {
        indices.len() as int
    }
}

pub proof fn lemma_first_place(indices: Seq<usize>, index: usize)
    ensures
        0 <= first_place(indices, index) <= indices.len(),
        first_place(indices, index) < indices.len() ==> indices[first_place(indices, index)]
            == index,
        forall|i: int|
            0 <= i < first_place(indices, index) ==> #[trigger] indices[i] != index,
    decreases indices.len(),
{
    if indices.len() > 0 {
        let rest = indices.drop_last();
        lemma_first_place(rest, index);
        assert forall|i: int| 0 <= i < first_place(indices, index) implies #[trigger] indices[i]
            != index by {
            if i < rest.len() {
                assert(rest[i] == indices[i]);
            }
        }
    }
}

impl<D> SessionState<D> {
    /// Nothing has been read yet.
    pub open spec fn begun(
        indices: Seq<usize>,
        streams: Seq<StreamState<D>>,
        seek: Seek,
    ) -> SessionState<D> {
        SessionState {
            indices,
            streams,
            frames: Seq::new(indices.len(), |k: int| seq![]),
            seek,
            stage: Stage::Reading,
        }
    }

    /// There is a state and a list of frames for each stream, the outputs are in order, and the
    /// streams wait for what the stage is about.
    pub open spec fn wf(self) -> bool {
        &&& self.streams.len() == self.indices.len()
        &&& self.frames.len() == self.indices.len()
        &&& self.indices.len() <= usize::MAX
        &&& forall|k: int| 0 <= k < self.streams.len() ==> (#[trigger] self.streams[k]).wf()
        &&& match self.stage {
            Stage::Decoding(k) => k < self.streams.len(),
            Stage::Flushing(k) => k < self.streams.len(),
            _ => true,
        }
    }

    /// Whether the stream at place `k` takes packets with this index.
    pub open spec fn takes(self, k: int, stream_index: usize) -> bool {
        self.indices[k] == stream_index && !self.streams[k].finished
    }

    /// No stream wants more packets.
    pub open spec fn all_finished(self) -> bool {
        forall|k: int| 0 <= k < self.streams.len() ==> (#[trigger] self.streams[k]).finished
    }

    /// `k` is the first place of a stream that takes packets with this index; it is the number of
    /// streams where there is none.
    pub open spec fn is_taker(self, k: int, stream_index: usize) -> bool {
        &&& 0 <= k <= self.streams.len()
        &&& k < self.streams.len() ==> self.takes(k, stream_index)
        &&& forall|j: int| 0 <= j < k ==> !#[trigger] self.takes(j, stream_index)
    }

    pub open spec fn with_stream(self, k: int, stream: StreamState<D>) -> SessionState<D> {
        SessionState { streams: self.streams.update(k, stream), ..self }
    }

    /// The frames that the stream at place `k` has gathered are handed out, as far as they lie in
    /// the range that is asked for.
    pub open spec fn collected(self, k: int) -> SessionState<D> {
        let target = first_place(self.indices, self.indices[k]);
        SessionState {
            streams: self.streams.update(
                k,
                StreamState { gathered: seq![], ..self.streams[k] },
            ),
            frames: self.frames.update(
                target,
                self.frames[target] + frames_in_range(self.streams[k].gathered, self.seek),
            ),
            ..self
        }
    }

    /// The stream at place `k` is emptied; after the last one decoding is done.
    pub open spec fn flush(self, k: int) -> (SessionState<D>, SessionAction) {
        if k >= self.streams.len() {
            (SessionState { stage: Stage::Done, ..self }, SessionAction::Done)
        } else {
            let (stream, action) = self.streams[k].next(Event::EndOfInput, self.seek);
            (
                SessionState { stage: Stage::Flushing(k as usize), ..self.with_stream(k, stream) },
                SessionAction::Stream { place: k as usize, action },
            )
        }
    }

    /// A packet is dealt with: the next one is read, unless no stream wants more.
    pub open spec fn after_packet(self) -> (SessionState<D>, SessionAction) {
        if self.all_finished() {
            self.flush(0)
        } else {
            (SessionState { stage: Stage::Reading, ..self }, SessionAction::ReadPacket)
        }
    }

    /// A packet is given to the stream at place `k`, which wants no more once the packet lies
    /// behind the end of the range.
    pub open spec fn deliver(self, k: int, pts_seconds: Double) -> (
        SessionState<D>,
        SessionAction,
    ) {
        let before = StreamState {
            finished: self.streams[k].finished || self.seek.is_late(pts_seconds),
            ..self.streams[k]
        };
        let (stream, action) = before.next(Event::Packet, self.seek);
        (
            SessionState { stage: Stage::Decoding(k as usize), ..self.with_stream(k, stream) },
            SessionAction::Stream { place: k as usize, action },
        )
    }

    /// A stream goes on, or has ended what it was asked for.
    pub open spec fn advance(self, k: int, event: Event<D>) -> (SessionState<D>, SessionAction) {
        let (stream, action) = self.streams[k].next(event, self.seek);
        let next = self.with_stream(k, stream);
        match action {
            Action::PacketDone => next.collected(k).after_packet(),
            Action::StreamDone => next.collected(k).flush(k + 1),
            Action::Fail(_) => (
                SessionState { stage: Stage::Failed, ..next },
                SessionAction::Stream { place: k as usize, action },
            ),
            _ => (next, SessionAction::Stream { place: k as usize, action }),
        }
    }

    pub open spec fn out_of_turn(self) -> (SessionState<D>, SessionAction) {
        (SessionState { stage: Stage::Failed, ..self }, SessionAction::OutOfTurn)
    }
}

/// What becomes of the streams, and what to do next.
pub open spec fn session_next<D>(
    state: SessionState<D>,
    event: SessionEvent<D>,
    result: (SessionState<D>, SessionAction),
) -> bool {
    match (state.stage, event) {
        (Stage::Reading, SessionEvent::Packet { stream_index, pts_seconds }) => exists|k: int|
            #[trigger] state.is_taker(k, stream_index) && result == if k < state.streams.len() {
                state.deliver(k, pts_seconds)
            } else {
                state.after_packet()
            },
        (Stage::Reading, SessionEvent::EndOfInput) => result == state.flush(0),
        (Stage::Reading, SessionEvent::ReadFailed) => result == (
            SessionState { stage: Stage::Failed, ..state },
            SessionAction::ReadFailed,
        ),
        (Stage::Decoding(k), SessionEvent::Stream(event)) => result == state.advance(
            k as int,
            event,
        ),
        (Stage::Flushing(k), SessionEvent::Stream(event)) => result == state.advance(
            k as int,
            event,
        ),
        _ => result == state.out_of_turn(),
    }
}

/// The streams of one input on their way from packets to output.
pub struct DecodeSession<D> {
    indices: Vec<usize>,
    streams: Vec<StreamDecoder<D>>,
    frames: Vec<Vec<Frame<D>>>,
    seek: Seek,
    stage: Stage,
}

pub open spec fn stream_states<D>(streams: Seq<StreamDecoder<D>>) -> Seq<StreamState<D>> {
    streams.map_values(|s: StreamDecoder<D>| s@)
}

pub open spec fn frame_lists<D>(frames: Seq<Vec<Frame<D>>>) -> Seq<Seq<Frame<D>>> {
    frames.map_values(|f: Vec<Frame<D>>| f@)
}

impl<D> View for DecodeSession<D> {
    type V = SessionState<D>;

    closed spec fn view(&self) -> SessionState<D> {
        SessionState {
            indices: self.indices@,
            streams: stream_states(self.streams@),
            frames: frame_lists(self.frames@),
            seek: self.seek,
            stage: self.stage,
        }
    }
}

impl<D> DecodeSession<D> {
    /// Streams that are to be decoded, each with its index in the input. Reading begins.
    pub fn new(indices: Vec<usize>, streams: Vec<StreamDecoder<D>>, seek: Seek) -> (session:
        DecodeSession<D>)
        requires
            indices@.len() == streams@.len(),
            forall|k: int| 0 <= k < streams@.len() ==> (#[trigger] streams@[k])@.wf(),
        ensures
            session@.wf(),
            session@ == SessionState::begun(indices@, stream_states(streams@), seek),
    {
        let mut frames: Vec<Vec<Frame<D>>> = Vec::new();
        let n: usize = indices.len();
        let mut k: usize = 0;
        while k < n
            invariant
                k <= n,
                frames@.len() == k,
                forall|j: int| 0 <= j < k ==> (#[trigger] frames@[j])@.len() == 0,
            decreases n - k,
        {
            frames.push(Vec::new());
            k = k + 1;
        }
        proof {
            assert forall|j: int| 0 <= j < n implies frames@[j]@ =~= Seq::<Frame<D>>::empty() by {
                assert(frames@[j]@.len() == 0);
            }
        }
        let session = DecodeSession { indices, streams, frames, seek, stage: Stage::Reading };
        assert(session@.frames =~= Seq::new(indices@.len(), |k: int| seq![]));
        session
    }

    /// The first stream that takes packets with this index.
    fn taker(&self, stream_index: usize) -> (k: usize)
        requires
            self@.wf(),
        ensures
            self@.is_taker(k as int, stream_index),
    {
        let mut k: usize = 0;
        while k < self.streams.len()
            invariant
                self@.wf(),
                k <= self.streams@.len(),
                forall|j: int| 0 <= j < k ==> !#[trigger] self@.takes(j, stream_index),
            decreases self.streams@.len() - k,
        {
            if self.indices[k] == stream_index && !self.streams[k].is_finished() {
                return k;
            }
            k = k + 1;
        }
        k
    }

    fn all_finished(&self) -> (r: bool)
        ensures
            r == self@.all_finished(),
    {
        let mut k: usize = 0;
        while k < self.streams.len()
            invariant
                k <= self.streams@.len(),
                forall|j: int| 0 <= j < k ==> (#[trigger] self@.streams[j]).finished,
            decreases self.streams@.len() - k,
        {
            if !self.streams[k].is_finished() {
                assert(!self@.streams[k as int].finished);
                return false;
            }
            k = k + 1;
        }
        true
    }

    fn step_stream(&mut self, k: usize, event: Event<D>) -> (action: Action)
        requires
            old(self)@.wf(),
            k < old(self)@.streams.len(),
        ensures
            ({
                let (stream, expected) = old(self)@.streams[k as int].next(event, old(self)@.seek);
                &&& action == expected
                &&& final(self)@ == old(self)@.with_stream(k as int, stream)
            }),
            final(self)@.wf(),
    {
        let ghost before = self@;
        let seek = self.seek;
        assert(before.streams[k as int].wf());
        let action = self.streams[k].step(event, &seek);
        proof {
            let (stream, expected) = before.streams[k as int].next(event, before.seek);
            assert(self@.streams =~= before.streams.update(k as int, stream));
        }
        action
    }

    fn collect(&mut self, k: usize)
        requires
            old(self)@.wf(),
            k < old(self)@.streams.len(),
        ensures
            final(self)@ == old(self)@.collected(k as int),
            final(self)@.wf(),
    {
        let ghost before = self@;
        assert(before.streams[k as int].wf());
        let gathered = self.streams[k].take_gathered();
        let mut kept = filter_frames_seek(gathered, &self.seek);
        let index: usize = self.indices[k];
        assert(self.indices@[k as int] == index);
        let target: usize = first_place_of(&self.indices, index);
        self.frames[target].append(&mut kept);
        proof {
            let expected = before.collected(k as int);
            assert(self@.streams =~= expected.streams);
            assert(self@.frames =~= expected.frames);
        }
    }

    fn flush(&mut self, k: usize) -> (action: SessionAction)
        requires
            old(self)@.wf(),
            k <= old(self)@.streams.len(),
        ensures
            (final(self)@, action) == old(self)@.flush(k as int),
            final(self)@.wf(),
    {
        if k >= self.streams.len() {
            self.stage = Stage::Done;
            return SessionAction::Done;
        }
        let action = self.step_stream(k, Event::EndOfInput);
        self.stage = Stage::Flushing(k);
        SessionAction::Stream { place: k, action }
    }

    fn after_packet(&mut self) -> (action: SessionAction)
        requires
            old(self)@.wf(),
        ensures
            (final(self)@, action) == old(self)@.after_packet(),
            final(self)@.wf(),
    {
        if self.all_finished() {
            self.flush(0)
        } else {
            self.stage = Stage::Reading;
            SessionAction::ReadPacket
        }
    }

    fn deliver(&mut self, k: usize, pts_seconds: &Double) -> (action: SessionAction)
        requires
            old(self)@.wf(),
            k < old(self)@.streams.len(),
        ensures
            (final(self)@, action) == old(self)@.deliver(k as int, *pts_seconds),
            final(self)@.wf(),
    {
        let ghost before = self@;
        if self.seek.after_end(pts_seconds) {
            self.streams[k].finish();
        }
        let ghost told = StreamState {
            finished: before.streams[k as int].finished || before.seek.is_late(*pts_seconds),
            ..before.streams[k as int]
        };
        proof {
            assert(before.streams[k as int].wf());
            assert(self@.streams =~= before.streams.update(k as int, told));
        }
        let action = self.step_stream(k, Event::Packet);
        self.stage = Stage::Decoding(k);
        proof {
            let (stream, expected) = told.next(Event::Packet, before.seek);
            assert(self@.streams =~= before.streams.update(k as int, stream));
        }
        SessionAction::Stream { place: k, action }
    }

    fn advance(&mut self, k: usize, event: Event<D>) -> (action: SessionAction)
        requires
            old(self)@.wf(),
            k < old(self)@.streams.len(),
        ensures
            (final(self)@, action) == old(self)@.advance(k as int, event),
            final(self)@.wf(),
    {
        let action = self.step_stream(k, event);
        match action {
            Action::PacketDone => {
                self.collect(k);
                self.after_packet()
            },
            Action::StreamDone => {
                self.collect(k);
                self.flush(k + 1)
            },
            Action::Fail(_) => {
                self.stage = Stage::Failed;
                SessionAction::Stream { place: k, action }
            },
            _ => SessionAction::Stream { place: k, action },
        }
    }

    /// Takes in what came of the last action, and says what to do next.
    pub fn step(&mut self, event: SessionEvent<D>) -> (action: SessionAction)
        requires
            old(self)@.wf(),
        ensures
            final(self)@.wf(),
            session_next(old(self)@, event, (final(self)@, action)),
    {
        match (self.stage, event) {
            (Stage::Reading, SessionEvent::Packet { stream_index, pts_seconds }) => {
                let k: usize = self.taker(stream_index);
                assert(old(self)@.is_taker(k as int, stream_index));
                if k < self.streams.len() {
                    self.deliver(k, &pts_seconds)
                } else {
                    self.after_packet()
                }
            },
            (Stage::Reading, SessionEvent::EndOfInput) => self.flush(0),
            (Stage::Reading, SessionEvent::ReadFailed) => {
                self.stage = Stage::Failed;
                SessionAction::ReadFailed
            },
            (Stage::Decoding(k), SessionEvent::Stream(event)) => self.advance(k, event),
            (Stage::Flushing(k), SessionEvent::Stream(event)) => self.advance(k, event),
            _ => {
                self.stage = Stage::Failed;
                SessionAction::OutOfTurn
            },
        }
    }
}

/// The last place at which `index` stands.
pub open spec fn last_place(indices: Seq<usize>, index: usize) -> Option<int>
    decreases indices.len(),
{
    if indices.len() == 0 {
        None
    } else if indices.last() == index {
        Some(indices.len() - 1)
    } else {
        last_place(indices.drop_last(), index)
    }
}

pub proof fn lemma_last_place(indices: Seq<usize>, index: usize)
    ensures
        last_place(indices, index) matches Some(k) ==> 0 <= k < indices.len() && indices[k]
            == index,
        indices.contains(index) ==> last_place(indices, index) is Some,
    decreases indices.len(),
{
    if indices.len() > 0 && indices.last() != index {
        lemma_last_place(indices.drop_last(), index);
        if indices.contains(index) {
            let i = choose|i: int| 0 <= i < indices.len() && indices[i] == index;
            assert(indices.drop_last()[i] == index);
        }
    }
}

/// The output of the stream at `place`, of which the first `extent` rows or samples are filled.
#[derive(Clone, Copy, Debug, PartialEq, Eq, Structural)]
pub struct FilledOutput {
    pub place: usize,
    pub extent: usize,
}

/// What decoding has made of a stream.
pub struct DecodedStream<D> {
    pub src_stream_index: usize,
    pub decoded_frames: Vec<Frame<D>>,
    pub data: Option<FilledOutput>,
    /// For each filled row of a video, when it is shown, in seconds.
    pub frame_pts: Vec<Double>,
    pub metadata: StreamMetadata,
}

impl<D> DecodedStream<D> {
    pub fn stream_type(&self) -> (r: StreamType)
        ensures
            r == match self.metadata {
                StreamMetadata::Video { .. } => StreamType::Video,
                StreamMetadata::Audio { .. } => StreamType::Audio,
            },
    {
        match self.metadata {
            StreamMetadata::Video { .. } => StreamType::Video,
            StreamMetadata::Audio { .. } => StreamType::Audio,
        }
    }
}

/// What is handed out for the stream at place `j`. Where an index stands more than once, its first
/// place gets the output of its last one, and the others get none.
pub open spec fn is_result<D>(
    state: SessionState<D>,
    metadata: Seq<StreamMetadata>,
    j: int,
    result: DecodedStream<D>,
) -> bool {
    &&& result.src_stream_index == state.indices[j]
    &&& result.decoded_frames@ == state.frames[j]
    &&& result.metadata == metadata[j]
    &&& is_output(state, state.indices, j, result)
}

/// What is handed out for the stream at place `j` once the streams of `seen` have been looked at.
pub open spec fn is_output<D>(
    state: SessionState<D>,
    seen: Seq<usize>,
    j: int,
    result: DecodedStream<D>,
) -> bool {
    match last_place(seen, state.indices[j]) {
        Some(k) if first_place(state.indices, state.indices[j]) == j => {
            &&& result.data == Some(
                FilledOutput {
                    place: k as usize,
                    extent: state.streams[k].slots.written as usize,
                },
            )
            &&& result.frame_pts@ == state.streams[k].slots.pts
        },
        _ => result.data is None && result.frame_pts@.len() == 0,
    }
}

impl<D> DecodeSession<D> {
    /// What decoding has made of the streams, in their order.
    pub fn into_results(self, metadata: Vec<StreamMetadata>) -> (results: Vec<DecodedStream<D>>)
        requires
            self@.wf(),
            metadata@.len() == self@.indices.len(),
        ensures
            results@.len() == self@.indices.len(),
            forall|j: int|
                0 <= j < results@.len() ==> is_result(
                    self@,
                    metadata@,
                    j,
                    #[trigger] results@[j],
                ),
    {
        let ghost state = self@;
        let n: usize = self.indices.len();
        let mut results: Vec<DecodedStream<D>> = Vec::new();
        let indices = self.indices;
        let frames = self.frames;
        let streams = self.streams;
        for list in it: frames
            invariant
                it.seq() == self.frames@,
                state == self@,
                state.frames == frame_lists(self.frames@),
                state.indices == indices@,
                n == indices@.len(),
                n == self.frames@.len(),
                metadata@.len() == n,
                results@.len() == it.index(),
                forall|j: int|
                    0 <= j < results@.len() ==> {
                        let result = #[trigger] results@[j];
                        &&& result.src_stream_index == state.indices[j]
                        &&& result.decoded_frames@ == state.frames[j]
                        &&& result.metadata == metadata@[j]
                        &&& result.data is None
                        &&& result.frame_pts@.len() == 0
                    },
        {
            let j: usize = results.len();
            assert(state.frames[j as int] == list@);
            results.push(
                DecodedStream {
                    src_stream_index: indices[j],
                    decoded_frames: list,
                    data: None,
                    frame_pts: Vec::new(),
                    metadata: metadata[j],
                },
            );
        }
        proof {
            assert forall|j: int| 0 <= j < n implies is_output(
                state,
                state.indices.take(0),
                j,
                #[trigger] results@[j],
            ) by {}
        }
        let mut k: usize = 0;
        for stream in it: streams
            invariant
                it.seq() == self.streams@,
                state == self@,
                state.wf(),
                state.streams == stream_states(self.streams@),
                state.indices == indices@,
                n == indices@.len(),
                n == self.streams@.len(),
                k == it.index(),
                results@.len() == n,
                forall|j: int|
                    0 <= j < n ==> {
                        let result = #[trigger] results@[j];
                        &&& result.src_stream_index == state.indices[j]
                        &&& result.decoded_frames@ == state.frames[j]
                        &&& result.metadata == metadata@[j]
                        &&& is_output(state, state.indices.take(k as int), j, result)
                    },
        {
            proof {
                lemma_first_place(indices@, indices@[k as int]);
                assert(state.indices.take(k + 1).drop_last() =~= state.indices.take(k as int));
                assert(state.indices.take(k + 1).last() == indices@[k as int]);
                assert(state.streams[k as int] == stream@);
                assert(state.streams[k as int].wf());
            }
            let place: usize = first_place_of(&indices, indices[k]);
            let (extent, pts) = stream.into_slots().into_filled();
            let ghost before = results@;
            results[place].data = Some(FilledOutput { place: k, extent });
            results[place].frame_pts = pts;
            proof {
                assert forall|j: int| 0 <= j < n implies is_output(
                    state,
                    state.indices.take(k + 1),
                    j,
                    #[trigger] results@[j],
                ) by {
                    lemma_first_place(indices@, indices@[j]);
                    if j != place {
                        assert(results@[j] == before[j]);
                    }
                }
            }
            k = k + 1;
        }
        proof {
            assert(state.indices.take(n as int) =~= state.indices);
        }
        results
    }
}

/// The first place at which `index` stands.
fn first_place_of(indices: &Vec<usize>, index: usize) -> (place: usize)
    requires
        indices@.contains(index),
    ensures
        place == first_place(indices@, index),
        place < indices@.len(),
{
    proof {
        lemma_first_place(indices@, index);
    }
    let mut k: usize = 0;
    while k < indices.len()
        invariant
            k <= indices@.len(),
            indices@.contains(index),
            0 <= first_place(indices@, index) <= indices@.len(),
            first_place(indices@, index) < indices@.len() ==> indices@[first_place(
                indices@,
                index,
            )] == index,
            forall|i: int|
                0 <= i < first_place(indices@, index) ==> #[trigger] indices@[i] != index,
            forall|j: int| 0 <= j < k ==> #[trigger] indices@[j] != index,
        decreases indices@.len() - k,
    {
        if indices[k] == index {
            return k;
        }
        k = k + 1;
    }
    k
}

} // verus!
