//! What a caller asks to have decoded, and which streams of the input that means.
use vstd::prelude::*;

use crate::decoder::filter::LoudnessNormalization;
use crate::decoder::graph::MediaType;
use crate::decoder::probe::StreamDescription;
use crate::double::Double;
use crate::text::same;

verus! {

/// The element type of a decoded video.
#[derive(Clone, Copy, Debug, PartialEq, Eq, Structural)]
pub enum OutputDtype {
    /// RGB of 8 bits each.
    Uint8,
    /// RGB of 32-bit floats between 0 and 1, one plane after the other.
    Float32,
}

impl Default for OutputDtype {
    fn default() -> (r: OutputDtype)
        ensures
            r == OutputDtype::Uint8,
    {
        OutputDtype::Uint8
    }
}

/// What becomes of a source with a high dynamic range or a wide gamut.
#[derive(Clone, Copy, Debug, PartialEq, Eq, Structural)]
pub enum HdrMode {
    /// It is tone mapped for a display of standard range.
    Tonemap,
    /// Its code values are kept.
    Raw,
}

impl Default for HdrMode {
    fn default() -> (r: HdrMode)
        ensures
            r == HdrMode::Tonemap,
    {
        HdrMode::Tonemap
    }
}

/// A word in a request that is not one there is.
#[derive(Debug)]
pub enum RequestError {
    DimensionOrder(String),
    Device(String),
    Dtype(String),
    HdrMode(String),
}

/// The mode that a word asks for.
pub open spec fn named_mode(word: Seq<char>) -> Option<HdrMode> {
    if word == "tonemap"@ {
        Some(HdrMode::Tonemap)
    } else if word == "raw"@ {
        Some(HdrMode::Raw)
    } else {
        None
    }
}

/// The mode that is asked for: tone mapping where nothing is said. `None` where the word is not one
/// there is.
pub open spec fn mode_asked(word: Option<Seq<char>>) -> Option<HdrMode> {
    match word {
        None => Some(HdrMode::Tonemap),
        Some(word) => named_mode(word),
    }
}

impl HdrMode {
    /// The mode that `name` asks for: `tonemap`, which is also meant where nothing is said, or
    /// `raw`.
    pub fn parse(name: Option<&str>) -> (r: Result<HdrMode, RequestError>)
        ensures
            ({
                let said = match name {
                    Some(word) => Some(word@),
                    None => None,
                };
                match mode_asked(said) {
                    Some(mode) => r == Ok::<HdrMode, RequestError>(mode),
                    None => r matches Err(RequestError::HdrMode(w)) && Some(w@) == said,
                }
            }),
    {
        match name {
            None => Ok(HdrMode::Tonemap),
            Some(word) => {
                if same(word, "tonemap") {
                    Ok(HdrMode::Tonemap)
                } else if same(word, "raw") {
                    Ok(HdrMode::Raw)
                } else {
                    Err(RequestError::HdrMode(word.to_owned()))
                }
            },
        }
    }
}

/// Frames per second: the number, and the decimal text by which a filter is told of it.
#[derive(Clone, Debug)]
pub struct FrameRate {
    pub value: Double,
    pub text: String,
}

/// A request for a video stream.
#[derive(Clone, Debug)]
pub struct VideoStreamRequest {
    /// The stream's place in the input; the first one of its type where it is not given.
    pub index: Option<usize>,
    pub width: Option<u32>,
    pub height: Option<u32>,
    pub frame_rate: Option<FrameRate>,
    /// How many threads the decoder uses; one where it is not given.
    pub number_of_threads: Option<usize>,
    /// Decode on the GPU. The frames come back to system memory, unless `device` is given.
    pub hardware_acceleration: Option<bool>,
    /// The GPU to keep the frames on, which is also the one to decode on.
    pub device: Option<i32>,
    pub dtype: OutputDtype,
    pub hdr_mode: HdrMode,
}

impl Default for VideoStreamRequest {
    fn default() -> (r: VideoStreamRequest)
        ensures
            r == (VideoStreamRequest {
                index: None,
                width: None,
                height: None,
                frame_rate: None,
                number_of_threads: None,
                hardware_acceleration: None,
                device: None,
                dtype: OutputDtype::Uint8,
                hdr_mode: HdrMode::Tonemap,
            }),
    {
        VideoStreamRequest {
            index: None,
            width: None,
            height: None,
            frame_rate: None,
            number_of_threads: None,
            hardware_acceleration: None,
            device: None,
            dtype: OutputDtype::Uint8,
            hdr_mode: HdrMode::Tonemap,
        }
    }
}

/// A request for an audio stream.
#[derive(Clone, Debug)]
pub struct AudioStreamRequest {
    /// The stream's place in the input; the first one of its type where it is not given.
    pub index: Option<usize>,
    pub sample_rate: Option<u32>,
    pub loudness_normalization: Option<LoudnessNormalization>,
}

impl Default for AudioStreamRequest {
    fn default() -> (r: AudioStreamRequest)
        ensures
            r == (AudioStreamRequest {
                index: None,
                sample_rate: None,
                loudness_normalization: None,
            }),
    {
        AudioStreamRequest { index: None, sample_rate: None, loudness_normalization: None }
    }
}

/// The input: the name of a local file, an object in cloud storage or a resource on the web, or
/// the bytes themselves.
#[derive(Debug)]
pub enum MediaSource {
    Uri(String),
    Bytes(Vec<u8>),
}

/// A request to decode an input. Times are in seconds.
#[derive(Debug)]
pub struct MediaDecodeRequest {
    pub source: MediaSource,
    pub start_time: Option<Double>,
    pub end_time: Option<Double>,
    pub video_stream: Option<VideoStreamRequest>,
    pub audio_streams: Option<Vec<AudioStreamRequest>>,
}

/// Why no stream could be chosen.
#[derive(Clone, Copy, Debug, PartialEq, Eq, Structural)]
pub enum SelectError {
    /// The input has no stream of the type that is asked for.
    NoStream,
}

/// The place of the first stream of a type.
pub open spec fn first_of_type(
    streams: Seq<StreamDescription>,
    media_type: MediaType,
) -> Option<usize>
    decreases streams.len(),
{
    if streams.len() == 0 {
        None
    } else {
        match first_of_type(streams.drop_last(), media_type) {
            Some(index) => Some(index),
            None => if streams.last().media_type == media_type {
                Some((streams.len() - 1) as usize)
            } else {
                None
            },
        }
    }
}

/// Computes [`first_of_type`].
pub fn first_stream(streams: &Vec<StreamDescription>, media_type: MediaType) -> (r: Option<usize>)
    ensures
        r == first_of_type(streams@, media_type),
        match r {
            Some(index) => {
                &&& index < streams@.len()
                &&& streams@[index as int].media_type == media_type
                &&& forall|j: int|
                    0 <= j < index ==> (#[trigger] streams@[j]).media_type != media_type
            },
            None => forall|j: int|
                0 <= j < streams@.len() ==> (#[trigger] streams@[j]).media_type != media_type,
        },
{
    let mut i: usize = 0;
    while i < streams.len()
        invariant
            i <= streams@.len(),
            first_of_type(streams@.take(i as int), media_type) is None,
            forall|j: int| 0 <= j < i ==> (#[trigger] streams@[j]).media_type != media_type,
        decreases streams@.len() - i,
    {
        proof {
            assert(streams@.take(i + 1).drop_last() =~= streams@.take(i as int));
            assert(streams@.take(i + 1).last() == streams@[i as int]);
        }
        if streams[i].media_type == media_type {
            proof {
                lemma_first_stays(streams@, media_type, i + 1);
            }
            return Some(i);
        }
        i = i + 1;
    }
    assert(streams@.take(streams@.len() as int) =~= streams@);
    None
}

proof fn lemma_first_stays(streams: Seq<StreamDescription>, media_type: MediaType, n: int)
    requires
        0 <= n <= streams.len(),
        first_of_type(streams.take(n), media_type) is Some,
    ensures
        first_of_type(streams, media_type) == first_of_type(streams.take(n), media_type),
    decreases streams.len() - n,
{
    if n < streams.len() {
        assert(streams.take(n + 1).drop_last() =~= streams.take(n));
        lemma_first_stays(streams, media_type, n + 1);
    } else {
        assert(streams.take(n) =~= streams);
    }
}

/// Where there is a stream of a type, the first one is of that type, and none before it is.
pub proof fn law_first_of_type_is_the_smallest(
    streams: Seq<StreamDescription>,
    media_type: MediaType,
    k: int,
)
    requires
        streams.len() <= usize::MAX,
        0 <= k < streams.len(),
        streams[k].media_type == media_type,
    ensures
        first_of_type(streams, media_type) matches Some(index) && index <= k
            && streams[index as int].media_type == media_type,
    decreases streams.len(),
{
    if k < streams.len() - 1 {
        law_first_of_type_is_the_smallest(streams.drop_last(), media_type, k);
    } else if first_of_type(streams.drop_last(), media_type) is Some {
        lemma_first_is_of_type(streams.drop_last(), media_type);
    }
}

proof fn lemma_first_is_of_type(streams: Seq<StreamDescription>, media_type: MediaType)
    requires
        streams.len() <= usize::MAX,
        first_of_type(streams, media_type) is Some,
    ensures
        first_of_type(streams, media_type)->0 < streams.len(),
        streams[first_of_type(streams, media_type)->0 as int].media_type == media_type,
    decreases streams.len(),
{
    if first_of_type(streams.drop_last(), media_type) is Some {
        lemma_first_is_of_type(streams.drop_last(), media_type);
    }
}

/// The index that is meant by a request for `index`, in an input whose first stream of the type is
/// `first`.
pub open spec fn chosen_index(index: Option<usize>, first: Option<usize>) -> Result<
    usize,
    SelectError,
> {
    match (index, first) {
        (Some(index), _) => Ok(index),
        (None, Some(index)) => Ok(index),
        (None, None) => Err(SelectError::NoStream),
    }
}

fn choose_index(index: Option<usize>, first: Option<usize>) -> (r: Result<usize, SelectError>)
    ensures
        r == chosen_index(index, first),
{
    match (index, first) {
        (Some(index), _) => Ok(index),
        (None, Some(index)) => Ok(index),
        (None, None) => Err(SelectError::NoStream),
    }
}

/// The request for the video stream that is decoded, where one is.
pub open spec fn selected_video(
    request: Option<VideoStreamRequest>,
    streams: Seq<StreamDescription>,
) -> Result<Option<VideoStreamRequest>, SelectError> {
    match request {
        None => Ok(None),
        Some(request) => match chosen_index(
            request.index,
            first_of_type(streams, MediaType::Video),
        ) {
            Ok(index) => Ok(Some(VideoStreamRequest { index: Some(index), ..request })),
            Err(error) => Err(error),
        },
    }
}

/// Decides which video stream of an input to decode: the one that the request names, or else the
/// first one.
pub fn select_video_stream(
    request: Option<VideoStreamRequest>,
    streams: &Vec<StreamDescription>,
) -> (r: Result<Option<VideoStreamRequest>, SelectError>)
    ensures
        r == selected_video(request, streams@),
{
    match request {
        None => Ok(None),
        Some(request) => match choose_index(
            request.index,
            first_stream(streams, MediaType::Video),
        ) {
            Ok(index) => Ok(Some(VideoStreamRequest { index: Some(index), ..request })),
            Err(error) => Err(error),
        },
    }
}

/// A request for the stream `index` is among `selected`.
pub open spec fn has_index(selected: Seq<AudioStreamRequest>, index: usize) -> bool {
    exists|i: int| 0 <= i < selected.len() && (#[trigger] selected[i]).index == Some(index)
}

/// The requests that are left when each stream is decoded once, for the first request that names
/// it; the error of the first request for which no stream can be chosen.
pub open spec fn selected_audio(
    requests: Seq<AudioStreamRequest>,
    first: Option<usize>,
) -> Result<Seq<AudioStreamRequest>, SelectError>
    decreases requests.len(),
{
    if requests.len() == 0 {
        Ok(seq![])
    } else {
        match selected_audio(requests.drop_last(), first) {
            Err(error) => Err(error),
            Ok(selected) => match chosen_index(requests.last().index, first) {
                Err(error) => Err(error),
                Ok(index) => if has_index(selected, index) {
                    Ok(selected)
                } else {
                    Ok(
                        selected.push(
                            AudioStreamRequest { index: Some(index), ..requests.last() },
                        ),
                    )
                },
            },
        }
    }
}

fn contains_index(selected: &Vec<AudioStreamRequest>, index: usize) -> (r: bool)
    ensures
        r == has_index(selected@, index),
{
    let mut i: usize = 0;
    while i < selected.len()
        invariant
            i <= selected@.len(),
            forall|j: int| 0 <= j < i ==> (#[trigger] selected@[j]).index != Some(index),
        decreases selected@.len() - i,
    {
        if let Some(other) = selected[i].index {
            if other == index {
                return true;
            }
        }
        i = i + 1;
    }
    false
}

/// Whether `r` is the requests for the audio streams that are decoded, where any are.
pub open spec fn audio_selected(
    requests: Option<Vec<AudioStreamRequest>>,
    streams: Seq<StreamDescription>,
    r: Result<Option<Vec<AudioStreamRequest>>, SelectError>,
) -> bool {
    match requests {
        None => r == Ok::<Option<Vec<AudioStreamRequest>>, SelectError>(None),
        Some(requests) => match selected_audio(
            requests@,
            first_of_type(streams, MediaType::Audio),
        ) {
            Ok(selected) => r matches Ok(Some(list)) && list@ == selected,
            Err(error) => r == Err::<Option<Vec<AudioStreamRequest>>, SelectError>(error),
        },
    }
}

/// Decides which audio streams of an input to decode: those that the requests name, the first one
/// where a request names none, and each of them once.
pub fn select_audio_streams(
    requests: Option<Vec<AudioStreamRequest>>,
    streams: &Vec<StreamDescription>,
) -> (r: Result<Option<Vec<AudioStreamRequest>>, SelectError>)
    ensures
        audio_selected(requests, streams@, r),
{
    let list = match requests {
        None => {
            return Ok(None);
        },
        Some(list) => list,
    };
    let ghost all = list@;
    let first = first_stream(streams, MediaType::Audio);
    let mut selected: Vec<AudioStreamRequest> = Vec::new();
    for request in it: list
        invariant
            it.seq() == all,
            requests matches Some(asked) && asked@ == all,
            first == first_of_type(streams@, MediaType::Audio),
            selected_audio(all.take(it.index() as int), first) == Ok::<
                Seq<AudioStreamRequest>,
                SelectError,
            >(selected@),
    {
        proof {
            let i = it.index() as int;
            assert(all.take(i + 1).drop_last() =~= all.take(i));
            assert(all.take(i + 1).last() == request);
        }
        match choose_index(request.index, first) {
            Err(error) => {
                proof {
                    lemma_selection_error_stays(all, first, it.index() as int + 1);
                }
                return Err(error);
            },
            Ok(index) => {
                if !contains_index(&selected, index) {
                    selected.push(AudioStreamRequest { index: Some(index), ..request });
                }
            },
        }
    }
    assert(all.take(all.len() as int) =~= all);
    Ok(Some(selected))
}

proof fn lemma_selection_error_stays(all: Seq<AudioStreamRequest>, first: Option<usize>, n: int)
    requires
        0 <= n <= all.len(),
        selected_audio(all.take(n), first) is Err,
    ensures
        selected_audio(all, first) == selected_audio(all.take(n), first),
    decreases all.len() - n,
{
    if n < all.len() {
        assert(all.take(n + 1).drop_last() =~= all.take(n));
        lemma_selection_error_stays(all, first, n + 1);
    } else {
        assert(all.take(n) =~= all);
    }
}

/// Every selected stream is named, and none is named twice; a stream that is asked for is among
/// them.
pub proof fn law_streams_are_decoded_once(
    requests: Seq<AudioStreamRequest>,
    first: Option<usize>,
    selected: Seq<AudioStreamRequest>,
)
    requires
        selected_audio(requests, first) == Ok::<Seq<AudioStreamRequest>, SelectError>(selected),
    ensures
        selected.len() <= requests.len(),
        forall|i: int| 0 <= i < selected.len() ==> (#[trigger] selected[i]).index is Some,
        forall|i: int, j: int|
            0 <= i < j < selected.len() ==> (#[trigger] selected[i]).index != (
            #[trigger] selected[j]).index,
        forall|k: int|
            0 <= k < requests.len() ==> has_index(
                selected,
                chosen_index((#[trigger] requests[k]).index, first)->Ok_0,
            ),
    decreases requests.len(),
{
    if requests.len() > 0 {
        let before = selected_audio(requests.drop_last(), first)->Ok_0;
        law_streams_are_decoded_once(requests.drop_last(), first, before);
        let index = chosen_index(requests.last().index, first)->Ok_0;
        if !has_index(before, index) {
            assert(selected[before.len() as int].index == Some(index));
            assert forall|i: int, j: int| 0 <= i < j < selected.len() implies (
            #[trigger] selected[i]).index != (#[trigger] selected[j]).index by {
                assert(selected[i] == before[i]);
                if j < before.len() {
                    assert(selected[j] == before[j]);
                }
            }
        }
        assert forall|k: int| 0 <= k < requests.len() implies has_index(
            selected,
            chosen_index((#[trigger] requests[k]).index, first)->Ok_0,
        ) by {
            let wanted = chosen_index(requests[k].index, first)->Ok_0;
            if k < requests.len() - 1 {
                assert(requests.drop_last()[k] == requests[k]);
                assert(has_index(before, wanted));
                let i = choose|i: int|
                    0 <= i < before.len() && (#[trigger] before[i]).index == Some(wanted);
                assert(selected[i].index == Some(wanted));
            }
        }
    }
}

/// The first request for a stream is the one that counts.
pub proof fn law_first_request_counts(
    requests: Seq<AudioStreamRequest>,
    first: Option<usize>,
    more: AudioStreamRequest,
    selected: Seq<AudioStreamRequest>,
)
    requires
        selected_audio(requests, first) == Ok::<Seq<AudioStreamRequest>, SelectError>(selected),
        chosen_index(more.index, first) matches Ok(index) && has_index(selected, index),
    ensures
        selected_audio(requests.push(more), first) == Ok::<Seq<AudioStreamRequest>, SelectError>(
            selected,
        ),
{
    assert(requests.push(more).drop_last() =~= requests);
}

/// A stream that is decoded.
#[derive(Debug)]
pub enum StreamRequest {
    Video(VideoStreamRequest),
    Audio(AudioStreamRequest),
}

/// The streams that are decoded, in the order in which their results are handed out: the video
/// first, then the audio streams in the order in which they were selected.
pub open spec fn decode_order(
    video: Option<VideoStreamRequest>,
    audio: Option<Vec<AudioStreamRequest>>,
) -> Seq<StreamRequest> {
    let first = match video {
        Some(request) => seq![StreamRequest::Video(request)],
        None => seq![],
    };
    let rest = match audio {
        Some(requests) => requests@.map_values(|r: AudioStreamRequest| StreamRequest::Audio(r)),
        None => seq![],
    };
    first + rest
}

/// Computes [`decode_order`].
pub fn streams_to_decode(
    video: Option<VideoStreamRequest>,
    audio: Option<Vec<AudioStreamRequest>>,
) -> (r: Vec<StreamRequest>)
    ensures
        r@ == decode_order(video, audio),
{
    let ghost expected = decode_order(video, audio);
    let mut order: Vec<StreamRequest> = Vec::new();
    if let Some(request) = video {
        order.push(StreamRequest::Video(request));
    }
    let ghost first = order@;
    if let Some(requests) = audio {
        let ghost all = requests@;
        for request in it: requests
            invariant
                it.seq() == all,
                order@ == first + all.take(it.index() as int).map_values(
                    |r: AudioStreamRequest| StreamRequest::Audio(r),
                ),
        {
            order.push(StreamRequest::Audio(request));
            proof {
                let i = it.index() as int;
                assert(all[i] == request);
                assert(order@ =~= first + all.take(i + 1).map_values(
                    |r: AudioStreamRequest| StreamRequest::Audio(r),
                ));
            }
        }
        proof {
            assert(all.take(all.len() as int) =~= all);
        }
    }
    assert(order@ =~= expected);
    order
}

} // verus!
