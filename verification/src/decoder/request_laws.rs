//! Which streams are decoded for a request, and what is told of an input.
use vstd::prelude::*;

use crate::decoder::graph::MediaType;
use crate::decoder::probe::{
    probed_audio, probed_video, ProbedAudioStream, ProbedVideoStream, StreamDescription,
};
use crate::decoder::request::{
    audio_selected, chosen_index, decode_order, first_of_type, has_index, named_mode,
    selected_audio, selected_video, AudioStreamRequest, HdrMode, SelectError, StreamRequest,
    VideoStreamRequest,
};

verus! {

/// The stream at place `k` is of this type, and no earlier one is.
pub open spec fn is_first(streams: Seq<StreamDescription>, media_type: MediaType, k: int) -> bool {
    &&& 0 <= k < streams.len()
    &&& streams[k].media_type == media_type
    &&& forall|j: int| 0 <= j < k ==> (#[trigger] streams[j]).media_type != media_type
}

/// No stream is of this type.
pub open spec fn has_none(streams: Seq<StreamDescription>, media_type: MediaType) -> bool {
    forall|j: int| 0 <= j < streams.len() ==> (#[trigger] streams[j]).media_type != media_type
}

/// The first stream of a type is found if and only if there is one.
pub proof fn law_first_stream_is_found(
    streams: Seq<StreamDescription>,
    media_type: MediaType,
    k: int,
)
    requires
        streams.len() <= usize::MAX,
    ensures
        is_first(streams, media_type, k) ==> first_of_type(streams, media_type) == Some(k as usize),
        has_none(streams, media_type) <==> first_of_type(streams, media_type) is None,
        first_of_type(streams, media_type) matches Some(index) ==> is_first(
            streams,
            media_type,
            index as int,
        ),
    decreases streams.len(),
{
    if streams.len() > 0 {
        let rest = streams.drop_last();
        law_first_stream_is_found(rest, media_type, k);
        if is_first(streams, media_type, k) && k < rest.len() {
            assert(is_first(rest, media_type, k)) by {
                assert forall|j: int| 0 <= j < k implies (#[trigger] rest[j]).media_type
                    != media_type by {
                    assert(streams[j].media_type != media_type);
                }
            }
        }
        if is_first(streams, media_type, k) && k == rest.len() {
            assert(has_none(rest, media_type)) by {
                assert forall|j: int| 0 <= j < rest.len() implies (#[trigger] rest[j]).media_type
                    != media_type by {
                    assert(streams[j].media_type != media_type);
                }
            }
        }
        if has_none(streams, media_type) {
            assert forall|j: int| 0 <= j < rest.len() implies (#[trigger] rest[j]).media_type
                != media_type by {
                assert(streams[j].media_type != media_type);
            }
            assert(streams[rest.len() as int].media_type != media_type);
        }
        if let Some(index) = first_of_type(rest, media_type) {
            assert(is_first(rest, media_type, index as int));
            assert forall|j: int| 0 <= j < index implies (#[trigger] streams[j]).media_type
                != media_type by {
                assert(rest[j].media_type != media_type);
            }
            assert(streams[index as int] == rest[index as int]);
        } else {
            assert(has_none(rest, media_type));
            assert forall|j: int| 0 <= j < rest.len() implies (#[trigger] streams[j]).media_type
                != media_type by {
                assert(rest[j].media_type != media_type);
            }
        }
    }
}

/// A request for video is for the stream that it names, or else for the first video stream, and all
/// else that it asks for stays as it is. It is refused if and only if it names no stream and there
/// is no video; no request is answered by no stream.
pub proof fn law_which_video_is_decoded(
    request: Option<VideoStreamRequest>,
    streams: Seq<StreamDescription>,
)
    requires
        streams.len() <= usize::MAX,
    ensures
        match request {
            None => selected_video(request, streams) == Ok::<
                Option<VideoStreamRequest>,
                SelectError,
            >(None),
            Some(asked) => match selected_video(request, streams) {
                Ok(Some(chosen)) => {
                    &&& chosen == (VideoStreamRequest { index: chosen.index, ..asked })
                    &&& chosen.index is Some
                    &&& asked.index is Some ==> chosen.index == asked.index
                    &&& asked.index is None ==> is_first(
                        streams,
                        MediaType::Video,
                        chosen.index->0 as int,
                    )
                },
                Ok(None) => false,
                Err(error) => {
                    &&& error == SelectError::NoStream
                    &&& asked.index is None
                    &&& has_none(streams, MediaType::Video)
                },
            },
        },
{
    law_first_stream_is_found(streams, MediaType::Video, 0);
}

/// The stream that a request for audio is for, in an input whose first audio stream is `first`.
pub open spec fn meant(request: AudioStreamRequest, first: Option<usize>) -> Option<usize> {
    if request.index is Some {
        request.index
    } else {
        first
    }
}

/// The request at place `k` is the first one for its stream.
pub open spec fn is_first_for_stream(
    requests: Seq<AudioStreamRequest>,
    first: Option<usize>,
    k: int,
) -> bool {
    forall|j: int| 0 <= j < k ==> meant(#[trigger] requests[j], first) != meant(requests[k], first)
}

/// The requests that are the first ones for their streams, each with its stream named, in their
/// order.
pub open spec fn first_requests(
    requests: Seq<AudioStreamRequest>,
    first: Option<usize>,
    n: int,
) -> Seq<AudioStreamRequest>
    decreases n,
{
    if n <= 0 {
        seq![]
    } else {
        let before = first_requests(requests, first, n - 1);
        if is_first_for_stream(requests, first, n - 1) {
            before.push(
                AudioStreamRequest {
                    index: meant(requests[n - 1], first),
                    ..requests[n - 1]
                },
            )
        } else {
            before
        }
    }
}

/// Audio is decoded for each request that is the first one for its stream, as that request asks, in
/// the order of the requests. It is refused if and only if a request names no stream and there is no
/// audio.
pub proof fn law_which_audio_is_decoded(requests: Seq<AudioStreamRequest>, first: Option<usize>)
    ensures
        selected_audio(requests, first) is Err <==> first is None && exists|k: int|
            0 <= k < requests.len() && (#[trigger] requests[k]).index is None,
        selected_audio(requests, first) matches Err(error) ==> error == SelectError::NoStream,
        selected_audio(requests, first) matches Ok(selected) ==> selected == first_requests(
            requests,
            first,
            requests.len() as int,
        ),
{
    lemma_selection(requests, first, requests.len() as int);
    assert(requests.take(requests.len() as int) =~= requests);
}

#[verifier::rlimit(40)]
proof fn lemma_selection(requests: Seq<AudioStreamRequest>, first: Option<usize>, n: int)
    requires
        0 <= n <= requests.len(),
    ensures
        selected_audio(requests.take(n), first) is Err <==> first is None && exists|k: int|
            0 <= k < n && (#[trigger] requests[k]).index is None,
        selected_audio(requests.take(n), first) matches Err(error) ==> error
            == SelectError::NoStream,
        selected_audio(requests.take(n), first) matches Ok(selected) ==> {
            &&& selected == first_requests(requests, first, n)
            &&& forall|index: usize|
                #[trigger] has_index(selected, index) <==> exists|k: int|
                    0 <= k < n && meant(#[trigger] requests[k], first) == Some(index)
        },
    decreases n,
{
    let part = requests.take(n);
    if n > 0 {
        assert(part.drop_last() =~= requests.take(n - 1));
        assert(part.last() == requests[n - 1]);
        lemma_selection(requests, first, n - 1);
        let last = requests[n - 1];
        match selected_audio(requests.take(n - 1), first) {
            Err(_) => {
                let k = choose|k: int| 0 <= k < n - 1 && (#[trigger] requests[k]).index is None;
                assert(requests[k].index is None);
            },
            Ok(before) => {
                match chosen_index(last.index, first) {
                    Err(_) => {
                        assert(requests[n - 1].index is None);
                    },
                    Ok(index) => {
                        assert(meant(last, first) == Some(index));
                        let selected = selected_audio(part, first)->Ok_0;
                        if has_index(before, index) {
                            let k = choose|k: int|
                                0 <= k < n - 1 && meant(#[trigger] requests[k], first) == Some(
                                    index,
                                );
                            assert(meant(requests[k], first) == meant(requests[n - 1], first));
                            assert(!is_first_for_stream(requests, first, n - 1));
                        } else {
                            assert(is_first_for_stream(requests, first, n - 1)) by {
                                assert forall|j: int| 0 <= j < n - 1 implies meant(
                                    #[trigger] requests[j],
                                    first,
                                ) != meant(requests[n - 1], first) by {
                                    if meant(requests[j], first) == Some(index) {
                                        assert(has_index(before, index));
                                    }
                                }
                            }
                        }
                        assert forall|other: usize| #[trigger] has_index(selected, other) <==> exists|
                            k: int,
                        | 0 <= k < n && meant(#[trigger] requests[k], first) == Some(other) by {
                            if has_index(selected, other) {
                                let i = choose|i: int|
                                    0 <= i < selected.len() && (#[trigger] selected[i]).index
                                        == Some(other);
                                if i < before.len() {
                                    assert(before[i].index == Some(other));
                                    assert(has_index(before, other));
                                    let k = choose|k: int|
                                        0 <= k < n - 1 && meant(#[trigger] requests[k], first)
                                            == Some(other);
                                    assert(meant(requests[k], first) == Some(other));
                                } else {
                                    assert(meant(requests[n - 1], first) == Some(other));
                                }
                            }
                            if exists|k: int|
                                0 <= k < n && meant(#[trigger] requests[k], first) == Some(other) {
                                let k = choose|k: int|
                                    0 <= k < n && meant(#[trigger] requests[k], first) == Some(
                                        other,
                                    );
                                if k < n - 1 {
                                    assert(has_index(before, other));
                                    let i = choose|i: int|
                                        0 <= i < before.len() && (#[trigger] before[i]).index
                                            == Some(other);
                                    assert(selected[i].index == Some(other));
                                } else if !has_index(before, other) {
                                    assert(selected[before.len() as int].index == Some(other));
                                }
                            }
                        }
                    },
                }
            },
        }
    }
}

/// Audio is decoded for a request that names no stream from the first audio stream of the input;
/// where there is none, such a request is refused. No requests are answered by no streams.
pub proof fn law_audio_is_looked_for_in_the_input(
    requests: Option<Vec<AudioStreamRequest>>,
    streams: Seq<StreamDescription>,
    r: Result<Option<Vec<AudioStreamRequest>>, SelectError>,
    k: usize,
)
    requires
        streams.len() <= usize::MAX,
        audio_selected(requests, streams, r),
    ensures
        requests is None ==> r == Ok::<Option<Vec<AudioStreamRequest>>, SelectError>(None),
        requests is Some && is_first(streams, MediaType::Audio, k as int) ==> {
            &&& r matches Ok(Some(list))
            &&& list@ == first_requests(requests->0@, Some(k), requests->0@.len() as int)
        },
        requests is Some && has_none(streams, MediaType::Audio) ==> {
            &&& r is Err <==> exists|i: int|
                0 <= i < requests->0@.len() && (#[trigger] requests->0@[i]).index is None
            &&& r matches Ok(list) ==> list is Some && list->0@ == first_requests(
                requests->0@,
                None,
                requests->0@.len() as int,
            )
        },
{
    law_first_stream_is_found(streams, MediaType::Audio, k as int);
    if requests is Some {
        law_which_audio_is_decoded(
            requests->0@,
            first_of_type(streams, MediaType::Audio),
        );
    }
}

/// The video comes first, and the audio streams follow in their order; nothing else is decoded.
pub proof fn law_decode_order(
    video: Option<VideoStreamRequest>,
    audio: Option<Vec<AudioStreamRequest>>,
    i: int,
)
    requires
        audio is Some ==> 0 <= i < audio->0@.len(),
    ensures
        ({
            let order = decode_order(video, audio);
            let ahead: int = if video is Some {
                1
            } else {
                0
            };
            &&& order.len() == ahead + if audio is Some {
                audio->0@.len() as int
            } else {
                0
            }
            &&& video is Some ==> order[0] == StreamRequest::Video(video->0)
            &&& audio is Some ==> order[ahead + i] == StreamRequest::Audio(audio->0@[i])
        }),
{
}

/// What is told of each video stream is what the input says of the stream at its place, and the
/// streams are told of in their order.
pub proof fn law_video_is_told_as_it_is(streams: Seq<StreamDescription>, i: int)
    requires
        streams.len() <= usize::MAX,
        0 <= i < probed_video(streams).len(),
    ensures
        ({
            let told = probed_video(streams)[i];
            &&& told.index < streams.len()
            &&& streams[told.index as int].media_type == MediaType::Video
            &&& told.width == streams[told.index as int].width
            &&& told.height == streams[told.index as int].height
            &&& told.fps == streams[told.index as int].fps
            &&& i > 0 ==> probed_video(streams)[i - 1].index < told.index
        }),
    decreases streams.len(),
{
    if streams.len() > 0 {
        let rest = streams.drop_last();
        let before = probed_video(rest);
        if i < before.len() {
            law_video_is_told_as_it_is(rest, i);
            assert(probed_video(streams)[i] == before[i]);
        } else if i > 0 {
            law_video_is_told_as_it_is(rest, i - 1);
            assert(probed_video(streams)[i - 1] == before[i - 1]);
        }
    }
}

/// What is told of each audio stream is what the input says of the stream at its place, and the
/// streams are told of in their order.
pub proof fn law_audio_is_told_as_it_is(streams: Seq<StreamDescription>, i: int)
    requires
        streams.len() <= usize::MAX,
        0 <= i < probed_audio(streams).len(),
    ensures
        ({
            let told = probed_audio(streams)[i];
            &&& told.index < streams.len()
            &&& streams[told.index as int].media_type == MediaType::Audio
            &&& told.sample_rate == streams[told.index as int].sample_rate
            &&& i > 0 ==> probed_audio(streams)[i - 1].index < told.index
        }),
    decreases streams.len(),
{
    if streams.len() > 0 {
        let rest = streams.drop_last();
        let before = probed_audio(rest);
        if i < before.len() {
            law_audio_is_told_as_it_is(rest, i);
            assert(probed_audio(streams)[i] == before[i]);
        } else if i > 0 {
            law_audio_is_told_as_it_is(rest, i - 1);
            assert(probed_audio(streams)[i - 1] == before[i - 1]);
        }
    }
}

/// Sizes and rates are told as they are, and as zero where they are negative.
pub proof fn law_numbers_are_told_from_zero_on(video: ProbedVideoStream, audio: ProbedAudioStream)
    ensures
        video.told().index == video.index,
        video.told().fps == video.fps,
        video.width >= 0 ==> video.told().width == video.width,
        video.width < 0 ==> video.told().width == 0,
        video.height >= 0 ==> video.told().height == video.height,
        video.height < 0 ==> video.told().height == 0,
        audio.told().index == audio.index,
        audio.sample_rate >= 0 ==> audio.told().sample_rate == audio.sample_rate,
        audio.sample_rate < 0 ==> audio.told().sample_rate == 0,
{
}

/// There are two modes, each with one name.
pub proof fn law_mode_names(word: Seq<char>)
    ensures
        named_mode(word) == Some(HdrMode::Tonemap) <==> word == "tonemap"@,
        named_mode(word) == Some(HdrMode::Raw) <==> word == "raw"@,
{
    reveal_strlit("tonemap");
    reveal_strlit("raw");
    assert("tonemap"@.len() != "raw"@.len());
}

} // verus!
