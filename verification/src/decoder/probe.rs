//! What an input holds, told without decoding it.
use vstd::prelude::*;

use crate::decoder::graph::MediaType;
use crate::double::Double;

verus! {

/// What the input says of one of its streams.
#[derive(Clone, Copy, Debug, PartialEq, Eq, Structural)]
pub struct StreamDescription {
    pub media_type: MediaType,
    pub width: i32,
    pub height: i32,
    /// Frames per second.
    pub fps: Double,
    pub sample_rate: i32,
}

/// A video stream of an input.
#[derive(Clone, Copy, Debug, PartialEq, Eq, Structural)]
pub struct ProbedVideoStream {
    pub index: usize,
    pub width: i32,
    pub height: i32,
    pub fps: Double,
}

/// An audio stream of an input.
#[derive(Clone, Copy, Debug, PartialEq, Eq, Structural)]
pub struct ProbedAudioStream {
    pub index: usize,
    pub sample_rate: i32,
}

/// The streams of an input.
#[derive(Clone, Debug)]
pub struct ProbedMedia {
    pub video_streams: Vec<ProbedVideoStream>,
    pub audio_streams: Vec<ProbedAudioStream>,
}

/// The video streams among `streams`, with their places, in their order.
pub open spec fn probed_video(streams: Seq<StreamDescription>) -> Seq<ProbedVideoStream>
    decreases streams.len(),
{
    if streams.len() == 0 {
        seq![]
    } else {
        let rest = probed_video(streams.drop_last());
        let last = streams.last();
        if last.media_type == MediaType::Video {
            rest.push(
                ProbedVideoStream {
                    index: (streams.len() - 1) as usize,
                    width: last.width,
                    height: last.height,
                    fps: last.fps,
                },
            )
        } else {
            rest
        }
    }
}

/// The audio streams among `streams`, with their places, in their order.
pub open spec fn probed_audio(streams: Seq<StreamDescription>) -> Seq<ProbedAudioStream>
    decreases streams.len(),
{
    if streams.len() == 0 {
        seq![]
    } else {
        let rest = probed_audio(streams.drop_last());
        let last = streams.last();
        if last.media_type == MediaType::Audio {
            rest.push(
                ProbedAudioStream {
                    index: (streams.len() - 1) as usize,
                    sample_rate: last.sample_rate,
                },
            )
        } else {
            rest
        }
    }
}

/// Tells the video and the audio streams of an input, from what it says of its streams.
pub fn probe_media(streams: &Vec<StreamDescription>) -> (probed: ProbedMedia)
    ensures
        probed.video_streams@ == probed_video(streams@),
        probed.audio_streams@ == probed_audio(streams@),
{
    let mut video_streams: Vec<ProbedVideoStream> = Vec::new();
    let mut audio_streams: Vec<ProbedAudioStream> = Vec::new();
    let mut index: usize = 0;
    while index < streams.len()
        invariant
            index <= streams@.len(),
            video_streams@ == probed_video(streams@.take(index as int)),
            audio_streams@ == probed_audio(streams@.take(index as int)),
        decreases streams@.len() - index,
    {
        let stream = streams[index];
        proof {
            assert(streams@.take(index + 1).drop_last() =~= streams@.take(index as int));
            assert(streams@.take(index + 1).last() == stream);
        }
        match stream.media_type {
            MediaType::Video => {
                video_streams.push(
                    ProbedVideoStream {
                        index,
                        width: stream.width,
                        height: stream.height,
                        fps: stream.fps,
                    },
                );
            },
            MediaType::Audio => {
                audio_streams.push(ProbedAudioStream { index, sample_rate: stream.sample_rate });
            },
            MediaType::Other => {},
        }
        index = index + 1;
    }
    proof {
        assert(streams@.take(streams@.len() as int) =~= streams@);
    }
    ProbedMedia { video_streams, audio_streams }
}

/// What is told of a video stream: sizes below zero are told as zero.
#[derive(Clone, Copy, Debug, PartialEq, Eq, Structural)]
pub struct VideoStreamMetadata {
    pub index: usize,
    pub width: usize,
    pub height: usize,
    pub fps: Double,
}

/// What is told of an audio stream: a rate below zero is told as zero.
#[derive(Clone, Copy, Debug, PartialEq, Eq, Structural)]
pub struct AudioStreamMetadata {
    pub index: usize,
    pub sample_rate: usize,
}

/// `n`, or zero where it is negative.
pub open spec fn nonnegative(n: i32) -> int {
    if n < 0 {
        0
    } else {
        n as int
    }
}

fn clip(n: i32) -> (r: usize)
    ensures
        r == nonnegative(n),
{
    if n < 0 {
        0
    } else {
        n as usize
    }
}

impl ProbedVideoStream {
    pub open spec fn told(self) -> VideoStreamMetadata {
        VideoStreamMetadata {
            index: self.index,
            width: nonnegative(self.width) as usize,
            height: nonnegative(self.height) as usize,
            fps: self.fps,
        }
    }

    pub fn metadata(&self) -> (r: VideoStreamMetadata)
        ensures
            r == self.told(),
    {
        VideoStreamMetadata {
            index: self.index,
            width: clip(self.width),
            height: clip(self.height),
            fps: self.fps,
        }
    }
}

impl ProbedAudioStream {
    pub open spec fn told(self) -> AudioStreamMetadata {
        AudioStreamMetadata {
            index: self.index,
            sample_rate: nonnegative(self.sample_rate) as usize,
        }
    }

    pub fn metadata(&self) -> (r: AudioStreamMetadata)
        ensures
            r == self.told(),
    {
        AudioStreamMetadata { index: self.index, sample_rate: clip(self.sample_rate) }
    }
}

/// Each video or audio stream of an input is told of once, under its place in the input, and no
/// other stream is.
pub proof fn law_probe_tells_each_stream_once(streams: Seq<StreamDescription>, k: int)
    requires
        0 <= k < streams.len(),
        streams.len() <= usize::MAX,
    ensures
        (exists|i: int|
            0 <= i < probed_video(streams).len() && (#[trigger] probed_video(streams)[i]).index
                == k) <==> streams[k].media_type == MediaType::Video,
        (exists|i: int|
            0 <= i < probed_audio(streams).len() && (#[trigger] probed_audio(streams)[i]).index
                == k) <==> streams[k].media_type == MediaType::Audio,
        probed_video(streams).len() + probed_audio(streams).len() <= streams.len(),
    decreases streams.len(),
{
    let rest = streams.drop_last();
    lemma_probed_places(rest);
    let video = probed_video(streams);
    let audio = probed_audio(streams);
    if k < rest.len() {
        law_probe_tells_each_stream_once(rest, k);
        if streams[k].media_type == MediaType::Video {
            let i = choose|i: int|
                0 <= i < probed_video(rest).len() && (#[trigger] probed_video(rest)[i]).index == k;
            assert(video[i].index == k);
        } else if exists|i: int| 0 <= i < video.len() && (#[trigger] video[i]).index == k {
            let i = choose|i: int| 0 <= i < video.len() && (#[trigger] video[i]).index == k;
            assert(probed_video(rest)[i].index == k);
        }
        if streams[k].media_type == MediaType::Audio {
            let i = choose|i: int|
                0 <= i < probed_audio(rest).len() && (#[trigger] probed_audio(rest)[i]).index == k;
            assert(audio[i].index == k);
        } else if exists|i: int| 0 <= i < audio.len() && (#[trigger] audio[i]).index == k {
            let i = choose|i: int| 0 <= i < audio.len() && (#[trigger] audio[i]).index == k;
            assert(probed_audio(rest)[i].index == k);
        }
    } else {
        if streams[k].media_type == MediaType::Video {
            assert(video[video.len() - 1].index == k);
        }
        if streams[k].media_type == MediaType::Audio {
            assert(audio[audio.len() - 1].index == k);
        }
    }
}

proof fn lemma_probed_places(streams: Seq<StreamDescription>)
    requires
        streams.len() <= usize::MAX,
    ensures
        forall|i: int|
            0 <= i < probed_video(streams).len() ==> (#[trigger] probed_video(streams)[i]).index
                < streams.len(),
        forall|i: int|
            0 <= i < probed_audio(streams).len() ==> (#[trigger] probed_audio(streams)[i]).index
                < streams.len(),
        probed_video(streams).len() + probed_audio(streams).len() <= streams.len(),
    decreases streams.len(),
{
    if streams.len() > 0 {
        lemma_probed_places(streams.drop_last());
        let video = probed_video(streams);
        let before = probed_video(streams.drop_last());
        assert forall|i: int| 0 <= i < video.len() implies (#[trigger] video[i]).index
            < streams.len() by {
            if i < before.len() {
                assert(video[i] == before[i]);
            }
        }
        let audio = probed_audio(streams);
        let earlier = probed_audio(streams.drop_last());
        assert forall|i: int| 0 <= i < audio.len() implies (#[trigger] audio[i]).index
            < streams.len() by {
            if i < earlier.len() {
                assert(audio[i] == earlier[i]);
            }
        }
    }
}

} // verus!
