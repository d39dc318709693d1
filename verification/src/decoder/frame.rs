//! Decoded frames and the time range that is asked for.
use vstd::prelude::*;
use vstd::std_specs::cmp::PartialEqSpec;

use crate::double::Double;

verus! {

/// What a stream carries.
#[derive(Clone, Copy, Debug, PartialEq, Eq, Structural)]
pub enum StreamType {
    Video,
    Audio,
}

/// A fraction: a time base, a frame rate or an aspect ratio.
#[derive(Clone, Copy, Debug, PartialEq, Eq, Structural)]
pub struct Rational {
    pub num: i32,
    pub den: i32,
}

/// A video or audio frame. `data` is the part of the output that holds it.
#[derive(Debug)]
pub enum Frame<D> {
    Video {
        /// In pixels.
        width: i32,
        /// In pixels.
        height: i32,
        /// When the frame is shown, in units of `time_base`.
        pts: i64,
        /// The decoder's estimate of when the frame is shown, in units of the stream's time base.
        best_effort_timestamp: i64,
        data: D,
        time_base: Rational,
        /// `pts` in seconds.
        pts_seconds: Double,
    },
    Audio {
        sample_rate: i32,
        /// Samples per channel.
        nb_samples: i32,
        /// When the frame is heard, in units of `time_base`.
        pts: i64,
        /// The decoder's estimate of when the frame is heard, in units of the stream's time base.
        best_effort_timestamp: i64,
        time_base: Rational,
        data: D,
        /// `pts` in seconds.
        pts_seconds: Double,
    },
}

impl<D> Frame<D> {
    /// When the frame is shown or heard, in seconds.
    pub open spec fn seconds(self) -> Double {
        match self {
            Frame::Video { pts_seconds, .. } => pts_seconds,
            Frame::Audio { pts_seconds, .. } => pts_seconds,
        }
    }

    /// What the frame is part of.
    pub open spec fn kind(self) -> StreamType {
        match self {
            Frame::Video { .. } => StreamType::Video,
            Frame::Audio { .. } => StreamType::Audio,
        }
    }

    /// The data of the frame.
    pub open spec fn content(self) -> D {
        match self {
            Frame::Video { data, .. } => data,
            Frame::Audio { data, .. } => data,
        }
    }

    /// When the frame is shown or heard, in seconds.
    pub fn pts_seconds(&self) -> (r: Double)
        ensures
            r == self.seconds(),
    {
        match self {
            Frame::Video { pts_seconds, .. } => *pts_seconds,
            Frame::Audio { pts_seconds, .. } => *pts_seconds,
        }
    }

    /// The data of the frame.
    pub fn data(&self) -> (r: &D)
        ensures
            *r == self.content(),
    {
        match self {
            Frame::Video { data, .. } => data,
            Frame::Audio { data, .. } => data,
        }
    }

    /// The data of the frame, where it is one of `stream_type`.
    pub fn into_data(self, stream_type: StreamType) -> (r: Option<D>)
        ensures
            r == if self.kind() == stream_type {
                Some(self.content())
            } else {
                None
            },
    {
        match (self, stream_type) {
            (Frame::Video { data, .. }, StreamType::Video) => Some(data),
            (Frame::Audio { data, .. }, StreamType::Audio) => Some(data),
            _ => None,
        }
    }
}

/// Two frames are the same when they are of one kind and agree in all that was decoded. Seconds
/// are not looked at: they follow from the time stamp and its base.
impl<D: PartialEq> PartialEq for Frame<D> {
    fn eq(&self, other: &Self) -> (r: bool) {
        match (self, other) {
            (
                Frame::Video {
                    width: l_width,
                    height: l_height,
                    pts: l_pts,
                    best_effort_timestamp: l_best,
                    data: l_data,
                    time_base: l_base,
                    ..
                },
                Frame::Video {
                    width: r_width,
                    height: r_height,
                    pts: r_pts,
                    best_effort_timestamp: r_best,
                    data: r_data,
                    time_base: r_base,
                    ..
                },
            ) => *l_width == *r_width && *l_height == *r_height && *l_pts == *r_pts && *l_best
                == *r_best && l_data.eq(r_data) && l_base.num == r_base.num && l_base.den
                == r_base.den,
            (
                Frame::Audio {
                    sample_rate: l_rate,
                    nb_samples: l_samples,
                    pts: l_pts,
                    best_effort_timestamp: l_best,
                    time_base: l_base,
                    data: l_data,
                    ..
                },
                Frame::Audio {
                    sample_rate: r_rate,
                    nb_samples: r_samples,
                    pts: r_pts,
                    best_effort_timestamp: r_best,
                    time_base: r_base,
                    data: r_data,
                    ..
                },
            ) => *l_rate == *r_rate && *l_samples == *r_samples && *l_pts == *r_pts && *l_best
                == *r_best && l_data.eq(r_data) && l_base.num == r_base.num && l_base.den
                == r_base.den,
            _ => false,
        }
    }
}

impl<D: PartialEq> vstd::std_specs::cmp::PartialEqSpecImpl for Frame<D> {
    open spec fn obeys_eq_spec() -> bool {
        D::obeys_eq_spec()
    }

    open spec fn eq_spec(&self, other: &Self) -> bool {
        match (*self, *other) {
            (
                Frame::Video {
                    width: l_width,
                    height: l_height,
                    pts: l_pts,
                    best_effort_timestamp: l_best,
                    data: l_data,
                    time_base: l_base,
                    ..
                },
                Frame::Video {
                    width: r_width,
                    height: r_height,
                    pts: r_pts,
                    best_effort_timestamp: r_best,
                    data: r_data,
                    time_base: r_base,
                    ..
                },
            ) => l_width == r_width && l_height == r_height && l_pts == r_pts && l_best == r_best
                && l_data.eq_spec(&r_data) && l_base == r_base,
            (
                Frame::Audio {
                    sample_rate: l_rate,
                    nb_samples: l_samples,
                    pts: l_pts,
                    best_effort_timestamp: l_best,
                    time_base: l_base,
                    data: l_data,
                    ..
                },
                Frame::Audio {
                    sample_rate: r_rate,
                    nb_samples: r_samples,
                    pts: r_pts,
                    best_effort_timestamp: r_best,
                    time_base: r_base,
                    data: r_data,
                    ..
                },
            ) => l_rate == r_rate && l_samples == r_samples && l_pts == r_pts && l_best == r_best
                && l_data.eq_spec(&r_data) && l_base == r_base,
            _ => false,
        }
    }
}

/// The part of the presentation that is asked for, in seconds.
#[derive(Clone, Copy, Debug, PartialEq, Eq, Structural)]
pub struct Seek {
    pub start_time: Option<Double>,
    pub end_time: Option<Double>,
}

impl Seek {
    /// `pts` lies before the start.
    pub open spec fn is_early(self, pts: Double) -> bool {
        self.start_time matches Some(start) && pts.less(start)
    }

    /// `pts` lies behind the end.
    pub open spec fn is_late(self, pts: Double) -> bool {
        self.end_time matches Some(end) && end.less(pts)
    }

    /// `pts` is at the start or later, and before the end, as far as they are given.
    pub open spec fn admits(self, pts: Double) -> bool {
        &&& self.start_time matches Some(start) ==> start.at_most(pts)
        &&& self.end_time matches Some(end) ==> pts.less(end)
    }

    /// A frame shown or heard at `pts` goes to the output: one of a video that lies in the range,
    /// and one of audio that does not lie before the start. Audio is cut by the room there is.
    pub open spec fn keeps(self, stream_type: StreamType, pts: Double) -> bool {
        match stream_type {
            StreamType::Video => self.admits(pts),
            StreamType::Audio => !self.is_early(pts),
        }
    }

    /// `pts` is neither kept nor early: it lies at the end of the range or behind it.
    pub open spec fn is_behind(self, stream_type: StreamType, pts: Double) -> bool {
        !self.keeps(stream_type, pts) && !self.is_early(pts)
    }

    /// Whether a frame shown or heard at `pts` goes to the output.
    pub fn wants(&self, stream_type: StreamType, pts: &Double) -> (r: bool)
        ensures
            r == self.keeps(stream_type, *pts),
    {
        match stream_type {
            StreamType::Video => self.contains(pts),
            StreamType::Audio => !self.before_start(pts),
        }
    }

    /// Whether `pts` lies before the start.
    pub fn before_start(&self, pts: &Double) -> (r: bool)
        ensures
            r == self.is_early(*pts),
    {
        match &self.start_time {
            Some(start) => pts.lt(start),
            None => false,
        }
    }

    /// Whether `pts` lies behind the end.
    pub fn after_end(&self, pts: &Double) -> (r: bool)
        ensures
            r == self.is_late(*pts),
    {
        match &self.end_time {
            Some(end) => end.lt(pts),
            None => false,
        }
    }

    /// Whether `pts` is in the range.
    pub fn contains(&self, pts: &Double) -> (r: bool)
        ensures
            r == self.admits(*pts),
    {
        let late_enough = match &self.start_time {
            Some(start) => start.le(pts),
            None => true,
        };
        let early_enough = match &self.end_time {
            Some(end) => pts.lt(end),
            None => true,
        };
        late_enough && early_enough
    }
}

/// The frames that lie in the range, in their order.
pub open spec fn frames_in_range<D>(frames: Seq<Frame<D>>, seek: Seek) -> Seq<Frame<D>> {
    frames.filter(|f: Frame<D>| seek.admits(f.seconds()))
}

/// Keeps the frames that lie in the range, in their order.
pub fn filter_frames_seek<D>(frames: Vec<Frame<D>>, seek: &Seek) -> (kept: Vec<Frame<D>>)
    ensures
        kept@ == frames_in_range(frames@, *seek),
{
    let ghost all = frames@;
    let ghost keep = |f: Frame<D>| seek.admits(f.seconds());
    let mut kept: Vec<Frame<D>> = Vec::new();
    for frame in it: frames
        invariant
            it.seq() == all,
            keep == (|f: Frame<D>| seek.admits(f.seconds())),
            kept@ == all.take(it.index() as int).filter(keep),
    {
        proof {
            let i = it.index() as int;
            reveal(Seq::filter);
            assert(all.take(i + 1).drop_last() =~= all.take(i));
            assert(all.take(i + 1).last() == all[i]);
        }
        if seek.contains(&frame.pts_seconds()) {
            kept.push(frame);
        }
    }
    proof {
        assert(all.take(all.len() as int) =~= all);
    }
    kept
}

/// What is kept lies in the range, and keeping twice is keeping once.
pub proof fn law_range_filter<D>(frames: Seq<Frame<D>>, seek: Seek)
    ensures
        frames_in_range(frames, seek).len() <= frames.len(),
        forall|i: int|
            0 <= i < frames_in_range(frames, seek).len() ==> seek.admits(
                (#[trigger] frames_in_range(frames, seek)[i]).seconds(),
            ),
        frames_in_range(frames_in_range(frames, seek), seek) == frames_in_range(frames, seek),
    decreases frames.len(),
{
    let keep = |f: Frame<D>| seek.admits(f.seconds());
    reveal(Seq::filter);
    if frames.len() > 0 {
        law_range_filter(frames.drop_last(), seek);
        let before = frames.drop_last().filter(keep);
        if keep(frames.last()) {
            assert(frames.filter(keep) == before.push(frames.last()));
            assert(before.push(frames.last()).drop_last() =~= before);
            assert(frames.filter(keep).filter(keep) == before.filter(keep).push(frames.last()));
        }
    }
}

/// Each frame is kept or not for itself: two lists are kept as each of them is, and a list of one
/// frame is kept if and only if the frame is shown or heard at the start of the range or later, and
/// before its end.
pub proof fn law_frames_are_kept_one_by_one<D>(
    a: Seq<Frame<D>>,
    b: Seq<Frame<D>>,
    frame: Frame<D>,
    seek: Seek,
)
    ensures
        frames_in_range(a + b, seek) == frames_in_range(a, seek) + frames_in_range(b, seek),
        frames_in_range::<D>(seq![], seek) == Seq::<Frame<D>>::empty(),
        ({
            let time = frame.seconds();
            let late_enough = seek.start_time is Some ==> {
                &&& !time.is_nan() && !seek.start_time->0.is_nan()
                &&& seek.start_time->0.rank() <= time.rank()
            };
            let early_enough = seek.end_time is Some ==> {
                &&& !time.is_nan() && !seek.end_time->0.is_nan()
                &&& time.rank() < seek.end_time->0.rank()
            };
            frames_in_range(seq![frame], seek) == if late_enough && early_enough {
                seq![frame]
            } else {
                seq![]
            }
        }),
    decreases b.len(),
{
    reveal(Seq::filter);
    let keep = |f: Frame<D>| seek.admits(f.seconds());
    assert(seq![frame].drop_last() =~= seq![]);
    assert(Seq::<Frame<D>>::empty().filter(keep) =~= seq![]);
    assert(Seq::<Frame<D>>::empty().push(frame) =~= seq![frame]);
    if b.len() == 0 {
        assert(a + b =~= a);
        assert(b =~= seq![]);
        assert(frames_in_range(a, seek) + frames_in_range(b, seek) =~= frames_in_range(a, seek));
    } else {
        law_frames_are_kept_one_by_one(a, b.drop_last(), frame, seek);
        assert((a + b).drop_last() =~= a + b.drop_last());
        assert(frames_in_range(a + b, seek) =~= frames_in_range(a, seek) + frames_in_range(
            b,
            seek,
        ));
    }
}

/// Where a frame is told apart from the range: it is early if and only if it comes before the start,
/// late if and only if it comes behind the end, and a time that is no number is neither.
pub proof fn law_early_and_late(seek: Seek, pts: Double)
    ensures
        seek.is_early(pts) <==> seek.start_time is Some && !pts.is_nan()
            && !seek.start_time->0.is_nan() && pts.rank() < seek.start_time->0.rank(),
        seek.is_late(pts) <==> seek.end_time is Some && !pts.is_nan() && !seek.end_time->0.is_nan()
            && seek.end_time->0.rank() < pts.rank(),
        !(seek.is_early(pts) && seek.admits(pts)),
        !(seek.is_late(pts) && seek.admits(pts)),
{
}

/// Two frames are the same if and only if they are of one kind and agree in everything that was
/// decoded, whatever the seconds say.
pub proof fn law_same_frames<D: PartialEq>(a: Frame<D>, b: Frame<D>)
    ensures
        a.eq_spec(&b) ==> a.kind() == b.kind() && a.content().eq_spec(&b.content()),
        match (a, b) {
            (
                Frame::Video { width, height, pts, best_effort_timestamp, time_base, .. },
                Frame::Video {
                    width: width_b,
                    height: height_b,
                    pts: pts_b,
                    best_effort_timestamp: best_b,
                    time_base: base_b,
                    ..
                },
            ) => a.eq_spec(&b) <==> {
                &&& (width, height) == (width_b, height_b)
                &&& (pts, best_effort_timestamp) == (pts_b, best_b)
                &&& (time_base.num, time_base.den) == (base_b.num, base_b.den)
                &&& a.content().eq_spec(&b.content())
            },
            (
                Frame::Audio { sample_rate, nb_samples, pts, best_effort_timestamp, time_base, .. },
                Frame::Audio {
                    sample_rate: rate_b,
                    nb_samples: samples_b,
                    pts: pts_b,
                    best_effort_timestamp: best_b,
                    time_base: base_b,
                    ..
                },
            ) => a.eq_spec(&b) <==> {
                &&& (sample_rate, nb_samples) == (rate_b, samples_b)
                &&& (pts, best_effort_timestamp) == (pts_b, best_b)
                &&& (time_base.num, time_base.den) == (base_b.num, base_b.den)
                &&& a.content().eq_spec(&b.content())
            },
            _ => !a.eq_spec(&b),
        },
{
}

/// With neither a start nor an end every frame is kept.
pub proof fn law_unbounded_range_keeps_all<D>(frames: Seq<Frame<D>>)
    ensures
        frames_in_range(frames, Seek { start_time: None, end_time: None }) == frames,
    decreases frames.len(),
{
    reveal(Seq::filter);
    if frames.len() > 0 {
        law_unbounded_range_keeps_all(frames.drop_last());
        assert(frames.drop_last().push(frames.last()) =~= frames);
    }
}

} // verus!
