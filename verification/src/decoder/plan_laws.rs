//! What a plan has to satisfy, whatever is asked for and whatever the input is like.
use vstd::prelude::*;

use crate::conversion::{gbrpf32_error, is_frame_shape, rgb24_error, PictureFrame, TensorKind};
use crate::decoder::format::PixelFormat;
use crate::decoder::frame::{Seek, StreamType};
use crate::decoder::plan::{
    audio_timing, decoded_seconds, decoder_choice, decoder_planned, device_error, element_count,
    hw_resize, named_index, opened_with, planned_audio_output, planned_video_output, tensor_bytes,
    tensor_size_check, video_timing, AudioPlanError, DecoderOptions, DurationError, FrameRateSource,
    RangeLengths, TensorSizeError, VideoLength, VideoPlanError, VideoTiming, VideoTimingError,
};
use crate::decoder::request::{FrameRate, OutputDtype, VideoStreamRequest};
use crate::decoder::slots::capacity_of;
use crate::double::Double;
use crate::text::{
    decimal, has_suffix, i32_value, is_digit, law_decimal_denotes, law_decimal_round_trip,
    signed_decimal, unsigned_value,
};

verus! {

/// A request that names a stream is for that stream, whichever it is; one that names none is refused.
pub proof fn law_named_streams_are_taken<E>(index: Option<usize>, error: E)
    ensures
        named_index(index, error) matches Ok(named) ==> index == Some(named),
        named_index(index, error) is Err <==> index is None,
        named_index(index, error) matches Err(told) ==> told == error,
{
}

/// The smaller of two lengths: one of the two, and above neither of them. Where one is no number it
/// is the other.
pub open spec fn is_smaller_length(a: Double, b: Double, r: Double) -> bool {
    &&& r == a || r == b
    &&& a.is_nan() ==> r == b
    &&& b.is_nan() ==> a.is_nan() || r == a
    &&& !a.is_nan() && !b.is_nan() ==> r.rank() <= a.rank() && r.rank() <= b.rank()
}

/// A range with a start and an end is refused if and only if it does not end behind its start;
/// otherwise its length is decoded, or all that the stream has. A range with an end alone is never
/// refused. One with a start alone is refused if and only if the stream is over by then; otherwise
/// the rest of the stream is decoded. Without a range all of it is.
pub proof fn law_range_decides_the_length(stream_duration: Double, seek: Seek, lengths: RangeLengths)
    ensures
        seek.start_time is Some && seek.end_time is Some ==> {
            let start = seek.start_time->0;
            let end = seek.end_time->0;
            let r = decoded_seconds(stream_duration, seek, lengths);
            &&& r is Err <==> !start.is_nan() && !end.is_nan() && end.rank() <= start.rank()
            &&& r is Err ==> r->Err_0 == (DurationError::EndNotAfterStart {
                start_time: start,
                end_time: end,
            })
            &&& r is Ok ==> is_smaller_length(stream_duration, lengths.range, r->Ok_0)
        },
        seek.start_time is None && seek.end_time is Some ==> {
            let r = decoded_seconds(stream_duration, seek, lengths);
            &&& r is Ok
            &&& is_smaller_length(stream_duration, seek.end_time->0, r->Ok_0)
        },
        seek.start_time is Some && seek.end_time is None ==> {
            let start = seek.start_time->0;
            let r = decoded_seconds(stream_duration, seek, lengths);
            &&& r is Err <==> !start.is_nan() && !stream_duration.is_nan() && stream_duration.rank()
                <= start.rank()
            &&& r is Err ==> r->Err_0 == (DurationError::StartBeyondStream {
                start_time: start,
                stream_duration,
            })
            &&& r is Ok ==> r->Ok_0 == lengths.rest
        },
        seek.start_time is None && seek.end_time is None ==> decoded_seconds(
            stream_duration,
            seek,
            lengths,
        ) == Ok::<Double, DurationError>(stream_duration),
{
}

/// A side is the one that is asked for, or else the source's.
pub open spec fn side(asked: Option<u32>, source: i32) -> int {
    if asked is Some {
        asked->0 as int
    } else {
        source as int
    }
}

/// The output of a video has a row for each frame. A row of bytes is as high and as wide as is
/// asked for, or as the source is, with three colours for each pixel; a row of floats has three
/// planes of that size. The output is on the GPU that is asked for, and takes as much memory as all
/// its rows do.
#[verifier::rlimit(40)]
pub proof fn law_video_output_has_the_size_asked_for(
    request: VideoStreamRequest,
    src_width: i32,
    src_height: i32,
    num_frames: i64,
)
    requires
        planned_video_output(request, src_width, src_height, num_frames) is Ok,
    ensures
        ({
            let (shape, element_size, device) = planned_video_output(
                request,
                src_width,
                src_height,
                num_frames,
            )->Ok_0;
            let height = side(request.height, src_height);
            let width = side(request.width, src_width);
            &&& shape.len() == 4
            &&& shape[0] == num_frames
            &&& num_frames >= 0 && height >= 0 && width >= 0
            &&& request.dtype == OutputDtype::Uint8 ==> {
                &&& shape[1] == height && shape[2] == width && shape[3] == 3
                &&& element_size == 1
            }
            &&& request.dtype == OutputDtype::Float32 ==> {
                &&& shape[1] == 3 && shape[2] == height && shape[3] == width
                &&& element_size == 4
            }
            &&& device == request.device
            &&& num_frames * height * width * 3 * element_size <= 17179869184
        }),
{
    let (shape, element_size, device) = planned_video_output(
        request,
        src_width,
        src_height,
        num_frames,
    )->Ok_0;
    crate::decoder::plan::law_allocated_outputs_are_bounded(shape, element_size as nat);
    lemma_count_of_four(shape);
    assert(shape[0] >= 0 && shape[1] >= 0 && shape[2] >= 0 && shape[3] >= 0);
    let n = num_frames as int;
    let h = side(request.height, src_height);
    let w = side(request.width, src_width);
    let e = element_size as int;
    assert(e * (n * h * w * 3) == n * h * w * 3 * e) by (nonlinear_arith);
    assert(e * (n * 3 * h * w) == n * h * w * 3 * e) by (nonlinear_arith);
}

proof fn lemma_count_of_four(shape: Seq<i64>)
    requires
        shape.len() == 4,
    ensures
        element_count(shape) == shape[0] * shape[1] * shape[2] * shape[3],
{
    let three = shape.drop_last();
    let two = three.drop_last();
    let one = two.drop_last();
    assert(one.drop_last().len() == 0);
    assert(element_count(one.drop_last()) == 1);
    assert(element_count(one) == 1 * shape[0]);
    assert(element_count(two) == element_count(one) * shape[1]);
    assert(element_count(three) == element_count(two) * shape[2]);
}

/// A frame of the size of the output, in the format of its element type, fits into each of its
/// rows: the conversion does not refuse it.
pub proof fn law_frames_fit_their_rows(
    request: VideoStreamRequest,
    src_width: i32,
    src_height: i32,
    num_frames: i64,
    frame: PictureFrame<'_>,
)
    requires
        planned_video_output(request, src_width, src_height, num_frames) is Ok,
        frame.height == side(request.height, src_height),
        frame.width == side(request.width, src_width),
    ensures
        ({
            let shape = planned_video_output(request, src_width, src_height, num_frames)->Ok_0.0;
            let row = shape.update(0, 1);
            match request.dtype {
                OutputDtype::Uint8 => {
                    &&& is_frame_shape(row, frame.height as int, frame.width as int, 3)
                    &&& frame.format == PixelFormat::Rgb24 ==> rgb24_error(
                        frame,
                        TensorKind::Uint8,
                        row,
                    ) is None
                },
                OutputDtype::Float32 => {
                    &&& is_frame_shape(row, 3, frame.height as int, frame.width as int)
                    &&& frame.format == PixelFormat::Gbrpf32le ==> gbrpf32_error(
                        frame,
                        TensorKind::Float,
                        row,
                    ) is None
                },
            }
        }),
{
    law_video_output_has_the_size_asked_for(request, src_width, src_height, num_frames);
}

/// Frames are never refused for their number or size as long as none of these is negative or zero
/// and the output takes no more memory than is allowed.
pub proof fn law_sensible_video_outputs_are_planned(
    request: VideoStreamRequest,
    src_width: i32,
    src_height: i32,
    num_frames: i64,
)
    requires
        num_frames > 0,
        side(request.height, src_height) > 0,
        side(request.width, src_width) > 0,
        request.dtype == OutputDtype::Uint8 ==> num_frames * side(request.height, src_height)
            * side(request.width, src_width) * 3 <= 17179869184,
        request.dtype == OutputDtype::Float32 ==> num_frames * side(request.height, src_height)
            * side(request.width, src_width) * 12 <= 17179869184,
    ensures
        planned_video_output(request, src_width, src_height, num_frames) is Ok,
{
    let n = num_frames as int;
    let h = side(request.height, src_height);
    let w = side(request.width, src_width);
    let shape = match request.dtype {
        OutputDtype::Uint8 => seq![num_frames, h as i64, w as i64, 3i64],
        OutputDtype::Float32 => seq![num_frames, 3i64, h as i64, w as i64],
    };
    lemma_count_of_four(shape);
    assert(n * 3 * h * w * 4 == n * h * w * 12) by (nonlinear_arith);
    let e: nat = match request.dtype {
        OutputDtype::Uint8 => 1,
        OutputDtype::Float32 => 4,
    };
    assert(e * (n * 3 * h * w) == n * 3 * h * w * e) by (nonlinear_arith);
    assert(1 * (n * h * w * 3) == n * h * w * 3);
    crate::decoder::plan::law_small_outputs_are_allocated(shape, e);
}

/// The output of audio has a row of samples for each channel.
pub proof fn law_audio_output_has_a_row_per_channel(
    num_channels: i32,
    sample_count: Double,
    num_samples: i64,
)
    ensures
        planned_audio_output(num_channels, sample_count, num_samples) matches Ok(shape) ==> {
            &&& shape.len() == 2
            &&& shape[0] == num_channels
            &&& shape[1] == num_samples
            &&& num_channels >= 0 && num_samples >= 0
            &&& num_channels * num_samples * 4 <= 17179869184
            &&& !sample_count.is_nan() && sample_count.rank() >= 0
        },
        planned_audio_output(num_channels, sample_count, num_samples) == Err::<
            Seq<i64>,
            AudioPlanError,
        >(AudioPlanError::InvalidSampleCount(sample_count)) <==> sample_count.is_nan()
            || sample_count.rank() < 0 || sample_count.bits == 0x7ff0_0000_0000_0000,
        planned_audio_output(num_channels, sample_count, num_samples) matches Err(error)
            ==> error is InvalidSampleCount || error is Size,
        num_channels > 0 && num_samples > 0 && num_channels * num_samples * 4 <= 17179869184
            && !sample_count.is_nan() && sample_count.rank() >= 0 && sample_count.bits
            != 0x7ff0_0000_0000_0000 ==> planned_audio_output(
            num_channels,
            sample_count,
            num_samples,
        ) is Ok,
{
    let shape = seq![num_channels as i64, num_samples];
    assert(shape.drop_last().drop_last() =~= seq![]);
    assert(element_count(shape.drop_last().drop_last()) == 1);
    assert(element_count(shape.drop_last()) == 1 * shape[0]);
    assert(element_count(shape) == shape[0] * shape[1]);
    let c = num_channels as int;
    let s = num_samples as int;
    assert(4 * (c * s) == c * s * 4) by (nonlinear_arith);
    if tensor_size_check(shape, 4) is Ok {
        crate::decoder::plan::law_allocated_outputs_are_bounded(shape, 4);
        assert(shape[0] >= 0 && shape[1] >= 0);
    }
    if num_channels > 0 && num_samples > 0 && c * s * 4 <= 17179869184 {
        crate::decoder::plan::law_small_outputs_are_allocated(shape, 4);
    }
}

/// There is room for as many frames, or samples of each channel, as were planned for.
pub proof fn law_room_is_as_planned(
    request: VideoStreamRequest,
    src_width: i32,
    src_height: i32,
    num_frames: i64,
    num_channels: i32,
    sample_count: Double,
    num_samples: i64,
)
    ensures
        planned_video_output(request, src_width, src_height, num_frames) matches Ok((shape, _, _))
            ==> capacity_of(StreamType::Video, shape) == num_frames,
        planned_audio_output(num_channels, sample_count, num_samples) matches Ok(shape)
            ==> capacity_of(StreamType::Audio, shape) == num_samples,
{
}

/// The opening of a decoder is refused if and only if frames are to stay on the GPU that it cannot
/// keep there.
pub proof fn law_which_decoders_are_opened(
    request: VideoStreamRequest,
    hardware: bool,
    src_width: i32,
    src_height: i32,
    r: Result<DecoderOptions, VideoPlanError>,
)
    requires
        decoder_planned(request, hardware, src_width, src_height, r),
    ensures
        r is Ok <==> {
            ||| request.device is None
            ||| {
                &&& request.frame_rate is None
                &&& request.dtype == OutputDtype::Uint8
                &&& request.width is Some <==> request.height is Some
                &&& request.width is Some && request.height is Some ==> {
                    &&& request.width->0 % 2 == 0 && request.height->0 % 2 == 0
                    &&& 2 <= request.width->0 < src_width
                    &&& 2 <= request.height->0 < src_height
                }
            }
        },
        r matches Ok(options) ==> opened_with(request, hardware, src_width, src_height, options),
        r matches Err(error) ==> device_error(request, src_width, src_height) == Some(error),
{
    law_what_the_gpu_can_keep(request, src_width, src_height);
}

/// The bytes of the first `n` dimensions.
pub open spec fn bytes_so_far(shape: Seq<i64>, element_size: nat, n: int) -> int {
    element_size * element_count(shape.take(n))
}

/// An output is refused for a reason that it has: a dimension that is negative, sizes that no
/// number holds, or more bytes than are allowed, which the error tells.
pub proof fn law_outputs_are_refused_for_a_reason(shape: Seq<i64>, element_size: nat)
    ensures
        match tensor_size_check(shape, element_size) {
            Ok(_) => {
                &&& forall|i: int| 0 <= i < shape.len() ==> #[trigger] shape[i] >= 0
                &&& element_size * element_count(shape) <= 17179869184
            },
            Err(TensorSizeError::NegativeDimension) => exists|i: int|
                0 <= i < shape.len() && #[trigger] shape[i] < 0,
            Err(TensorSizeError::Overflow) => exists|n: int|
                0 <= n <= shape.len() && #[trigger] bytes_so_far(shape, element_size, n)
                    > u128::MAX,
            Err(TensorSizeError::TooLarge(bytes)) => {
                &&& bytes as u128 == (element_size * element_count(shape)) as u128
                &&& element_size * element_count(shape) > 17179869184
                &&& forall|i: int| 0 <= i < shape.len() ==> #[trigger] shape[i] >= 0
            },
        },
{
    lemma_bytes_or_reason(shape, element_size, shape.len() as int);
    assert(shape.take(shape.len() as int) =~= shape);
}

proof fn lemma_bytes_or_reason(shape: Seq<i64>, element_size: nat, n: int)
    requires
        0 <= n <= shape.len(),
    ensures
        match tensor_bytes(shape.take(n), element_size) {
            Ok(bytes) => {
                &&& bytes == bytes_so_far(shape, element_size, n)
                &&& forall|i: int| 0 <= i < n ==> #[trigger] shape[i] >= 0
            },
            Err(TensorSizeError::NegativeDimension) => exists|i: int|
                0 <= i < n && #[trigger] shape[i] < 0,
            Err(TensorSizeError::Overflow) => exists|k: int|
                0 <= k <= n && #[trigger] bytes_so_far(shape, element_size, k) > u128::MAX,
            Err(TensorSizeError::TooLarge(_)) => false,
        },
    decreases n,
{
    let part = shape.take(n);
    if n > 0 {
        assert(part.drop_last() =~= shape.take(n - 1));
        assert(part.last() == shape[n - 1]);
        lemma_bytes_or_reason(shape, element_size, n - 1);
        let count = element_count(shape.take(n - 1));
        let last = shape[n - 1] as int;
        assert(element_size * (count * last) == (element_size * count) * last)
            by (nonlinear_arith);
        assert(bytes_so_far(shape, element_size, n) == (element_size * count) * last);
        match tensor_bytes(shape.take(n - 1), element_size) {
            Ok(bytes) => {
                if last < 0 {
                    assert(shape[n - 1] < 0);
                } else if bytes * last > u128::MAX {
                    assert(bytes_so_far(shape, element_size, n) > u128::MAX);
                } else {
                    assert(bytes * last >= 0) by (nonlinear_arith)
                        requires
                            bytes >= 0,
                            last >= 0,
                    ;
                }
            },
            Err(TensorSizeError::NegativeDimension) => {
                let i = choose|i: int| 0 <= i < n - 1 && #[trigger] shape[i] < 0;
                assert(shape[i] < 0);
            },
            Err(_) => {
                let k = choose|k: int|
                    0 <= k <= n - 1 && #[trigger] bytes_so_far(shape, element_size, k)
                        > u128::MAX;
                assert(bytes_so_far(shape, element_size, k) > u128::MAX);
            },
        }
    } else {
        assert(part.len() == 0);
        assert(element_size * 1 == element_size);
    }
}

/// `even` is the largest even number that is not above `n`, or 2 where that is smaller.
pub open spec fn is_made_even(n: int, even: int) -> bool {
    &&& even % 2 == 0
    &&& n < 2 ==> even == 2
    &&& n >= 2 ==> even <= n < even + 2
}

/// `n` is the whole number nearest to `a * b / c`, the larger of two that are equally near.
pub open spec fn is_nearest(a: int, b: int, c: int, n: int) -> bool {
    2 * n * c <= 2 * (a * b) + c < 2 * n * c + 2 * c
}

/// `w` and `h` are what is asked for: each side that is asked for, and for one that is not, what
/// keeps the proportions of the source.
pub open spec fn is_asked_size(
    src_w: int,
    src_h: int,
    width: Option<u32>,
    height: Option<u32>,
    w: int,
    h: int,
) -> bool {
    &&& width is Some || height is Some
    &&& width is Some ==> w == width->0
    &&& height is Some ==> h == height->0
    &&& width is None ==> is_nearest(h, src_w, src_h, w)
    &&& height is None ==> is_nearest(w, src_h, src_w, h)
}

proof fn lemma_nearest(a: int, b: int, c: int, n: int)
    requires
        c > 0,
        is_nearest(a, b, c, n),
    ensures
        n == (a * b + c / 2) / c,
{
    let sum = a * b + c / 2;
    assert(n * c <= sum < n * c + c) by {
        assert(2 * n * c == 2 * (n * c)) by (nonlinear_arith);
    }
    vstd::arithmetic::div_mod::lemma_fundamental_div_mod_converse(sum, c, n, sum - n * c);
}

/// Frames are resized on the GPU if and only if a size is asked for and both sides get smaller once
/// they are made even; then to exactly that size.
pub proof fn law_gpu_resizes_to_the_size_asked_for(
    src_w: int,
    src_h: int,
    width: Option<u32>,
    height: Option<u32>,
    w: int,
    h: int,
    even_w: int,
    even_h: int,
)
    requires
        src_w > 0,
        src_h > 0,
        is_asked_size(src_w, src_h, width, height, w, h),
        is_made_even(w, even_w),
        is_made_even(h, even_h),
    ensures
        even_w < src_w && even_h < src_h ==> hw_resize(src_w, src_h, width, height) == Some(
            (even_w, even_h),
        ),
        !(even_w < src_w && even_h < src_h) ==> hw_resize(src_w, src_h, width, height) is None,
{
    if width is None {
        lemma_nearest(h, src_w, src_h, w);
    }
    if height is None {
        lemma_nearest(w, src_h, src_w, h);
    }
}

/// Frames are not resized on the GPU where no size is asked for, or where the source has none.
pub proof fn law_gpu_resizes_only_when_asked(
    src_w: int,
    src_h: int,
    width: Option<u32>,
    height: Option<u32>,
)
    ensures
        width is None && height is None ==> hw_resize(src_w, src_h, width, height) is None,
        src_w <= 0 || src_h <= 0 ==> hw_resize(src_w, src_h, width, height) is None,
{
}

/// Frames may stay on the GPU if and only if they are bytes, come at their own rate, and either keep
/// their size or are given two even sides that are both smaller than the source's.
pub proof fn law_what_the_gpu_can_keep(
    request: VideoStreamRequest,
    src_width: i32,
    src_height: i32,
)
    ensures
        request.device is None ==> device_error(request, src_width, src_height) is None,
        request.device is Some ==> (device_error(request, src_width, src_height) is None <==> {
            &&& request.frame_rate is None
            &&& request.dtype == OutputDtype::Uint8
            &&& request.width is Some <==> request.height is Some
            &&& request.width is Some && request.height is Some ==> {
                &&& request.width->0 % 2 == 0 && request.height->0 % 2 == 0
                &&& 2 <= request.width->0 < src_width
                &&& 2 <= request.height->0 < src_height
            }
        }),
        match device_error(request, src_width, src_height) {
            None => true,
            Some(VideoPlanError::DeviceWithFrameRate) => request.frame_rate is Some,
            Some(VideoPlanError::DeviceWithDtype) => request.dtype != OutputDtype::Uint8
                && request.frame_rate is None,
            Some(VideoPlanError::DeviceWithOneSide) => {
                &&& request.width is Some <==> request.height is None
                &&& request.frame_rate is None && request.dtype == OutputDtype::Uint8
            },
            Some(VideoPlanError::DeviceWithOddSize { width, height }) => {
                &&& request.width == Some(width) && request.height == Some(height)
                &&& width % 2 == 1 || height % 2 == 1
                &&& request.frame_rate is None && request.dtype == OutputDtype::Uint8
            },
            Some(
                VideoPlanError::DeviceWithoutDownscale { src_width: w, src_height: h, width, height },
            ) => {
                &&& request.width == Some(width) && request.height == Some(height)
                &&& w == src_width && h == src_height
                &&& width % 2 == 0 && height % 2 == 0
                &&& width < 2 || height < 2 || width >= w || height >= h
                &&& request.frame_rate is None && request.dtype == OutputDtype::Uint8
            },
            Some(_) => false,
        },
{
}

/// A stream is decoded on the GPU if and only if that is asked for, or its frames are to stay there;
/// then by the decoder that is named after the usual one. Frames that are to stay on the GPU cannot
/// be decoded elsewhere.
pub proof fn law_who_decodes(request: VideoStreamRequest, default_name: Seq<char>)
    ensures
        decoder_choice(request, default_name) is Err <==> request.device is Some
            && request.hardware_acceleration == Some(false),
        decoder_choice(request, default_name) matches Err(error) ==> error
            == VideoPlanError::DeviceWithoutHardware,
        decoder_choice(request, default_name) matches Ok((hardware, name)) ==> {
            &&& hardware <==> request.hardware_acceleration == Some(true) || request.device is Some
            &&& hardware <==> name is Some
            &&& name matches Some(text) ==> default_name.is_prefix_of(text) && has_suffix(
                text,
                "_cuvid"@,
            ) && text.len() == default_name.len() + 6
        },
{
    reveal_strlit("_cuvid");
    let text = default_name + "_cuvid"@;
    assert(text.skip(text.len() - 6) =~= "_cuvid"@);
    assert(text.subrange(0, default_name.len() as int) =~= default_name);
}

/// A number with its sign is read back as it was written.
pub proof fn law_signed_decimal_round_trip(n: int)
    requires
        i32::MIN <= n <= i32::MAX,
    ensures
        i32_value(signed_decimal(n)) == Some(n),
{
    if n < 0 {
        law_decimal_denotes((-n) as nat);
        assert(signed_decimal(n).skip(1) =~= decimal((-n) as nat));
    } else {
        law_decimal_round_trip(n as nat, 0x7fff_ffff);
        law_decimal_denotes(n as nat);
        assert(is_digit(decimal(n as nat)[0]));
    }
}

/// A decoder works with as many threads as are asked for, or with one; on the GPU that is asked for,
/// or on any; and resizes only where it decodes on the GPU, to a size that its option tells with the
/// width before the height.
#[verifier::rlimit(40)]
pub proof fn law_decoders_are_opened_as_asked(
    request: VideoStreamRequest,
    hardware: bool,
    src_width: i32,
    src_height: i32,
    options: DecoderOptions,
)
    requires
        opened_with(request, hardware, src_width, src_height, options),
    ensures
        unsigned_value(options.threads@, usize::MAX as nat) == Some(
            if request.number_of_threads is Some {
                request.number_of_threads->0 as nat
            } else {
                1
            },
        ),
        options.device_name is Some <==> request.device is Some,
        request.device is Some ==> i32_value(options.device_name->0@) == Some(
            request.device->0 as int,
        ),
        !hardware ==> options.resize is None && options.resize_option is None,
        options.resize is Some <==> options.resize_option is Some,
        options.resize matches Some((w, h)) ==> {
            let text = options.resize_option->0@;
            &&& 2 <= w < src_width && 2 <= h < src_height
            &&& w % 2 == 0 && h % 2 == 0
            &&& exists|k: int|
                0 <= k < text.len() && #[trigger] text[k] == 'x' && i32_value(text.take(k)) == Some(
                    w as int,
                ) && i32_value(text.skip(k + 1)) == Some(h as int)
        },
        hardware ==> (options.resize is Some <==> hw_resize(
            src_width as int,
            src_height as int,
            request.width,
            request.height,
        ) is Some),
        hardware ==> (options.resize matches Some((w, h)) ==> hw_resize(
            src_width as int,
            src_height as int,
            request.width,
            request.height,
        ) == Some((w as int, h as int))),
{
    law_decimal_round_trip(
        if request.number_of_threads is Some {
            request.number_of_threads->0 as nat
        } else {
            1
        },
        usize::MAX as nat,
    );
    if request.device is Some {
        law_signed_decimal_round_trip(request.device->0 as int);
    }
    crate::decoder::plan::law_hw_resize_is_a_strict_even_downscale(
        src_width as int,
        src_height as int,
        request.width,
        request.height,
    );
    if let Some((w, h)) = options.resize {
        let text = options.resize_option->0@;
        let k = signed_decimal(w as int).len() as int;
        law_signed_decimal_round_trip(w as int);
        law_signed_decimal_round_trip(h as int);
        assert(text.take(k) =~= signed_decimal(w as int));
        assert(text.skip(k + 1) =~= signed_decimal(h as int));
        assert(text[k] == 'x');
    }
}

/// A video that does not say how long it is, is one image. Otherwise its length is that of the
/// range, and its rate is the one that is asked for, or else the input's own, or else what the input
/// counts; where there is none of these, the video cannot be planned. A range that is refused is
/// told first.
pub proof fn law_video_timing(
    requested: Option<FrameRate>,
    length: VideoLength,
    seek: Seek,
    lengths: RangeLengths,
)
    ensures
        length.duration == i64::MIN ==> video_timing(requested, length, seek, lengths) == Ok::<
            VideoTiming,
            VideoTimingError,
        >(VideoTiming::StillImage { frames: 1, rate: Double { bits: 0x3ff0_0000_0000_0000 } }),
        length.duration != i64::MIN ==> match video_timing(requested, length, seek, lengths) {
            Ok(VideoTiming::StillImage { .. }) => false,
            Ok(VideoTiming::Timed { seconds, rate }) => {
                &&& decoded_seconds(length.seconds, seek, lengths) == Ok::<Double, DurationError>(
                    seconds,
                )
                &&& match rate {
                    FrameRateSource::Requested(value) => requested is Some && requested->0.value
                        == value,
                    FrameRateSource::Container(fraction) => {
                        &&& requested is None
                        &&& fraction == length.rate
                        &&& fraction.num != 0 || fraction.den != 1
                    },
                    FrameRateSource::Counted { frames, duration } => {
                        &&& requested is None
                        &&& length.rate.num == 0 && length.rate.den == 1
                        &&& frames == length.nb_frames && frames > 0
                        &&& duration == length.duration && duration > 0
                    },
                }
            },
            Err(VideoTimingError::Duration(error)) => decoded_seconds(
                length.seconds,
                seek,
                lengths,
            ) == Err::<Double, DurationError>(error),
            Err(VideoTimingError::NoFrameRate) => {
                &&& decoded_seconds(length.seconds, seek, lengths) is Ok
                &&& requested is None
                &&& length.rate.num == 0 && length.rate.den == 1
                &&& length.nb_frames <= 0 || length.duration <= 0
            },
        },
{
}

/// Audio has to say how long it is. Its length is that of the range, and its rate the one that is
/// asked for, or else the source's own.
pub proof fn law_audio_timing(
    duration: i64,
    stream_duration: Double,
    seek: Seek,
    lengths: RangeLengths,
    requested_rate: Option<usize>,
    source_rate: i32,
)
    ensures
        match audio_timing(
            duration,
            stream_duration,
            seek,
            lengths,
            requested_rate,
            source_rate,
        ) {
            Ok(timing) => {
                &&& duration != i64::MIN
                &&& decoded_seconds(stream_duration, seek, lengths) == Ok::<Double, DurationError>(
                    timing.seconds,
                )
                &&& requested_rate is None ==> timing.sample_rate == source_rate
                &&& requested_rate is Some && requested_rate->0 <= i32::MAX ==> timing.sample_rate
                    == requested_rate->0
            },
            Err(AudioPlanError::NoDuration) => duration == i64::MIN,
            Err(AudioPlanError::Duration(error)) => duration != i64::MIN && decoded_seconds(
                stream_duration,
                seek,
                lengths,
            ) == Err::<Double, DurationError>(error),
            Err(_) => false,
        },
{
}

} // verus!
