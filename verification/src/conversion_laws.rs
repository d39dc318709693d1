//! Where each byte of a frame ends up.
use vstd::prelude::*;

use crate::conversion::{
    channel, channel_bytes, converted_audio, gbrpf32_error, law_rgb24_round_trip, packed_rows,
    padded_rows, rgb24_error, rgb24_tensor_error, rgb_planes, rgb_rows, sample_bytes,
    shape_of_frame, shows, sounds, with_channels, AudioConversion, AudioDest, AudioFrame,
    ConversionError, OwnedAudio, OwnedPicture, PictureFrame, TensorKind,
};
use crate::decoder::format::{PixelFormat, SampleFormat};
use crate::decoder::frame::StreamType;

verus! {

/// Byte `x` of row `y` of a plane is byte `x` of row `y` of the output, whose rows follow on one
/// another.
pub proof fn law_rows_are_packed(
    data: Seq<u8>,
    linesize: int,
    row_bytes: int,
    rows: int,
    y: int,
    x: int,
)
    requires
        0 <= y < rows,
        0 <= x < row_bytes <= linesize,
        (rows - 1) * linesize + row_bytes <= data.len(),
    ensures
        packed_rows(data, linesize, row_bytes, rows).len() == rows * row_bytes,
        0 <= y * row_bytes + x < rows * row_bytes,
        packed_rows(data, linesize, row_bytes, rows)[y * row_bytes + x] == data[y * linesize + x],
    decreases rows,
{
    lemma_packed_len(data, linesize, row_bytes, rows);
    assert((rows - 2) * linesize + linesize == (rows - 1) * linesize) by (nonlinear_arith);
    lemma_packed_len(data, linesize, row_bytes, rows - 1);
    assert((rows - 1) * row_bytes + row_bytes == rows * row_bytes) by (nonlinear_arith);
    assert(0 <= y * row_bytes <= (rows - 1) * row_bytes) by (nonlinear_arith)
        requires
            0 <= y <= rows - 1,
            row_bytes >= 0,
    ;
    if y < rows - 1 {
        law_rows_are_packed(data, linesize, row_bytes, rows - 1, y, x);
    }
}

proof fn lemma_packed_len(data: Seq<u8>, linesize: int, row_bytes: int, rows: int)
    requires
        0 <= rows,
        0 <= row_bytes <= linesize,
        rows > 0 ==> (rows - 1) * linesize + row_bytes <= data.len(),
    ensures
        packed_rows(data, linesize, row_bytes, rows).len() == rows * row_bytes,
    decreases rows,
{
    if rows > 0 {
        assert(0 <= (rows - 1) * linesize) by (nonlinear_arith)
            requires
                rows > 0,
                linesize >= 0,
        ;
        assert((rows - 2) * linesize + linesize == (rows - 1) * linesize) by (nonlinear_arith);
        lemma_packed_len(data, linesize, row_bytes, rows - 1);
        assert((rows - 1) * row_bytes + row_bytes == rows * row_bytes) by (nonlinear_arith);
    } else {
        assert(rows * row_bytes == 0) by (nonlinear_arith)
            requires
                rows == 0,
        ;
    }
}

/// Byte `x` of row `y` of an output is byte `x` of row `y` of the frame that is made of it, and what
/// lies between the frame's rows is zero.
pub proof fn law_rows_are_padded(
    data: Seq<u8>,
    linesize: int,
    row_bytes: int,
    rows: int,
    y: int,
    x: int,
)
    requires
        0 <= y < rows,
        0 <= x < linesize,
        0 <= row_bytes <= linesize,
        rows * row_bytes <= data.len(),
    ensures
        padded_rows(data, linesize, row_bytes, rows).len() == rows * linesize,
        0 <= y * linesize + x < rows * linesize,
        padded_rows(data, linesize, row_bytes, rows)[y * linesize + x] == if x < row_bytes {
            data[y * row_bytes + x]
        } else {
            0u8
        },
    decreases rows,
{
    lemma_padded_len(data, linesize, row_bytes, rows);
    assert((rows - 1) * row_bytes + row_bytes == rows * row_bytes) by (nonlinear_arith);
    assert((rows - 1) * linesize + linesize == rows * linesize) by (nonlinear_arith);
    assert(0 <= (rows - 1) * row_bytes) by (nonlinear_arith)
        requires
            rows >= 1,
            row_bytes >= 0,
    ;
    lemma_padded_len(data, linesize, row_bytes, rows - 1);
    assert(0 <= y * linesize <= (rows - 1) * linesize) by (nonlinear_arith)
        requires
            0 <= y <= rows - 1,
            linesize >= 0,
    ;
    if y < rows - 1 {
        assert(y * linesize + linesize <= (rows - 1) * linesize) by (nonlinear_arith)
            requires
                y + 1 <= rows - 1,
                linesize >= 0,
        ;
        law_rows_are_padded(data, linesize, row_bytes, rows - 1, y, x);
    }
}

proof fn lemma_padded_len(data: Seq<u8>, linesize: int, row_bytes: int, rows: int)
    requires
        0 <= rows,
        0 <= row_bytes <= linesize,
        rows * row_bytes <= data.len(),
    ensures
        padded_rows(data, linesize, row_bytes, rows).len() == rows * linesize,
    decreases rows,
{
    if rows > 0 {
        assert((rows - 1) * row_bytes + row_bytes == rows * row_bytes) by (nonlinear_arith);
        assert(0 <= (rows - 1) * row_bytes) by (nonlinear_arith)
            requires
                rows > 0,
                row_bytes >= 0,
        ;
        lemma_padded_len(data, linesize, row_bytes, rows - 1);
        assert((rows - 1) * linesize + linesize == rows * linesize) by (nonlinear_arith);
    } else {
        assert(rows * linesize == 0) by (nonlinear_arith)
            requires
                rows == 0,
        ;
    }
}

/// Each pixel of a frame of packed RGB is copied to its place: byte `x` of row `y` to byte `x` of row
/// `y`.
pub proof fn law_pixels_are_copied_in_place(frame: PictureFrame<'_>, y: int, x: int)
    requires
        frame.planes@.len() > 0,
        0 <= y < frame.height,
        0 <= x < frame.width * 3,
        frame.planes@[0].holds(frame.height as int, frame.width * 3),
    ensures
        rgb_rows(frame).len() == frame.height * (frame.width * 3),
        rgb_rows(frame)[y * (frame.width * 3) + x] == frame.planes@[0].data@[y
            * frame.planes@[0].linesize + x],
{
    let plane = frame.planes@[0];
    law_rows_are_packed(
        plane.data@,
        plane.linesize as int,
        frame.width * 3,
        frame.height as int,
        y,
        x,
    );
}

/// Byte `x` of row `y` of the red, the green and the blue plane, which a frame has in the order
/// green, blue, red, is byte `x` of row `y` of the first, the second and the third plane of the
/// output.
#[verifier::rlimit(40)]
pub proof fn law_planes_are_put_in_order(frame: PictureFrame<'_>, y: int, x: int)
    requires
        frame.planes@.len() >= 3,
        0 <= y < frame.height,
        0 <= x < frame.width * 4,
        frame.planes@[0].holds(frame.height as int, frame.width * 4),
        frame.planes@[1].holds(frame.height as int, frame.width * 4),
        frame.planes@[2].holds(frame.height as int, frame.width * 4),
    ensures
        ({
            let row = frame.width * 4;
            let plane = frame.height * row;
            let green = frame.planes@[0];
            let blue = frame.planes@[1];
            let red = frame.planes@[2];
            let out = rgb_planes(frame);
            &&& out.len() == 3 * plane
            &&& out[y * row + x] == red.data@[y * red.linesize + x]
            &&& out[plane + y * row + x] == green.data@[y * green.linesize + x]
            &&& out[2 * plane + y * row + x] == blue.data@[y * blue.linesize + x]
        }),
{
    let row = frame.width * 4;
    let h = frame.height as int;
    let green = frame.planes@[0];
    let blue = frame.planes@[1];
    let red = frame.planes@[2];
    law_rows_are_packed(red.data@, red.linesize as int, row, h, y, x);
    law_rows_are_packed(green.data@, green.linesize as int, row, h, y, x);
    law_rows_are_packed(blue.data@, blue.linesize as int, row, h, y, x);
}

/// A frame is copied if and only if it has the format, and the output the element type and the
/// shape, that belong together: packed RGB and rows of bytes, or planes of floats.
#[verifier::rlimit(40)]
pub proof fn law_what_is_copied_where(frame: PictureFrame<'_>, kind: TensorKind, shape: Seq<i64>)
    ensures
        rgb24_error(frame, kind, shape) is None <==> {
            &&& frame.format == PixelFormat::Rgb24
            &&& kind == TensorKind::Uint8
            &&& shape == seq![frame.height as i64, frame.width as i64, 3i64] || shape
                == seq![1i64, frame.height as i64, frame.width as i64, 3i64]
        },
        gbrpf32_error(frame, kind, shape) is None <==> {
            &&& frame.format == PixelFormat::Gbrpf32le
            &&& kind == TensorKind::Float
            &&& shape == seq![3i64, frame.height as i64, frame.width as i64] || shape
                == seq![1i64, 3i64, frame.height as i64, frame.width as i64]
        },
        rgb24_error(frame, kind, shape) matches Some(error) ==> match error {
            ConversionError::PixelFormat(format) => format == frame.format && format
                != PixelFormat::Rgb24,
            ConversionError::Kind(other) => other == kind && kind != TensorKind::Uint8
                && frame.format == PixelFormat::Rgb24,
            ConversionError::Shape => frame.format == PixelFormat::Rgb24 && kind
                == TensorKind::Uint8,
            ConversionError::SampleFormat(_) => false,
        },
        gbrpf32_error(frame, kind, shape) matches Some(error) ==> match error {
            ConversionError::PixelFormat(format) => format == frame.format && format
                != PixelFormat::Gbrpf32le,
            ConversionError::Kind(other) => other == kind && kind != TensorKind::Float
                && frame.format == PixelFormat::Gbrpf32le,
            ConversionError::Shape => frame.format == PixelFormat::Gbrpf32le && kind
                == TensorKind::Float,
            ConversionError::SampleFormat(_) => false,
        },
{
    let h = frame.height as i64;
    let w = frame.width as i64;
    if rgb24_error(frame, kind, shape) is None {
        if shape.len() == 3 {
            assert(shape =~= seq![h, w, 3i64]);
        } else {
            assert(shape =~= seq![1i64, h, w, 3i64]);
        }
    }
    if gbrpf32_error(frame, kind, shape) is None {
        if shape.len() == 3 {
            assert(shape =~= seq![3i64, h, w]);
        } else {
            assert(shape =~= seq![1i64, 3i64, h, w]);
        }
    }
}

/// A frame fits into the output that is made for it alone.
pub proof fn law_single_frames_fit(
    frame: PictureFrame<'_>,
    width: i32,
    height: i32,
    nb_samples: i32,
    num_channels: i32,
)
    ensures
        frame.format == PixelFormat::Rgb24 && frame.width == width && frame.height == height
            ==> rgb24_error(
            frame,
            TensorKind::Uint8,
            shape_of_frame(StreamType::Video, width, height, nb_samples, num_channels),
        ) is None,
        ({
            let shape = shape_of_frame(StreamType::Audio, width, height, nb_samples, num_channels);
            shape.len() == 2 && shape[0] == num_channels && shape[1] == nb_samples
        }),
{
}

/// A picture that is made of an output has its height and its width, and read back it is that
/// output.
pub proof fn law_pictures_show_their_output(
    picture: OwnedPicture,
    frame: PictureFrame<'_>,
    shape: Seq<i64>,
    tensor: Seq<u8>,
    linesize: int,
)
    requires
        shape.len() == 3,
        0 <= shape[0] <= i32::MAX,
        0 <= shape[1] <= i32::MAX,
        shape[2] == 3,
        shape[1] * 3 <= linesize,
        tensor.len() == shape[0] * (shape[1] * 3),
        shows(picture, shape, tensor, linesize),
        frame.format == picture.format,
        frame.width == picture.width,
        frame.height == picture.height,
    ensures
        rgb24_error(frame, TensorKind::Uint8, shape) is None,
        picture.linesize == linesize,
        packed_rows(
            picture.data@,
            picture.linesize as int,
            picture.width * 3,
            picture.height as int,
        ) == tensor,
{
    law_rgb24_round_trip(tensor, linesize, shape[1] * 3, shape[0] as int);
}

/// An output is made into a picture if and only if it has three dimensions and holds bytes.
pub proof fn law_what_becomes_a_picture(kind: TensorKind, shape: Seq<i64>)
    ensures
        rgb24_tensor_error(kind, shape) is None <==> kind == TensorKind::Uint8 && shape.len() == 3,
        rgb24_tensor_error(kind, shape) == Some(ConversionError::Kind(kind)) <==> kind
            != TensorKind::Uint8,
        rgb24_tensor_error(kind, shape) == Some(ConversionError::Shape) <==> kind
            == TensorKind::Uint8 && shape.len() != 3,
{
}

/// A planar format has as many bytes in a sample as the packed one of the same kind. Numbers of 16,
/// 32 and 64 bits have 2, 4 and 8 bytes, whole or not.
pub proof fn law_sample_sizes(format: SampleFormat)
    ensures
        sample_bytes(format) is None <==> format is Other,
        sample_bytes(SampleFormat::U8) == Some(1usize),
        sample_bytes(SampleFormat::U8P) == sample_bytes(SampleFormat::U8),
        sample_bytes(SampleFormat::S16) == Some(2usize),
        sample_bytes(SampleFormat::S16P) == sample_bytes(SampleFormat::S16),
        sample_bytes(SampleFormat::S32) == Some(4usize),
        sample_bytes(SampleFormat::S32P) == sample_bytes(SampleFormat::S32),
        sample_bytes(SampleFormat::S64) == Some(8usize),
        sample_bytes(SampleFormat::S64P) == sample_bytes(SampleFormat::S64),
        sample_bytes(SampleFormat::Flt) == sample_bytes(SampleFormat::S32),
        sample_bytes(SampleFormat::Fltp) == sample_bytes(SampleFormat::Flt),
        sample_bytes(SampleFormat::Dbl) == sample_bytes(SampleFormat::S64),
        sample_bytes(SampleFormat::DblP) == sample_bytes(SampleFormat::Dbl),
{
}

/// Audio of planar floats is copied as it is; that of every other known format is made planar floats
/// first, and that of an unknown one refused.
pub proof fn law_what_becomes_of_audio(
    frame: AudioFrame<'_>,
    dest: AudioDest,
    target: Seq<u8>,
)
    ensures
        sample_bytes(frame.format) is None ==> converted_audio(frame, dest, target) == (
            Err::<AudioConversion, ConversionError>(ConversionError::SampleFormat(frame.format)),
            target,
        ),
        sample_bytes(frame.format) is Some && !(frame.format is Fltp) ==> converted_audio(
            frame,
            dest,
            target,
        ) == (Ok::<AudioConversion, ConversionError>(AudioConversion::Resample), target),
        frame.format is Fltp && frame.planes@.len() != dest.num_channels ==> converted_audio(
            frame,
            dest,
            target,
        ) == (Err::<AudioConversion, ConversionError>(ConversionError::Shape), target),
        frame.format is Fltp && frame.planes@.len() == dest.num_channels ==> converted_audio(
            frame,
            dest,
            target,
        ).0 == Ok::<AudioConversion, ConversionError>(AudioConversion::Copy),
{
}

/// Sample by sample, each channel of a frame goes to its own row of the output, as far as the frame
/// reaches and as there is room. Every other byte of the output stays as it was, and so does the row
/// of a channel that is missing.
pub proof fn law_channels_go_to_their_rows(
    frame: AudioFrame<'_>,
    dest: AudioDest,
    target: Seq<u8>,
    i: int,
    j: int,
)
    requires
        frame.format is Fltp,
        frame.nb_samples >= 0,
        frame.planes@.len() == dest.num_channels,
        dest.num_samples * 4 <= dest.channel_stride,
        forall|k: int|
            0 <= k < frame.planes@.len() ==> (#[trigger] frame.planes@[k] matches Some(plane)
                ==> frame.nb_samples * 4 <= plane@.len()),
        0 <= i < frame.planes@.len(),
        0 <= j < dest.channel_stride,
        0 <= i * dest.channel_stride + j < target.len(),
    ensures
        ({
            let out = converted_audio(frame, dest, target).1;
            let at = i * dest.channel_stride + j;
            &&& out.len() == target.len()
            &&& out[at] == if j < frame.nb_samples * 4 && j < dest.num_samples * 4
                && frame.planes@[i] is Some {
                frame.planes@[i]->0@[j]
            } else {
                target[at]
            }
        }),
{
    let n = channel_bytes(frame.nb_samples, dest.num_samples);
    lemma_channel_byte(
        target,
        frame.planes@,
        dest.channel_stride as int,
        n,
        frame.planes@.len() as int,
        i,
        j,
    );
}

proof fn lemma_channel_byte(
    target: Seq<u8>,
    planes: Seq<Option<&[u8]>>,
    stride: int,
    n: int,
    k: int,
    i: int,
    j: int,
)
    requires
        0 <= k <= planes.len(),
        0 <= n <= stride,
        forall|m: int|
            0 <= m < planes.len() ==> (#[trigger] planes[m] matches Some(plane) ==> n
                <= plane@.len()),
        0 <= i < planes.len(),
        0 <= j < stride,
        0 <= i * stride + j < target.len(),
    ensures
        with_channels(target, planes, stride, n, k).len() == target.len(),
        with_channels(target, planes, stride, n, k)[i * stride + j] == if i < k && j < n
            && planes[i] is Some {
            planes[i]->0@[j]
        } else {
            target[i * stride + j]
        },
    decreases k,
{
    if k > 0 {
        lemma_channel_byte(target, planes, stride, n, k - 1, i, j);
        if i < k - 1 {
            assert(i * stride + stride <= (k - 1) * stride) by (nonlinear_arith)
                requires
                    i + 1 <= k - 1,
                    stride >= 0,
            ;
        }
        if i > k - 1 {
            assert((k - 1) * stride + stride <= i * stride) by (nonlinear_arith)
                requires
                    k <= i,
                    stride >= 0,
            ;
        }
        if let Some(plane) = planes[k - 1] {
            assert(plane@.take(n).len() == n);
        }
    }
}

/// A frame of audio that is made of an output has a plane for each channel, in their order, and each
/// holds the samples of its channel.
pub proof fn law_frames_sound_like_their_output(
    audio: OwnedAudio,
    shape: Seq<i64>,
    tensor: Seq<u8>,
    sample_rate: i32,
    i: int,
    j: int,
)
    requires
        shape.len() == 2,
        0 <= shape[0],
        0 <= shape[1] <= i32::MAX,
        tensor.len() == shape[0] * (shape[1] * 4),
        sounds(audio, shape, tensor, sample_rate),
        0 <= i < shape[0],
        0 <= j < shape[1] * 4,
    ensures
        audio.sample_rate == sample_rate,
        audio.nb_samples == shape[1],
        audio.planes@.len() == shape[0],
        audio.planes@[i]@.len() == audio.nb_samples * 4,
        audio.planes@[i]@[j] == tensor[i * (shape[1] * 4) + j],
{
    let bytes = shape[1] * 4;
    assert(0 <= i * bytes && i * bytes + bytes <= shape[0] * bytes) by (nonlinear_arith)
        requires
            0 <= i,
            i + 1 <= shape[0],
            bytes >= 0,
    ;
    assert(audio.planes@[i]@ == channel(tensor, bytes, i));
}

} // verus!
