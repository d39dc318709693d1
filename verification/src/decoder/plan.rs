//! What is settled about a stream before decoding: its decoder, its size, how much room it needs.
use vstd::prelude::*;

use crate::cast::{low_i32, size_to_i32};
use crate::decoder::frame::{Rational, Seek};
use crate::decoder::request::{AudioStreamRequest, FrameRate, OutputDtype, VideoStreamRequest};
use crate::double::{Double, ONE_BITS};
use crate::text::{decimal, decimal_text, signed_decimal, signed_decimal_text, view_of};

verus! {

/// The largest output that is allocated for one stream: 16 GiB.
pub const MAX_OUTPUT_TENSOR_BYTES: u128 = 17179869184;

/// Why an output is not allocated.
#[derive(Clone, Copy, Debug, PartialEq, Eq, Structural)]
pub enum TensorSizeError {
    NegativeDimension,
    Overflow,
    TooLarge(u128),
}

/// The bytes that an output of this shape takes, or the first thing that is wrong with it, going
/// through its dimensions in their order.
pub open spec fn tensor_bytes(shape: Seq<i64>, element_size: nat) -> Result<nat, TensorSizeError>
    decreases shape.len(),
{
    if shape.len() == 0 {
        Ok(element_size)
    } else {
        match tensor_bytes(shape.drop_last(), element_size) {
            Err(error) => Err(error),
            Ok(bytes) => if shape.last() < 0 {
                Err(TensorSizeError::NegativeDimension)
            } else if bytes * shape.last() > u128::MAX {
                Err(TensorSizeError::Overflow)
            } else {
                Ok((bytes * shape.last()) as nat)
            },
        }
    }
}

/// What [`check_output_tensor_size`] says.
pub open spec fn tensor_size_check(shape: Seq<i64>, element_size: nat) -> Result<
    (),
    TensorSizeError,
> {
    match tensor_bytes(shape, element_size) {
        Err(error) => Err(error),
        Ok(bytes) => if bytes > MAX_OUTPUT_TENSOR_BYTES {
            Err(TensorSizeError::TooLarge(bytes as u128))
        } else {
            Ok(())
        },
    }
}

proof fn lemma_size_error_stays(shape: Seq<i64>, element_size: nat, n: int)
    requires
        0 <= n <= shape.len(),
        tensor_bytes(shape.take(n), element_size) is Err,
    ensures
        tensor_bytes(shape, element_size) == tensor_bytes(shape.take(n), element_size),
    decreases shape.len() - n,
{
    if n < shape.len() {
        assert(shape.take(n + 1).drop_last() =~= shape.take(n));
        lemma_size_error_stays(shape, element_size, n + 1);
    } else {
        assert(shape.take(n) =~= shape);
    }
}

/// Rejects the shape of an output that has a negative dimension or that would take more memory
/// than is allowed.
pub fn check_output_tensor_size(shape: &[i64], element_size: usize) -> (r: Result<
    (),
    TensorSizeError,
>)
    ensures
        r == tensor_size_check(shape@, element_size as nat),
{
    let mut total: u128 = element_size as u128;
    let mut i: usize = 0;
    while i < shape.len()
        invariant
            i <= shape@.len(),
            tensor_bytes(shape@.take(i as int), element_size as nat) == Ok::<
                nat,
                TensorSizeError,
            >(total as nat),
        decreases shape@.len() - i,
    {
        let dim: i64 = shape[i];
        proof {
            assert(shape@.take(i + 1).drop_last() =~= shape@.take(i as int));
            assert(shape@.take(i + 1).last() == dim);
        }
        if dim < 0 {
            proof {
                lemma_size_error_stays(shape@, element_size as nat, i + 1);
            }
            return Err(TensorSizeError::NegativeDimension);
        }
        match total.checked_mul(dim as u128) {
            Some(product) => {
                total = product;
            },
            None => {
                proof {
                    lemma_size_error_stays(shape@, element_size as nat, i + 1);
                }
                return Err(TensorSizeError::Overflow);
            },
        }
        i = i + 1;
    }
    proof {
        assert(shape@.take(shape@.len() as int) =~= shape@);
    }
    if total > MAX_OUTPUT_TENSOR_BYTES {
        return Err(TensorSizeError::TooLarge(total));
    }
    Ok(())
}

/// The product of the dimensions.
pub open spec fn element_count(shape: Seq<i64>) -> int
    decreases shape.len(),
{
    if shape.len() == 0 {
        1
    } else {
        element_count(shape.drop_last()) * shape.last()
    }
}

/// An output that is allocated has no negative dimension and takes at most the memory that is
/// allowed.
pub proof fn law_allocated_outputs_are_bounded(shape: Seq<i64>, element_size: nat)
    requires
        tensor_size_check(shape, element_size) is Ok,
    ensures
        forall|i: int| 0 <= i < shape.len() ==> #[trigger] shape[i] >= 0,
        element_size * element_count(shape) <= MAX_OUTPUT_TENSOR_BYTES,
{
    lemma_tensor_bytes(shape, element_size);
}

proof fn lemma_tensor_bytes(shape: Seq<i64>, element_size: nat)
    requires
        tensor_bytes(shape, element_size) is Ok,
    ensures
        forall|i: int| 0 <= i < shape.len() ==> #[trigger] shape[i] >= 0,
        tensor_bytes(shape, element_size) == Ok::<nat, TensorSizeError>(
            (element_size * element_count(shape)) as nat,
        ),
        element_size * element_count(shape) >= 0,
    decreases shape.len(),
{
    if shape.len() > 0 {
        let rest = shape.drop_last();
        lemma_tensor_bytes(rest, element_size);
        assert forall|i: int| 0 <= i < shape.len() implies #[trigger] shape[i] >= 0 by {
            if i < rest.len() {
                assert(rest[i] == shape[i]);
            }
        }
        assert(element_size * (element_count(rest) * shape.last()) == (element_size
            * element_count(rest)) * shape.last()) by (nonlinear_arith);
        assert((element_size * element_count(rest)) * shape.last() >= 0) by (nonlinear_arith)
            requires
                element_size * element_count(rest) >= 0,
                shape.last() >= 0,
        ;
    } else {
        assert(element_size * 1 == element_size);
    }
}

/// An output with positive dimensions is allocated whenever it takes at most the memory that is
/// allowed.
pub proof fn law_small_outputs_are_allocated(shape: Seq<i64>, element_size: nat)
    requires
        forall|i: int| 0 <= i < shape.len() ==> #[trigger] shape[i] > 0,
        element_size * element_count(shape) <= MAX_OUTPUT_TENSOR_BYTES,
    ensures
        tensor_size_check(shape, element_size) is Ok,
{
    lemma_small_outputs(shape, element_size);
}

proof fn lemma_small_outputs(shape: Seq<i64>, element_size: nat)
    requires
        forall|i: int| 0 <= i < shape.len() ==> #[trigger] shape[i] > 0,
        element_size * element_count(shape) <= MAX_OUTPUT_TENSOR_BYTES,
    ensures
        tensor_bytes(shape, element_size) == Ok::<nat, TensorSizeError>(
            (element_size * element_count(shape)) as nat,
        ),
        element_count(shape) > 0,
    decreases shape.len(),
{
    if shape.len() > 0 {
        let rest = shape.drop_last();
        let last = shape.last() as int;
        assert forall|i: int| 0 <= i < rest.len() implies #[trigger] rest[i] > 0 by {
            assert(rest[i] == shape[i]);
        }
        assert(last == shape[shape.len() - 1]);
        lemma_positive_count(rest);
        let count = element_count(rest);
        assert(element_size * (count * last) == (element_size * count) * last)
            by (nonlinear_arith);
        assert(element_size * count <= (element_size * count) * last) by (nonlinear_arith)
            requires
                element_size * count >= 0,
                last >= 1,
        ;
        assert(element_size * count >= 0) by (nonlinear_arith)
            requires
                element_size >= 0,
                count > 0,
        ;
        lemma_small_outputs(rest, element_size);
        assert(count * last > 0) by (nonlinear_arith)
            requires
                count > 0,
                last > 0,
        ;
    } else {
        assert(element_size * 1 == element_size);
    }
}

proof fn lemma_positive_count(shape: Seq<i64>)
    requires
        forall|i: int| 0 <= i < shape.len() ==> #[trigger] shape[i] > 0,
    ensures
        element_count(shape) > 0,
    decreases shape.len(),
{
    if shape.len() > 0 {
        let rest = shape.drop_last();
        assert forall|i: int| 0 <= i < rest.len() implies #[trigger] rest[i] > 0 by {
            assert(rest[i] == shape[i]);
        }
        lemma_positive_count(rest);
        assert(shape.last() == shape[shape.len() - 1]);
        assert(element_count(rest) * shape.last() > 0) by (nonlinear_arith)
            requires
                element_count(rest) > 0,
                shape.last() > 0,
        ;
    }
}

/// The nearest whole number to `a * b / c`, halves rounded up.
pub open spec fn scaled(a: int, b: int, c: int) -> int {
    (a * b + c / 2) / c
}

/// The largest even number that is not larger than `n`, and at least 2.
pub open spec fn even_size(n: int) -> int {
    if n - n % 2 < 2 {
        2
    } else {
        n - n % 2
    }
}

/// The size that frames of `src_w` times `src_h` pixels are given while they are decoded on the
/// GPU: what is asked for, in the source's proportions where only one side is asked for, rounded
/// to even sides. `None` unless both sides get smaller.
pub open spec fn hw_resize(
    src_w: int,
    src_h: int,
    width: Option<u32>,
    height: Option<u32>,
) -> Option<(int, int)> {
    let asked = match (width, height) {
        (None, None) => None,
        (Some(w), Some(h)) => Some((w as int, h as int)),
        (Some(w), None) => Some((w as int, scaled(w as int, src_h, src_w))),
        (None, Some(h)) => Some((scaled(h as int, src_w, src_h), h as int)),
    };
    match asked {
        Some((w, h)) if src_w > 0 && src_h > 0 && even_size(w) < src_w && even_size(h) < src_h
            => Some((even_size(w), even_size(h))),
        _ => None,
    }
}

fn scale_side(a: i64, b: i64, c: i64) -> (r: i64)
    requires
        0 <= a <= u32::MAX,
        0 <= b <= i32::MAX,
        0 < c <= i32::MAX,
    ensures
        r == scaled(a as int, b as int, c as int),
        0 <= r,
        r <= u32::MAX * i32::MAX + i32::MAX,
{
    assert(0 <= a * b <= u32::MAX * i32::MAX) by (nonlinear_arith)
        requires
            0 <= a <= u32::MAX,
            0 <= b <= i32::MAX,
    ;
    let product: i64 = a * b;
    let sum: i64 = product + c / 2;
    assert(0 <= sum as int / c as int <= sum) by (nonlinear_arith)
        requires
            sum >= 0,
            c > 0,
    ;
    sum / c
}

fn even_side(n: i64) -> (r: i64)
    requires
        0 <= n,
    ensures
        r == even_size(n as int),
{
    let even: i64 = n - n % 2;
    if even < 2 {
        2
    } else {
        even
    }
}

/// Computes [`hw_resize`].
pub fn compute_hw_resize(src_w: i32, src_h: i32, request: &VideoStreamRequest) -> (r: Option<
    (i32, i32),
>)
    ensures
        match hw_resize(src_w as int, src_h as int, request.width, request.height) {
            Some((w, h)) => r == Some((w as i32, h as i32)),
            None => r is None,
        },
{
    if src_w <= 0 || src_h <= 0 {
        return None;
    }
    let source_w: i64 = src_w as i64;
    let source_h: i64 = src_h as i64;
    let (w, h): (i64, i64) = match (request.width, request.height) {
        (None, None) => {
            return None;
        },
        (Some(w), Some(h)) => (w as i64, h as i64),
        (Some(w), None) => (w as i64, scale_side(w as i64, source_h, source_w)),
        (None, Some(h)) => (scale_side(h as i64, source_w, source_h), h as i64),
    };
    let w: i64 = even_side(w);
    let h: i64 = even_side(h);
    if w >= source_w || h >= source_h {
        return None;
    }
    Some((w as i32, h as i32))
}

/// A size that the GPU is asked for has even sides, none of them empty, and both smaller than the
/// source's.
pub proof fn law_hw_resize_is_a_strict_even_downscale(
    src_w: int,
    src_h: int,
    width: Option<u32>,
    height: Option<u32>,
)
    ensures
        hw_resize(src_w, src_h, width, height) matches Some((w, h)) ==> {
            &&& w % 2 == 0 && h % 2 == 0
            &&& 2 <= w < src_w && 2 <= h < src_h
            &&& width matches Some(asked) ==> asked >= 2 ==> asked - 1 <= w <= asked
            &&& height matches Some(asked) ==> asked >= 2 ==> asked - 1 <= h <= asked
        },
{
}

/// Where only one side is asked for, the other keeps the source's proportions to within half a
/// pixel before it is made even.
pub proof fn law_hw_resize_keeps_proportions(side: int, src_side: int, src_other: int)
    requires
        side >= 0,
        src_side > 0,
        src_other > 0,
    ensures
        2 * (scaled(side, src_other, src_side) * src_side - side * src_other) <= src_side,
        2 * (side * src_other - scaled(side, src_other, src_side) * src_side) <= src_side,
{
    let n = side * src_other + src_side / 2;
    let q = n / src_side;
    assert(n == q * src_side + n % src_side) by {
        vstd::arithmetic::div_mod::lemma_fundamental_div_mod(n, src_side);
        assert(src_side * q == q * src_side) by (nonlinear_arith);
    }
    assert(0 <= n % src_side < src_side);
}

/// Why a video stream cannot be decoded as asked for.
#[derive(Clone, Copy, Debug, PartialEq, Eq, Structural)]
pub enum VideoPlanError {
    /// The request names no stream.
    NoIndex,
    /// Frames are to stay on the GPU and are not to be decoded there.
    DeviceWithoutHardware,
    /// Frames are to stay on the GPU and the frame rate is to be changed.
    DeviceWithFrameRate,
    /// Frames are to stay on the GPU and to have another element type than bytes.
    DeviceWithDtype,
    /// Frames are to stay on the GPU and to have a side that is not even.
    DeviceWithOddSize { width: u32, height: u32 },
    /// Frames are to stay on the GPU and not to become smaller on both sides.
    DeviceWithoutDownscale { src_width: i32, src_height: i32, width: u32, height: u32 },
    /// Frames are to stay on the GPU and only one side is given.
    DeviceWithOneSide,
}

impl VideoPlanError {
    /// The error in words.
    pub open spec fn words(self) -> Seq<char> {
        match self {
            VideoPlanError::NoIndex => "No video stream index specified"@,
            VideoPlanError::DeviceWithoutHardware =>
                "device=\"cuda\" decodes on NVDEC and cannot be combined with hardware_acceleration=false"@,
            VideoPlanError::DeviceWithFrameRate =>
                "device=\"cuda\" does not support fps resampling (frames never reach the CPU filter graph)"@,
            VideoPlanError::DeviceWithDtype =>
                "device=\"cuda\" currently supports only the uint8 dtype"@,
            VideoPlanError::DeviceWithOddSize { width, height } =>
                "device=\"cuda\" resizing requires even dimensions, got "@ + size_text(
                width as int,
                height as int,
            ),
            VideoPlanError::DeviceWithoutDownscale { src_width, src_height, width, height } =>
                "device=\"cuda\" only supports strict downscaling on NVDEC ("@ + size_text(
                src_width as int,
                src_height as int,
            ) + " -> "@ + size_text(width as int, height as int) + " is not)"@,
            VideoPlanError::DeviceWithOneSide =>
                "device=\"cuda\" requires both width and height (or neither)"@,
        }
    }

    /// The error in words.
    pub fn message(&self) -> (r: String)
        ensures
            r@ == self.words(),
    {
        match self {
            VideoPlanError::NoIndex => "No video stream index specified".to_owned(),
            VideoPlanError::DeviceWithoutHardware =>
                "device=\"cuda\" decodes on NVDEC and cannot be combined with hardware_acceleration=false".to_owned(),
            VideoPlanError::DeviceWithFrameRate =>
                "device=\"cuda\" does not support fps resampling (frames never reach the CPU filter graph)".to_owned(),
            VideoPlanError::DeviceWithDtype =>
                "device=\"cuda\" currently supports only the uint8 dtype".to_owned(),
            VideoPlanError::DeviceWithOddSize { width, height } => {
                let mut text = "device=\"cuda\" resizing requires even dimensions, got ".to_owned();
                let size = write_size(*width as i64, *height as i64);
                text.append(size.as_str());
                text
            },
            VideoPlanError::DeviceWithoutDownscale { src_width, src_height, width, height } => {
                let mut text =
                    "device=\"cuda\" only supports strict downscaling on NVDEC (".to_owned();
                let source = write_size(*src_width as i64, *src_height as i64);
                let size = write_size(*width as i64, *height as i64);
                text.append(source.as_str());
                text.append(" -> ");
                text.append(size.as_str());
                text.append(" is not)");
                text
            },
            VideoPlanError::DeviceWithOneSide =>
                "device=\"cuda\" requires both width and height (or neither)".to_owned(),
        }
    }
}

/// `WxH`.
pub open spec fn size_text(width: int, height: int) -> Seq<char> {
    signed_decimal(width) + seq!['x'] + signed_decimal(height)
}

fn write_size(width: i64, height: i64) -> (r: String)
    ensures
        r@ == size_text(width as int, height as int),
{
    proof {
        reveal_strlit("x");
    }
    let mut text = signed_decimal_text(width);
    let other = signed_decimal_text(height);
    text.append("x");
    text.append(other.as_str());
    assert(text@ =~= size_text(width as int, height as int));
    text
}

/// Which decoder a video stream gets.
#[derive(Debug)]
pub struct DecoderChoice {
    /// Decode on the GPU.
    pub hardware: bool,
    /// The name of the GPU decoder, where there is to be one.
    pub name: Option<String>,
}

/// The index that is named, or else this error.
pub open spec fn named_index<E>(index: Option<usize>, error: E) -> Result<usize, E> {
    match index {
        Some(index) => Ok(index),
        None => Err(error),
    }
}

/// The stream that a request names.
pub fn video_index(request: &VideoStreamRequest) -> (r: Result<usize, VideoPlanError>)
    ensures
        r == named_index(request.index, VideoPlanError::NoIndex),
{
    match request.index {
        Some(index) => Ok(index),
        None => Err(VideoPlanError::NoIndex),
    }
}

/// Whether a stream is decoded on the GPU, and by which decoder there.
pub open spec fn decoder_choice(request: VideoStreamRequest, default_name: Seq<char>) -> Result<
    (bool, Option<Seq<char>>),
    VideoPlanError,
> {
    if request.hardware_acceleration == Some(false) && request.device is Some {
        Err(VideoPlanError::DeviceWithoutHardware)
    } else if request.hardware_acceleration == Some(true) || request.device is Some {
        Ok((true, Some(default_name + "_cuvid"@)))
    } else {
        Ok((false, None))
    }
}

/// Chooses the decoder for a stream whose usual decoder has this name. Frames that are to stay on
/// the GPU are decoded there, unless the request forbids that.
pub fn choose_decoder(request: &VideoStreamRequest, default_name: &str) -> (r: Result<
    DecoderChoice,
    VideoPlanError,
>)
    ensures
        match decoder_choice(*request, default_name@) {
            Ok((hardware, name)) => {
                &&& r matches Ok(choice)
                &&& choice.hardware == hardware
                &&& view_of(choice.name) == name
            },
            Err(error) => r == Err::<DecoderChoice, VideoPlanError>(error),
        },
{
    let hardware = match request.hardware_acceleration {
        Some(wanted) => {
            if !wanted && request.device.is_some() {
                return Err(VideoPlanError::DeviceWithoutHardware);
            }
            wanted || request.device.is_some()
        },
        None => request.device.is_some(),
    };
    if hardware {
        let mut name = default_name.to_owned();
        name.append("_cuvid");
        Ok(DecoderChoice { hardware, name: Some(name) })
    } else {
        Ok(DecoderChoice { hardware, name: None })
    }
}

/// What is wrong with a request for frames that stay on the GPU.
pub open spec fn device_error(
    request: VideoStreamRequest,
    src_width: i32,
    src_height: i32,
) -> Option<VideoPlanError> {
    if request.device is None {
        None
    } else if request.frame_rate is Some {
        Some(VideoPlanError::DeviceWithFrameRate)
    } else if request.dtype != OutputDtype::Uint8 {
        Some(VideoPlanError::DeviceWithDtype)
    } else {
        match (request.width, request.height) {
            (None, None) => None,
            (Some(width), Some(height)) => if width % 2 != 0 || height % 2 != 0 {
                Some(VideoPlanError::DeviceWithOddSize { width, height })
            } else if hw_resize(src_width as int, src_height as int, Some(width), Some(height))
                == Some((width as int, height as int)) {
                None
            } else {
                Some(
                    VideoPlanError::DeviceWithoutDownscale { src_width, src_height, width, height },
                )
            },
            _ => Some(VideoPlanError::DeviceWithOneSide),
        }
    }
}

/// Checks that frames that are to stay on the GPU need only what the GPU's decoder can do.
fn check_device(request: &VideoStreamRequest, src_width: i32, src_height: i32) -> (r: Result<
    (),
    VideoPlanError,
>)
    ensures
        r == match device_error(*request, src_width, src_height) {
            Some(error) => Err::<(), VideoPlanError>(error),
            None => Ok::<(), VideoPlanError>(()),
        },
{
    if request.device.is_none() {
        return Ok(());
    }
    if request.frame_rate.is_some() {
        return Err(VideoPlanError::DeviceWithFrameRate);
    }
    if request.dtype != OutputDtype::Uint8 {
        return Err(VideoPlanError::DeviceWithDtype);
    }
    match (request.width, request.height) {
        (None, None) => Ok(()),
        (Some(width), Some(height)) => {
            if width % 2 != 0 || height % 2 != 0 {
                return Err(VideoPlanError::DeviceWithOddSize { width, height });
            }
            let refused = VideoPlanError::DeviceWithoutDownscale {
                src_width,
                src_height,
                width,
                height,
            };
            match compute_hw_resize(src_width, src_height, request) {
                Some((w, h)) => {
                    if w as i64 == width as i64 && h as i64 == height as i64 {
                        Ok(())
                    } else {
                        Err(refused)
                    }
                },
                None => Err(refused),
            }
        },
        _ => Err(VideoPlanError::DeviceWithOneSide),
    }
}

/// How a video decoder is opened.
#[derive(Debug)]
pub struct DecoderOptions {
    /// The `threads` option.
    pub threads: String,
    /// The size to which the GPU's decoder resizes the frames.
    pub resize: Option<(i32, i32)>,
    /// The `resize` option, where there is to be one.
    pub resize_option: Option<String>,
    /// The GPU by its number, where one is asked for.
    pub device_name: Option<String>,
}

/// How the decoder for `request` is opened: with one thread unless more are asked for, and with
/// the GPU's decoder resizing where it decodes and the frames become smaller.
pub open spec fn opened_with(
    request: VideoStreamRequest,
    hardware: bool,
    src_width: i32,
    src_height: i32,
    options: DecoderOptions,
) -> bool {
    &&& options.threads@ == match request.number_of_threads {
        Some(n) => decimal(n as nat),
        None => decimal(1),
    }
    &&& match hw_resize(src_width as int, src_height as int, request.width, request.height) {
        Some((w, h)) if hardware => {
            &&& options.resize == Some((w as i32, h as i32))
            &&& view_of(options.resize_option) == Some(size_text(w, h))
        },
        _ => options.resize is None && options.resize_option is None,
    }
    &&& view_of(options.device_name) == match request.device {
        Some(device) => Some(signed_decimal(device as int)),
        None => None,
    }
}

/// Whether `r` is how the decoder for `request` is opened, or what is wrong with the request.
pub open spec fn decoder_planned(
    request: VideoStreamRequest,
    hardware: bool,
    src_width: i32,
    src_height: i32,
    r: Result<DecoderOptions, VideoPlanError>,
) -> bool {
    match device_error(request, src_width, src_height) {
        Some(error) => r == Err::<DecoderOptions, VideoPlanError>(error),
        None => r matches Ok(options) && opened_with(
            request,
            hardware,
            src_width,
            src_height,
            options,
        ),
    }
}

/// Settles how the decoder of a video is opened, once it is known to be there.
pub fn plan_video_decoder(
    request: &VideoStreamRequest,
    hardware: bool,
    src_width: i32,
    src_height: i32,
) -> (r: Result<DecoderOptions, VideoPlanError>)
    ensures
        decoder_planned(*request, hardware, src_width, src_height, r),
{
    if let Err(error) = check_device(request, src_width, src_height) {
        return Err(error);
    }
    let threads: usize = match request.number_of_threads {
        Some(n) => n,
        None => 1,
    };
    let resize = if hardware {
        compute_hw_resize(src_width, src_height, request)
    } else {
        None
    };
    let resize_option = match resize {
        Some((w, h)) => Some(write_size(w as i64, h as i64)),
        None => None,
    };
    let device_name = match request.device {
        Some(device) => Some(signed_decimal_text(device as i64)),
        None => None,
    };
    Ok(DecoderOptions { threads: decimal_text(threads as u64), resize, resize_option, device_name })
}

/// The time stamp that stands for "none".
pub const AV_NOPTS_VALUE: i64 = -9223372036854775808;

/// Where the frame rate of a video comes from.
#[derive(Clone, Copy, Debug, PartialEq, Eq, Structural)]
pub enum FrameRateSource {
    /// It is asked for.
    Requested(Double),
    /// The input says it.
    Container(Rational),
    /// The input says how many frames there are in which time, in units of the time base.
    Counted { frames: i64, duration: i64 },
}

/// What the input says of the length of a video.
#[derive(Clone, Copy, Debug, PartialEq, Eq, Structural)]
pub struct VideoLength {
    /// In units of the time base; [`AV_NOPTS_VALUE`] where it is not known.
    pub duration: i64,
    /// The same in seconds.
    pub seconds: Double,
    pub nb_frames: i64,
    /// Frames per second; 0/1 where they are not known.
    pub rate: Rational,
}

/// How long what is decoded of a video is, and at what rate its frames come.
#[derive(Clone, Copy, Debug, PartialEq, Eq, Structural)]
pub enum VideoTiming {
    /// The video is a single image.
    StillImage { frames: i64, rate: Double },
    Timed { seconds: Double, rate: FrameRateSource },
}

/// Why the number of frames cannot be settled.
#[derive(Clone, Copy, Debug, PartialEq, Eq, Structural)]
pub enum VideoTimingError {
    Duration(DurationError),
    /// The frame rate can be had from nowhere.
    NoFrameRate,
}

/// A single image is one frame in one second.
pub open spec fn still_image() -> VideoTiming {
    VideoTiming::StillImage { frames: 1, rate: Double { bits: ONE_BITS } }
}

/// Where the frame rate comes from: the request, else what the input says, else what it counts.
pub open spec fn rate_source(requested: Option<FrameRate>, length: VideoLength) -> Option<
    FrameRateSource,
> {
    match requested {
        Some(asked) => Some(FrameRateSource::Requested(asked.value)),
        None => if length.rate != (Rational { num: 0, den: 1 }) {
            Some(FrameRateSource::Container(length.rate))
        } else if length.nb_frames > 0 && length.duration > 0 {
            Some(
                FrameRateSource::Counted { frames: length.nb_frames, duration: length.duration },
            )
        } else {
            None
        },
    }
}

/// The length and the rate of what is decoded of a video. One that does not say how long it is is
/// taken for an image.
pub open spec fn video_timing(
    requested: Option<FrameRate>,
    length: VideoLength,
    seek: Seek,
    lengths: RangeLengths,
) -> Result<VideoTiming, VideoTimingError> {
    if length.duration == AV_NOPTS_VALUE {
        Ok(still_image())
    } else {
        match decoded_seconds(length.seconds, seek, lengths) {
            Err(error) => Err(VideoTimingError::Duration(error)),
            Ok(seconds) => match rate_source(requested, length) {
                Some(rate) => Ok(VideoTiming::Timed { seconds, rate }),
                None => Err(VideoTimingError::NoFrameRate),
            },
        }
    }
}

/// Computes [`video_timing`].
pub fn plan_video_timing(
    requested: &Option<FrameRate>,
    length: &VideoLength,
    seek: &Seek,
    lengths: &RangeLengths,
) -> (r: Result<VideoTiming, VideoTimingError>)
    ensures
        r == video_timing(*requested, *length, *seek, *lengths),
{
    if length.duration == AV_NOPTS_VALUE {
        return Ok(VideoTiming::StillImage { frames: 1, rate: Double { bits: ONE_BITS } });
    }
    let seconds = match asset_duration(&length.seconds, seek, lengths) {
        Ok(seconds) => seconds,
        Err(error) => {
            return Err(VideoTimingError::Duration(error));
        },
    };
    let rate = match requested {
        Some(asked) => FrameRateSource::Requested(asked.value),
        None => {
            if length.rate.num != 0 || length.rate.den != 1 {
                FrameRateSource::Container(length.rate)
            } else if length.nb_frames > 0 && length.duration > 0 {
                FrameRateSource::Counted { frames: length.nb_frames, duration: length.duration }
            } else {
                return Err(VideoTimingError::NoFrameRate);
            }
        },
    };
    Ok(VideoTiming::Timed { seconds, rate })
}

/// The output of a video: its shape, the bytes of an element, and the GPU that it is on.
#[derive(Debug)]
pub struct VideoOutputPlan {
    pub shape: Vec<i64>,
    pub element_size: usize,
    pub device: Option<i32>,
}

/// A side as asked for, or the source's own.
pub open spec fn output_side(requested: Option<u32>, source: i32) -> i64 {
    match requested {
        Some(n) => n as i64,
        None => source as i64,
    }
}

/// Frame by frame, and in each row by row of packed pixels for bytes, plane by plane for floats.
pub open spec fn output_shape(
    dtype: OutputDtype,
    num_frames: i64,
    height: i64,
    width: i64,
) -> Seq<i64> {
    match dtype {
        OutputDtype::Uint8 => seq![num_frames, height, width, 3],
        OutputDtype::Float32 => seq![num_frames, 3, height, width],
    }
}

pub open spec fn output_element_size(dtype: OutputDtype) -> usize {
    match dtype {
        OutputDtype::Uint8 => 1,
        OutputDtype::Float32 => 4,
    }
}

/// The shape of the output for `num_frames` frames, the bytes of an element, and the GPU that it is
/// on.
pub open spec fn planned_video_output(
    request: VideoStreamRequest,
    src_width: i32,
    src_height: i32,
    num_frames: i64,
) -> Result<(Seq<i64>, usize, Option<i32>), TensorSizeError> {
    let shape = output_shape(
        request.dtype,
        num_frames,
        output_side(request.height, src_height),
        output_side(request.width, src_width),
    );
    let element_size = output_element_size(request.dtype);
    match tensor_size_check(shape, element_size as nat) {
        Ok(_) => Ok((shape, element_size, request.device)),
        Err(error) => Err(error),
    }
}

/// Plans the output for `num_frames` frames.
pub fn plan_video_output(
    request: &VideoStreamRequest,
    src_width: i32,
    src_height: i32,
    num_frames: i64,
) -> (r: Result<VideoOutputPlan, TensorSizeError>)
    ensures
        match planned_video_output(*request, src_width, src_height, num_frames) {
            Ok((shape, element_size, device)) => {
                &&& r matches Ok(plan)
                &&& plan.shape@ == shape
                &&& plan.element_size == element_size
                &&& plan.device == device
            },
            Err(error) => r == Err::<VideoOutputPlan, TensorSizeError>(error),
        },
{
    let height: i64 = match request.height {
        Some(h) => h as i64,
        None => src_height as i64,
    };
    let width: i64 = match request.width {
        Some(w) => w as i64,
        None => src_width as i64,
    };
    let shape: Vec<i64> = match request.dtype {
        OutputDtype::Uint8 => vec![num_frames, height, width, 3],
        OutputDtype::Float32 => vec![num_frames, 3, height, width],
    };
    assert(shape@ =~= output_shape(request.dtype, num_frames, height, width));
    let element_size: usize = match request.dtype {
        OutputDtype::Uint8 => 1,
        OutputDtype::Float32 => 4,
    };
    match check_output_tensor_size(shape.as_slice(), element_size) {
        Ok(_) => Ok(VideoOutputPlan { shape, element_size, device: request.device }),
        Err(error) => Err(error),
    }
}

/// Why the length of what is decoded cannot be settled.
#[derive(Clone, Copy, Debug, PartialEq, Eq, Structural)]
pub enum DurationError {
    /// The end of the range does not lie behind its start.
    EndNotAfterStart { start_time: Double, end_time: Double },
    /// The range starts at the end of the stream or later.
    StartBeyondStream { start_time: Double, stream_duration: Double },
}

/// Differences that the length of a range is taken from.
#[derive(Clone, Copy, Debug, PartialEq, Eq, Structural)]
pub struct RangeLengths {
    /// The end of the range less its start, where it has both.
    pub range: Double,
    /// The duration of the stream less the start of the range, where it has one.
    pub rest: Double,
}

/// How many seconds of a stream are decoded.
pub open spec fn decoded_seconds(
    stream_duration: Double,
    seek: Seek,
    lengths: RangeLengths,
) -> Result<Double, DurationError> {
    match (seek.start_time, seek.end_time) {
        (Some(start), Some(end)) => if end.at_most(start) {
            Err(DurationError::EndNotAfterStart { start_time: start, end_time: end })
        } else {
            Ok(stream_duration.minimum(lengths.range))
        },
        (None, Some(end)) => Ok(stream_duration.minimum(end)),
        (None, None) => Ok(stream_duration),
        (Some(start), None) => if stream_duration.at_most(start) {
            Err(DurationError::StartBeyondStream { start_time: start, stream_duration })
        } else {
            Ok(lengths.rest)
        },
    }
}

/// Computes [`decoded_seconds`].
pub fn asset_duration(stream_duration: &Double, seek: &Seek, lengths: &RangeLengths) -> (r: Result<
    Double,
    DurationError,
>)
    ensures
        r == decoded_seconds(*stream_duration, *seek, *lengths),
{
    match (seek.start_time, seek.end_time) {
        (Some(start), Some(end)) => {
            if end.le(&start) {
                return Err(
                    DurationError::EndNotAfterStart { start_time: start, end_time: end },
                );
            }
            Ok(stream_duration.min(&lengths.range))
        },
        (None, Some(end)) => Ok(stream_duration.min(&end)),
        (None, None) => Ok(*stream_duration),
        (Some(start), None) => {
            if stream_duration.le(&start) {
                return Err(
                    DurationError::StartBeyondStream {
                        start_time: start,
                        stream_duration: *stream_duration,
                    },
                );
            }
            Ok(lengths.rest)
        },
    }
}

/// No more is decoded than the stream has, and no more than lies before the end of the range.
pub proof fn law_duration_is_bounded(stream_duration: Double, seek: Seek, lengths: RangeLengths)
    requires
        !stream_duration.is_nan(),
        decoded_seconds(stream_duration, seek, lengths) is Ok,
        seek.end_time is Some,
    ensures
        decoded_seconds(stream_duration, seek, lengths)->Ok_0.at_most(stream_duration),
        seek.start_time is None ==> (seek.end_time matches Some(end) ==> (!end.is_nan()
            ==> decoded_seconds(stream_duration, seek, lengths)->Ok_0.at_most(end))),
{
}

/// Why there is no output for an audio stream.
#[derive(Clone, Copy, Debug, PartialEq, Eq, Structural)]
pub enum AudioPlanError {
    /// The request names no stream.
    NoIndex,
    /// The input does not say how long the stream is.
    NoDuration,
    Duration(DurationError),
    /// The number of samples is negative, infinite or no number.
    InvalidSampleCount(Double),
    Size(TensorSizeError),
}

/// The stream that a request names.
pub fn audio_index(request: &AudioStreamRequest) -> (r: Result<usize, AudioPlanError>)
    ensures
        r == named_index(request.index, AudioPlanError::NoIndex),
{
    match request.index {
        Some(index) => Ok(index),
        None => Err(AudioPlanError::NoIndex),
    }
}

/// How long what is decoded of an audio stream is, and its sample rate.
#[derive(Clone, Copy, Debug, PartialEq, Eq, Structural)]
pub struct AudioTiming {
    pub seconds: Double,
    pub sample_rate: i32,
}

/// How long what is decoded of an audio stream is, and its sample rate.
pub open spec fn audio_timing(
    duration: i64,
    stream_duration: Double,
    seek: Seek,
    lengths: RangeLengths,
    requested_rate: Option<usize>,
    source_rate: i32,
) -> Result<AudioTiming, AudioPlanError> {
    if duration == AV_NOPTS_VALUE {
        Err(AudioPlanError::NoDuration)
    } else {
        match decoded_seconds(stream_duration, seek, lengths) {
            Err(error) => Err(AudioPlanError::Duration(error)),
            Ok(seconds) => Ok(
                AudioTiming {
                    seconds,
                    sample_rate: match requested_rate {
                        Some(rate) => low_i32(rate as int),
                        None => source_rate,
                    },
                },
            ),
        }
    }
}

/// Settles how long what is decoded of an audio stream is, and its sample rate, which is the one
/// asked for or the source's own. The stream has to say how long it is: `duration` is in units of
/// its time base, `stream_duration` the same in seconds.
pub fn plan_audio_timing(
    duration: i64,
    stream_duration: &Double,
    seek: &Seek,
    lengths: &RangeLengths,
    requested_rate: Option<usize>,
    source_rate: i32,
) -> (r: Result<AudioTiming, AudioPlanError>)
    ensures
        r == audio_timing(
            duration,
            *stream_duration,
            *seek,
            *lengths,
            requested_rate,
            source_rate,
        ),
{
    if duration == AV_NOPTS_VALUE {
        return Err(AudioPlanError::NoDuration);
    }
    match asset_duration(stream_duration, seek, lengths) {
        Ok(seconds) => Ok(
            AudioTiming {
                seconds,
                sample_rate: match requested_rate {
                    Some(rate) => size_to_i32(rate),
                    None => source_rate,
                },
            },
        ),
        Err(error) => Err(AudioPlanError::Duration(error)),
    }
}

/// The shape of the output of an audio stream.
pub open spec fn planned_audio_output(
    num_channels: i32,
    sample_count: Double,
    num_samples: i64,
) -> Result<Seq<i64>, AudioPlanError> {
    if !sample_count.is_finite_spec() || sample_count.less(Double { bits: 0 }) {
        Err(AudioPlanError::InvalidSampleCount(sample_count))
    } else {
        match tensor_size_check(seq![num_channels as i64, num_samples], 4) {
            Ok(_) => Ok(seq![num_channels as i64, num_samples]),
            Err(error) => Err(AudioPlanError::Size(error)),
        }
    }
}

/// Plans the output of an audio stream: one row per channel. `sample_count` is the number of
/// samples as it was computed, `num_samples` the whole number that it is cut to.
pub fn plan_audio_output(num_channels: i32, sample_count: &Double, num_samples: i64) -> (r: Result<
    Vec<i64>,
    AudioPlanError,
>)
    ensures
        match planned_audio_output(num_channels, *sample_count, num_samples) {
            Ok(shape) => r matches Ok(planned) && planned@ == shape,
            Err(error) => r == Err::<Vec<i64>, AudioPlanError>(error),
        },
{
    if !sample_count.is_finite() || sample_count.is_negative() {
        return Err(AudioPlanError::InvalidSampleCount(*sample_count));
    }
    let shape: Vec<i64> = vec![num_channels as i64, num_samples];
    assert(shape@ =~= seq![num_channels as i64, num_samples]);
    match check_output_tensor_size(shape.as_slice(), 4) {
        Ok(_) => Ok(shape),
        Err(error) => Err(AudioPlanError::Size(error)),
    }
}

/// Frames that stay on the GPU are decoded there to exactly the size of the output: the size that
/// the decoder is told to resize to is the one that the output is planned with.
pub proof fn law_device_output_has_decoded_size(
    request: VideoStreamRequest,
    src_width: i32,
    src_height: i32,
)
    requires
        request.device is Some,
        device_error(request, src_width, src_height) is None,
    ensures
        request.dtype == OutputDtype::Uint8,
        request.frame_rate is None,
        match hw_resize(src_width as int, src_height as int, request.width, request.height) {
            Some((w, h)) => output_side(request.width, src_width) == w && output_side(
                request.height,
                src_height,
            ) == h,
            None => output_side(request.width, src_width) == src_width && output_side(
                request.height,
                src_height,
            ) == src_height,
        },
{
}

} // verus!
