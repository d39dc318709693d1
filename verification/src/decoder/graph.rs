//! What feeds a filter graph, when there is none, and how frames are converted past it.
use vstd::prelude::*;

use crate::cast::{dim_to_i32, low_i32, size_to_i32};
use crate::decoder::filter::{AudioFilterConfig, FilterConfig, VideoFilterConfig};
use crate::decoder::frame::{Rational, StreamType};
use crate::decoder::request::HdrMode;
use crate::decoder::stream::FramePath;
use crate::text::{ends_with, has_suffix, same, signed_decimal, signed_decimal_text, view_of};

verus! {

/// What a stream of the input holds.
#[derive(Clone, Copy, Debug, PartialEq, Eq, Structural)]
pub enum MediaType {
    Video,
    Audio,
    Other,
}

/// The numbers of the pixel formats that the choice of a graph's input format depends on.
#[derive(Clone, Copy, Debug, PartialEq, Eq, Structural)]
pub struct PixelCodes {
    pub none: i32,
    pub cuda: i32,
    pub nv12: i32,
}

/// The pixel format in which frames reach the graph.
pub open spec fn graph_input_format(pix_fmt: i32, sw_pix_fmt: i32, codes: PixelCodes) -> i32 {
    if pix_fmt != codes.cuda {
        pix_fmt
    } else if sw_pix_fmt != codes.none {
        sw_pix_fmt
    } else {
        codes.nv12
    }
}

/// The pixel format in which frames reach the graph. Frames on the GPU are copied to system
/// memory first, in the decoder's software format, which is NV12 where the decoder names none.
pub fn buffersrc_pix_fmt(pix_fmt: i32, sw_pix_fmt: i32, codes: &PixelCodes) -> (r: i32)
    ensures
        r == graph_input_format(pix_fmt, sw_pix_fmt, *codes),
{
    if pix_fmt == codes.cuda {
        if sw_pix_fmt != codes.none {
            sw_pix_fmt
        } else {
            codes.nv12
        }
    } else {
        pix_fmt
    }
}

/// The frames that a decoder gives to a graph.
#[derive(Debug)]
pub struct VideoInput {
    pub width: i32,
    pub height: i32,
    pub pix_fmt: i32,
    pub time_base: Rational,
    pub pixel_aspect: Rational,
    /// The name of the matrix, where the source is tagged with one.
    pub colorspace: Option<String>,
    /// The name of the range, where the source is tagged with one.
    pub color_range: Option<String>,
}

/// `text` after `label`, where there is a text.
pub open spec fn labelled(label: Seq<char>, text: Option<Seq<char>>) -> Seq<char> {
    match text {
        Some(text) => label + text,
        None => seq![],
    }
}

impl VideoInput {
    /// The arguments of the graph's source.
    pub open spec fn arguments(self) -> Seq<char> {
        "video_size="@ + signed_decimal(self.width as int) + "x"@ + signed_decimal(
            self.height as int,
        ) + ":pix_fmt="@ + signed_decimal(self.pix_fmt as int) + ":time_base="@ + signed_decimal(
            self.time_base.num as int,
        ) + "/"@ + signed_decimal(self.time_base.den as int) + ":pixel_aspect="@ + signed_decimal(
            self.pixel_aspect.num as int,
        ) + "/"@ + signed_decimal(self.pixel_aspect.den as int) + labelled(
            ":colorspace="@,
            view_of(self.colorspace),
        ) + labelled(":range="@, view_of(self.color_range))
    }

    /// The arguments of the graph's source.
    pub fn buffersrc_args(&self) -> (r: String)
        ensures
            r@ == self.arguments(),
    {
        let mut args = "video_size=".to_owned();
        append_number(&mut args, self.width);
        args.append("x");
        append_number(&mut args, self.height);
        args.append(":pix_fmt=");
        append_number(&mut args, self.pix_fmt);
        args.append(":time_base=");
        append_number(&mut args, self.time_base.num);
        args.append("/");
        append_number(&mut args, self.time_base.den);
        args.append(":pixel_aspect=");
        append_number(&mut args, self.pixel_aspect.num);
        args.append("/");
        append_number(&mut args, self.pixel_aspect.den);
        append_labelled(&mut args, ":colorspace=", &self.colorspace);
        append_labelled(&mut args, ":range=", &self.color_range);
        args
    }
}

fn append_number(text: &mut String, n: i32)
    ensures
        final(text)@ == old(text)@ + signed_decimal(n as int),
{
    let digits = signed_decimal_text(n as i64);
    text.append(digits.as_str());
}

fn append_labelled(text: &mut String, label: &str, value: &Option<String>)
    ensures
        final(text)@ == old(text)@ + labelled(label@, view_of(*value)),
{
    match value {
        Some(value) => {
            text.append(label);
            text.append(value.as_str());
            assert(text@ =~= old(text)@ + (label@ + value@));
        },
        None => {
            assert(text@ =~= old(text)@ + seq![]);
        },
    }
}

/// The samples that a decoder gives to a graph.
#[derive(Debug)]
pub struct AudioInput {
    pub time_base: Rational,
    pub sample_rate: i32,
    pub sample_format: String,
    pub channel_layout: String,
}

impl AudioInput {
    /// The arguments of the graph's source.
    pub open spec fn arguments(self) -> Seq<char> {
        "time_base="@ + signed_decimal(self.time_base.num as int) + "/"@ + signed_decimal(
            self.time_base.den as int,
        ) + ":sample_rate="@ + signed_decimal(self.sample_rate as int) + ":sample_fmt="@
            + self.sample_format@ + ":channel_layout="@ + self.channel_layout@
    }

    /// The arguments of the graph's source.
    pub fn buffersrc_args(&self) -> (r: String)
        ensures
            r@ == self.arguments(),
    {
        let mut args = "time_base=".to_owned();
        append_number(&mut args, self.time_base.num);
        args.append("/");
        append_number(&mut args, self.time_base.den);
        args.append(":sample_rate=");
        append_number(&mut args, self.sample_rate);
        args.append(":sample_fmt=");
        args.append(self.sample_format.as_str());
        args.append(":channel_layout=");
        args.append(self.channel_layout.as_str());
        args
    }
}

/// The sample rate of a graph's output.
pub open spec fn graph_output_rate(requested: Option<usize>, source: i32) -> i32 {
    match requested {
        Some(rate) => low_i32(rate as int),
        None => source,
    }
}

/// The sample rate of a graph's output: the one asked for, or the source's own.
pub fn sink_sample_rate(requested: Option<usize>, source: i32) -> (r: i32)
    ensures
        r == graph_output_rate(requested, source),
{
    match requested {
        Some(rate) => size_to_i32(rate),
        None => source,
    }
}

/// The most threads that a graph works with.
pub const MAX_GRAPH_THREADS: usize = 16;

/// The number of threads that a graph works with.
pub open spec fn threads_of_graph(available: Option<usize>) -> int {
    match available {
        Some(n) => if n < MAX_GRAPH_THREADS {
            n as int
        } else {
            MAX_GRAPH_THREADS as int
        },
        None => MAX_GRAPH_THREADS as int,
    }
}

/// The number of threads that a graph works with, on a machine that runs `available` at once.
pub fn graph_threads(available: Option<usize>) -> (r: i32)
    ensures
        r == threads_of_graph(available),
{
    match available {
        Some(n) => {
            if n < MAX_GRAPH_THREADS {
                n as i32
            } else {
                MAX_GRAPH_THREADS as i32
            }
        },
        None => MAX_GRAPH_THREADS as i32,
    }
}

/// The type that a decoder and the configuration of its graph agree on, where they do.
pub open spec fn agreed_type(decoded: MediaType, config: FilterConfig) -> Option<StreamType> {
    match (decoded, config) {
        (MediaType::Video, FilterConfig::Video(_)) => Some(StreamType::Video),
        (MediaType::Audio, FilterConfig::Audio(_)) => Some(StreamType::Audio),
        _ => None,
    }
}

/// The type that a decoder and the configuration of its graph agree on.
pub fn graph_type(decoded: MediaType, config: &FilterConfig) -> (r: Option<StreamType>)
    ensures
        r == agreed_type(decoded, *config),
{
    match (decoded, config) {
        (MediaType::Video, FilterConfig::Video(_)) => Some(StreamType::Video),
        (MediaType::Audio, FilterConfig::Audio(_)) => Some(StreamType::Audio),
        _ => None,
    }
}

/// The decoder of this name works on the GPU.
pub open spec fn is_gpu_decoder(name: Seq<char>) -> bool {
    has_suffix(name, "_cuvid"@)
}

/// Whether the decoder of this name works on the GPU.
pub fn is_hw_decoder(name: Option<&str>) -> (r: bool)
    ensures
        r == (name matches Some(text) && is_gpu_decoder(text@)),
{
    match name {
        Some(text) => ends_with(text, "_cuvid"),
        None => false,
    }
}

/// Nothing but the conversion to packed RGB is asked for, and rows are as wide as that conversion
/// needs them to be.
pub open spec fn only_converts(config: VideoFilterConfig, dst_width: int) -> bool {
    &&& config.frame_rate is None
    &&& config.width is None
    &&& config.height is None
    &&& !config.tone_maps()
    &&& config.pixel_format@ == "rgb24"@
    &&& dst_width % 32 == 0
}

/// Whether frames can be converted straight into rows that are `dst_width` pixels wide.
pub fn is_eligible(config: &VideoFilterConfig, dst_width: i64, direct_paths_enabled: bool) -> (r:
    bool)
    ensures
        r == (only_converts(*config, dst_width as int) && direct_paths_enabled),
{
    config.frame_rate.is_none() && config.width.is_none() && config.height.is_none() && !(
    config.source_color.is_hdr() && config.hdr_mode == HdrMode::Tonemap) && same(
        config.pixel_format.as_str(),
        "rgb24",
    ) && (dst_width as i128 + 0x1_0000_0000_0000_0000) % 32 == 0 && direct_paths_enabled
}

/// How frames reach an output of this shape.
pub open spec fn frame_path(
    config: FilterConfig,
    shape: Seq<i64>,
    hw_decoder: bool,
    direct_paths_enabled: bool,
) -> FramePath {
    match config {
        FilterConfig::Video(config) => if let Some(device) = config.device {
            FramePath::CudaConvert {
                device,
                dst_width: low_i32(shape[2] as int),
                dst_height: low_i32(shape[1] as int),
            }
        } else if !hw_decoder && only_converts(config, shape[2] as int) && direct_paths_enabled {
            FramePath::VideoScale {
                dst_width: low_i32(shape[2] as int),
                dst_height: low_i32(shape[1] as int),
            }
        } else {
            FramePath::Graph
        },
        FilterConfig::Audio(config) => if config.sample_rate is None
            && config.loudness_normalization is None && direct_paths_enabled {
            FramePath::AudioPassthrough
        } else {
            FramePath::Graph
        },
    }
}

/// Chooses how frames reach the output.
pub fn choose_frame_path(
    config: &FilterConfig,
    shape: &Vec<i64>,
    hw_decoder: bool,
    direct_paths_enabled: bool,
) -> (path: FramePath)
    requires
        config is Video ==> shape@.len() >= 3,
    ensures
        path == frame_path(*config, shape@, hw_decoder, direct_paths_enabled),
        path.serves(
            match config {
                FilterConfig::Video(_) => StreamType::Video,
                FilterConfig::Audio(_) => StreamType::Audio,
            },
        ),
{
    match config {
        FilterConfig::Video(config) => {
            let dst_height: i64 = shape[1];
            let dst_width: i64 = shape[2];
            if let Some(device) = config.device {
                FramePath::CudaConvert {
                    device,
                    dst_width: dim_to_i32(dst_width),
                    dst_height: dim_to_i32(dst_height),
                }
            } else if !hw_decoder && is_eligible(config, dst_width, direct_paths_enabled) {
                FramePath::VideoScale {
                    dst_width: dim_to_i32(dst_width),
                    dst_height: dim_to_i32(dst_height),
                }
            } else {
                FramePath::Graph
            }
        },
        FilterConfig::Audio(config) => {
            if config.sample_rate.is_none() && config.loudness_normalization.is_none()
                && direct_paths_enabled {
                FramePath::AudioPassthrough
            } else {
                FramePath::Graph
            }
        },
    }
}

/// Video goes past the graph only where the graph would do nothing but change the pixel format.
pub proof fn law_direct_video_is_conversion_only(config: VideoFilterConfig, dst_width: int)
    requires
        only_converts(config, dst_width),
    ensures
        config.description() == "format=pix_fmts"@ + seq!['='] + "rgb24"@,
{
    assert(config.scales() =~= seq![]);
    let only = "format=pix_fmts"@ + seq!['='] + "rgb24"@;
    assert(config.filters() =~= seq![only]);
}

/// Audio goes past the graph only where the graph would do nothing.
pub proof fn law_direct_audio_is_no_filter(config: AudioFilterConfig)
    requires
        config.sample_rate is None,
        config.loudness_normalization is None,
    ensures
        config.description() == "anull"@,
{
    assert(config.filters() =~= seq![]);
}

/// A source whose code values are to be kept is filtered as one of standard range is.
pub proof fn law_raw_is_never_tone_mapped(config: VideoFilterConfig)
    requires
        config.hdr_mode == HdrMode::Raw || !config.source_color.hdr(),
    ensures
        config.tone_filters() == Seq::<Seq<char>>::empty(),
{
}

/// The matrix that a source is tagged with.
#[derive(Clone, Copy, Debug, PartialEq, Eq, Structural)]
pub enum ColorSpace {
    Unspecified,
    Bt709,
    Smpte170m,
    Bt470bg,
    Smpte240m,
    Bt2020Ncl,
    Other,
}

/// The source is tagged with the matrix of BT.709.
pub open spec fn is_bt709(space: ColorSpace) -> bool {
    space == ColorSpace::Bt709
}

/// Whether the GPU converts frames of a source with this tag by the matrix of BT.709. Frames of all
/// other sources are converted by that of BT.601.
pub fn uses_bt709(space: ColorSpace) -> (r: bool)
    ensures
        r == is_bt709(space),
{
    space == ColorSpace::Bt709
}

/// The range that a source is tagged with.
#[derive(Clone, Copy, Debug, PartialEq, Eq, Structural)]
pub enum ColorRange {
    Unspecified,
    /// Full range.
    Jpeg,
    Other,
}

/// The matrices that the conversion to RGB knows.
#[derive(Clone, Copy, Debug, PartialEq, Eq, Structural)]
pub enum ConversionMatrix {
    Itu709,
    Itu601,
    Smpte240m,
    Bt2020,
    Default,
}

/// What the conversion to RGB is told of the source.
#[derive(Clone, Copy, Debug, PartialEq, Eq, Structural)]
pub struct ColorDetails {
    pub matrix: ConversionMatrix,
    /// 1 for full range, 0 for limited.
    pub src_range: i32,
}

/// What the conversion to RGB is told of a source with these tags.
pub open spec fn told_details(space: ColorSpace, range: ColorRange) -> Option<ColorDetails> {
    if space == ColorSpace::Unspecified && range == ColorRange::Unspecified {
        None
    } else {
        Some(
            ColorDetails {
                matrix: match space {
                    ColorSpace::Bt709 => ConversionMatrix::Itu709,
                    ColorSpace::Smpte170m => ConversionMatrix::Itu601,
                    ColorSpace::Bt470bg => ConversionMatrix::Itu601,
                    ColorSpace::Smpte240m => ConversionMatrix::Smpte240m,
                    ColorSpace::Bt2020Ncl => ConversionMatrix::Bt2020,
                    _ => ConversionMatrix::Default,
                },
                src_range: if range == ColorRange::Jpeg {
                    1
                } else {
                    0
                },
            },
        )
    }
}

/// The conversion is told of the source's matrix and range where it is tagged with either.
pub fn color_details(space: ColorSpace, range: ColorRange) -> (r: Option<ColorDetails>)
    ensures
        r == told_details(space, range),
{
    if space == ColorSpace::Unspecified && range == ColorRange::Unspecified {
        return None;
    }
    let matrix = match space {
        ColorSpace::Bt709 => ConversionMatrix::Itu709,
        ColorSpace::Smpte170m => ConversionMatrix::Itu601,
        ColorSpace::Bt470bg => ConversionMatrix::Itu601,
        ColorSpace::Smpte240m => ConversionMatrix::Smpte240m,
        ColorSpace::Bt2020Ncl => ConversionMatrix::Bt2020,
        _ => ConversionMatrix::Default,
    };
    let src_range: i32 = if range == ColorRange::Jpeg { 1 } else { 0 };
    Some(ColorDetails { matrix, src_range })
}

/// The conversion gave another number of rows than the output has.
#[derive(Clone, Copy, Debug, PartialEq, Eq, Structural)]
pub struct RowMismatch {
    pub scaled: i32,
    pub expected: i32,
}

/// The bytes of a row of packed RGB.
pub open spec fn rgb_row_bytes(dst_width: i32) -> int {
    dst_width * 3
}

/// The bytes from one row of packed RGB to the next.
pub fn rgb_stride(dst_width: i32) -> (r: i32)
    requires
        0 <= dst_width * 3 <= i32::MAX,
    ensures
        r == rgb_row_bytes(dst_width),
{
    dst_width * 3
}

/// Whether the conversion gave all rows of the output.
pub open spec fn rows_checked(scaled: i32, dst_height: i32) -> Result<(), RowMismatch> {
    if scaled == dst_height {
        Ok(())
    } else {
        Err(RowMismatch { scaled, expected: dst_height })
    }
}

/// The conversion has to give all rows of the output.
pub fn check_scaled_rows(scaled: i32, dst_height: i32) -> (r: Result<(), RowMismatch>)
    ensures
        r == rows_checked(scaled, dst_height),
{
    if scaled != dst_height {
        return Err(RowMismatch { scaled, expected: dst_height });
    }
    Ok(())
}

} // verus!
