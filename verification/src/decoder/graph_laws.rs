//! Which path frames take, and what a filter graph is told of them.
use vstd::prelude::*;

use crate::decoder::filter::{AudioFilterConfig, FilterConfig, VideoFilterConfig};
use crate::decoder::filter_laws::needs_tone_mapping;
use crate::decoder::frame::{Seek, StreamType};
use crate::decoder::graph::{
    agreed_type, frame_path, graph_input_format, graph_output_rate, is_bt709, is_gpu_decoder,
    rgb_row_bytes, rows_checked, threads_of_graph, told_details, AudioInput, ColorRange, ColorSpace,
    ConversionMatrix, MediaType, PixelCodes, VideoInput,
};
use crate::decoder::plan::{audio_timing, decoder_choice, planned_video_output, RangeLengths};
use crate::decoder::plan_laws::{law_video_output_has_the_size_asked_for, law_who_decodes, side};
use crate::decoder::request::{HdrMode, OutputDtype, VideoStreamRequest};
use crate::decoder::stream::FramePath;
use crate::double::Double;
use crate::text::{joined, signed_decimal};

verus! {

/// Frames stay on the GPU if and only if that is asked for, and then on the GPU that is asked for,
/// whatever else there is. All others go past the filter graph if and only if that is allowed, they
/// were not decoded on the GPU, nothing about them is to change but their format, which is to be
/// packed RGB, and their rows are a multiple of 32 pixels wide; through the graph otherwise.
pub proof fn law_which_path_video_takes(
    config: VideoFilterConfig,
    shape: Seq<i64>,
    hw_decoder: bool,
    direct_paths_enabled: bool,
)
    requires
        shape.len() >= 3,
        0 <= shape[1] <= i32::MAX,
        0 <= shape[2] <= i32::MAX,
    ensures
        ({
            let unchanged = {
                &&& config.frame_rate is None
                &&& config.width is None && config.height is None
                &&& !needs_tone_mapping(config.source_color) || config.hdr_mode == HdrMode::Raw
                &&& config.pixel_format@ == "rgb24"@
                &&& exists|k: int| shape[2] == #[trigger] (32 * k)
            };
            match frame_path(FilterConfig::Video(config), shape, hw_decoder, direct_paths_enabled) {
                FramePath::CudaConvert { device, dst_width, dst_height } => {
                    &&& config.device == Some(device)
                    &&& dst_width == shape[2] && dst_height == shape[1]
                },
                FramePath::VideoScale { dst_width, dst_height } => {
                    &&& config.device is None
                    &&& unchanged && !hw_decoder && direct_paths_enabled
                    &&& dst_width == shape[2] && dst_height == shape[1]
                },
                FramePath::Graph => {
                    &&& config.device is None
                    &&& !unchanged || hw_decoder || !direct_paths_enabled
                },
                FramePath::AudioPassthrough => false,
            }
        }),
{
    if shape[2] % 32 == 0 {
        assert(shape[2] == 32 * (shape[2] as int / 32));
    }
    assert forall|k: int| shape[2] == #[trigger] (32 * k) implies shape[2] % 32 == 0 by {}
}

/// Audio goes past the filter graph if and only if that is allowed and nothing about it is to
/// change.
pub proof fn law_which_path_audio_takes(
    config: AudioFilterConfig,
    shape: Seq<i64>,
    hw_decoder: bool,
    direct_paths_enabled: bool,
)
    ensures
        ({
            let path = frame_path(
                FilterConfig::Audio(config),
                shape,
                hw_decoder,
                direct_paths_enabled,
            );
            &&& path is AudioPassthrough || path is Graph
            &&& path is AudioPassthrough <==> direct_paths_enabled && config.sample_rate is None
                && config.loudness_normalization is None
        }),
{
}

/// Frames that are converted past the graph, or on the GPU, are as high and as wide as the rows that
/// were planned for the request.
pub proof fn law_paths_fit_the_planned_output(
    request: VideoStreamRequest,
    src_width: i32,
    src_height: i32,
    num_frames: i64,
    config: VideoFilterConfig,
    hw_decoder: bool,
    direct_paths_enabled: bool,
)
    requires
        planned_video_output(request, src_width, src_height, num_frames) is Ok,
        config.follows(request),
        request.dtype == OutputDtype::Uint8,
        side(request.height, src_height) <= i32::MAX,
        side(request.width, src_width) <= i32::MAX,
    ensures
        match frame_path(
            FilterConfig::Video(config),
            planned_video_output(request, src_width, src_height, num_frames)->Ok_0.0,
            hw_decoder,
            direct_paths_enabled,
        ) {
            FramePath::CudaConvert { device, dst_width, dst_height } => {
                &&& request.device == Some(device)
                &&& dst_height == side(request.height, src_height)
                &&& dst_width == side(request.width, src_width)
            },
            FramePath::VideoScale { dst_width, dst_height } => {
                &&& request.device is None
                &&& request.width is None && request.height is None && request.frame_rate is None
                &&& dst_height == src_height
                &&& dst_width == src_width
            },
            FramePath::Graph => request.device is None,
            FramePath::AudioPassthrough => false,
        },
{
    law_video_output_has_the_size_asked_for(request, src_width, src_height, num_frames);
}

/// Frames reach the graph as they are, unless they are on the GPU: then in the format in which they
/// are brought to system memory, which is NV12 where the decoder names none.
pub proof fn law_graphs_are_fed_from_system_memory(
    pix_fmt: i32,
    sw_pix_fmt: i32,
    codes: PixelCodes,
)
    ensures
        pix_fmt != codes.cuda ==> graph_input_format(pix_fmt, sw_pix_fmt, codes) == pix_fmt,
        pix_fmt == codes.cuda && sw_pix_fmt != codes.none ==> graph_input_format(
            pix_fmt,
            sw_pix_fmt,
            codes,
        ) == sw_pix_fmt,
        pix_fmt == codes.cuda && sw_pix_fmt == codes.none ==> graph_input_format(
            pix_fmt,
            sw_pix_fmt,
            codes,
        ) == codes.nv12,
{
}

/// The output of the graph has the sample rate that its room was planned with.
pub proof fn law_graph_rate_is_the_planned_rate(
    duration: i64,
    stream_duration: Double,
    seek: Seek,
    lengths: RangeLengths,
    requested_rate: Option<usize>,
    source_rate: i32,
)
    ensures
        audio_timing(
            duration,
            stream_duration,
            seek,
            lengths,
            requested_rate,
            source_rate,
        ) matches Ok(timing) ==> timing.sample_rate == graph_output_rate(
            requested_rate,
            source_rate,
        ),
        requested_rate is None ==> graph_output_rate(requested_rate, source_rate) == source_rate,
        requested_rate is Some && requested_rate->0 <= i32::MAX ==> graph_output_rate(
            requested_rate,
            source_rate,
        ) == requested_rate->0,
{
}

/// A graph works with all threads that the machine runs at once, but with no more than 16, and with
/// that many where the machine does not tell.
pub proof fn law_graph_threads(available: Option<usize>)
    ensures
        threads_of_graph(available) <= 16,
        available matches Some(n) ==> threads_of_graph(available) <= n && (threads_of_graph(
            available,
        ) == n || threads_of_graph(available) == 16),
        available is None ==> threads_of_graph(available) == 16,
{
}

/// A decoder and a graph work together if and only if both are for video or both are for audio.
pub proof fn law_graphs_are_for_one_type(decoded: MediaType, config: FilterConfig)
    ensures
        agreed_type(decoded, config) == Some(StreamType::Video) <==> decoded == MediaType::Video
            && config is Video,
        agreed_type(decoded, config) == Some(StreamType::Audio) <==> decoded == MediaType::Audio
            && config is Audio,
{
}

/// The decoder that is chosen for decoding on the GPU is known by its name.
pub proof fn law_gpu_decoders_are_known_by_name(
    request: VideoStreamRequest,
    default_name: Seq<char>,
)
    ensures
        decoder_choice(request, default_name) matches Ok((hardware, name)) ==> (name matches Some(
            text,
        ) ==> is_gpu_decoder(text)),
        default_name.len() < 6 ==> !is_gpu_decoder(default_name),
        is_gpu_decoder(default_name) ==> default_name.last() == 'd' && default_name[
            default_name.len() - 6] == '_',
{
    reveal_strlit("_cuvid");
    law_who_decodes(request, default_name);
    let n = default_name.len() - 6;
    if is_gpu_decoder(default_name) {
        assert(default_name.skip(n)[5] == 'd');
        assert(default_name.skip(n)[0] == '_');
    }
}

/// The conversion to RGB is told of the matrix and of the range of a source, each by its own tag. It
/// is told of nothing if and only if the source has neither. Frames that stay on the GPU are taken
/// for BT.709 if and only if the conversion would be told that.
pub proof fn law_conversions_follow_the_tags(space: ColorSpace, range: ColorRange)
    ensures
        told_details(space, range) is None <==> space is Unspecified && range is Unspecified,
        told_details(space, range) matches Some(details) ==> {
            &&& details.src_range == 0 || details.src_range == 1
            &&& details.src_range == 1 <==> range is Jpeg
            &&& details.matrix == ConversionMatrix::Itu709 <==> space is Bt709
            &&& details.matrix == ConversionMatrix::Itu601 <==> space is Smpte170m
                || space is Bt470bg
            &&& details.matrix == ConversionMatrix::Smpte240m <==> space is Smpte240m
            &&& details.matrix == ConversionMatrix::Bt2020 <==> space is Bt2020Ncl
        },
        is_bt709(space) <==> told_details(space, range) is Some && told_details(
            space,
            range,
        )->0.matrix == ConversionMatrix::Itu709,
{
}

/// Rows of packed RGB follow on one another with no gap, three bytes to a pixel: rows of that length
/// fill an output of `[H, W, 3]` exactly. A conversion that gives another number of rows than the
/// output has is refused, whether it gives more or fewer.
pub proof fn law_scaled_rows_fill_the_output(width: i32, height: i32, scaled: i32)
    requires
        width >= 0,
        height >= 0,
    ensures
        height * rgb_row_bytes(width) == height * width * 3,
        rows_checked(scaled, height) is Ok <==> scaled == height,
        rows_checked(scaled, height) matches Err(mismatch) ==> mismatch.scaled == scaled
            && mismatch.expected == height,
{
    assert(height * (width * 3) == height * width * 3) by (nonlinear_arith);
}

/// Two numbers with a mark between them.
pub open spec fn pair(a: i32, mark: Seq<char>, b: i32) -> Seq<char> {
    signed_decimal(a as int) + mark + signed_decimal(b as int)
}

/// What the source of a graph for video is told: the size, the format, the time base and the shape
/// of the pixels, and the matrix and the range where the source is tagged with them.
pub open spec fn video_arguments(input: VideoInput) -> Seq<Seq<char>> {
    let always = seq![
        "video_size="@ + pair(input.width, "x"@, input.height),
        "pix_fmt="@ + signed_decimal(input.pix_fmt as int),
        "time_base="@ + pair(input.time_base.num, "/"@, input.time_base.den),
        "pixel_aspect="@ + pair(input.pixel_aspect.num, "/"@, input.pixel_aspect.den),
    ];
    let matrix = if input.colorspace is Some {
        seq!["colorspace="@ + input.colorspace->0@]
    } else {
        seq![]
    };
    let range = if input.color_range is Some {
        seq!["range="@ + input.color_range->0@]
    } else {
        seq![]
    };
    always + matrix + range
}

/// The arguments of a graph's source are all that it has to be told, with colons between them.
#[verifier::rlimit(40)]
pub proof fn law_video_sources_are_told_everything(input: VideoInput)
    ensures
        input.arguments() == joined(video_arguments(input), ":"@),
{
    lemma_video_labels();
    let size = pair(input.width, "x"@, input.height);
    let format = signed_decimal(input.pix_fmt as int);
    let base = pair(input.time_base.num, "/"@, input.time_base.den);
    let aspect = pair(input.pixel_aspect.num, "/"@, input.pixel_aspect.den);
    let a = "video_size="@ + size;
    let b = "pix_fmt="@ + format;
    let c = "time_base="@ + base;
    let d = "pixel_aspect="@ + aspect;
    let list = seq![a, b, c, d];
    lemma_joined_push(seq![a], b);
    lemma_joined_push(seq![a, b], c);
    lemma_joined_push(seq![a, b, c], d);
    assert(seq![a].push(b) =~= seq![a, b]);
    assert(seq![a, b].push(c) =~= seq![a, b, c]);
    assert(seq![a, b, c].push(d) =~= list);
    lemma_labelled(a, "pix_fmt="@, ":pix_fmt="@, format);
    let two = a + ":pix_fmt="@ + format;
    lemma_labelled(two, "time_base="@, ":time_base="@, base);
    let three = two + ":time_base="@ + base;
    lemma_labelled(three, "pixel_aspect="@, ":pixel_aspect="@, aspect);
    let four = three + ":pixel_aspect="@ + aspect;
    assert(joined(list, ":"@) == four);
    let all = video_arguments(input);
    let e = "colorspace="@ + input.colorspace->0@;
    let f = "range="@ + input.color_range->0@;
    let five = if input.colorspace is Some {
        four + (":colorspace="@ + input.colorspace->0@)
    } else {
        four + seq![]
    };
    let six = if input.color_range is Some {
        five + (":range="@ + input.color_range->0@)
    } else {
        five + seq![]
    };
    let with_matrix = if input.colorspace is Some {
        list.push(e)
    } else {
        list
    };
    if input.colorspace is Some {
        lemma_joined_push(list, e);
        lemma_labelled(four, "colorspace="@, ":colorspace="@, input.colorspace->0@);
        assert(five =~= four + ":colorspace="@ + input.colorspace->0@);
    } else {
        assert(five =~= four);
    }
    assert(joined(with_matrix, ":"@) == five);
    if input.color_range is Some {
        lemma_joined_push(with_matrix, f);
        lemma_labelled(five, "range="@, ":range="@, input.color_range->0@);
        assert(six =~= five + ":range="@ + input.color_range->0@);
        assert(all =~= with_matrix.push(f));
    } else {
        assert(six =~= five);
        assert(all =~= with_matrix);
    }
    assert(joined(all, ":"@) == six);
    lemma_pair_appended("video_size="@, input.width, "x"@, input.height);
    lemma_pair_appended(two + ":time_base="@, input.time_base.num, "/"@, input.time_base.den);
    lemma_pair_appended(
        three + ":pixel_aspect="@,
        input.pixel_aspect.num,
        "/"@,
        input.pixel_aspect.den,
    );
    assert(input.arguments() == six);
}

proof fn lemma_video_labels()
    ensures
        ":"@ + "pix_fmt="@ == ":pix_fmt="@,
        ":"@ + "time_base="@ == ":time_base="@,
        ":"@ + "pixel_aspect="@ == ":pixel_aspect="@,
        ":"@ + "colorspace="@ == ":colorspace="@,
        ":"@ + "range="@ == ":range="@,
{
    reveal_strlit(":");
    reveal_strlit("pix_fmt=");
    reveal_strlit(":pix_fmt=");
    reveal_strlit("time_base=");
    reveal_strlit(":time_base=");
    reveal_strlit("pixel_aspect=");
    reveal_strlit(":pixel_aspect=");
    reveal_strlit("colorspace=");
    reveal_strlit(":colorspace=");
    reveal_strlit("range=");
    reveal_strlit(":range=");
    assert(":"@ + "pix_fmt="@ =~= ":pix_fmt="@);
    assert(":"@ + "time_base="@ =~= ":time_base="@);
    assert(":"@ + "pixel_aspect="@ =~= ":pixel_aspect="@);
    assert(":"@ + "colorspace="@ =~= ":colorspace="@);
    assert(":"@ + "range="@ =~= ":range="@);
}

proof fn lemma_labelled(before: Seq<char>, name: Seq<char>, label: Seq<char>, value: Seq<char>)
    requires
        ":"@ + name == label,
    ensures
        before + ":"@ + (name + value) == before + label + value,
{
    assert(before + ":"@ + (name + value) =~= before + (":"@ + name) + value);
}

proof fn lemma_pair_appended(before: Seq<char>, a: i32, mark: Seq<char>, b: i32)
    ensures
        before + pair(a, mark, b) == before + signed_decimal(a as int) + mark + signed_decimal(
            b as int,
        ),
{
    assert(before + pair(a, mark, b) =~= before + signed_decimal(a as int) + mark + signed_decimal(
        b as int,
    ));
}

proof fn lemma_joined_push(parts: Seq<Seq<char>>, last: Seq<char>)
    requires
        parts.len() > 0,
    ensures
        joined(parts.push(last), ":"@) == joined(parts, ":"@) + ":"@ + last,
{
    assert(parts.push(last).drop_last() =~= parts);
}

/// The arguments of a graph's source are all that it has to be told, with colons between them: the
/// time base, the sample rate, the sample format and the channels.
#[verifier::rlimit(40)]
pub proof fn law_audio_sources_are_told_everything(input: AudioInput)
    ensures
        input.arguments() == joined(
            seq![
                "time_base="@ + pair(input.time_base.num, "/"@, input.time_base.den),
                "sample_rate="@ + signed_decimal(input.sample_rate as int),
                "sample_fmt="@ + input.sample_format@,
                "channel_layout="@ + input.channel_layout@,
            ],
            ":"@,
        ),
{
    reveal_strlit(":");
    reveal_strlit("sample_rate=");
    reveal_strlit(":sample_rate=");
    reveal_strlit("sample_fmt=");
    reveal_strlit(":sample_fmt=");
    reveal_strlit("channel_layout=");
    reveal_strlit(":channel_layout=");
    assert(":"@ + "sample_rate="@ =~= ":sample_rate="@);
    assert(":"@ + "sample_fmt="@ =~= ":sample_fmt="@);
    assert(":"@ + "channel_layout="@ =~= ":channel_layout="@);
    let a = "time_base="@ + pair(input.time_base.num, "/"@, input.time_base.den);
    let b = "sample_rate="@ + signed_decimal(input.sample_rate as int);
    let c = "sample_fmt="@ + input.sample_format@;
    let d = "channel_layout="@ + input.channel_layout@;
    lemma_joined_push(seq![a], b);
    lemma_joined_push(seq![a, b], c);
    lemma_joined_push(seq![a, b, c], d);
    assert(seq![a].push(b) =~= seq![a, b]);
    assert(seq![a, b].push(c) =~= seq![a, b, c]);
    assert(seq![a, b, c].push(d) =~= seq![a, b, c, d]);
    assert(input.arguments() =~= a + (":sample_rate="@ + signed_decimal(input.sample_rate as int))
        + (":sample_fmt="@ + input.sample_format@) + (":channel_layout="@
        + input.channel_layout@));
    assert(joined(seq![a, b, c, d], ":"@) =~= input.arguments());
}

} // verus!
