//! What the description of a filter graph tells: everything that is asked for, and nothing else.
use vstd::prelude::*;

use crate::decoder::filter::{
    named_format, setting, AudioFilterConfig, LoudnessNormalization, SourceColorInfo,
    VideoFilterConfig,
};
use crate::decoder::format::PixelFormat;
use crate::decoder::request::{
    AudioStreamRequest, FrameRate, HdrMode, OutputDtype, VideoStreamRequest,
};
use crate::text::{decimal, each_ended, joined, law_joined_parts, lemma_each_ended_joins, view_of};

verus! {

/// Samples go through the loudness normalization where it is asked for, and then through the
/// resampling where that is, and through nothing else. Whether one is asked for makes no difference
/// to the other.
#[verifier::rlimit(40)]
pub proof fn law_audio_goes_through_what_is_asked_for(config: AudioFilterConfig)
    ensures
        match (config.loudness_normalization, config.sample_rate) {
            (Some(normalization), Some(rate)) => config.description()
                == normalization.description() + ",aresample="@ + decimal(rate as nat),
            (Some(normalization), None) => config.description() == normalization.description(),
            (None, Some(rate)) => config.description() == "aresample="@ + decimal(rate as nat),
            (None, None) => config.description() == "anull"@,
        },
        config.description() == "anull"@ <==> config.loudness_normalization is None
            && config.sample_rate is None,
{
    reveal_strlit("aresample");
    reveal_strlit("aresample=");
    reveal_strlit(",aresample=");
    reveal_strlit("anull");
    reveal_strlit("loudnorm=");
    reveal_strlit(",");
    let filters = config.filters();
    match (config.loudness_normalization, config.sample_rate) {
        (Some(normalization), Some(rate)) => {
            let first = normalization.description();
            let second = "aresample"@ + seq!['='] + decimal(rate as nat);
            assert(filters =~= seq![first, second]);
            assert(filters =~= seq![first].push(second));
            law_joined_parts(seq![first], second, ","@);
            lemma_one_ended(first, ","@);
            assert(config.description() =~= first + ",aresample="@ + decimal(rate as nat));
            assert(config.description()[0] == first[0]);
            assert(first[0] == 'l');
        },
        (Some(normalization), None) => {
            let first = normalization.description();
            assert(filters =~= seq![first]);
            assert(first[0] == 'l');
        },
        (None, Some(rate)) => {
            let only = "aresample"@ + seq!['='] + decimal(rate as nat);
            assert(filters =~= seq![only]);
            assert(config.description() =~= "aresample="@ + decimal(rate as nat));
            assert(config.description()[1] == 'r');
        },
        (None, None) => {
            assert(filters =~= seq![]);
        },
    }
}

/// A request for audio is filtered as it asks to be.
pub proof fn law_audio_requests_become_filters(
    request: AudioStreamRequest,
    config: AudioFilterConfig,
)
    requires
        config.follows(request),
    ensures
        match (request.loudness_normalization, request.sample_rate) {
            (Some(normalization), Some(rate)) => config.description()
                == normalization.description() + ",aresample="@ + decimal(rate as nat),
            (Some(normalization), None) => config.description() == normalization.description(),
            (None, Some(rate)) => config.description() == "aresample="@ + decimal(rate as nat),
            (None, None) => config.description() == "anull"@,
        },
        config.sample_rate is Some <==> request.sample_rate is Some,
{
    law_audio_goes_through_what_is_asked_for(config);
}

/// A setting of `loudnorm` and its value, where it is given.
pub struct Given {
    pub name: Seq<char>,
    pub value: Option<Seq<char>>,
}

/// The text of a flag.
pub open spec fn flag(value: Option<bool>) -> Option<Seq<char>> {
    if value is None {
        None
    } else if value->0 {
        Some("true"@)
    } else {
        Some("false"@)
    }
}

/// The settings that are given, as `name=value` and in their order.
pub open spec fn given(settings: Seq<Given>) -> Seq<Seq<char>>
    decreases settings.len(),
{
    if settings.len() == 0 {
        seq![]
    } else {
        let rest = given(settings.drop_last());
        if settings.last().value is Some {
            rest.push(settings.last().name + "="@ + settings.last().value->0)
        } else {
            rest
        }
    }
}

/// All settings of `loudnorm`, by the names that the filter knows them by.
pub open spec fn loudnorm_settings(n: LoudnessNormalization) -> Seq<Given> {
    seq![
        Given { name: "I"@, value: view_of(n.integrated_loudness_target) },
        Given { name: "LRA"@, value: view_of(n.loudness_range_target) },
        Given { name: "TP"@, value: view_of(n.true_peak_level_target) },
        Given { name: "measured_I"@, value: view_of(n.measured_integrated_loudness) },
        Given { name: "measured_LRA"@, value: view_of(n.measured_loudness_range) },
        Given { name: "measured_TP"@, value: view_of(n.measured_true_peak_level) },
        Given { name: "measured_thresh"@, value: view_of(n.measured_threshold) },
        Given { name: "offset"@, value: view_of(n.offset_gain) },
        Given { name: "linear"@, value: flag(n.linear) },
        Given { name: "dual_mono"@, value: flag(n.dual_mono) },
    ]
}

/// The filter is told of each setting that is given, under its name, and of no other.
#[verifier::rlimit(40)]
pub proof fn law_loudnorm_is_told_what_is_given(n: LoudnessNormalization)
    ensures
        n.description() == "loudnorm="@ + joined(given(loudnorm_settings(n)), ":"@),
{
    let all = loudnorm_settings(n);
    lemma_given(all, 0);
    lemma_given(all, 1);
    lemma_given(all, 2);
    lemma_given(all, 3);
    lemma_given(all, 4);
    lemma_given(all, 5);
    lemma_given(all, 6);
    lemma_given(all, 7);
    lemma_given(all, 8);
    lemma_given(all, 9);
    assert(all.take(0) =~= seq![]);
    assert(all.take(10) =~= all);
    assert(given(all.take(0)) =~= seq![]);
    assert(given(all.take(1)) =~= setting(all[0].name, all[0].value));
    assert(given(all) == n.settings());
}

proof fn lemma_given(settings: Seq<Given>, i: int)
    requires
        0 <= i < settings.len(),
    ensures
        given(settings.take(i + 1)) == given(settings.take(i)) + setting(
            settings[i].name,
            settings[i].value,
        ),
{
    reveal_strlit("=");
    assert("="@ =~= seq!['=']);
    let more = settings.take(i + 1);
    assert(more.drop_last() =~= settings.take(i));
    assert(more.last() == settings[i]);
    assert(given(more) =~= given(settings.take(i)) + setting(settings[i].name, settings[i].value));
}

/// Whether the source is of high dynamic range, by its transfer function, or has a wide gamut.
pub open spec fn needs_tone_mapping(color: SourceColorInfo) -> bool {
    ||| color.color_trc is Some && (color.color_trc->0@ == "smpte2084"@ || color.color_trc->0@
        == "arib-std-b67"@)
    ||| color.color_primaries is Some && color.color_primaries->0@ == "bt2020"@
}

/// The change of the frame rate.
pub open spec fn rate_part(frame_rate: Option<FrameRate>) -> Seq<char> {
    if frame_rate is Some {
        "fps="@ + frame_rate->0.text@ + ","@
    } else {
        seq![]
    }
}

/// The change of the size, with the width before the height.
pub open spec fn size_part(width: Option<nat>, height: Option<nat>) -> Seq<char> {
    match (width, height) {
        (Some(w), Some(h)) => "scale=width="@ + decimal(w) + ":height="@ + decimal(h) + ","@,
        (Some(w), None) => "scale=width="@ + decimal(w) + ","@,
        (None, Some(h)) => "scale=height="@ + decimal(h) + ","@,
        (None, None) => seq![],
    }
}

/// The mapping of the dynamic range.
pub open spec fn range_part(color: SourceColorInfo, mode: HdrMode) -> Seq<char> {
    if needs_tone_mapping(color) && mode == HdrMode::Tonemap {
        "zscale=t=linear:npl=100"@ + ","@ + "format=gbrpf32le"@ + ","@ + "tonemap=hable:desat=0"@
            + ","@ + "zscale=p=bt709:t=bt709:m=bt709:range=tv"@ + ","@
    } else {
        seq![]
    }
}

/// A side as a number.
pub open spec fn side_of(side: Option<usize>) -> Option<nat> {
    match side {
        Some(n) => Some(n as nat),
        None => None,
    }
}

/// Frames go, in this order, through the change of the frame rate, the change of the size, the
/// mapping of the dynamic range, each where it is asked for or needed, and always through the change
/// to the pixel format of the output.
pub proof fn law_video_goes_through_what_is_asked_for(config: VideoFilterConfig)
    ensures
        config.description() == rate_part(config.frame_rate) + size_part(
            side_of(config.width),
            side_of(config.height),
        ) + range_part(config.source_color, config.hdr_mode) + "format=pix_fmts="@
            + config.pixel_format@,
{
    let comma = ","@;
    let rates = config.rate_filters();
    let scales = config.scale_filters();
    let tones = config.tone_filters();
    let last = "format=pix_fmts"@ + seq!['='] + config.pixel_format@;
    assert(config.filters() =~= (rates + scales + tones).push(last));
    law_joined_parts(rates + scales + tones, last, comma);
    lemma_each_ended_joins(rates + scales, tones, comma);
    lemma_each_ended_joins(rates, scales, comma);
    lemma_rate_part(config);
    lemma_size_part(config);
    lemma_range_part(config);
    lemma_format_part(config.pixel_format@);
    let before = rate_part(config.frame_rate) + size_part(
        side_of(config.width),
        side_of(config.height),
    ) + range_part(config.source_color, config.hdr_mode);
    assert(config.description() =~= before + "format=pix_fmts="@ + config.pixel_format@);
}

proof fn lemma_format_part(format: Seq<char>)
    ensures
        "format=pix_fmts"@ + seq!['='] + format == "format=pix_fmts="@ + format,
{
    reveal_strlit("format=pix_fmts");
    reveal_strlit("format=pix_fmts=");
    assert("format=pix_fmts"@ + seq!['='] =~= "format=pix_fmts="@);
}

proof fn lemma_rate_part(config: VideoFilterConfig)
    ensures
        each_ended(config.rate_filters(), ","@) == rate_part(config.frame_rate),
{
    reveal_strlit("fps");
    reveal_strlit("fps=");
    if config.frame_rate is Some {
        let only = "fps"@ + seq!['='] + config.frame_rate->0.text@;
        assert("fps"@ + seq!['='] =~= "fps="@);
        assert(config.rate_filters() =~= seq![only]);
        lemma_one_ended(only, ","@);
    } else {
        assert(config.rate_filters() =~= seq![]);
    }
}

#[verifier::rlimit(40)]
proof fn lemma_size_part(config: VideoFilterConfig)
    ensures
        each_ended(config.scale_filters(), ","@) == size_part(
            side_of(config.width),
            side_of(config.height),
        ),
{
    reveal_strlit("scale");
    reveal_strlit("width");
    reveal_strlit("height");
    reveal_strlit(":");
    reveal_strlit("scale=width=");
    reveal_strlit("scale=height=");
    reveal_strlit(":height=");
    let comma = ","@;
    let sides = config.scales();
    let head = "scale"@ + seq!['='];
    assert(head + ("width"@ + seq!['=']) =~= "scale=width="@);
    assert(head + ("height"@ + seq!['=']) =~= "scale=height="@);
    assert(":"@ + ("height"@ + seq!['=']) =~= ":height="@);
    match (config.width, config.height) {
        (Some(w), Some(h)) => {
            let a = "width"@ + seq!['='] + decimal(w as nat);
            let b = "height"@ + seq!['='] + decimal(h as nat);
            assert(sides =~= seq![a].push(b));
            law_joined_parts(seq![a], b, ":"@);
            lemma_one_ended(a, ":"@);
            let only = head + joined(sides, ":"@);
            assert(config.scale_filters() =~= seq![only]);
            lemma_one_ended(only, comma);
            assert(only + comma =~= "scale=width="@ + decimal(w as nat) + ":height="@ + decimal(
                h as nat,
            ) + comma);
        },
        (Some(w), None) => {
            let a = "width"@ + seq!['='] + decimal(w as nat);
            assert(sides =~= seq![a]);
            assert(config.scale_filters() =~= seq![head + a]);
            lemma_one_ended(head + a, comma);
            assert(head + a =~= "scale=width="@ + decimal(w as nat));
        },
        (None, Some(h)) => {
            let b = "height"@ + seq!['='] + decimal(h as nat);
            assert(sides =~= seq![b]);
            assert(config.scale_filters() =~= seq![head + b]);
            lemma_one_ended(head + b, comma);
            assert(head + b =~= "scale=height="@ + decimal(h as nat));
        },
        (None, None) => {
            assert(sides =~= seq![]);
            assert(config.scale_filters() =~= seq![]);
        },
    }
}

proof fn lemma_range_part(config: VideoFilterConfig)
    ensures
        each_ended(config.tone_filters(), ","@) == range_part(
            config.source_color,
            config.hdr_mode,
        ),
{
    let comma = ","@;
    let one = "zscale=t=linear:npl=100"@;
    let two = "format=gbrpf32le"@;
    let three = "tonemap=hable:desat=0"@;
    let four = "zscale=p=bt709:t=bt709:m=bt709:range=tv"@;
    let tones = config.tone_filters();
    if config.tone_maps() {
        assert(tones =~= seq![one, two, three, four]);
        assert(tones.drop_first() =~= seq![two, three, four]);
        assert(seq![two, three, four].drop_first() =~= seq![three, four]);
        assert(seq![three, four].drop_first() =~= seq![four]);
        lemma_one_ended(four, comma);
        assert(each_ended(seq![three, four], comma) == three + comma + (four + comma));
        assert(each_ended(seq![two, three, four], comma) == two + comma + (three + comma + (four
            + comma)));
        assert(each_ended(tones, comma) =~= one + comma + two + comma + three + comma + four
            + comma);
    } else {
        assert(tones =~= seq![]);
    }
}

proof fn lemma_one_ended(part: Seq<char>, separator: Seq<char>)
    ensures
        each_ended(seq![part], separator) == part + separator,
{
    assert(seq![part].drop_first() =~= seq![]);
    assert(each_ended(seq![part].drop_first(), separator) =~= seq![]);
    assert(each_ended(seq![part], separator) =~= part + separator);
}

/// A request for video is filtered as it asks to be: to its frame rate and its size, into packed RGB
/// for bytes and into planes of floats for floats. Its frames stay on the GPU that it names.
pub proof fn law_video_requests_become_filters(
    request: VideoStreamRequest,
    config: VideoFilterConfig,
)
    requires
        config.follows(request),
    ensures
        config.description() == rate_part(request.frame_rate) + size_part(
            match request.width {
                Some(w) => Some(w as nat),
                None => None,
            },
            match request.height {
                Some(h) => Some(h as nat),
                None => None,
            },
        ) + "format=pix_fmts="@ + match request.dtype {
            OutputDtype::Uint8 => "rgb24"@,
            OutputDtype::Float32 => "gbrpf32le"@,
        },
        config.device == request.device,
        config.hdr_mode == request.hdr_mode,
        request.dtype == OutputDtype::Uint8 ==> named_format(config.pixel_format@) == Some(
            PixelFormat::Rgb24,
        ),
        request.dtype == OutputDtype::Float32 ==> named_format(config.pixel_format@) == Some(
            PixelFormat::Gbrpf32le,
        ),
        request.frame_rate is Some ==> config.frame_rate is Some && config.frame_rate->0.value
            == request.frame_rate->0.value,
{
    law_video_goes_through_what_is_asked_for(config);
    reveal_strlit("rgb24");
    reveal_strlit("gbrpf32le");
    assert("rgb24"@.len() != "gbrpf32le"@.len());
    let before = rate_part(config.frame_rate) + size_part(
        side_of(config.width),
        side_of(config.height),
    );
    assert(before + seq![] =~= before);
}

/// A name stands for a format, and only one name for each.
pub proof fn law_format_names(name: Seq<char>)
    ensures
        named_format(name) == Some(PixelFormat::Rgb24) <==> name == "rgb24"@,
        named_format(name) == Some(PixelFormat::Gbrpf32le) <==> name == "gbrpf32le"@,
        named_format(name) == Some(PixelFormat::Yuv420p) <==> name == "yuv420p"@,
        named_format(name) matches Some(format) ==> format == PixelFormat::Rgb24 || format
            == PixelFormat::Gbrpf32le || format == PixelFormat::Yuv420p,
{
    reveal_strlit("rgb24");
    reveal_strlit("gbrpf32le");
    reveal_strlit("yuv420p");
    assert("rgb24"@.len() != "gbrpf32le"@.len());
    assert("rgb24"@.len() != "yuv420p"@.len());
    assert("gbrpf32le"@.len() != "yuv420p"@.len());
}

/// What the source is tagged with is kept, each property under its own, unless the tag says that
/// nothing is known; and it decides alone whether the dynamic range has to be mapped.
pub proof fn law_tags_are_kept(
    color: SourceColorInfo,
    colorspace: Option<Seq<char>>,
    color_range: Option<Seq<char>>,
    color_primaries: Option<Seq<char>>,
    color_trc: Option<Seq<char>>,
)
    requires
        color.told_by(colorspace, color_range, color_primaries, color_trc),
    ensures
        keeps_tag(color.colorspace, colorspace),
        keeps_tag(color.color_range, color_range),
        keeps_tag(color.color_primaries, color_primaries),
        keeps_tag(color.color_trc, color_trc),
        color.hdr() <==> color_trc == Some("smpte2084"@) || color_trc == Some("arib-std-b67"@)
            || color_primaries == Some("bt2020"@),
{
    reveal_strlit("unknown");
    reveal_strlit("unspecified");
    reveal_strlit("smpte2084");
    reveal_strlit("arib-std-b67");
    reveal_strlit("bt2020");
    assert("smpte2084"@.len() == 9);
    assert("arib-std-b67"@.len() == 12);
    assert("bt2020"@.len() == 6);
    assert("unknown"@.len() == 7);
    assert("unspecified"@.len() == 11);
}

/// A tag is kept as it is, unless it says that nothing is known.
pub open spec fn keeps_tag(kept: Option<String>, tag: Option<Seq<char>>) -> bool {
    if tag is None || tag->0 == "unknown"@ || tag->0 == "unspecified"@ {
        kept is None
    } else {
        kept is Some && kept->0@ == tag->0
    }
}

} // verus!
