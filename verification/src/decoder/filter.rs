//! Filter graphs: their descriptions, what feeds them, and when none is needed.
use vstd::prelude::*;

use crate::decoder::format::PixelFormat;
use crate::decoder::request::{
    AudioStreamRequest, FrameRate, HdrMode, OutputDtype, VideoStreamRequest,
};
use crate::text::{
    c_text, decimal, decimal_text, join, joined, made_c_text, same, view_of, views, InteriorNul,
};

verus! {

/// Settings of the `loudnorm` filter. Numbers are given by their decimal texts.
#[derive(Clone, Debug)]
pub struct LoudnessNormalization {
    /// Integrated loudness target, from -70 to -5.
    pub integrated_loudness_target: Option<String>,
    /// Loudness range target, from 1 to 50.
    pub loudness_range_target: Option<String>,
    /// Maximum true peak.
    pub true_peak_level_target: Option<String>,
    /// Measured integrated loudness of the input, from -99 to 0.
    pub measured_integrated_loudness: Option<String>,
    /// Measured loudness range of the input, from 0 to 99.
    pub measured_loudness_range: Option<String>,
    /// Measured true peak of the input, from -99 to 99.
    pub measured_true_peak_level: Option<String>,
    /// Measured threshold of the input, from -99 to 0.
    pub measured_threshold: Option<String>,
    /// Gain before the true-peak limiter, from -99 to 99.
    pub offset_gain: Option<String>,
    /// Scale the input linearly where the measurements allow it.
    pub linear: Option<bool>,
    /// Treat a mono input as two equal channels.
    pub dual_mono: Option<bool>,
}

/// `name=value`, where there is a value.
pub open spec fn setting(name: Seq<char>, value: Option<Seq<char>>) -> Seq<Seq<char>> {
    match value {
        Some(text) => seq![name + seq!['='] + text],
        None => seq![],
    }
}

/// `true` or `false`.
pub open spec fn flag_text(flag: Option<bool>) -> Option<Seq<char>> {
    match flag {
        Some(true) => Some("true"@),
        Some(false) => Some("false"@),
        None => None,
    }
}

impl LoudnessNormalization {
    /// The settings that are given, each as `name=value`.
    pub open spec fn settings(self) -> Seq<Seq<char>> {
        setting("I"@, view_of(self.integrated_loudness_target)) + setting(
            "LRA"@,
            view_of(self.loudness_range_target),
        ) + setting("TP"@, view_of(self.true_peak_level_target)) + setting(
            "measured_I"@,
            view_of(self.measured_integrated_loudness),
        ) + setting("measured_LRA"@, view_of(self.measured_loudness_range)) + setting(
            "measured_TP"@,
            view_of(self.measured_true_peak_level),
        ) + setting("measured_thresh"@, view_of(self.measured_threshold)) + setting(
            "offset"@,
            view_of(self.offset_gain),
        ) + setting("linear"@, flag_text(self.linear)) + setting(
            "dual_mono"@,
            flag_text(self.dual_mono),
        )
    }

    /// The description of the filter.
    pub open spec fn description(self) -> Seq<char> {
        "loudnorm="@ + joined(self.settings(), ":"@)
    }

    /// The description of the filter.
    pub fn to_string(&self) -> (r: String)
        ensures
            r@ == self.description(),
    {
        let mut options: Vec<String> = Vec::new();
        push_setting(&mut options, "I", &self.integrated_loudness_target);
        push_setting(&mut options, "LRA", &self.loudness_range_target);
        push_setting(&mut options, "TP", &self.true_peak_level_target);
        push_setting(&mut options, "measured_I", &self.measured_integrated_loudness);
        push_setting(&mut options, "measured_LRA", &self.measured_loudness_range);
        push_setting(&mut options, "measured_TP", &self.measured_true_peak_level);
        push_setting(&mut options, "measured_thresh", &self.measured_threshold);
        push_setting(&mut options, "offset", &self.offset_gain);
        push_flag(&mut options, "linear", self.linear);
        push_flag(&mut options, "dual_mono", self.dual_mono);
        assert(views(options@) =~= self.settings());
        let mut text = "loudnorm=".to_owned();
        let list = join(&options, ":");
        text.append(list.as_str());
        text
    }
}

impl Default for LoudnessNormalization {
    fn default() -> (r: LoudnessNormalization)
        ensures
            view_of(r.integrated_loudness_target) == Some("-24"@),
            view_of(r.loudness_range_target) == Some("7"@),
            view_of(r.true_peak_level_target) == Some("-2"@),
            r.measured_integrated_loudness is None,
            r.measured_loudness_range is None,
            r.measured_true_peak_level is None,
            r.measured_threshold is None,
            view_of(r.offset_gain) == Some("0"@),
            r.linear == Some(true),
            r.dual_mono == Some(false),
    {
        LoudnessNormalization {
            integrated_loudness_target: Some("-24".to_owned()),
            loudness_range_target: Some("7".to_owned()),
            true_peak_level_target: Some("-2".to_owned()),
            measured_integrated_loudness: None,
            measured_loudness_range: None,
            measured_true_peak_level: None,
            measured_threshold: None,
            offset_gain: Some("0".to_owned()),
            linear: Some(true),
            dual_mono: Some(false),
        }
    }
}

/// Appends `name=value`.
fn push_pair(options: &mut Vec<String>, name: &str, value: &str)
    ensures
        views(final(options)@) == views(old(options)@).push(name@ + seq!['='] + value@),
{
    proof {
        reveal_strlit("=");
    }
    let mut text = name.to_owned();
    text.append("=");
    text.append(value);
    assert(text@ =~= name@ + seq!['='] + value@);
    options.push(text);
    assert(views(options@) =~= views(old(options)@).push(name@ + seq!['='] + value@));
}

fn push_setting(options: &mut Vec<String>, name: &str, value: &Option<String>)
    ensures
        views(final(options)@) == views(old(options)@) + setting(name@, view_of(*value)),
{
    match value {
        Some(text) => {
            push_pair(options, name, text.as_str());
            assert(views(options@) =~= views(old(options)@) + setting(name@, view_of(*value)));
        },
        None => {
            assert(views(options@) =~= views(old(options)@) + setting(name@, view_of(*value)));
        },
    }
}

fn push_flag(options: &mut Vec<String>, name: &str, value: Option<bool>)
    ensures
        views(final(options)@) == views(old(options)@) + setting(name@, flag_text(value)),
{
    match value {
        Some(flag) => {
            push_pair(
                options,
                name,
                if flag {
                    "true"
                } else {
                    "false"
                },
            );
            assert(views(options@) =~= views(old(options)@) + setting(name@, flag_text(value)));
        },
        None => {
            assert(views(options@) =~= views(old(options)@) + setting(name@, flag_text(value)));
        },
    }
}

/// The name of a colour property, unless it says that the property is not known.
pub open spec fn meaningful_name(name: Option<Seq<char>>) -> Option<Seq<char>> {
    match name {
        Some(text) => if text == "unknown"@ || text == "unspecified"@ {
            None
        } else {
            Some(text)
        },
        None => None,
    }
}

/// Drops the name of a colour property that is not known.
pub fn color_name(name: Option<String>) -> (r: Option<String>)
    ensures
        view_of(r) == meaningful_name(view_of(name)),
        r is Some ==> r == name,
{
    match name {
        Some(text) => {
            if same(text.as_str(), "unknown") || same(text.as_str(), "unspecified") {
                None
            } else {
                Some(text)
            }
        },
        None => None,
    }
}

/// Colour properties of a source, as far as it is tagged with them.
#[derive(Clone, Debug)]
pub struct SourceColorInfo {
    /// The matrix, such as `bt709` or `bt2020nc`.
    pub colorspace: Option<String>,
    /// `tv` (limited) or `pc` (full).
    pub color_range: Option<String>,
    /// The primaries, such as `bt709` or `bt2020`.
    pub color_primaries: Option<String>,
    /// The transfer characteristics, such as `bt709`, `smpte2084` or `arib-std-b67`.
    pub color_trc: Option<String>,
}

impl Default for SourceColorInfo {
    fn default() -> (r: SourceColorInfo)
        ensures
            r == (SourceColorInfo {
                colorspace: None,
                color_range: None,
                color_primaries: None,
                color_trc: None,
            }),
    {
        SourceColorInfo {
            colorspace: None,
            color_range: None,
            color_primaries: None,
            color_trc: None,
        }
    }
}

impl SourceColorInfo {
    /// The properties that these names tell.
    pub open spec fn told_by(
        self,
        colorspace: Option<Seq<char>>,
        color_range: Option<Seq<char>>,
        color_primaries: Option<Seq<char>>,
        color_trc: Option<Seq<char>>,
    ) -> bool {
        &&& view_of(self.colorspace) == meaningful_name(colorspace)
        &&& view_of(self.color_range) == meaningful_name(color_range)
        &&& view_of(self.color_primaries) == meaningful_name(color_primaries)
        &&& view_of(self.color_trc) == meaningful_name(color_trc)
    }

    /// The properties that names were found for; names that say that nothing is known are dropped.
    pub fn from_names(
        colorspace: Option<String>,
        color_range: Option<String>,
        color_primaries: Option<String>,
        color_trc: Option<String>,
    ) -> (r: SourceColorInfo)
        ensures
            r.told_by(
                view_of(colorspace),
                view_of(color_range),
                view_of(color_primaries),
                view_of(color_trc),
            ),
    {
        SourceColorInfo {
            colorspace: color_name(colorspace),
            color_range: color_name(color_range),
            color_primaries: color_name(color_primaries),
            color_trc: color_name(color_trc),
        }
    }

    /// The transfer function is one of high dynamic range, or the gamut is wide.
    pub open spec fn hdr(self) -> bool {
        ||| view_of(self.color_trc) == Some("smpte2084"@)
        ||| view_of(self.color_trc) == Some("arib-std-b67"@)
        ||| view_of(self.color_primaries) == Some("bt2020"@)
    }

    /// Whether the source has to be tone mapped to be shown in sRGB.
    pub fn is_hdr(&self) -> (r: bool)
        ensures
            r == self.hdr(),
    {
        let hdr_transfer = match &self.color_trc {
            Some(trc) => same(trc.as_str(), "smpte2084") || same(trc.as_str(), "arib-std-b67"),
            None => false,
        };
        let wide_gamut = match &self.color_primaries {
            Some(primaries) => same(primaries.as_str(), "bt2020"),
            None => false,
        };
        hdr_transfer || wide_gamut
    }
}

/// What is done to the frames of a video between the decoder and the output.
#[derive(Clone, Debug)]
pub struct VideoFilterConfig {
    pub frame_rate: Option<FrameRate>,
    pub width: Option<usize>,
    pub height: Option<usize>,
    /// The pixel format of the output, `rgb24` unless asked otherwise.
    pub pixel_format: String,
    pub source_color: SourceColorInfo,
    /// The GPU that the frames stay on.
    pub device: Option<i32>,
    pub hdr_mode: HdrMode,
}

impl Default for VideoFilterConfig {
    fn default() -> (r: VideoFilterConfig)
        ensures
            r.frame_rate is None,
            r.width is None,
            r.height is None,
            r.pixel_format@ == "rgb24"@,
            r.source_color == (SourceColorInfo {
                colorspace: None,
                color_range: None,
                color_primaries: None,
                color_trc: None,
            }),
            r.device is None,
            r.hdr_mode == HdrMode::Tonemap,
    {
        VideoFilterConfig {
            frame_rate: None,
            width: None,
            height: None,
            pixel_format: "rgb24".to_owned(),
            source_color: SourceColorInfo::default(),
            device: None,
            hdr_mode: HdrMode::Tonemap,
        }
    }
}

/// The text of an optional number.
pub open spec fn decimal_of(n: Option<usize>) -> Option<Seq<char>> {
    match n {
        Some(n) => Some(decimal(n as nat)),
        None => None,
    }
}

/// The filters that map high dynamic range to standard range: to linear light, to floats, tone
/// mapping, and to the primaries, transfer function and matrix of BT.709.
pub open spec fn tone_mapping() -> Seq<Seq<char>> {
    seq![
        "zscale=t=linear:npl=100"@,
        "format=gbrpf32le"@,
        "tonemap=hable:desat=0"@,
        "zscale=p=bt709:t=bt709:m=bt709:range=tv"@,
    ]
}

/// The pixel format that a name stands for, where it is one that is known.
pub open spec fn named_format(name: Seq<char>) -> Option<PixelFormat> {
    if name == "rgb24"@ {
        Some(PixelFormat::Rgb24)
    } else if name == "gbrpf32le"@ {
        Some(PixelFormat::Gbrpf32le)
    } else if name == "yuv420p"@ {
        Some(PixelFormat::Yuv420p)
    } else {
        None
    }
}

impl VideoFilterConfig {
    /// The source is of high dynamic range and its code values are not to be kept.
    pub open spec fn tone_maps(self) -> bool {
        self.source_color.hdr() && self.hdr_mode == HdrMode::Tonemap
    }

    /// The sizes that are asked for.
    pub open spec fn scales(self) -> Seq<Seq<char>> {
        setting("width"@, decimal_of(self.width)) + setting("height"@, decimal_of(self.height))
    }

    /// The filter that changes the frame rate, where it is asked for.
    pub open spec fn rate_filters(self) -> Seq<Seq<char>> {
        match self.frame_rate {
            Some(rate) => setting("fps"@, Some(rate.text@)),
            None => seq![],
        }
    }

    /// The filter that changes the size, where it is asked for.
    pub open spec fn scale_filters(self) -> Seq<Seq<char>> {
        if self.scales().len() > 0 {
            setting("scale"@, Some(joined(self.scales(), ":"@)))
        } else {
            seq![]
        }
    }

    /// The filters that map the dynamic range, where it is to be mapped.
    pub open spec fn tone_filters(self) -> Seq<Seq<char>> {
        if self.tone_maps() {
            tone_mapping()
        } else {
            seq![]
        }
    }

    /// The filters, in the order in which frames go through them.
    pub open spec fn filters(self) -> Seq<Seq<char>> {
        self.rate_filters() + self.scale_filters() + self.tone_filters() + setting(
            "format=pix_fmts"@,
            Some(self.pixel_format@),
        )
    }

    /// The description of the filters.
    pub open spec fn description(self) -> Seq<char> {
        joined(self.filters(), ","@)
    }

    /// The description of the filters.
    pub fn to_string(&self) -> (r: String)
        ensures
            r@ == self.description(),
    {
        let mut filters: Vec<String> = Vec::new();
        assert(views(filters@) =~= seq![]);
        if let Some(rate) = &self.frame_rate {
            push_pair(&mut filters, "fps", rate.text.as_str());
        }
        assert(views(filters@) =~= self.rate_filters());
        let mut scales: Vec<String> = Vec::new();
        push_number(&mut scales, "width", self.width);
        push_number(&mut scales, "height", self.height);
        assert(views(scales@) =~= self.scales());
        if scales.len() > 0 {
            assert(self.scales().len() > 0);
            let list = join(&scales, ":");
            push_pair(&mut filters, "scale", list.as_str());
        }
        assert(self.scales().len() == scales@.len());
        assert(views(filters@) =~= self.rate_filters() + self.scale_filters());
        if self.source_color.is_hdr() && self.hdr_mode == HdrMode::Tonemap {
            filters.push("zscale=t=linear:npl=100".to_owned());
            filters.push("format=gbrpf32le".to_owned());
            filters.push("tonemap=hable:desat=0".to_owned());
            filters.push("zscale=p=bt709:t=bt709:m=bt709:range=tv".to_owned());
        }
        assert(views(filters@) =~= self.rate_filters() + self.scale_filters()
            + self.tone_filters());
        push_pair(&mut filters, "format=pix_fmts", self.pixel_format.as_str());
        assert(views(filters@) =~= self.filters());
        join(&filters, ",")
    }

    /// The description of the filters, as it is handed to the graph.
    pub fn to_filter_spec(&self) -> (r: Result<String, InteriorNul>)
        ensures
            made_c_text(self.description(), r),
    {
        c_text(self.to_string())
    }

    /// What is done is what the request asks for, with nothing known of the source's colours.
    pub open spec fn follows(self, request: VideoStreamRequest) -> bool {
        &&& match request.frame_rate {
            Some(rate) => self.frame_rate matches Some(kept) && kept.value == rate.value
                && kept.text@ == rate.text@,
            None => self.frame_rate is None,
        }
        &&& self.width == match request.width {
            Some(w) => Some(w as usize),
            None => None,
        }
        &&& self.height == match request.height {
            Some(h) => Some(h as usize),
            None => None,
        }
        &&& self.pixel_format@ == match request.dtype {
            OutputDtype::Uint8 => "rgb24"@,
            OutputDtype::Float32 => "gbrpf32le"@,
        }
        &&& self.source_color == (SourceColorInfo {
            colorspace: None,
            color_range: None,
            color_primaries: None,
            color_trc: None,
        })
        &&& self.device == request.device
        &&& self.hdr_mode == request.hdr_mode
    }

    /// What a request asks for. Nothing is known of the source's colours yet.
    pub fn from_request(request: &VideoStreamRequest) -> (r: VideoFilterConfig)
        ensures
            r.follows(*request),
    {
        VideoFilterConfig {
            frame_rate: match &request.frame_rate {
                Some(rate) => Some(FrameRate { value: rate.value, text: rate.text.clone() }),
                None => None,
            },
            width: match request.width {
                Some(w) => Some(w as usize),
                None => None,
            },
            height: match request.height {
                Some(h) => Some(h as usize),
                None => None,
            },
            pixel_format: match request.dtype {
                OutputDtype::Uint8 => "rgb24".to_owned(),
                OutputDtype::Float32 => "gbrpf32le".to_owned(),
            },
            source_color: SourceColorInfo::default(),
            device: request.device,
            hdr_mode: request.hdr_mode,
        }
    }

    /// The pixel format of the output, where it is one that is known by name.
    pub fn pix_fmt(&self) -> (r: Option<PixelFormat>)
        ensures
            r == named_format(self.pixel_format@),
    {
        let name = self.pixel_format.as_str();
        if same(name, "rgb24") {
            Some(PixelFormat::Rgb24)
        } else if same(name, "gbrpf32le") {
            Some(PixelFormat::Gbrpf32le)
        } else if same(name, "yuv420p") {
            Some(PixelFormat::Yuv420p)
        } else {
            None
        }
    }
}

fn push_number(options: &mut Vec<String>, name: &str, value: Option<usize>)
    ensures
        views(final(options)@) == views(old(options)@) + setting(name@, decimal_of(value)),
{
    match value {
        Some(n) => {
            let text = decimal_text(n as u64);
            push_pair(options, name, text.as_str());
            assert(views(options@) =~= views(old(options)@) + setting(name@, decimal_of(value)));
        },
        None => {
            assert(views(options@) =~= views(old(options)@) + setting(name@, decimal_of(value)));
        },
    }
}

/// What is done to the samples of an audio stream between the decoder and the output.
#[derive(Clone, Debug)]
pub struct AudioFilterConfig {
    pub sample_rate: Option<usize>,
    pub loudness_normalization: Option<LoudnessNormalization>,
}

impl Default for AudioFilterConfig {
    fn default() -> (r: AudioFilterConfig)
        ensures
            r == (AudioFilterConfig { sample_rate: None, loudness_normalization: None }),
    {
        AudioFilterConfig { sample_rate: None, loudness_normalization: None }
    }
}

impl AudioFilterConfig {
    /// The filter that changes the loudness, where it is asked for.
    pub open spec fn loudness_filters(self) -> Seq<Seq<char>> {
        match self.loudness_normalization {
            Some(normalization) => seq![normalization.description()],
            None => seq![],
        }
    }

    /// The filters, in the order in which samples go through them.
    pub open spec fn filters(self) -> Seq<Seq<char>> {
        self.loudness_filters() + setting("aresample"@, decimal_of(self.sample_rate))
    }

    /// The description of the filters; that of the filter that does nothing, where there are none.
    pub open spec fn description(self) -> Seq<char> {
        if self.filters().len() > 0 {
            joined(self.filters(), ","@)
        } else {
            "anull"@
        }
    }

    /// The description of the filters.
    pub fn to_string(&self) -> (r: String)
        ensures
            r@ == self.description(),
    {
        let mut filters: Vec<String> = Vec::new();
        if let Some(normalization) = &self.loudness_normalization {
            filters.push(normalization.to_string());
        }
        assert(views(filters@) =~= self.loudness_filters());
        push_number(&mut filters, "aresample", self.sample_rate);
        assert(views(filters@) =~= self.filters());
        assert(self.filters().len() == filters@.len());
        if filters.len() > 0 {
            join(&filters, ",")
        } else {
            "anull".to_owned()
        }
    }

    /// The description of the filters, as it is handed to the graph.
    pub fn to_filter_spec(&self) -> (r: Result<String, InteriorNul>)
        ensures
            made_c_text(self.description(), r),
    {
        c_text(self.to_string())
    }

    /// What is done is what the request asks for.
    pub open spec fn follows(self, request: AudioStreamRequest) -> bool {
        &&& self.sample_rate == match request.sample_rate {
            Some(rate) => Some(rate as usize),
            None => None,
        }
        &&& self.loudness_normalization == request.loudness_normalization
    }

    /// What a request asks for.
    pub fn from_request(request: AudioStreamRequest) -> (r: AudioFilterConfig)
        ensures
            r.follows(request),
    {
        AudioFilterConfig {
            sample_rate: match request.sample_rate {
                Some(rate) => Some(rate as usize),
                None => None,
            },
            loudness_normalization: request.loudness_normalization,
        }
    }

    /// The sample rate of the output, where it is asked for.
    pub fn sample_rate(&self) -> (r: Option<usize>)
        ensures
            r == self.sample_rate,
    {
        self.sample_rate
    }
}

/// What is done to a stream between the decoder and the output.
#[derive(Clone, Debug)]
pub enum FilterConfig {
    Video(VideoFilterConfig),
    Audio(AudioFilterConfig),
}

} // verus!
