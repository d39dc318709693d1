use avtensor::decoder::filter::{
    color_name, AudioFilterConfig, FilterConfig, LoudnessNormalization, SourceColorInfo,
    VideoFilterConfig,
};
use avtensor::decoder::format::PixelFormat;
use avtensor::decoder::frame::{Rational, StreamType};
use avtensor::decoder::graph::{
    buffersrc_pix_fmt, check_scaled_rows, choose_frame_path, color_details, graph_threads,
    graph_type, is_eligible, is_hw_decoder, rgb_stride, sink_sample_rate, uses_bt709,
    AudioInput, ColorDetails, ColorRange, ColorSpace, ConversionMatrix, MediaType, PixelCodes,
    RowMismatch, VideoInput,
};
use avtensor::decoder::request::{
    AudioStreamRequest, FrameRate, HdrMode, OutputDtype, VideoStreamRequest,
};
use avtensor::decoder::stream::FramePath;
use avtensor::double::Double;
use avtensor::text::InteriorNul;

fn rate(value: f64) -> FrameRate {
    FrameRate { value: Double::from_bits(value.to_bits()), text: format!("{value}") }
}

fn number(value: f32) -> Option<String> {
    Some(format!("{value}"))
}

const TONE_MAPPED: &str = "zscale=t=linear:npl=100,format=gbrpf32le,tonemap=hable:desat=0,zscale=p=bt709:t=bt709:m=bt709:range=tv,format=pix_fmts=rgb24";

fn hdr(trc: &str) -> SourceColorInfo {
    SourceColorInfo {
        color_trc: Some(trc.to_string()),
        color_primaries: Some("bt2020".to_string()),
        colorspace: Some("bt2020nc".to_string()),
        color_range: Some("tv".to_string()),
    }
}

#[test]
fn test_video_filter_display() {
    let cases = [
        (
            VideoFilterConfig {
                frame_rate: Some(rate(30.0)),
                width: Some(640),
                height: Some(480),
                pixel_format: "rgb24".to_string(),
                device: None,
                ..Default::default()
            },
            "fps=30,scale=width=640:height=480,format=pix_fmts=rgb24",
        ),
        (
            VideoFilterConfig {
                pixel_format: "rgb24".to_string(),
                device: None,
                ..Default::default()
            },
            "format=pix_fmts=rgb24",
        ),
        (
            VideoFilterConfig {
                pixel_format: "rgb24".to_string(),
                device: None,
                source_color: SourceColorInfo {
                    color_trc: Some("bt709".to_string()),
                    color_primaries: Some("bt709".to_string()),
                    colorspace: Some("bt709".to_string()),
                    color_range: Some("tv".to_string()),
                },
                ..Default::default()
            },
            "format=pix_fmts=rgb24",
        ),
        (
            VideoFilterConfig {
                pixel_format: "rgb24".to_string(),
                device: None,
                source_color: hdr("arib-std-b67"),
                ..Default::default()
            },
            TONE_MAPPED,
        ),
        (
            VideoFilterConfig {
                pixel_format: "rgb24".to_string(),
                device: None,
                source_color: hdr("smpte2084"),
                ..Default::default()
            },
            TONE_MAPPED,
        ),
        (
            VideoFilterConfig {
                frame_rate: Some(rate(24.0)),
                width: Some(1920),
                height: Some(1080),
                pixel_format: "rgb24".to_string(),
                device: None,
                source_color: SourceColorInfo {
                    color_trc: Some("arib-std-b67".to_string()),
                    color_primaries: Some("bt2020".to_string()),
                    ..Default::default()
                },
                hdr_mode: HdrMode::Tonemap,
            },
            "fps=24,scale=width=1920:height=1080,zscale=t=linear:npl=100,format=gbrpf32le,tonemap=hable:desat=0,zscale=p=bt709:t=bt709:m=bt709:range=tv,format=pix_fmts=rgb24",
        ),
    ];
    for (filter, expected) in cases {
        assert_eq!(filter.to_string(), expected);
        assert_eq!(filter.pix_fmt(), Some(PixelFormat::Rgb24));
        assert_eq!(filter.to_filter_spec().unwrap(), expected);
    }
}

#[test]
fn test_audio_filter_display() {
    let cases = [
        (
            AudioFilterConfig { sample_rate: Some(44100), loudness_normalization: None },
            "aresample=44100",
        ),
        (
            AudioFilterConfig {
                sample_rate: Some(44100),
                loudness_normalization: Some(LoudnessNormalization {
                    integrated_loudness_target: number(-18.0),
                    loudness_range_target: number(7.0),
                    true_peak_level_target: number(-1.0),
                    measured_integrated_loudness: None,
                    measured_loudness_range: None,
                    measured_true_peak_level: None,
                    measured_threshold: None,
                    offset_gain: None,
                    linear: None,
                    dual_mono: None,
                }),
            },
            "loudnorm=I=-18:LRA=7:TP=-1,aresample=44100",
        ),
        (AudioFilterConfig::default(), "anull"),
    ];
    for (filter, expected) in cases {
        assert_eq!(filter.to_string(), expected);
        assert_eq!(filter.to_filter_spec().unwrap(), expected);
    }
}

#[test]
fn test_loudness_normalization() {
    let norm = LoudnessNormalization {
        integrated_loudness_target: number(-23.0),
        loudness_range_target: number(5.0),
        true_peak_level_target: number(-2.0),
        measured_integrated_loudness: number(-30.0),
        measured_loudness_range: number(10.0),
        measured_true_peak_level: number(-2.0),
        measured_threshold: number(-40.0),
        offset_gain: number(0.0),
        linear: Some(true),
        dual_mono: Some(true),
    };

    assert_eq!(norm.to_string(), "loudnorm=I=-23:LRA=5:TP=-2:measured_I=-30:measured_LRA=10:measured_TP=-2:measured_thresh=-40:offset=0:linear=true:dual_mono=true");
}

#[test]
fn default_loudness_is_that_of_the_filter() {
    let defaults = LoudnessNormalization::default();
    assert_eq!(defaults.integrated_loudness_target, number(-24.0));
    assert_eq!(defaults.loudness_range_target, number(7.0));
    assert_eq!(defaults.true_peak_level_target, number(-2.0));
    assert_eq!(defaults.offset_gain, number(0.0));
    assert_eq!(
        defaults.to_string(),
        "loudnorm=I=-24:LRA=7:TP=-2:offset=0:linear=true:dual_mono=false"
    );
}

#[test]
fn test_source_color_info_is_hdr() {
    // HLG + BT.2020 → HDR
    assert!(SourceColorInfo {
        color_trc: Some("arib-std-b67".to_string()),
        color_primaries: Some("bt2020".to_string()),
        ..Default::default()
    }
    .is_hdr());

    // PQ + BT.2020 → HDR
    assert!(SourceColorInfo {
        color_trc: Some("smpte2084".to_string()),
        color_primaries: Some("bt2020".to_string()),
        ..Default::default()
    }
    .is_hdr());

    // Wide gamut alone → HDR
    assert!(SourceColorInfo {
        color_primaries: Some("bt2020".to_string()),
        ..Default::default()
    }
    .is_hdr());

    // BT.709 → not HDR
    assert!(!SourceColorInfo {
        color_trc: Some("bt709".to_string()),
        color_primaries: Some("bt709".to_string()),
        ..Default::default()
    }
    .is_hdr());

    // Unspecified → not HDR
    assert!(!SourceColorInfo::default().is_hdr());
}

#[test]
fn unknown_colour_names_are_dropped() {
    assert_eq!(color_name(None), None);
    assert_eq!(color_name(Some("unknown".to_string())), None);
    assert_eq!(color_name(Some("unspecified".to_string())), None);
    assert_eq!(color_name(Some("bt709".to_string())), Some("bt709".to_string()));
    let info = SourceColorInfo::from_names(
        Some("bt2020nc".to_string()),
        Some("unknown".to_string()),
        None,
        Some("smpte2084".to_string()),
    );
    assert_eq!(info.colorspace.as_deref(), Some("bt2020nc"));
    assert_eq!(info.color_range, None);
    assert!(info.is_hdr());
}

#[test]
fn raw_code_values_are_not_tone_mapped() {
    let raw = VideoFilterConfig {
        source_color: hdr("smpte2084"),
        hdr_mode: HdrMode::Raw,
        ..Default::default()
    };
    assert_eq!(raw.to_string(), "format=pix_fmts=rgb24");
    assert!(is_eligible(&raw, 1920, true));
}

#[test]
fn scaling_needs_only_one_side() {
    let tall = VideoFilterConfig { height: Some(720), ..Default::default() };
    assert_eq!(tall.to_string(), "scale=height=720,format=pix_fmts=rgb24");
    let wide = VideoFilterConfig { width: Some(0), ..Default::default() };
    assert_eq!(wide.to_string(), "scale=width=0,format=pix_fmts=rgb24");
}

#[test]
fn filters_are_made_of_requests() {
    let request = VideoStreamRequest {
        width: Some(320),
        frame_rate: Some(rate(29.97)),
        device: Some(2),
        dtype: OutputDtype::Float32,
        hdr_mode: HdrMode::Raw,
        ..Default::default()
    };
    let config = VideoFilterConfig::from_request(&request);
    assert_eq!(config.to_string(), "fps=29.97,scale=width=320,format=pix_fmts=gbrpf32le");
    assert_eq!(config.pix_fmt(), Some(PixelFormat::Gbrpf32le));
    assert_eq!(config.device, Some(2));
    assert_eq!(config.hdr_mode, HdrMode::Raw);
    let planar = VideoFilterConfig { pixel_format: "yuv420p".to_string(), ..Default::default() };
    assert_eq!(planar.pix_fmt(), Some(PixelFormat::Yuv420p));
    let other = VideoFilterConfig { pixel_format: "gray".to_string(), ..Default::default() };
    assert_eq!(other.pix_fmt(), None);
    let audio = AudioFilterConfig::from_request(AudioStreamRequest {
        sample_rate: Some(16000),
        ..Default::default()
    });
    assert_eq!(audio.sample_rate(), Some(16000));
    let broken = VideoFilterConfig { pixel_format: "rgb\0".to_string(), ..Default::default() };
    assert_eq!(
        broken.to_filter_spec(),
        Err(InteriorNul { at: "format=pix_fmts=rgb".len() })
    );
    // The place is counted in bytes.
    let broken = AudioFilterConfig {
        sample_rate: Some(8000),
        loudness_normalization: Some(LoudnessNormalization {
            integrated_loudness_target: Some("\u{e9}\0".to_string()),
            loudness_range_target: None,
            true_peak_level_target: None,
            measured_integrated_loudness: None,
            measured_loudness_range: None,
            measured_true_peak_level: None,
            measured_threshold: None,
            offset_gain: None,
            linear: None,
            dual_mono: None,
        }),
    };
    assert_eq!(
        broken.to_filter_spec(),
        Err(InteriorNul { at: "loudnorm=I=".len() + 2 })
    );
}

#[test]
fn graphs_are_fed_as_the_decoder_says() {
    let mut input = VideoInput {
        width: 1920,
        height: 1080,
        pix_fmt: 23,
        time_base: Rational { num: 1, den: 12800 },
        pixel_aspect: Rational { num: 0, den: 1 },
        colorspace: None,
        color_range: None,
    };
    assert_eq!(
        input.buffersrc_args(),
        "video_size=1920x1080:pix_fmt=23:time_base=1/12800:pixel_aspect=0/1"
    );
    input.colorspace = Some("bt709".to_string());
    input.color_range = Some("tv".to_string());
    input.pix_fmt = -1;
    assert_eq!(
        input.buffersrc_args(),
        "video_size=1920x1080:pix_fmt=-1:time_base=1/12800:pixel_aspect=0/1:colorspace=bt709:range=tv"
    );
    let audio = AudioInput {
        time_base: Rational { num: 1, den: 48000 },
        sample_rate: 48000,
        sample_format: "fltp".to_string(),
        channel_layout: "stereo".to_string(),
    };
    assert_eq!(
        audio.buffersrc_args(),
        "time_base=1/48000:sample_rate=48000:sample_fmt=fltp:channel_layout=stereo"
    );
}

#[test]
fn frames_from_the_gpu_reach_the_graph_in_software_formats() {
    let codes = PixelCodes { none: -1, cuda: 117, nv12: 23 };
    assert_eq!(buffersrc_pix_fmt(0, -1, &codes), 0);
    assert_eq!(buffersrc_pix_fmt(117, 158, &codes), 158);
    assert_eq!(buffersrc_pix_fmt(117, -1, &codes), 23);
}

#[test]
fn graph_settings() {
    assert_eq!(graph_threads(None), 16);
    assert_eq!(graph_threads(Some(4)), 4);
    assert_eq!(graph_threads(Some(128)), 16);
    assert_eq!(sink_sample_rate(None, 48000), 48000);
    assert_eq!(sink_sample_rate(Some(16000), 48000), 16000);
    let video = FilterConfig::Video(VideoFilterConfig::default());
    let audio = FilterConfig::Audio(AudioFilterConfig::default());
    assert_eq!(graph_type(MediaType::Video, &video), Some(StreamType::Video));
    assert_eq!(graph_type(MediaType::Audio, &audio), Some(StreamType::Audio));
    assert_eq!(graph_type(MediaType::Audio, &video), None);
    assert_eq!(graph_type(MediaType::Other, &audio), None);
    assert!(is_hw_decoder(Some("hevc_cuvid")));
    assert!(!is_hw_decoder(Some("hevc")));
    assert!(!is_hw_decoder(Some("cuvid")));
    assert!(!is_hw_decoder(None));
}

#[test]
fn paths_past_the_graph() {
    let shape = vec![10, 1080, 1920, 3];
    let plain = FilterConfig::Video(VideoFilterConfig::default());
    let direct = FramePath::VideoScale { dst_width: 1920, dst_height: 1080 };
    assert_eq!(choose_frame_path(&plain, &shape, false, true), direct);
    assert_eq!(choose_frame_path(&plain, &shape, true, true), FramePath::Graph);
    assert_eq!(choose_frame_path(&plain, &shape, false, false), FramePath::Graph);
    assert!(is_eligible(&VideoFilterConfig::default(), -64, true));
    assert!(!is_eligible(&VideoFilterConfig::default(), -63, true));
    // Rows of 1000 pixels are not a multiple of 32.
    assert_eq!(
        choose_frame_path(&plain, &vec![10, 1080, 1000, 3], false, true),
        FramePath::Graph
    );
    let tone_mapped = FilterConfig::Video(VideoFilterConfig {
        source_color: hdr("smpte2084"),
        ..Default::default()
    });
    assert_eq!(choose_frame_path(&tone_mapped, &shape, false, true), FramePath::Graph);
    let resized = FilterConfig::Video(VideoFilterConfig {
        width: Some(1920),
        ..Default::default()
    });
    assert_eq!(choose_frame_path(&resized, &shape, false, true), FramePath::Graph);
    // The GPU's path does not depend on whether direct paths are enabled.
    let on_gpu = FilterConfig::Video(VideoFilterConfig { device: Some(3), ..Default::default() });
    assert_eq!(
        choose_frame_path(&on_gpu, &shape, true, false),
        FramePath::CudaConvert { device: 3, dst_width: 1920, dst_height: 1080 }
    );
    let audio_shape = vec![2, 16000];
    let audio = FilterConfig::Audio(AudioFilterConfig::default());
    assert_eq!(
        choose_frame_path(&audio, &audio_shape, false, true),
        FramePath::AudioPassthrough
    );
    assert_eq!(choose_frame_path(&audio, &audio_shape, false, false), FramePath::Graph);
    let resampled = FilterConfig::Audio(AudioFilterConfig {
        sample_rate: Some(16000),
        loudness_normalization: None,
    });
    assert_eq!(choose_frame_path(&resampled, &audio_shape, false, true), FramePath::Graph);
}

#[test]
fn conversions_follow_the_tags() {
    assert_eq!(color_details(ColorSpace::Unspecified, ColorRange::Unspecified), None);
    let details = |space: ColorSpace, range: ColorRange| color_details(space, range).unwrap();
    assert_eq!(
        details(ColorSpace::Bt709, ColorRange::Other),
        ColorDetails { matrix: ConversionMatrix::Itu709, src_range: 0 }
    );
    assert_eq!(
        details(ColorSpace::Unspecified, ColorRange::Jpeg),
        ColorDetails { matrix: ConversionMatrix::Default, src_range: 1 }
    );
    for (space, matrix) in [
        (ColorSpace::Smpte170m, ConversionMatrix::Itu601),
        (ColorSpace::Bt470bg, ConversionMatrix::Itu601),
        (ColorSpace::Smpte240m, ConversionMatrix::Smpte240m),
        (ColorSpace::Bt2020Ncl, ConversionMatrix::Bt2020),
        (ColorSpace::Other, ConversionMatrix::Default),
    ] {
        assert_eq!(details(space, ColorRange::Unspecified).matrix, matrix);
    }
    assert!(uses_bt709(ColorSpace::Bt709));
    assert!(!uses_bt709(ColorSpace::Unspecified));
    assert!(!uses_bt709(ColorSpace::Smpte170m));
    assert_eq!(rgb_stride(640), 1920);
    assert_eq!(check_scaled_rows(480, 480), Ok(()));
    assert_eq!(
        check_scaled_rows(479, 480),
        Err(RowMismatch { scaled: 479, expected: 480 })
    );
}
