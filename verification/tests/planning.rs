use avtensor::decoder::frame::{Rational, Seek};
use avtensor::decoder::plan::{
    asset_duration, audio_index, check_output_tensor_size, choose_decoder, compute_hw_resize,
    plan_audio_output, plan_audio_timing, plan_video_decoder, plan_video_output,
    plan_video_timing, video_index, AudioPlanError, AudioTiming, DecoderOptions, DurationError,
    FrameRateSource, RangeLengths, TensorSizeError, VideoLength, VideoPlanError, VideoTiming,
    VideoTimingError, AV_NOPTS_VALUE,
};
use avtensor::decoder::request::{
    AudioStreamRequest, FrameRate, OutputDtype, VideoStreamRequest,
};
use avtensor::double::Double;

fn double(value: f64) -> Double {
    Double::from_bits(value.to_bits())
}

fn value(double: Double) -> f64 {
    f64::from_bits(double.bits)
}

fn rate(value: f64) -> FrameRate {
    FrameRate { value: double(value), text: format!("{value}") }
}

/// The duration of a range of a stream, with the differences computed as a caller does.
fn duration(
    stream: f64,
    start_time: Option<f64>,
    end_time: Option<f64>,
) -> Result<f64, DurationError> {
    let start = start_time.unwrap_or(0.0);
    asset_duration(
        &double(stream),
        &Seek { start_time: start_time.map(double), end_time: end_time.map(double) },
        &RangeLengths {
            range: double(end_time.unwrap_or(0.0) - start),
            rest: double(stream - start),
        },
    )
    .map(value)
}

#[test]
fn test_compute_hw_resize() {
    let req = |w: Option<u32>, h: Option<u32>| VideoStreamRequest {
        width: w,
        height: h,
        ..Default::default()
    };
    // No size requested -> no GPU resize.
    assert_eq!(compute_hw_resize(1920, 1080, &req(None, None)), None);
    // Both dimensions given.
    assert_eq!(
        compute_hw_resize(1920, 1080, &req(Some(512), Some(288))),
        Some((512, 288))
    );
    // Aspect-preserving when only one dimension is given.
    assert_eq!(
        compute_hw_resize(1920, 1080, &req(Some(640), None)),
        Some((640, 360))
    );
    assert_eq!(
        compute_hw_resize(1920, 1080, &req(None, Some(360))),
        Some((640, 360))
    );
    // Odd dimensions round down to even (NVDEC requirement); the filter
    // graph still produces the exact requested size afterwards.
    assert_eq!(
        compute_hw_resize(1920, 1080, &req(Some(511), Some(287))),
        Some((510, 286))
    );
    // Upscaling is left to the filter graph.
    assert_eq!(
        compute_hw_resize(640, 480, &req(Some(1280), Some(960))),
        None
    );
}

#[test]
fn resizing_edge_cases() {
    let req = |w: Option<u32>, h: Option<u32>| VideoStreamRequest {
        width: w,
        height: h,
        ..Default::default()
    };
    assert_eq!(compute_hw_resize(0, 1080, &req(Some(2), Some(2))), None);
    assert_eq!(compute_hw_resize(1920, -1, &req(Some(2), Some(2))), None);
    assert_eq!(compute_hw_resize(1920, 1080, &req(Some(0), Some(1))), Some((2, 2)));
    assert_eq!(compute_hw_resize(1920, 1080, &req(Some(u32::MAX), None)), None);
    assert_eq!(compute_hw_resize(i32::MAX, i32::MAX, &req(Some(u32::MAX), None)), None);
    // Only one side gets smaller.
    assert_eq!(compute_hw_resize(1920, 1080, &req(Some(640), Some(1080))), None);
    // 100 * 500 / 333 is 150.15, which rounds to 150.
    assert_eq!(compute_hw_resize(333, 500, &req(Some(100), None)), Some((100, 150)));
}

#[test]
fn test_device_with_hardware_acceleration_false_is_rejected() {
    let request = VideoStreamRequest {
        hardware_acceleration: Some(false),
        device: Some(0),
        ..Default::default()
    };
    let err = match choose_decoder(&request, "h264") {
        Ok(_) => panic!("expected the contradiction to be rejected"),
        Err(err) => err,
    };
    assert!(
        err.message().contains("cannot be combined with hardware_acceleration=false"),
        "unexpected error: {err:?}"
    );
}

#[test]
fn hardware_decoders_are_named_after_the_usual_ones() {
    let choose = |hardware_acceleration: Option<bool>, device: Option<i32>| {
        let request = VideoStreamRequest { hardware_acceleration, device, ..Default::default() };
        let choice = choose_decoder(&request, "h264").unwrap();
        (choice.hardware, choice.name)
    };
    assert_eq!(choose(None, None), (false, None));
    assert_eq!(choose(Some(false), None), (false, None));
    assert_eq!(choose(Some(true), None), (true, Some("h264_cuvid".to_string())));
    assert_eq!(choose(None, Some(1)), (true, Some("h264_cuvid".to_string())));
}

#[test]
fn frames_on_the_gpu_need_what_its_decoder_can_do() {
    let on_gpu = VideoStreamRequest { device: Some(0), ..Default::default() };
    let check_device = |request: &VideoStreamRequest, width: i32, height: i32| {
        plan_video_decoder(request, true, width, height).map(|_| ())
    };
    assert_eq!(check_device(&VideoStreamRequest::default(), 0, 0), Ok(()));
    assert_eq!(check_device(&on_gpu, 1920, 1080), Ok(()));
    assert_eq!(
        check_device(
            &VideoStreamRequest { frame_rate: Some(rate(30.0)), ..on_gpu.clone() },
            1920,
            1080
        ),
        Err(VideoPlanError::DeviceWithFrameRate)
    );
    assert_eq!(
        check_device(
            &VideoStreamRequest { dtype: OutputDtype::Float32, ..on_gpu.clone() },
            1920,
            1080
        ),
        Err(VideoPlanError::DeviceWithDtype)
    );
    let sized = |width: Option<u32>, height: Option<u32>| {
        check_device(
            &VideoStreamRequest { width, height, ..on_gpu.clone() },
            1920,
            1080,
        )
    };
    assert_eq!(sized(Some(640), Some(360)), Ok(()));
    assert_eq!(sized(Some(640), None), Err(VideoPlanError::DeviceWithOneSide));
    assert_eq!(
        sized(Some(641), Some(360)),
        Err(VideoPlanError::DeviceWithOddSize { width: 641, height: 360 })
    );
    assert_eq!(
        sized(Some(1920), Some(1080)),
        Err(VideoPlanError::DeviceWithoutDownscale {
            src_width: 1920,
            src_height: 1080,
            width: 1920,
            height: 1080
        })
    );
    assert_eq!(sized(Some(0), Some(0)).unwrap_err().message(),
        "device=\"cuda\" only supports strict downscaling on NVDEC (1920x1080 -> 0x0 is not)");
    assert_eq!(sized(Some(641), Some(360)).unwrap_err().message(),
        "device=\"cuda\" resizing requires even dimensions, got 641x360");
}

#[test]
fn errors_have_words() {
    let named = VideoStreamRequest { index: Some(7), ..Default::default() };
    assert_eq!(video_index(&named), Ok(7));
    assert_eq!(video_index(&VideoStreamRequest::default()), Err(VideoPlanError::NoIndex));
    let named = AudioStreamRequest { index: Some(8), ..Default::default() };
    assert_eq!(audio_index(&named), Ok(8));
    assert_eq!(audio_index(&AudioStreamRequest::default()), Err(AudioPlanError::NoIndex));
    assert_eq!(VideoPlanError::NoIndex.message(), "No video stream index specified");
    assert_eq!(
        VideoPlanError::DeviceWithOneSide.message(),
        "device=\"cuda\" requires both width and height (or neither)"
    );
    assert_eq!(
        VideoPlanError::DeviceWithFrameRate.message(),
        "device=\"cuda\" does not support fps resampling (frames never reach the CPU filter graph)"
    );
    assert_eq!(
        VideoPlanError::DeviceWithDtype.message(),
        "device=\"cuda\" currently supports only the uint8 dtype"
    );
}

#[test]
fn decoders_are_opened_with_their_options() {
    let request = VideoStreamRequest {
        width: Some(640),
        height: Some(360),
        number_of_threads: Some(12),
        device: Some(3),
        ..Default::default()
    };
    let decoder_options =
        |request: &VideoStreamRequest, hardware: bool, width: i32, height: i32| -> DecoderOptions {
            plan_video_decoder(request, hardware, width, height).unwrap()
        };
    let options = decoder_options(&request, true, 1920, 1080);
    assert_eq!(options.threads, "12");
    assert_eq!(options.resize, Some((640, 360)));
    assert_eq!(options.resize_option.as_deref(), Some("640x360"));
    assert_eq!(options.device_name.as_deref(), Some("3"));
    let options = decoder_options(&request, false, 1920, 1080);
    assert_eq!((options.resize, options.resize_option), (None, None));
    let options = decoder_options(&VideoStreamRequest::default(), true, 1920, 1080);
    assert_eq!(options.threads, "1");
    assert_eq!(options.device_name, None);
}

#[test]
fn output_sizes_are_bounded() {
    assert_eq!(check_output_tensor_size(&[10, 1080, 1920, 3], 1), Ok(()));
    assert_eq!(check_output_tensor_size(&[], 4), Ok(()));
    assert_eq!(check_output_tensor_size(&[0, 5], 4), Ok(()));
    // 16 GiB exactly, and a byte more.
    assert_eq!(check_output_tensor_size(&[16, 1 << 30], 1), Ok(()));
    assert_eq!(
        check_output_tensor_size(&[(16 << 30) + 1], 1),
        Err(TensorSizeError::TooLarge((16 << 30) + 1))
    );
    assert_eq!(
        check_output_tensor_size(&[4, 1 << 30], 8),
        Err(TensorSizeError::TooLarge(32 << 30))
    );
    assert_eq!(
        check_output_tensor_size(&[5, -1], 1),
        Err(TensorSizeError::NegativeDimension)
    );
    assert_eq!(
        check_output_tensor_size(&[i64::MAX, i64::MAX, i64::MAX], 4),
        Err(TensorSizeError::Overflow)
    );
    // The dimensions are gone through in their order.
    assert_eq!(
        check_output_tensor_size(&[i64::MAX, i64::MAX, i64::MAX, -1], 4),
        Err(TensorSizeError::Overflow)
    );
    assert_eq!(
        check_output_tensor_size(&[i64::MAX, i64::MAX, i64::MAX, 0], 4),
        Err(TensorSizeError::Overflow)
    );
    assert_eq!(
        check_output_tensor_size(&[0, i64::MAX, i64::MAX, i64::MAX], 4),
        Ok(())
    );
}

#[test]
fn video_outputs_have_the_layout_of_their_element_type() {
    let request = VideoStreamRequest { width: Some(320), ..Default::default() };
    let plan = plan_video_output(&request, 1920, 1080, 7).unwrap();
    assert_eq!(plan.shape, [7, 1080, 320, 3]);
    assert_eq!(plan.element_size, 1);
    assert_eq!(plan.device, None);
    let floats = VideoStreamRequest {
        dtype: OutputDtype::Float32,
        height: Some(240),
        ..Default::default()
    };
    let plan = plan_video_output(&floats, 1920, 1080, 7).unwrap();
    assert_eq!(plan.shape, [7, 3, 240, 1920]);
    assert_eq!(plan.element_size, 4);
    assert_eq!(
        plan_video_output(&floats, 1920, 1080, -1).unwrap_err(),
        TensorSizeError::NegativeDimension
    );
}

#[test]
fn frame_rates_come_from_the_best_source() {
    let container = Rational { num: 30000, den: 1001 };
    let nothing = Rational { num: 0, den: 1 };
    let whole = Seek { start_time: None, end_time: None };
    let lengths = RangeLengths { range: double(0.0), rest: double(10.0) };
    let timing = |asked: &Option<FrameRate>, rate: Rational, nb_frames: i64, duration: i64| {
        let length = VideoLength { duration, seconds: double(10.0), nb_frames, rate };
        plan_video_timing(asked, &length, &whole, &lengths)
    };
    let timed = |rate: FrameRateSource| Ok(VideoTiming::Timed { seconds: double(10.0), rate });
    assert_eq!(
        timing(&Some(rate(24.0)), container, 10, 10),
        timed(FrameRateSource::Requested(double(24.0)))
    );
    assert_eq!(
        timing(&None, container, 10, 10),
        timed(FrameRateSource::Container(container))
    );
    assert_eq!(
        timing(&None, nothing, 50, 2000),
        timed(FrameRateSource::Counted { frames: 50, duration: 2000 })
    );
    assert_eq!(timing(&None, nothing, 0, 2000), Err(VideoTimingError::NoFrameRate));
    assert_eq!(timing(&None, nothing, 50, 0), Err(VideoTimingError::NoFrameRate));
    // 0/2 is not 0/1.
    let odd = Rational { num: 0, den: 2 };
    assert_eq!(timing(&None, odd, 0, 0), timed(FrameRateSource::Container(odd)));
    // A video that does not say how long it is is an image, whatever else is wrong.
    assert_eq!(
        timing(&None, nothing, 0, AV_NOPTS_VALUE),
        Ok(VideoTiming::StillImage { frames: 1, rate: double(1.0) })
    );
    // A range that is wrong is told before a rate that is missing.
    let late = Seek { start_time: Some(double(15.0)), end_time: None };
    let length =
        VideoLength { duration: 5, seconds: double(10.0), nb_frames: 0, rate: nothing };
    assert!(matches!(
        plan_video_timing(&None, &length, &late, &lengths),
        Err(VideoTimingError::Duration(DurationError::StartBeyondStream { .. }))
    ));
}

#[test]
fn test_asset_duration() {
    for (stream_duration, start_time, end_time, expected) in [
        (10.0, None, None, 10.0),
        (10.0, None, Some(5.0), 5.0),
        (10.0, Some(2.0), Some(5.0), 3.0),
        (10.0, Some(2.0), None, 8.0),
    ] {
        let asset_duration = duration(stream_duration, start_time, end_time).unwrap();
        let delta = (asset_duration - expected).abs();
        assert!(
            delta < 0.001,
            "Expected duration: {}, got: {}",
            expected,
            asset_duration
        );
    }
}

#[test]
fn test_asset_duration_edge_cases() {
    assert!(duration(10.0, Some(15.0), None).is_err());
    assert!(duration(10.0, Some(15.0), Some(5.0)).is_err());
}

#[test]
fn durations_are_cut_to_the_stream() {
    assert_eq!(duration(10.0, None, Some(50.0)), Ok(10.0));
    assert_eq!(duration(10.0, Some(2.0), Some(50.0)), Ok(10.0));
    assert_eq!(
        duration(10.0, Some(10.0), None),
        Err(DurationError::StartBeyondStream {
            start_time: double(10.0),
            stream_duration: double(10.0)
        })
    );
    assert_eq!(
        duration(10.0, Some(5.0), Some(5.0)),
        Err(DurationError::EndNotAfterStart {
            start_time: double(5.0),
            end_time: double(5.0)
        })
    );
    // What is not a number is neither before nor after anything.
    assert_eq!(duration(10.0, None, Some(f64::NAN)), Ok(10.0));
}

#[test]
fn audio_outputs_need_a_sensible_length() {
    let whole = Seek { start_time: None, end_time: None };
    let lengths = RangeLengths { range: double(0.0), rest: double(0.0) };
    let timing = |duration: i64, requested: Option<usize>| {
        plan_audio_timing(duration, &double(2.5), &whole, &lengths, requested, 48000)
    };
    assert_eq!(timing(AV_NOPTS_VALUE, None), Err(AudioPlanError::NoDuration));
    assert_eq!(
        timing(0, None),
        Ok(AudioTiming { seconds: double(2.5), sample_rate: 48000 })
    );
    assert_eq!(timing(0, Some(16000)).unwrap().sample_rate, 16000);
    assert_eq!(timing(0, Some(3_000_000_000)).unwrap().sample_rate, 3_000_000_000u32 as i32);
    let late = Seek { start_time: Some(double(2.5)), end_time: None };
    assert!(matches!(
        plan_audio_timing(7, &double(2.5), &late, &lengths, None, 48000),
        Err(AudioPlanError::Duration(_))
    ));
    assert_eq!(plan_audio_output(2, &double(16000.0), 16000), Ok(vec![2, 16000]));
    for wrong in [-1.0, f64::NAN, f64::INFINITY] {
        assert_eq!(
            plan_audio_output(2, &double(wrong), 0),
            Err(AudioPlanError::InvalidSampleCount(double(wrong)))
        );
    }
    assert_eq!(plan_audio_output(2, &double(-0.0), 0), Ok(vec![2, 0]));
    assert_eq!(
        plan_audio_output(2, &double(1e12), 1_000_000_000_000),
        Err(AudioPlanError::Size(TensorSizeError::TooLarge(8_000_000_000_000)))
    );
    assert_eq!(
        plan_audio_output(-1, &double(1.0), 1),
        Err(AudioPlanError::Size(TensorSizeError::NegativeDimension))
    );
}

#[test]
fn doubles_compare_like_the_hardware_ones() {
    let samples = [
        0.0, -0.0, 1.0, -1.0, 0.5, 1e-310, -1e-310, 1e300, f64::MIN_POSITIVE,
        f64::INFINITY, f64::NEG_INFINITY, f64::NAN, -f64::NAN, 29.97, 30.0,
    ];
    for a in samples {
        for b in samples {
            assert_eq!(double(a).lt(&double(b)), a < b, "{a} < {b}");
            assert_eq!(double(a).le(&double(b)), a <= b, "{a} <= {b}");
            let least = value(double(a).min(&double(b)));
            assert!(least == a.min(b) || (least.is_nan() && a.min(b).is_nan()));
        }
        assert_eq!(double(a).is_finite(), a.is_finite());
        assert_eq!(double(a).is_negative(), a < 0.0);
    }
}
