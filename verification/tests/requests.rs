use avtensor::decoder::graph::MediaType;
use avtensor::decoder::probe::{probe_media, StreamDescription};
use avtensor::decoder::request::{
    first_stream, select_audio_streams, select_video_stream, streams_to_decode,
    AudioStreamRequest, HdrMode, OutputDtype, RequestError, SelectError, StreamRequest,
    VideoStreamRequest,
};
use avtensor::double::Double;
use avtensor::ffi;
use avtensor::text::{decimal_text, join, parse_i32, parse_unsigned, signed_decimal_text};

fn words() -> ffi::VideoStreamRequest {
    ffi::VideoStreamRequest {
        index: None,
        width: None,
        height: None,
        fps: None,
        number_of_threads: None,
        hardware_acceleration: None,
        dimension_order: None,
        device: None,
        dtype: None,
        hdr_mode: None,
    }
}

fn stream(media_type: MediaType, width: i32, sample_rate: i32) -> StreamDescription {
    StreamDescription {
        media_type,
        width,
        height: 10,
        fps: Double::from_bits(25.0f64.to_bits()),
        sample_rate,
    }
}

/// An input whose first audio stream is 1 and whose first video stream is 2.
fn input() -> Vec<StreamDescription> {
    vec![
        stream(MediaType::Other, 0, 0),
        stream(MediaType::Audio, 0, 8000),
        stream(MediaType::Video, 64, 0),
        stream(MediaType::Video, 1920, 0),
        stream(MediaType::Audio, 0, 48000),
        stream(MediaType::Audio, 0, 48000),
    ]
}

#[test]
fn the_first_video_stream_is_taken_unless_one_is_named() {
    assert_eq!(first_stream(&input(), MediaType::Video), Some(2));
    assert_eq!(first_stream(&input(), MediaType::Audio), Some(1));
    assert_eq!(first_stream(&vec![], MediaType::Audio), None);
    assert!(matches!(select_video_stream(None, &vec![]), Ok(None)));
    let named = VideoStreamRequest { index: Some(3), width: Some(7), ..Default::default() };
    let selected = select_video_stream(Some(named), &vec![]).unwrap().unwrap();
    assert_eq!((selected.index, selected.width), (Some(3), Some(7)));
    let any = || Some(VideoStreamRequest { width: Some(7), ..Default::default() });
    let selected = select_video_stream(any(), &input()).unwrap().unwrap();
    assert_eq!((selected.index, selected.width), (Some(2), Some(7)));
    let audio_only = vec![stream(MediaType::Audio, 0, 1)];
    assert_eq!(
        select_video_stream(any(), &audio_only).err(),
        Some(SelectError::NoStream)
    );
}

#[test]
fn audio_streams_are_decoded_once() {
    let request = |index: Option<usize>, sample_rate: u32| AudioStreamRequest {
        index,
        sample_rate: Some(sample_rate),
        loudness_normalization: None,
    };
    let requests = vec![
        request(Some(4), 1),
        request(None, 2),
        request(Some(4), 3),
        request(Some(1), 4),
        request(Some(5), 5),
    ];
    let selected = select_audio_streams(Some(requests), &input()).unwrap().unwrap();
    let chosen: Vec<_> = selected.iter().map(|s| (s.index, s.sample_rate)).collect();
    assert_eq!(
        chosen,
        [(Some(4), Some(1)), (Some(1), Some(2)), (Some(5), Some(5))]
    );
    assert!(matches!(select_audio_streams(None, &vec![]), Ok(None)));
    let empty = select_audio_streams(Some(vec![]), &vec![]).unwrap().unwrap();
    assert!(empty.is_empty());
    assert_eq!(
        select_audio_streams(Some(vec![request(Some(0), 1), request(None, 2)]), &vec![]).err(),
        Some(SelectError::NoStream)
    );
}

#[test]
fn the_video_stream_comes_first() {
    let audio = |index: usize| AudioStreamRequest { index: Some(index), ..Default::default() };
    let video = VideoStreamRequest { index: Some(9), ..Default::default() };
    let places = |order: Vec<StreamRequest>| -> Vec<(bool, Option<usize>)> {
        order
            .iter()
            .map(|stream| match stream {
                StreamRequest::Video(request) => (true, request.index),
                StreamRequest::Audio(request) => (false, request.index),
            })
            .collect()
    };
    assert_eq!(
        places(streams_to_decode(Some(video), Some(vec![audio(4), audio(1)]))),
        [(true, Some(9)), (false, Some(4)), (false, Some(1))]
    );
    assert_eq!(places(streams_to_decode(None, Some(vec![audio(4)]))), [(false, Some(4))]);
    assert!(streams_to_decode(None, None).is_empty());
}

#[test]
fn dimension_orders() {
    let order = |word: Option<&str>| {
        ffi::VideoStreamRequest { dimension_order: word.map(str::to_string), ..words() }
            .wants_nhwc()
    };
    assert!(!order(None).unwrap());
    assert!(!order(Some("NCHW")).unwrap());
    assert!(order(Some("NHWC")).unwrap());
    match order(Some("nhwc")) {
        Err(RequestError::DimensionOrder(word)) => assert_eq!(word, "nhwc"),
        _ => panic!("expected the word to be refused"),
    }
}

#[test]
fn devices() {
    let device = |word: &str| {
        ffi::VideoStreamRequest { device: Some(word.to_string()), ..words() }.device_ordinal()
    };
    assert_eq!(words().device_ordinal().unwrap(), None);
    assert_eq!(device("cuda").unwrap(), Some(0));
    assert_eq!(device("cuda:3").unwrap(), Some(3));
    assert_eq!(device("cuda:+3").unwrap(), Some(3));
    assert_eq!(device("cuda:-1").unwrap(), Some(-1));
    for wrong in ["cpu", "cuda:", "cuda:x", "cuda: 1", "CUDA", "cuda:2147483648", ""] {
        match device(wrong) {
            Err(RequestError::Device(word)) => assert_eq!(word, wrong),
            _ => panic!("expected {wrong:?} to be refused"),
        }
    }
}

#[test]
fn requests_in_words_are_understood() {
    let understood = ffi::VideoStreamRequest {
        index: Some(1),
        width: Some(2),
        number_of_threads: Some(3),
        hardware_acceleration: Some(true),
        device: Some("cuda:4".to_string()),
        dtype: Some("float32".to_string()),
        hdr_mode: Some("raw".to_string()),
        ..words()
    }
    .to_decoder_request()
    .unwrap();
    assert_eq!(understood.index, Some(1));
    assert_eq!(understood.width, Some(2));
    assert_eq!(understood.number_of_threads, Some(3));
    assert_eq!(understood.hardware_acceleration, Some(true));
    assert_eq!(understood.device, Some(4));
    assert_eq!(understood.dtype, OutputDtype::Float32);
    assert_eq!(understood.hdr_mode, HdrMode::Raw);
    let defaults = words().to_decoder_request().unwrap();
    assert_eq!(defaults.dtype, OutputDtype::Uint8);
    assert_eq!(defaults.hdr_mode, HdrMode::Tonemap);
    assert_eq!(defaults.device, None);
}

#[test]
fn the_first_wrong_word_is_told() {
    let all_wrong = ffi::VideoStreamRequest {
        device: Some("d".to_string()),
        dtype: Some("t".to_string()),
        hdr_mode: Some("h".to_string()),
        ..words()
    };
    assert!(matches!(
        all_wrong.clone().to_decoder_request(),
        Err(RequestError::Device(_))
    ));
    let two_wrong = ffi::VideoStreamRequest { device: None, ..all_wrong };
    assert!(matches!(
        two_wrong.clone().to_decoder_request(),
        Err(RequestError::Dtype(_))
    ));
    let one_wrong = ffi::VideoStreamRequest { dtype: Some("uint8".to_string()), ..two_wrong };
    assert!(matches!(one_wrong.to_decoder_request(), Err(RequestError::HdrMode(_))));
    assert_eq!(HdrMode::parse(Some("tonemap")).unwrap(), HdrMode::Tonemap);
}

#[test]
fn channels_end_up_where_they_are_asked_for() {
    assert_eq!(ffi::video_permutation(false, false), Some(vec![0, 3, 1, 2]));
    assert_eq!(ffi::video_permutation(true, true), Some(vec![0, 2, 3, 1]));
    assert_eq!(ffi::video_permutation(true, false), None);
    assert_eq!(ffi::video_permutation(false, true), None);
}

#[test]
fn streams_are_probed_by_type() {
    let probed = probe_media(&vec![
        stream(MediaType::Audio, 0, 48000),
        stream(MediaType::Other, 1, 1),
        stream(MediaType::Video, -5, 0),
        stream(MediaType::Audio, 0, -1),
    ]);
    assert_eq!(probed.video_streams.len(), 1);
    assert_eq!(probed.video_streams[0].index, 2);
    assert_eq!(probed.video_streams[0].width, -5);
    let told = probed.video_streams[0].metadata();
    assert_eq!((told.index, told.width, told.height), (2, 0, 10));
    assert_eq!(f64::from_bits(told.fps.bits), 25.0);
    assert_eq!(probed.audio_streams.len(), 2);
    assert_eq!(probed.audio_streams[0].metadata().sample_rate, 48000);
    assert_eq!(probed.audio_streams[1].index, 3);
    assert_eq!(probed.audio_streams[1].metadata().sample_rate, 0);
}

#[test]
fn numbers_are_written_and_read() {
    for n in [0u64, 1, 9, 10, 99, 100, 4294967296, u64::MAX] {
        assert_eq!(decimal_text(n), format!("{n}"));
        assert_eq!(parse_unsigned(&format!("{n}"), u64::MAX), Some(n));
    }
    for n in [0i64, -1, 10, -10, i64::MIN, i64::MAX] {
        assert_eq!(signed_decimal_text(n), format!("{n}"));
    }
    for text in ["0", "-0", "007", "2147483647", "-2147483648", "+5"] {
        assert_eq!(parse_i32(text), text.parse::<i32>().ok());
        assert!(parse_i32(text).is_some());
    }
    for text in ["", "-", "+", "--1", "2147483648", "-2147483649", "1.0", "0x1"] {
        assert_eq!(parse_i32(text), None);
        assert!(text.parse::<i32>().is_err());
    }
    assert_eq!(parse_unsigned("11", 10), None);
    let parts = vec!["a".to_string(), String::new(), "c".to_string()];
    assert_eq!(join(&parts, ", "), "a, , c");
    assert_eq!(join(&vec![], ","), "");
}
