use avtensor::decoder::format::PixelFormat;
use avtensor::decoder::frame::{filter_frames_seek, Frame, Rational, Seek, StreamType};
use avtensor::decoder::session::{
    DecodeSession, FilledOutput, SessionAction, SessionEvent, StreamMetadata,
};
use avtensor::decoder::slots::{filled_dim, output_capacity, OutputSlots, Slot};
use avtensor::decoder::stream::{
    Action, Event, Fault, FrameInfo, FramePath, StreamDecoder,
};
use avtensor::double::Double;
use avtensor::ffi::frames_data;

fn double(value: f64) -> Double {
    Double::from_bits(value.to_bits())
}

fn seek(start: Option<f64>, end: Option<f64>) -> Seek {
    Seek { start_time: start.map(double), end_time: end.map(double) }
}

const WHOLE: Seek = Seek { start_time: None, end_time: None };

fn info(seconds: f64) -> FrameInfo {
    FrameInfo {
        pixel_format: PixelFormat::Rgb24,
        width: 64,
        height: 48,
        pitch: 64,
        chroma_pitch: 64,
        sample_rate: 48000,
        nb_samples: 1024,
        pts: (seconds * 1000.0) as i64,
        best_effort_timestamp: (seconds * 1000.0) as i64,
        time_base: Rational { num: 1, den: 1000 },
        pts_seconds: double(seconds),
    }
}

fn video<D>(pts: i64, seconds: f64, data: D) -> Frame<D> {
    Frame::Video {
        width: 320,
        height: 240,
        pts,
        best_effort_timestamp: pts,
        data,
        time_base: Rational { num: 0, den: 1 },
        pts_seconds: double(seconds),
    }
}

fn audio<D>(pts: i64, data: D) -> Frame<D> {
    Frame::Audio {
        sample_rate: 48000,
        nb_samples: 4,
        pts,
        best_effort_timestamp: pts,
        time_base: Rational { num: 1, den: 48000 },
        data,
        pts_seconds: double(pts as f64 / 48000.0),
    }
}

#[test]
fn test_partial_eq_frame() {
    let data = || vec![0u8; 320 * 240 * 3];
    let video_frame = video(1, 0.0, data());
    let identical_video_frame = video(1, 0.0, data());
    let different_frame = video(2, 0.0, data());

    assert_eq!(video_frame, identical_video_frame);
    assert_ne!(video_frame, different_frame);
}

#[test]
fn frames_differ_by_kind_and_data() {
    assert_ne!(video(1, 0.0, 7), video(1, 0.0, 8));
    assert_ne!(video(1, 0.0, 7), audio(1, 7));
    assert_eq!(audio(1, 7), audio(1, 7));
    assert_ne!(audio(1, 7), audio(2, 7));
    assert_eq!(*video(1, 0.5, 7).data(), 7);
    assert_eq!(video(1, 0.5, 7).pts_seconds(), double(0.5));
    assert_eq!(video(1, 0.5, 7).into_data(StreamType::Audio), None);
    assert_eq!(audio(1, 9).into_data(StreamType::Audio), Some(9));
}

#[test]
fn frames_are_kept_in_the_range() {
    let frames = || -> Vec<Frame<u32>> {
        (0u32..6).map(|i| video(i as i64, i as f64, i)).collect()
    };
    let kept = |range: Seek| -> Vec<u32> {
        filter_frames_seek(frames(), &range).iter().map(|f| *f.data()).collect()
    };
    assert_eq!(kept(WHOLE), [0, 1, 2, 3, 4, 5]);
    // The start is inside the range, the end is not.
    assert_eq!(kept(seek(Some(2.0), None)), [2, 3, 4, 5]);
    assert_eq!(kept(seek(None, Some(2.0))), [0, 1]);
    assert_eq!(kept(seek(Some(1.0), Some(4.0))), [1, 2, 3]);
    assert_eq!(kept(seek(Some(4.0), Some(4.0))), [0u32; 0]);
}

#[test]
fn data_of_frames_of_one_type() {
    assert_eq!(
        frames_data(vec![video(0, 0.0, 1), video(1, 1.0, 2)], StreamType::Video),
        Ok(vec![1, 2])
    );
    assert!(frames_data(vec![video(0, 0.0, 1), audio(1, 2)], StreamType::Video).is_err());
    assert!(frames_data(vec![video(0, 0.0, 1)], StreamType::Audio).is_err());
}

#[test]
fn rows_are_handed_out_one_by_one() {
    let mut slots = OutputSlots::new(StreamType::Video, 2);
    assert_eq!(slots.next_slot(0), Some(Slot { start: 0, len: 1 }));
    slots.take(Slot { start: 0, len: 1 }, double(0.0));
    assert_eq!(slots.direct_slot(&double(1.0), 0, &seek(Some(2.0), None)), None);
    let next = slots.direct_slot(&double(3.0), 0, &seek(Some(2.0), None)).unwrap();
    assert_eq!(next, Slot { start: 1, len: 1 });
    slots.take(next, double(3.0));
    assert!(slots.has_finished_decoding());
    assert_eq!(slots.next_slot(0), None);
    assert_eq!(slots.written(), 2);
    let (rows, pts) = slots.into_filled();
    assert_eq!((rows, pts), (2, vec![double(0.0), double(3.0)]));
}

#[test]
fn samples_are_cut_at_the_end() {
    let mut slots = OutputSlots::new(StreamType::Audio, 1500);
    let first = slots.next_slot(1024).unwrap();
    assert_eq!(first, Slot { start: 0, len: 1024 });
    slots.take(first, double(0.0));
    let second = slots.next_slot(1024).unwrap();
    assert_eq!(second, Slot { start: 1024, len: 476 });
    slots.take(second, double(0.0));
    assert!(slots.has_finished_decoding());
    // A graph's frame gets an empty slot, a frame past the graph gets none.
    assert_eq!(slots.next_slot(1024), Some(Slot { start: 1500, len: 0 }));
    assert_eq!(slots.direct_slot(&double(0.0), 1024, &WHOLE), None);
    assert_eq!(slots.into_filled(), (1500, vec![]));
    assert_eq!(output_capacity(StreamType::Video, &vec![7, 2, 3, 3]), 7);
    assert_eq!(output_capacity(StreamType::Audio, &vec![2, 1500]), 1500);
    assert_eq!(output_capacity(StreamType::Audio, &vec![2]), 0);
    assert_eq!(output_capacity(StreamType::Video, &vec![]), 0);
    assert_eq!(filled_dim(StreamType::Video), 0);
    assert_eq!(filled_dim(StreamType::Audio), 1);
}

fn direct(capacity: usize) -> StreamDecoder<u32> {
    StreamDecoder::new(
        FramePath::VideoScale { dst_width: 32, dst_height: 16 },
        StreamType::Video,
        capacity,
    )
}

#[test]
fn a_packet_gives_frames_past_the_graph() {
    let mut stream = direct(2);
    let range = seek(Some(1.0), None);
    assert_eq!(stream.step(Event::Packet, &range), Action::SendPacket);
    assert_eq!(stream.step(Event::Sent, &range), Action::ReceiveFrame);
    // Before the start: dropped.
    assert_eq!(stream.step(Event::Received(info(0.5)), &range), Action::ReceiveFrame);
    assert_eq!(
        stream.step(Event::Received(info(1.0)), &range),
        Action::ConvertFrame(Slot { start: 0, len: 1 })
    );
    assert_eq!(stream.step(Event::Converted(10), &range), Action::ReceiveFrame);
    assert_eq!(stream.step(Event::DecoderEmpty, &range), Action::PacketDone);
    let frames = stream.take_gathered();
    assert_eq!(frames.len(), 1);
    match &frames[0] {
        Frame::Video { width, height, pts, data, .. } => {
            assert_eq!((*width, *height, *pts, *data), (32, 16, 1000, 10));
        }
        _ => panic!("expected a video frame"),
    }
    assert!(stream.take_gathered().is_empty());
}

#[test]
fn a_full_decoder_is_emptied_before_the_packet_is_sent_again() {
    let mut stream = direct(5);
    stream.step(Event::Packet, &WHOLE);
    assert_eq!(stream.step(Event::DecoderFull, &WHOLE), Action::ReceiveFrame);
    stream.step(Event::Received(info(0.0)), &WHOLE);
    assert_eq!(stream.step(Event::Converted(1), &WHOLE), Action::ReceiveFrame);
    assert_eq!(stream.step(Event::DecoderEmpty, &WHOLE), Action::SendPacket);
    assert_eq!(stream.step(Event::Sent, &WHOLE), Action::ReceiveFrame);
    assert_eq!(stream.step(Event::DecoderEmpty, &WHOLE), Action::PacketDone);
}

#[test]
fn rows_lie_in_the_range_on_every_path() {
    // Ten frames a second, from 0.01 s to 0.17 s: one frame, although there is room for two.
    let range = seek(Some(0.01), Some(0.17));
    let mut stream = direct(2);
    stream.step(Event::Packet, &range);
    stream.step(Event::Sent, &range);
    for (seconds, kept) in [(0.0, false), (0.1, true), (0.2, false), (0.3, false)] {
        let action = stream.step(Event::Received(info(seconds)), &range);
        if kept {
            assert_eq!(action, Action::ConvertFrame(Slot { start: 0, len: 1 }));
            assert_eq!(stream.step(Event::Converted(1), &range), Action::ReceiveFrame);
        } else {
            assert_eq!(action, Action::ReceiveFrame);
        }
    }
    assert_eq!(stream.into_slots().into_filled(), (1, vec![double(0.1)]));

    let mut stream: StreamDecoder<u32> =
        StreamDecoder::new(FramePath::Graph, StreamType::Video, 2);
    stream.step(Event::Packet, &range);
    stream.step(Event::Sent, &range);
    for (seconds, kept) in [(0.0, false), (0.1, true), (0.2, false), (0.3, false)] {
        assert_eq!(stream.step(Event::Received(info(seconds)), &range), Action::SubmitFrame);
        assert_eq!(stream.step(Event::Submitted, &range), Action::CollectFrame);
        let action = stream.step(Event::Filtered(info(seconds)), &range);
        if kept {
            assert_eq!(action, Action::ConvertFrame(Slot { start: 0, len: 1 }));
            assert_eq!(stream.step(Event::Converted(1), &range), Action::CollectFrame);
        } else {
            assert_eq!(action, Action::CollectFrame);
        }
        assert_eq!(stream.step(Event::GraphEmpty, &range), Action::ReceiveFrame);
    }
    assert_eq!(stream.into_slots().into_filled(), (1, vec![double(0.1)]));
}

#[test]
fn a_frame_behind_the_range_makes_room() {
    let range = seek(None, Some(1.0));
    let mut stream = direct(5);
    stream.step(Event::Packet, &range);
    stream.step(Event::DecoderFull, &range);
    assert_eq!(stream.step(Event::Received(info(1.0)), &range), Action::ReceiveFrame);
    assert_eq!(stream.step(Event::DecoderEmpty, &range), Action::SendPacket);
    let mut stream: StreamDecoder<u32> =
        StreamDecoder::new(FramePath::Graph, StreamType::Video, 5);
    stream.step(Event::Packet, &range);
    stream.step(Event::DecoderFull, &range);
    stream.step(Event::Received(info(1.0)), &range);
    stream.step(Event::Submitted, &range);
    assert_eq!(stream.step(Event::Filtered(info(1.0)), &range), Action::CollectFrame);
    assert_eq!(stream.step(Event::GraphEmpty, &range), Action::ReceiveFrame);
    assert_eq!(stream.step(Event::DecoderEmpty, &range), Action::SendPacket);
    // One before the start does not.
    let range = seek(Some(1.0), None);
    let mut stream = direct(5);
    stream.step(Event::Packet, &range);
    stream.step(Event::DecoderFull, &range);
    stream.step(Event::Received(info(0.5)), &range);
    assert_eq!(
        stream.step(Event::DecoderEmpty, &range),
        Action::Fail(Fault::DecoderStuck)
    );
}

#[test]
fn both_paths_give_the_same_rows_and_frames() {
    let range = seek(Some(0.1), Some(0.4));
    let times = [0.0, 0.1, 0.2, 0.3, 0.4, 0.5];
    let mut past: StreamDecoder<u32> = StreamDecoder::new(
        FramePath::VideoScale { dst_width: 64, dst_height: 48 },
        StreamType::Video,
        2,
    );
    let mut through: StreamDecoder<u32> =
        StreamDecoder::new(FramePath::Graph, StreamType::Video, 2);
    for stream in [&mut past, &mut through] {
        stream.step(Event::Packet, &range);
        let mut action = stream.step(Event::Sent, &range);
        for (i, seconds) in times.into_iter().enumerate() {
            if action != Action::ReceiveFrame {
                break;
            }
            action = stream.step(Event::Received(info(seconds)), &range);
            if action == Action::SubmitFrame {
                stream.step(Event::Submitted, &range);
                action = stream.step(Event::Filtered(info(seconds)), &range);
            }
            if matches!(action, Action::ConvertFrame(_)) {
                action = stream.step(Event::Converted(i as u32), &range);
            }
            if action == Action::CollectFrame {
                action = stream.step(Event::GraphEmpty, &range);
            }
        }
        assert_eq!(action, Action::PacketDone);
    }
    assert_eq!(past.take_gathered(), through.take_gathered());
    let rows = past.into_slots().into_filled();
    assert_eq!(rows, (2, vec![double(0.1), double(0.2)]));
    assert_eq!(rows, through.into_slots().into_filled());
}

#[test]
fn a_full_decoder_that_gives_nothing_is_a_failure_unless_all_is_done() {
    let mut stuck = direct(5);
    stuck.step(Event::Packet, &WHOLE);
    stuck.step(Event::DecoderFull, &WHOLE);
    assert_eq!(
        stuck.step(Event::DecoderEmpty, &WHOLE),
        Action::Fail(Fault::DecoderStuck)
    );
    let mut finished = direct(5);
    finished.finish();
    assert!(finished.is_finished());
    finished.step(Event::Packet, &WHOLE);
    finished.step(Event::DecoderFull, &WHOLE);
    assert_eq!(finished.step(Event::DecoderEmpty, &WHOLE), Action::ReceiveFrame);
    assert_eq!(finished.step(Event::DecoderEmpty, &WHOLE), Action::PacketDone);
    let mut full = direct(0);
    full.step(Event::Packet, &WHOLE);
    assert_eq!(full.step(Event::DecoderFull, &WHOLE), Action::PacketDone);
}

#[test]
fn frames_on_the_gpu_are_downloaded_for_the_graph() {
    let mut stream: StreamDecoder<u32> =
        StreamDecoder::new(FramePath::Graph, StreamType::Video, 5);
    stream.step(Event::Packet, &WHOLE);
    stream.step(Event::Sent, &WHOLE);
    let on_gpu = FrameInfo { pixel_format: PixelFormat::Cuda, ..info(0.0) };
    assert_eq!(stream.step(Event::Received(on_gpu), &WHOLE), Action::DownloadFrame);
    let here = FrameInfo { pixel_format: PixelFormat::Nv12, ..info(0.0) };
    assert_eq!(stream.step(Event::Downloaded(here), &WHOLE), Action::SubmitFrame);
    assert_eq!(stream.step(Event::Submitted, &WHOLE), Action::CollectFrame);
    assert_eq!(
        stream.step(Event::Filtered(info(0.0)), &WHOLE),
        Action::ConvertFrame(Slot { start: 0, len: 1 })
    );
    assert_eq!(stream.step(Event::Converted(1), &WHOLE), Action::CollectFrame);
    assert_eq!(stream.step(Event::GraphEmpty, &WHOLE), Action::ReceiveFrame);
    assert_eq!(stream.step(Event::DecoderEmpty, &WHOLE), Action::PacketDone);
    match &stream.take_gathered()[0] {
        Frame::Video { width, height, .. } => assert_eq!((*width, *height), (64, 48)),
        _ => panic!("expected a video frame"),
    }
}

#[test]
fn a_graph_that_gives_too_much_is_not_a_failure() {
    let mut stream: StreamDecoder<u32> =
        StreamDecoder::new(FramePath::Graph, StreamType::Video, 1);
    stream.step(Event::Packet, &WHOLE);
    stream.step(Event::Sent, &WHOLE);
    stream.step(Event::Received(info(0.0)), &WHOLE);
    stream.step(Event::Submitted, &WHOLE);
    stream.step(Event::Filtered(info(0.0)), &WHOLE);
    stream.step(Event::Converted(1), &WHOLE);
    // The second frame has no row. What the graph gave with it leaves the list, not the output.
    assert_eq!(stream.step(Event::Filtered(info(0.1)), &WHOLE), Action::PacketDone);
    assert!(stream.take_gathered().is_empty());
    assert_eq!(stream.into_slots().into_filled(), (1, vec![double(0.0)]));
}

#[test]
fn pixel_formats_without_a_conversion_are_refused() {
    let mut stream: StreamDecoder<u32> =
        StreamDecoder::new(FramePath::Graph, StreamType::Video, 1);
    stream.step(Event::Packet, &WHOLE);
    stream.step(Event::Sent, &WHOLE);
    stream.step(Event::Received(info(0.0)), &WHOLE);
    stream.step(Event::Submitted, &WHOLE);
    let odd = FrameInfo { pixel_format: PixelFormat::Yuv420p, ..info(0.0) };
    assert_eq!(
        stream.step(Event::Filtered(odd), &WHOLE),
        Action::Fail(Fault::UnsupportedPixelFormat(PixelFormat::Yuv420p))
    );
}

#[test]
fn frames_that_stay_on_the_gpu_are_checked() {
    let fault = |info: FrameInfo| {
        let mut stream: StreamDecoder<u32> = StreamDecoder::new(
            FramePath::CudaConvert { device: 0, dst_width: 64, dst_height: 48 },
            StreamType::Video,
            1,
        );
        stream.step(Event::Packet, &WHOLE);
        stream.step(Event::Sent, &WHOLE);
        stream.step(Event::Received(info), &WHOLE)
    };
    let on_gpu = FrameInfo { pixel_format: PixelFormat::Cuda, ..info(0.0) };
    assert_eq!(fault(on_gpu), Action::ConvertFrame(Slot { start: 0, len: 1 }));
    assert_eq!(
        fault(info(0.0)),
        Action::Fail(Fault::NotOnGpu(PixelFormat::Rgb24))
    );
    assert_eq!(
        fault(FrameInfo { width: 66, ..on_gpu }),
        Action::Fail(Fault::WrongSize { width: 66, height: 48, dst_width: 64, dst_height: 48 })
    );
    assert_eq!(
        fault(FrameInfo { chroma_pitch: 128, ..on_gpu }),
        Action::Fail(Fault::UnequalPitches { pitch: 64, chroma_pitch: 128 })
    );
}

#[test]
fn failures_end_a_stream() {
    let mut stream = direct(5);
    assert_eq!(stream.step(Event::Sent, &WHOLE), Action::Fail(Fault::OutOfTurn));
    assert_eq!(stream.step(Event::Packet, &WHOLE), Action::Fail(Fault::OutOfTurn));
    let failing = |events: Vec<Event<u32>>| {
        let mut stream = direct(5);
        let mut last = Action::SendPacket;
        for event in events {
            last = stream.step(event, &WHOLE);
        }
        last
    };
    assert_eq!(
        failing(vec![Event::Packet, Event::SendFailed]),
        Action::Fail(Fault::SendFailed)
    );
    assert_eq!(
        failing(vec![Event::EndOfInput, Event::SendFailed]),
        Action::Fail(Fault::SendFailed)
    );
    assert_eq!(
        failing(vec![Event::Packet, Event::Sent, Event::ReceiveFailed]),
        Action::Fail(Fault::ReceiveFailed)
    );
    assert_eq!(
        failing(vec![
            Event::Packet,
            Event::Sent,
            Event::Received(info(0.0)),
            Event::ConvertFailed
        ]),
        Action::Fail(Fault::ConvertFailed)
    );
}

#[test]
fn graph_failures_end_a_stream() {
    let failing = |events: Vec<Event<u32>>| {
        let mut stream: StreamDecoder<u32> =
            StreamDecoder::new(FramePath::Graph, StreamType::Audio, 5000);
        let mut last = Action::SendPacket;
        for event in events {
            last = stream.step(event, &WHOLE);
        }
        last
    };
    let received = || vec![Event::Packet, Event::Sent, Event::Received(info(0.0))];
    let mut events = received();
    events.push(Event::SubmitFailed);
    assert_eq!(failing(events), Action::Fail(Fault::SubmitFailed));
    let mut events = received();
    events.extend([Event::Submitted, Event::FilterFailed]);
    assert_eq!(failing(events), Action::Fail(Fault::FilterFailed));
    let mut events = received();
    events.extend([Event::Submitted, Event::Filtered(info(0.0)), Event::ConvertFailed]);
    assert_eq!(failing(events), Action::Fail(Fault::ConvertFailed));
    let on_gpu = FrameInfo { pixel_format: PixelFormat::Cuda, ..info(0.0) };
    assert_eq!(
        failing(vec![
            Event::Packet,
            Event::Sent,
            Event::Received(on_gpu),
            Event::DownloadFailed
        ]),
        Action::Fail(Fault::DownloadFailed)
    );
}

#[test]
fn streams_are_emptied_at_the_end() {
    // Past the graph.
    let mut stream = direct(5);
    assert_eq!(stream.step(Event::EndOfInput, &WHOLE), Action::SendEnd);
    assert_eq!(stream.step(Event::Sent, &WHOLE), Action::ReceiveFrame);
    assert_eq!(stream.step(Event::DecoderEmpty, &WHOLE), Action::StreamDone);
    // Through the graph, which is emptied as well.
    let mut stream: StreamDecoder<u32> =
        StreamDecoder::new(FramePath::Graph, StreamType::Audio, 1500);
    stream.step(Event::EndOfInput, &WHOLE);
    stream.step(Event::Sent, &WHOLE);
    assert_eq!(stream.step(Event::DecoderEmpty, &WHOLE), Action::SubmitEnd);
    assert_eq!(stream.step(Event::Submitted, &WHOLE), Action::CollectFrame);
    assert_eq!(
        stream.step(Event::Filtered(info(0.0)), &WHOLE),
        Action::ConvertFrame(Slot { start: 0, len: 1024 })
    );
    stream.step(Event::Converted(1), &WHOLE);
    assert_eq!(
        stream.step(Event::Filtered(info(0.1)), &WHOLE),
        Action::ConvertFrame(Slot { start: 1024, len: 476 })
    );
    stream.step(Event::Converted(2), &WHOLE);
    assert_eq!(stream.step(Event::GraphEmpty, &WHOLE), Action::StreamDone);
    assert_eq!(stream.take_gathered().len(), 2);
    // On the GPU, which is waited for.
    let mut stream: StreamDecoder<u32> = StreamDecoder::new(
        FramePath::CudaConvert { device: 0, dst_width: 64, dst_height: 48 },
        StreamType::Video,
        5,
    );
    stream.step(Event::EndOfInput, &WHOLE);
    stream.step(Event::Sent, &WHOLE);
    assert_eq!(stream.step(Event::DecoderEmpty, &WHOLE), Action::Synchronize);
    assert_eq!(stream.step(Event::Synchronized, &WHOLE), Action::StreamDone);
    let mut stream: StreamDecoder<u32> = StreamDecoder::new(
        FramePath::CudaConvert { device: 0, dst_width: 64, dst_height: 48 },
        StreamType::Video,
        0,
    );
    stream.step(Event::EndOfInput, &WHOLE);
    assert_eq!(stream.step(Event::Sent, &WHOLE), Action::Synchronize);
    assert_eq!(
        stream.step(Event::SyncFailed, &WHOLE),
        Action::Fail(Fault::SyncFailed)
    );
}

fn on(place: usize, action: Action) -> SessionAction {
    SessionAction::Stream { place, action }
}

fn packet(stream_index: usize, seconds: f64) -> SessionEvent<u32> {
    SessionEvent::Packet { stream_index, pts_seconds: double(seconds) }
}

const VIDEO: StreamMetadata = StreamMetadata::Video { frame_rate: Double { bits: 0 } };
const AUDIO: StreamMetadata = StreamMetadata::Audio { sample_rate: 48000 };

/// Lets the stream at `place` decode a packet that gives one frame.
fn one_frame(session: &mut DecodeSession<u32>, place: usize, seconds: f64, data: u32) -> SessionAction {
    assert_eq!(
        session.step(SessionEvent::Stream(Event::Sent)),
        on(place, Action::ReceiveFrame)
    );
    session.step(SessionEvent::Stream(Event::Received(info(seconds))));
    session.step(SessionEvent::Stream(Event::Converted(data)));
    session.step(SessionEvent::Stream(Event::DecoderEmpty))
}

#[test]
fn row_times_of_a_session_increase() {
    let decoded = || {
        let passthrough: StreamDecoder<u32> =
            StreamDecoder::new(FramePath::AudioPassthrough, StreamType::Audio, 9000);
        let mut session =
            DecodeSession::new(vec![0, 1], vec![direct(9), passthrough], seek(Some(1.0), None));
        for second in 0u32..4 {
            for place in [0usize, 1] {
                let seconds = second as f64;
                session.step(packet(place, seconds));
                session.step(SessionEvent::Stream(Event::Sent));
                let action = session.step(SessionEvent::Stream(Event::Received(info(seconds))));
                if second > 0 {
                    assert!(matches!(
                        action,
                        SessionAction::Stream { action: Action::ConvertFrame(_), .. }
                    ));
                    session.step(SessionEvent::Stream(Event::Converted(second)));
                }
                assert_eq!(
                    session.step(SessionEvent::Stream(Event::DecoderEmpty)),
                    SessionAction::ReadPacket
                );
            }
        }
        session.into_results(vec![VIDEO, AUDIO])
    };
    let results = decoded();
    assert_eq!(results[0].frame_pts, vec![double(1.0), double(2.0), double(3.0)]);
    assert_eq!(results[0].data, Some(FilledOutput { place: 0, extent: 3 }));
    assert_eq!(results[1].frame_pts, vec![]);
    assert_eq!(results[1].data, Some(FilledOutput { place: 1, extent: 3072 }));
    // The same answers give the same results.
    for (a, b) in results.iter().zip(decoded()) {
        assert_eq!(a.src_stream_index, b.src_stream_index);
        assert_eq!(a.decoded_frames, b.decoded_frames);
        assert_eq!(a.data, b.data);
        assert_eq!(a.frame_pts, b.frame_pts);
        assert_eq!(a.metadata, b.metadata);
    }
}

#[test]
fn packets_are_routed_and_streams_end_with_the_range() {
    let passthrough: StreamDecoder<u32> =
        StreamDecoder::new(FramePath::AudioPassthrough, StreamType::Audio, 5000);
    let mut session =
        DecodeSession::new(vec![0, 2], vec![direct(5), passthrough], seek(None, Some(2.0)));
    // Nobody wants stream 1.
    assert_eq!(session.step(packet(1, 0.0)), SessionAction::ReadPacket);
    assert_eq!(session.step(packet(0, 0.0)), on(0, Action::SendPacket));
    assert_eq!(one_frame(&mut session, 0, 0.0, 10), SessionAction::ReadPacket);
    // At the end exactly: the packet is not behind it, but its frame takes no row.
    assert_eq!(session.step(packet(0, 2.0)), on(0, Action::SendPacket));
    session.step(SessionEvent::Stream(Event::Sent));
    assert_eq!(
        session.step(SessionEvent::Stream(Event::Received(info(2.0)))),
        on(0, Action::ReceiveFrame)
    );
    assert_eq!(
        session.step(SessionEvent::Stream(Event::DecoderEmpty)),
        SessionAction::ReadPacket
    );
    // Behind the end: the last packet of its stream.
    assert_eq!(session.step(packet(0, 2.5)), on(0, Action::SendPacket));
    session.step(SessionEvent::Stream(Event::Sent));
    assert_eq!(
        session.step(SessionEvent::Stream(Event::DecoderEmpty)),
        SessionAction::ReadPacket
    );
    assert_eq!(session.step(packet(0, 0.5)), SessionAction::ReadPacket);
    // Once no stream wants more, the streams are emptied.
    assert_eq!(session.step(packet(2, 3.0)), on(1, Action::SendPacket));
    assert_eq!(one_frame(&mut session, 1, 0.5, 20), on(0, Action::SendEnd));
    session.step(SessionEvent::Stream(Event::Sent));
    assert_eq!(
        session.step(SessionEvent::Stream(Event::DecoderEmpty)),
        on(1, Action::SendEnd)
    );
    session.step(SessionEvent::Stream(Event::Sent));
    assert_eq!(
        session.step(SessionEvent::Stream(Event::DecoderEmpty)),
        SessionAction::Done
    );
    let results = session.into_results(vec![VIDEO, AUDIO]);
    assert_eq!(results[0].src_stream_index, 0);
    assert_eq!(results[0].stream_type(), StreamType::Video);
    assert_eq!(results[0].decoded_frames.len(), 1);
    assert_eq!(results[0].data, Some(FilledOutput { place: 0, extent: 1 }));
    assert_eq!(results[0].frame_pts, vec![double(0.0)]);
    assert_eq!(results[1].stream_type(), StreamType::Audio);
    assert_eq!(results[1].data, Some(FilledOutput { place: 1, extent: 1024 }));
    assert!(results[1].frame_pts.is_empty());
    assert_eq!(results[1].decoded_frames.len(), 1);
}

#[test]
fn decoding_nothing_is_done_at_once() {
    let mut session: DecodeSession<u32> = DecodeSession::new(vec![], vec![], WHOLE);
    assert_eq!(session.step(packet(0, 0.0)), SessionAction::Done);
    assert!(session.into_results(vec![]).is_empty());
    let mut session: DecodeSession<u32> = DecodeSession::new(vec![], vec![], WHOLE);
    assert_eq!(session.step(SessionEvent::EndOfInput), SessionAction::Done);
}

#[test]
fn failures_end_decoding() {
    let mut session = DecodeSession::new(vec![0], vec![direct(5)], WHOLE);
    assert_eq!(session.step(SessionEvent::ReadFailed), SessionAction::ReadFailed);
    assert_eq!(session.step(packet(0, 0.0)), SessionAction::OutOfTurn);
    let mut session = DecodeSession::new(vec![0], vec![direct(5)], WHOLE);
    session.step(packet(0, 0.0));
    assert_eq!(
        session.step(SessionEvent::Stream(Event::SendFailed)),
        on(0, Action::Fail(Fault::SendFailed))
    );
    assert_eq!(session.step(SessionEvent::EndOfInput), SessionAction::OutOfTurn);
}

#[test]
fn an_index_that_stands_twice_is_handed_out_at_its_first_place() {
    let mut session = DecodeSession::new(vec![3, 3], vec![direct(5), direct(7)], WHOLE);
    session.step(packet(3, 0.0));
    one_frame(&mut session, 0, 0.0, 1);
    session.step(SessionEvent::EndOfInput);
    session.step(SessionEvent::Stream(Event::Sent));
    session.step(SessionEvent::Stream(Event::DecoderEmpty));
    session.step(SessionEvent::Stream(Event::Sent));
    assert_eq!(
        session.step(SessionEvent::Stream(Event::DecoderEmpty)),
        SessionAction::Done
    );
    let results = session.into_results(vec![VIDEO, VIDEO]);
    assert_eq!(results[0].data, Some(FilledOutput { place: 1, extent: 0 }));
    assert_eq!(results[0].decoded_frames.len(), 1);
    assert_eq!(results[1].data, None);
}

#[test]
fn without_a_range_every_row_is_a_frame() {
    let mut session = DecodeSession::new(vec![4], vec![direct(9)], WHOLE);
    for (i, seconds) in [0.0, 0.04, 0.08].into_iter().enumerate() {
        assert_eq!(session.step(packet(4, seconds)), on(0, Action::SendPacket));
        let next = one_frame(&mut session, 0, seconds, i as u32);
        assert_eq!(next, SessionAction::ReadPacket);
    }
    assert_eq!(session.step(SessionEvent::EndOfInput), on(0, Action::SendEnd));
    session.step(SessionEvent::Stream(Event::Sent));
    // One more frame comes out of the decoder at the end.
    session.step(SessionEvent::Stream(Event::Received(info(0.12))));
    session.step(SessionEvent::Stream(Event::Converted(3)));
    assert_eq!(
        session.step(SessionEvent::Stream(Event::DecoderEmpty)),
        SessionAction::Done
    );
    let result = session.into_results(vec![VIDEO]).remove(0);
    assert_eq!(result.data, Some(FilledOutput { place: 0, extent: 4 }));
    assert_eq!(result.decoded_frames.len(), 4);
    assert_eq!(result.frame_pts.len(), 4);
    for (frame, pts) in result.decoded_frames.iter().zip(&result.frame_pts) {
        assert_eq!(frame.pts_seconds(), *pts);
    }
    for pair in result.frame_pts.windows(2) {
        assert!(pair[0].lt(&pair[1]));
    }
    assert_eq!(frames_data(result.decoded_frames, StreamType::Video), Ok(vec![0, 1, 2, 3]));
}
