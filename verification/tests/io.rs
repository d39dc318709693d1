use avtensor::decoder::request::MediaSource;
use avtensor::io::cloud::{
    ChunkOverrun, ChunkStep, CloudRead, CloudStorageReaderContext, DataReader, ReadAction,
    ReadRange, ReadStep, SeekAction, SeekError, DATA_SEGMENT_SIZE, FFMPEG_BUFFER_SIZE,
};
use avtensor::io::file::{FileRead, FileSeek, IOContext};
use avtensor::io::memory::MemoryReader;
use avtensor::io::seek::{
    AVERROR_EOF, AVSEEK_FORCE, AVSEEK_SIZE, SEEK_CUR, SEEK_END, SEEK_SET,
};
use avtensor::io::source::{
    check_object_size, choose_opener, gcs_object_size, max_cloud_object_size, protocol_whitelist,
    range_header, read_offset, s3_object_size, CloudUri, InputOpener, ObjectTooLarge, OpenError,
    OpenPlan, DEFAULT_MAX_CLOUD_OBJECT_SIZE,
};
use avtensor::util::ffmpeg::RetUpgrade;
use avtensor::util::s3::S3Config;
use avtensor::util::uri::UriError;
use std::io::{Cursor, Read, Seek, SeekFrom};

#[test]
fn seek_codes_are_those_of_the_c_library() {
    assert_eq!(SEEK_SET, libc::SEEK_SET);
    assert_eq!(SEEK_CUR, libc::SEEK_CUR);
    assert_eq!(SEEK_END, libc::SEEK_END);
    let tag = i32::from_le_bytes(*b"EOF ");
    assert_eq!(AVERROR_EOF, -tag);
}

#[test]
fn memory_is_read_in_pieces() {
    let mut reader = MemoryReader::new((0u8..10).collect());
    let mut buf = [0xffu8; 4];
    assert_eq!(reader.read(&mut buf), 4);
    assert_eq!(buf, [0, 1, 2, 3]);
    assert_eq!(reader.read(&mut buf), 4);
    assert_eq!(buf, [4, 5, 6, 7]);
    assert_eq!(reader.read(&mut buf), 2);
    assert_eq!(buf, [8, 9, 6, 7]);
    assert_eq!(reader.read(&mut buf), AVERROR_EOF);
    assert_eq!(reader.read(&mut []), AVERROR_EOF);
}

#[test]
fn memory_seeks_stay_inside() {
    let mut reader = MemoryReader::new((0u8..10).collect());
    let mut buf = [0u8; 2];
    assert_eq!(reader.seek(0, AVSEEK_SIZE), 10);
    assert_eq!(reader.seek(3, SEEK_SET), 3);
    assert_eq!(reader.seek(2, SEEK_CUR), 5);
    assert_eq!(reader.read(&mut buf), 2);
    assert_eq!(buf, [5, 6]);
    assert_eq!(reader.seek(-1, SEEK_END), 9);
    assert_eq!(reader.seek(1, SEEK_END), -1);
    assert_eq!(reader.seek(-1, SEEK_SET), -1);
    assert_eq!(reader.seek(11, SEEK_SET), -1);
    assert_eq!(reader.seek(0, AVSEEK_FORCE), -1);
    // None of the refused ones moved the cursor.
    assert_eq!(reader.seek(0, SEEK_CUR), 9);
    assert_eq!(reader.seek(10, SEEK_SET), 10);
    assert_eq!(reader.read(&mut buf), AVERROR_EOF);
}

#[test]
fn file_reads_are_planned_and_answered() {
    let mut io = IOContext::new(10);
    assert_eq!(io.plan_read(4), FileRead::Read { len: 4, right: 4 });
    // The cursor goes to where the read was to end, although the file gave less.
    assert_eq!(io.finish_read(4, Some(3)), 3);
    assert_eq!(io.current, 4);
    assert_eq!(io.plan_read(100), FileRead::Read { len: 6, right: 10 });
    assert_eq!(io.finish_read(10, None), -1);
    assert_eq!(io.finish_read(10, Some(0)), AVERROR_EOF);
    assert_eq!(io.current, 4);
    assert_eq!(io.finish_read(10, Some(6)), 6);
    assert_eq!(io.plan_read(1), FileRead::Eof);
    assert_eq!(io.finish_seek(Some(2)), 2);
    assert_eq!(io.plan_read(0), FileRead::Eof);
}

#[test]
fn file_seeks_are_planned_and_answered() {
    let mut io = IOContext::new(10);
    assert_eq!(io.plan_seek(3, SEEK_SET), FileSeek::Start(3));
    assert_eq!(io.plan_seek(-1, SEEK_SET), FileSeek::Start(u64::MAX));
    assert_eq!(io.plan_seek(-3, SEEK_CUR), FileSeek::Current(-3));
    assert_eq!(io.plan_seek(-3, SEEK_END), FileSeek::End(-3));
    assert_eq!(io.plan_seek(7, AVSEEK_SIZE), FileSeek::Size(10));
    assert_eq!(io.plan_seek(7, AVSEEK_FORCE), FileSeek::ForceUnsupported);
    assert_eq!(io.plan_seek(7, 42), FileSeek::Unsupported(42));
    assert_eq!(io.finish_seek(None), -1);
    assert_eq!(io.current, 0);
    assert_eq!(io.finish_seek(Some(12)), 12);
    assert_eq!(io.current, 12);
    assert_eq!(io.plan_read(4), FileRead::Eof);
}

fn object(size: usize) -> Vec<u8> {
    (0..size).map(|i| (i * 7 % 251) as u8).collect()
}

#[test]
fn chunks_are_read_back_wherever_they_arrived() {
    let bytes = object(100);
    let mut context = CloudStorageReaderContext::new(100);
    let mut late: usize = 60;
    assert_eq!(context.write_chunk(&mut late, &bytes[60..100]), Ok(ChunkStep::Stop));
    assert_eq!(late, 100);
    let mut early: usize = 0;
    assert_eq!(context.write_chunk(&mut early, &bytes[0..30]), Ok(ChunkStep::Continue));
    // The next byte is here already.
    assert_eq!(context.write_chunk(&mut early, &bytes[30..60]), Ok(ChunkStep::Stop));
    let mut got = vec![0u8; 64];
    assert_eq!(context.read(&mut got), ReadStep::Filled(64));
    assert_eq!(got, bytes[0..64]);
    assert_eq!(context.read(&mut got), ReadStep::Filled(36));
    assert_eq!(got[..36], bytes[64..100]);
    assert_eq!(context.read(&mut got), ReadStep::Eof);
}

#[test]
fn a_reader_goes_on_while_the_next_byte_is_missing() {
    let mut context = CloudStorageReaderContext::new(3);
    let mut last: usize = 2;
    assert_eq!(context.write_chunk(&mut last, &[30]), Ok(ChunkStep::Stop));
    let mut first: usize = 0;
    // Byte 1 is missing, although byte 2 is here.
    assert_eq!(context.write_chunk(&mut first, &[10]), Ok(ChunkStep::Continue));
    assert_eq!(context.write_chunk(&mut first, &[20]), Ok(ChunkStep::Stop));
    let mut buf = [0u8; 3];
    assert_eq!(context.read(&mut buf), ReadStep::Filled(3));
    assert_eq!(buf, [10, 20, 30]);
}

#[test]
fn chunks_beyond_the_object_are_refused() {
    let mut context = CloudStorageReaderContext::new(10);
    let mut position: usize = 8;
    assert_eq!(
        context.write_chunk(&mut position, &[1, 2, 3]),
        Err(ChunkOverrun { new_position: 11, buffer_len: 10 })
    );
    assert_eq!(position, 8);
    let mut buf = [0u8; 1];
    assert_eq!(context.read(&mut buf), ReadStep::Pending);
    let mut empty = CloudStorageReaderContext::new(0);
    let mut position: usize = 0;
    assert_eq!(
        empty.write_chunk(&mut position, &[1]),
        Err(ChunkOverrun { new_position: 1, buffer_len: 0 })
    );
}

#[test]
fn a_file_and_its_bytes_are_one_input() {
    let data: Vec<u8> = (0u8..100).collect();
    let mut memory = MemoryReader::new(data.clone());
    let mut file = Cursor::new(data);
    let mut io = IOContext::new(100);
    // Reads of `n` bytes where there is no whence.
    let requests: [(i64, Option<i32>); 14] = [
        (7, None),
        (0, Some(AVSEEK_SIZE)),
        (90, Some(SEEK_SET)),
        (7, None),
        (7, None),
        (7, None),
        (-60, Some(SEEK_CUR)),
        (5, None),
        (-1, Some(SEEK_SET)),
        (-3, Some(SEEK_END)),
        (0, None),
        (0, Some(AVSEEK_FORCE)),
        (0, Some(77)),
        (9, None),
    ];
    for (n, whence) in requests {
        match whence {
            None => {
                let mut from_memory = vec![0u8; n as usize];
                let mut from_file = vec![0u8; n as usize];
                let code = match io.plan_read(n as usize) {
                    FileRead::Eof => AVERROR_EOF,
                    FileRead::Read { len, right } => {
                        let got = file.read(&mut from_file[..len]).unwrap();
                        io.finish_read(right, Some(got))
                    }
                };
                assert_eq!(memory.read(&mut from_memory), code);
                assert_eq!(from_memory, from_file);
            }
            Some(whence) => {
                let reached = match io.plan_seek(n, whence) {
                    FileSeek::Size(size) => Err(size),
                    FileSeek::Start(place) => Ok(if place <= i64::MAX as u64 {
                        file.seek(SeekFrom::Start(place)).ok()
                    } else {
                        None
                    }),
                    FileSeek::Current(offset) => Ok(file.seek(SeekFrom::Current(offset)).ok()),
                    FileSeek::End(offset) => Ok(file.seek(SeekFrom::End(offset)).ok()),
                    FileSeek::ForceUnsupported | FileSeek::Unsupported(_) => Err(-1),
                };
                let code = match reached {
                    Ok(reached) => io.finish_seek(reached),
                    Err(code) => code,
                };
                assert_eq!(memory.seek(n, whence), code);
            }
        }
        assert_eq!(memory.position() as u64, io.current);
    }
}

#[test]
fn a_read_waits_for_a_running_reader_and_replaces_a_dead_one() {
    let bytes = object(50);
    let mut context = CloudStorageReaderContext::new(50);
    let mut call = CloudRead::new();
    let mut buf = vec![0u8; 20];
    assert_eq!(call.step(&mut context, &mut buf), ReadAction::Wait { millis: 1 });
    let mut position: usize = 0;
    context.write_chunk(&mut position, &bytes[0..5]).unwrap();
    context.set_finished(0, true);
    // The hole is behind the bytes that are here.
    assert_eq!(
        call.step(&mut context, &mut buf),
        ReadAction::Respawn { from: 5, attempt: 1, backoff_millis: 10 }
    );
    context.add_reader(5);
    assert_eq!(
        context.readers[1],
        DataReader { range: ReadRange { start: 5, end: 50 }, finished: false }
    );
    assert_eq!(call.step(&mut context, &mut buf), ReadAction::Wait { millis: 1 });
    context.set_finished(1, true);
    assert_eq!(
        call.step(&mut context, &mut buf),
        ReadAction::Respawn { from: 5, attempt: 2, backoff_millis: 20 }
    );
    assert_eq!(
        call.step(&mut context, &mut buf),
        ReadAction::Respawn { from: 5, attempt: 3, backoff_millis: 40 }
    );
    assert_eq!(call.step(&mut context, &mut buf), ReadAction::GiveUp { at: 5 });
    // Bytes that arrive after all are handed out.
    let mut resumed: usize = 5;
    context.write_chunk(&mut resumed, &bytes[5..50]).unwrap();
    assert_eq!(call.step(&mut context, &mut buf), ReadAction::Reply(20));
    assert_eq!(buf, bytes[0..20]);
}

#[test]
fn seeks_answer_at_once_where_bytes_are_here() {
    let bytes = object(100);
    let mut context = CloudStorageReaderContext::new(100);
    let mut position: usize = 0;
    context.write_chunk(&mut position, &bytes).unwrap();
    assert_eq!(context.seek(0, AVSEEK_SIZE), SeekAction::Reply(100));
    assert_eq!(context.seek(40, SEEK_SET), SeekAction::Reply(40));
    assert_eq!(context.seek(2, SEEK_CUR), SeekAction::Reply(42));
    let mut buf = [0u8; 3];
    assert_eq!(context.read(&mut buf), ReadStep::Filled(3));
    assert_eq!(buf, bytes[42..45]);
    assert_eq!(context.seek(-1, SEEK_END), SeekAction::Reply(99));
    assert_eq!(
        context.seek(1, SEEK_END),
        SeekAction::Refuse(SeekError::OutsideFromEnd(1))
    );
    assert_eq!(
        context.seek(-101, SEEK_END),
        SeekAction::Refuse(SeekError::OutsideFromEnd(-101))
    );
    assert_eq!(
        context.seek(0, 7),
        SeekAction::Refuse(SeekError::UnexpectedWhence(7))
    );
    assert_eq!(context.buffer.position(), 99);
    // A place outside is answered as asked for; the cursor goes to the end.
    assert_eq!(context.seek(500, SEEK_SET), SeekAction::Reply(500));
    assert_eq!(context.buffer.position(), 100);
    assert_eq!(context.seek(-5, SEEK_SET), SeekAction::Reply(-5));
    assert_eq!(context.buffer.position(), 100);
}

#[test]
fn seeks_wait_for_a_reader_that_is_close() {
    let size = FFMPEG_BUFFER_SIZE * 4;
    let bytes = object(size);
    let mut context = CloudStorageReaderContext::new(size);
    let mut position: usize = 0;
    context.write_chunk(&mut position, &bytes[0..10]).unwrap();
    // The first reader is on its way there.
    assert_eq!(context.seek(5000, SEEK_SET), SeekAction::Reply(5000));
    context.set_finished(0, true);
    assert_eq!(
        context.seek(5000, SEEK_SET),
        SeekAction::Fetch { from: 5000, reply: 5000 }
    );
    context.add_reader(5000);
    assert!(context.covers(5000));
    assert!(!context.covers(4999));
    assert_eq!(context.buffer.closest_available_byte(5000), 9);
    assert_eq!(context.buffer.first_missing(0, 20), Some(10));
    assert!(context.buffer.range_ready(0, 10));
    assert_eq!(context.buffer.len(), size);
}

#[test]
fn seeks_fetch_what_is_a_segment_away() {
    let size = DATA_SEGMENT_SIZE + 100;
    let mut context = CloudStorageReaderContext::new(size);
    let near = DATA_SEGMENT_SIZE as i64 - 1;
    assert_eq!(context.seek(near, SEEK_SET), SeekAction::Reply(near));
    let far = DATA_SEGMENT_SIZE as i64;
    assert_eq!(
        context.seek(far, SEEK_SET),
        SeekAction::Fetch { from: DATA_SEGMENT_SIZE, reply: far }
    );
}

#[test]
fn openers_go_by_the_scheme() {
    let config = || Some(S3Config { region: Some("r".into()), ..Default::default() });
    match choose_opener("gs://b/k", config()).unwrap() {
        InputOpener::Cloud(CloudUri::Gcs(uri)) => assert_eq!(uri.key, "k"),
        _ => panic!("expected an object in GCS"),
    }
    match choose_opener("s3://b/k", config()).unwrap() {
        InputOpener::Cloud(CloudUri::S3(uri, Some(config))) => {
            assert_eq!(uri.bucket, "b");
            assert_eq!(config.region.as_deref(), Some("r"));
        }
        _ => panic!("expected an object in S3"),
    }
    for name in ["file.mp4", "http://example.com/a.mp4", "/tmp/gs://b/k"] {
        assert!(matches!(choose_opener(name, None), Ok(InputOpener::Direct)));
    }
    assert!(matches!(choose_opener("s3://b", None), Err(UriError::MissingKey)));
    assert_eq!(protocol_whitelist(), "file,http,https,tcp,tls,crypto");
}

#[test]
fn sources_are_opened_by_name_or_from_memory() {
    match MediaSource::Bytes(vec![1, 2, 3]).open(None) {
        Ok(OpenPlan::Memory(mut reader)) => assert_eq!(reader.seek(0, AVSEEK_SIZE), 3),
        _ => panic!("expected a reader of memory"),
    }
    match MediaSource::Uri("a.mp4".to_string()).open(None) {
        Ok(OpenPlan::Named { name, opener: InputOpener::Direct }) => assert_eq!(name, "a.mp4"),
        _ => panic!("expected a named source"),
    }
    match MediaSource::Uri("a\0b".to_string()).open(None) {
        Err(OpenError::Name(nul)) => assert_eq!(nul.at, 1),
        _ => panic!("expected the name to be refused"),
    }
    // The place is counted in bytes.
    for name in ["\u{e9}\0", "\0", "a\u{20ac}\u{1f3ac}\0b\0", "s3://\u{7ff}\u{800}\0"] {
        let expected = name.bytes().position(|byte| byte == 0).unwrap();
        match MediaSource::Uri(name.to_string()).open(None) {
            Err(OpenError::Name(nul)) => assert_eq!(nul.at, expected),
            _ => panic!("expected the name to be refused"),
        }
    }
    assert!(matches!(
        MediaSource::Uri("s3://b".to_string()).open(None),
        Err(OpenError::Uri(UriError::MissingKey))
    ));
}

#[test]
fn the_size_limit_comes_from_the_environment() {
    assert_eq!(max_cloud_object_size(None), DEFAULT_MAX_CLOUD_OBJECT_SIZE);
    assert_eq!(DEFAULT_MAX_CLOUD_OBJECT_SIZE, 16 * 1024 * 1024 * 1024);
    assert_eq!(max_cloud_object_size(Some("123")), 123);
    assert_eq!(max_cloud_object_size(Some("+7")), 7);
    for wrong in ["", "+", "-1", " 1", "1 ", "1e3", "18446744073709551616", "x"] {
        assert!(wrong.parse::<u64>().is_err());
        assert_eq!(max_cloud_object_size(Some(wrong)), DEFAULT_MAX_CLOUD_OBJECT_SIZE);
    }
    assert_eq!(max_cloud_object_size(Some("18446744073709551615")), u64::MAX);
    assert_eq!(check_object_size(5, 5), Ok(()));
    assert_eq!(check_object_size(6, 5), Err(ObjectTooLarge { size: 6, max_size: 5 }));
}

#[test]
fn ranges_and_sizes_of_objects() {
    assert_eq!(range_header(0), "bytes=0-");
    assert_eq!(range_header(1048576), "bytes=1048576-");
    assert_eq!(read_offset(0), None);
    assert_eq!(read_offset(9), Some(9));
    assert_eq!(gcs_object_size(77), 77);
    assert_eq!(gcs_object_size(-1), u64::MAX);
    assert_eq!(s3_object_size(10, Some(5)), 15);
    assert_eq!(s3_object_size(10, Some(-5)), 10);
    assert_eq!(s3_object_size(10, None), 10);
}

#[test]
fn return_codes_below_zero_are_errors() {
    assert_eq!((-5i32).upgrade(), Err(-5));
    assert_eq!(0i32.upgrade(), Ok(0));
    assert_eq!(7i32.upgrade(), Ok(7));
}
