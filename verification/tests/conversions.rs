use avtensor::conversion::{
    convert_audio_into_tensor, convert_fltp_frame_into_tensor, convert_fltp_tensor_to_avframe,
    convert_gbrpf32_frame_to_tensor, convert_rgb24_frame_to_tensor,
    convert_rgb24_tensor_to_avframe, get_bytes_per_sample, single_frame_shape, AudioConversion,
    AudioDest, AudioFrame, ConversionError, PictureFrame, Plane, TensorKind,
};
use avtensor::decoder::cuda::{
    library_names, CudaFault, CudaLibrary, CudaNv12ToRgb, CudaStep, ScratchLayout,
};
use avtensor::decoder::format::{PixelFormat, SampleFormat};
use avtensor::decoder::frame::StreamType;

fn noise(len: usize, modulus: u64) -> Vec<u8> {
    let mut state: u64 = 0x2545F4914F6CDD1D;
    (0..len)
        .map(|_| {
            state ^= state << 13;
            state ^= state >> 7;
            state ^= state << 17;
            (state % modulus) as u8
        })
        .collect()
}

#[test]
fn test_convert_rgb24_frame_to_tensor() {
    // Picture data.
    let width = 320;
    let height = 240;
    let num_channels = 3;

    let shape = vec![width, height, num_channels];
    let src_tensor = noise((width * height * num_channels) as usize, 255);
    let mut dest_tensor = vec![0u8; src_tensor.len()];
    let mut dest_tensor_batch_dim = vec![0u8; src_tensor.len()];

    // Perform a round trip conversion.
    let linesize = (height * num_channels) as usize + 48;
    let frame =
        convert_rgb24_tensor_to_avframe(TensorKind::Uint8, &shape, &src_tensor, linesize).unwrap();
    assert_eq!(frame.data.len(), width as usize * linesize);
    let frame = frame.as_frame();
    convert_rgb24_frame_to_tensor(&frame, TensorKind::Uint8, &shape, &mut dest_tensor).unwrap();

    // Validate batch dimension handling.
    convert_rgb24_frame_to_tensor(
        &frame,
        TensorKind::Uint8,
        &vec![1, width, height, num_channels],
        &mut dest_tensor_batch_dim,
    )
    .unwrap();

    // After a round trip conversion the Tensors should be equal.
    assert_eq!(&src_tensor, &dest_tensor);
    assert_eq!(&src_tensor, &dest_tensor_batch_dim);
}

#[test]
fn rgb24_frames_need_the_right_output() {
    let data = [1u8, 2, 3, 4, 5, 6, 0, 0, 7, 8, 9, 10, 11, 12];
    let frame = |format: PixelFormat| PictureFrame {
        format,
        width: 2,
        height: 2,
        planes: vec![Plane { data: &data, linesize: 8 }],
    };
    let mut dest = [0u8; 12];
    let rgb = frame(PixelFormat::Rgb24);
    assert_eq!(
        convert_rgb24_frame_to_tensor(
            &frame(PixelFormat::Nv12),
            TensorKind::Uint8,
            &vec![2, 2, 3],
            &mut dest
        ),
        Err(ConversionError::PixelFormat(PixelFormat::Nv12))
    );
    assert_eq!(
        convert_rgb24_frame_to_tensor(&rgb, TensorKind::Float, &vec![2, 2, 3], &mut dest),
        Err(ConversionError::Kind(TensorKind::Float))
    );
    for shape in [vec![2, 2, 4], vec![2, 2, 2, 3], vec![2, 2], vec![3, 2, 2]] {
        assert_eq!(
            convert_rgb24_frame_to_tensor(&rgb, TensorKind::Uint8, &shape, &mut dest),
            Err(ConversionError::Shape)
        );
    }
    assert_eq!(dest, [0u8; 12]);
    convert_rgb24_frame_to_tensor(&rgb, TensorKind::Uint8, &vec![2, 2, 3], &mut dest).unwrap();
    assert_eq!(dest, [1, 2, 3, 4, 5, 6, 7, 8, 9, 10, 11, 12]);
    assert_eq!(
        convert_rgb24_tensor_to_avframe(TensorKind::Float, &vec![2, 2, 3], &dest, 6).unwrap_err(),
        ConversionError::Kind(TensorKind::Float)
    );
    assert_eq!(
        convert_rgb24_tensor_to_avframe(TensorKind::Uint8, &vec![12], &dest, 12).unwrap_err(),
        ConversionError::Shape
    );
}

#[test]
fn float_planes_become_channels_in_rgb_order() {
    // One row of one pixel per plane, with different padding.
    let g = [1u8, 1, 1, 1];
    let b = [2u8, 2, 2, 2, 0, 0];
    let r = [3u8, 3, 3, 3, 0];
    let frame = PictureFrame {
        format: PixelFormat::Gbrpf32le,
        width: 1,
        height: 1,
        planes: vec![
            Plane { data: &g, linesize: 4 },
            Plane { data: &b, linesize: 6 },
            Plane { data: &r, linesize: 5 },
        ],
    };
    let mut dest = [0u8; 12];
    let shape = vec![1, 3, 1, 1];
    convert_gbrpf32_frame_to_tensor(&frame, TensorKind::Float, &shape, &mut dest).unwrap();
    assert_eq!(dest, [3, 3, 3, 3, 1, 1, 1, 1, 2, 2, 2, 2]);
    assert_eq!(
        convert_gbrpf32_frame_to_tensor(&frame, TensorKind::Uint8, &shape, &mut dest),
        Err(ConversionError::Kind(TensorKind::Uint8))
    );
    assert_eq!(
        convert_gbrpf32_frame_to_tensor(&frame, TensorKind::Float, &vec![1, 1, 3], &mut dest),
        Err(ConversionError::Shape)
    );
    let rgb = PictureFrame { format: PixelFormat::Rgb24, ..frame };
    assert_eq!(
        convert_gbrpf32_frame_to_tensor(&rgb, TensorKind::Float, &shape, &mut dest),
        Err(ConversionError::PixelFormat(PixelFormat::Rgb24))
    );
}

#[test]
fn test_convert_fltp_frame_to_tensor() {
    let sample_rate = 16000;
    let num_samples = sample_rate; // 1 second with 16000 Hz sample rate
    let nb_channels = 2; // stereo

    // Random noise
    let src: Vec<f32> = noise(nb_channels * num_samples as usize, 256)
        .into_iter()
        .map(|byte| byte as f32 / 255.0)
        .collect();
    let src_tensor: Vec<u8> = src.iter().flat_map(|sample| sample.to_le_bytes()).collect();
    let mut dest_tensor = vec![0u8; src_tensor.len()];

    let frame = convert_fltp_tensor_to_avframe(
        &vec![nb_channels as i64, num_samples],
        &src_tensor,
        sample_rate as i32,
    )
    .unwrap();
    let dest = AudioDest {
        num_channels: nb_channels,
        num_samples: num_samples as usize,
        channel_stride: num_samples as usize * 4,
    };
    convert_fltp_frame_into_tensor(&frame.as_frame(), &dest, &mut dest_tensor).unwrap();

    assert_eq!(src_tensor, dest_tensor);
    assert_eq!(frame.sample_rate, 16000);
}

#[test]
fn audio_is_cut_to_the_room_there_is() {
    let left = [1u8; 12];
    let right = [2u8; 12];
    let frame = |format: SampleFormat, nb_samples: i32| AudioFrame {
        format,
        nb_samples,
        planes: vec![Some(&left[..]), Some(&right[..])],
    };
    let dest = AudioDest { num_channels: 2, num_samples: 2, channel_stride: 10 };
    let mut target = [0u8; 20];
    convert_fltp_frame_into_tensor(&frame(SampleFormat::Fltp, 3), &dest, &mut target).unwrap();
    assert_eq!(
        target,
        [1, 1, 1, 1, 1, 1, 1, 1, 0, 0, 2, 2, 2, 2, 2, 2, 2, 2, 0, 0]
    );
    let mut target = [0u8; 20];
    convert_fltp_frame_into_tensor(&frame(SampleFormat::Fltp, 1), &dest, &mut target).unwrap();
    assert_eq!(target[..10], [1, 1, 1, 1, 0, 0, 0, 0, 0, 0]);
    // A plane that is missing leaves its channel alone.
    let gap = AudioFrame {
        format: SampleFormat::Fltp,
        nb_samples: 1,
        planes: vec![None, Some(&right[..])],
    };
    let mut target = [9u8; 20];
    convert_fltp_frame_into_tensor(&gap, &dest, &mut target).unwrap();
    assert_eq!(target[..14], [9, 9, 9, 9, 9, 9, 9, 9, 9, 9, 2, 2, 2, 2]);
    assert_eq!(
        convert_fltp_frame_into_tensor(&frame(SampleFormat::S16, 1), &dest, &mut target),
        Err(ConversionError::SampleFormat(SampleFormat::S16))
    );
    let mono = AudioDest { num_channels: 1, ..dest };
    assert_eq!(
        convert_fltp_frame_into_tensor(&frame(SampleFormat::Fltp, 1), &mono, &mut target),
        Err(ConversionError::Shape)
    );
    assert_eq!(
        convert_fltp_tensor_to_avframe(&vec![4], &[0; 16], 1).unwrap_err(),
        ConversionError::Shape
    );
}

#[test]
fn sample_formats() {
    let plane = [5u8; 4];
    let dest = AudioDest { num_channels: 1, num_samples: 1, channel_stride: 4 };
    let convert = |format: SampleFormat| {
        let frame = AudioFrame { format, nb_samples: 1, planes: vec![Some(&plane[..])] };
        let mut target = [0u8; 4];
        let converted = convert_audio_into_tensor(&frame, &dest, &mut target);
        (converted, target)
    };
    assert_eq!(convert(SampleFormat::Fltp), (Ok(AudioConversion::Copy), [5; 4]));
    for format in [
        SampleFormat::U8,
        SampleFormat::U8P,
        SampleFormat::S16,
        SampleFormat::S16P,
        SampleFormat::S32,
        SampleFormat::S32P,
        SampleFormat::Flt,
        SampleFormat::Dbl,
        SampleFormat::DblP,
        SampleFormat::S64,
        SampleFormat::S64P,
    ] {
        assert_eq!(convert(format), (Ok(AudioConversion::Resample), [0; 4]));
    }
    assert_eq!(
        convert(SampleFormat::Other(99)),
        (Err(ConversionError::SampleFormat(SampleFormat::Other(99))), [0; 4])
    );
    assert_eq!(get_bytes_per_sample(SampleFormat::U8P), Some(1));
    assert_eq!(get_bytes_per_sample(SampleFormat::S16), Some(2));
    assert_eq!(get_bytes_per_sample(SampleFormat::Fltp), Some(4));
    assert_eq!(get_bytes_per_sample(SampleFormat::S64P), Some(8));
    assert_eq!(get_bytes_per_sample(SampleFormat::Other(-1)), None);
    assert_eq!(single_frame_shape(StreamType::Video, 4, 3, 0, 0), [1, 3, 4, 3]);
    assert_eq!(single_frame_shape(StreamType::Audio, 0, 0, 1024, 2), [2, 1024]);
}

#[test]
fn tagged_frames_are_converted_in_one_step() {
    let converter = CudaNv12ToRgb::new(1, true, 640, 360);
    assert_eq!(converter.scratch_size(), None);
    assert_eq!(converter.setup().steps, [CudaStep::SetDevice, CudaStep::GetStreamContext]);
    let (conversion, run) = converter.convert_frame(704).into_dst();
    assert_eq!(run.steps, [CudaStep::SetDevice, CudaStep::Nv12ToRgb709]);
    assert_eq!(conversion.src_pitch, 704);
    assert_eq!(conversion.dst_step, 1920);
    assert_eq!((conversion.roi_width, conversion.roi_height), (640, 360));
    assert_eq!(conversion.scratch, None);
    assert!(converter.release().steps.is_empty());
}

#[test]
fn other_frames_go_through_scratch_planes() {
    let converter = CudaNv12ToRgb::new(0, false, 640, 360);
    assert_eq!(converter.scratch_size(), Some(345600));
    assert_eq!(
        converter.setup().steps,
        [CudaStep::SetDevice, CudaStep::GetStreamContext, CudaStep::AllocateScratch]
    );
    let (conversion, run) = converter.convert_frame(640).into_dst();
    assert_eq!(
        run.steps,
        [CudaStep::SetDevice, CudaStep::Nv12ToYuv420, CudaStep::YCbCr420ToRgb]
    );
    assert_eq!(
        conversion.scratch,
        Some(ScratchLayout { y: 0, cb: 230400, cr: 288000, y_step: 640, chroma_step: 320 })
    );
    assert_eq!(converter.release().steps, [CudaStep::SetDevice, CudaStep::FreeScratch]);
    // Odd sides: the planes still fit.
    let odd = CudaNv12ToRgb::new(0, false, 3, 5);
    assert_eq!(odd.scratch_size(), Some(22));
}

#[test]
fn a_step_that_fails_ends_the_run() {
    let mut run = CudaNv12ToRgb::new(0, true, 2, 2).synchronize();
    assert_eq!(run.next(), Some(CudaStep::SetDevice));
    assert_eq!(run.report(0), Ok(()));
    assert_eq!(run.next(), Some(CudaStep::Synchronize));
    assert_eq!(
        run.report(700),
        Err(CudaFault { step: CudaStep::Synchronize, status: 700 })
    );
    assert_eq!(run.next(), Some(CudaStep::Synchronize));
    assert_eq!(run.report(0), Ok(()));
    assert_eq!(run.next(), None);
}

#[test]
fn libraries_are_looked_for_under_their_names() {
    assert_eq!(
        library_names(CudaLibrary::Cudart),
        ["libcudart.so", "libcudart.so.13", "libcudart.so.12", "libcudart.so.11.0"]
    );
    assert_eq!(library_names(CudaLibrary::Nppc)[3], "libnppc.so.11");
    assert_eq!(library_names(CudaLibrary::Nppicc)[0], "libnppicc.so");
}
