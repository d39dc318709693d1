//! Copies between decoded frames, whose rows may be padded, and outputs, whose rows are not.
use vstd::prelude::*;

use crate::decoder::format::{PixelFormat, SampleFormat};
use crate::decoder::frame::StreamType;

verus! {

/// One plane of a frame: its bytes, and how far apart its rows begin.
#[derive(Clone, Copy, Debug)]
pub struct Plane<'a> {
    pub data: &'a [u8],
    pub linesize: usize,
}

impl<'a> Plane<'a> {
    /// The plane holds `rows` rows of `row_bytes` bytes.
    pub open spec fn holds(self, rows: int, row_bytes: int) -> bool {
        &&& row_bytes <= self.linesize
        &&& rows > 0 ==> (rows - 1) * self.linesize + row_bytes <= self.data@.len()
    }
}

/// A video frame in system memory.
#[derive(Debug)]
pub struct PictureFrame<'a> {
    pub format: PixelFormat,
    pub width: i32,
    pub height: i32,
    pub planes: Vec<Plane<'a>>,
}

/// The element type of an output.
#[derive(Clone, Copy, Debug, PartialEq, Eq, Structural)]
pub enum TensorKind {
    Uint8,
    Float,
    Other,
}

/// Why a frame is not copied.
#[derive(Clone, Copy, Debug, PartialEq, Eq, Structural)]
pub enum ConversionError {
    /// The frame has another pixel format.
    PixelFormat(PixelFormat),
    /// The frame has another sample format.
    SampleFormat(SampleFormat),
    /// The output has another element type.
    Kind(TensorKind),
    /// The output has another shape.
    Shape,
}

/// The first `rows` rows of a plane, without what lies between them.
pub open spec fn packed_rows(data: Seq<u8>, linesize: int, row_bytes: int, rows: int) -> Seq<u8>
    decreases rows,
{
    if rows <= 0 {
        seq![]
    } else {
        packed_rows(data, linesize, row_bytes, rows - 1) + data.subrange(
            (rows - 1) * linesize,
            (rows - 1) * linesize + row_bytes,
        )
    }
}

/// Rows of `row_bytes` bytes, each filled up with zeros to `linesize`.
pub open spec fn padded_rows(data: Seq<u8>, linesize: int, row_bytes: int, rows: int) -> Seq<u8>
    decreases rows,
{
    if rows <= 0 {
        seq![]
    } else {
        padded_rows(data, linesize, row_bytes, rows - 1) + data.subrange(
            (rows - 1) * row_bytes,
            rows * row_bytes,
        ) + Seq::new((linesize - row_bytes) as nat, |i: int| 0u8)
    }
}

/// `target` with `piece` in it from `at` on.
pub open spec fn spliced(target: Seq<u8>, at: int, piece: Seq<u8>) -> Seq<u8> {
    Seq::new(
        target.len(),
        |i: int| if at <= i < at + piece.len() { piece[i - at] } else { target[i] },
    )
}

proof fn lemma_packed_rows_len(data: Seq<u8>, linesize: int, row_bytes: int, rows: int)
    requires
        0 <= rows,
        0 <= row_bytes <= linesize,
        rows > 0 ==> (rows - 1) * linesize + row_bytes <= data.len(),
    ensures
        packed_rows(data, linesize, row_bytes, rows).len() == rows * row_bytes,
    decreases rows,
{
    if rows > 0 {
        assert(0 <= (rows - 1) * linesize) by (nonlinear_arith)
            requires
                rows > 0,
                linesize >= 0,
        ;
        if rows > 1 {
            assert((rows - 2) * linesize + linesize == (rows - 1) * linesize) by (nonlinear_arith);
        }
        lemma_packed_rows_len(data, linesize, row_bytes, rows - 1);
        assert((rows - 1) * row_bytes + row_bytes == rows * row_bytes) by (nonlinear_arith);
    } else {
        assert(rows * row_bytes == 0) by (nonlinear_arith)
            requires
                rows == 0,
        ;
    }
}

/// Copies `n` bytes from one place to another.
fn copy_bytes(source: &[u8], from: usize, target: &mut [u8], to: usize, n: usize)
    requires
        from + n <= source@.len(),
        to + n <= old(target)@.len(),
    ensures
        final(target)@ == spliced(
            old(target)@,
            to as int,
            source@.subrange(from as int, from + n),
        ),
{
    let ghost before = target@;
    let ghost piece = source@.subrange(from as int, from + n);
    let mut i: usize = 0;
    while i < n
        invariant
            i <= n,
            from + n <= source@.len(),
            to + n <= before.len(),
            piece == source@.subrange(from as int, from + n),
            target@ == spliced(before, to as int, piece.take(i as int)),
            target@.len() == before.len(),
        decreases n - i,
    {
        assert(source@.len() <= usize::MAX) by {
            assert(source.len() == source@.len());
        }
        assert(target@.len() <= usize::MAX) by {
            assert(target.len() == target@.len());
        }
        target[to + i] = source[from + i];
        i = i + 1;
        assert(target@ =~= spliced(before, to as int, piece.take(i as int)));
    }
    assert(piece.take(n as int) =~= piece);
    assert(n == 0 ==> target@ =~= spliced(before, to as int, piece));
}

/// Copies the rows of a plane one after the other into `target` from `at` on.
fn copy_rows(plane: &Plane<'_>, row_bytes: usize, rows: usize, target: &mut [u8], at: usize)
    requires
        plane.holds(rows as int, row_bytes as int),
        at + rows * row_bytes <= old(target)@.len(),
    ensures
        packed_rows(plane.data@, plane.linesize as int, row_bytes as int, rows as int).len()
            == rows * row_bytes,
        final(target)@ == spliced(
            old(target)@,
            at as int,
            packed_rows(plane.data@, plane.linesize as int, row_bytes as int, rows as int),
        ),
{
    let ghost before = target@;
    let ghost data = plane.data@;
    let linesize: usize = plane.linesize;
    let mut row: usize = 0;
    let mut from: usize = 0;
    let mut to: usize = at;
    proof {
        assert(target.len() == target@.len());
        assert(0 * linesize == 0 && 0 * row_bytes == 0) by (nonlinear_arith);
        lemma_packed_rows_len(data, linesize as int, row_bytes as int, rows as int);
    }
    while row < rows
        invariant
            row <= rows,
            data == plane.data@,
            linesize == plane.linesize,
            row_bytes <= linesize,
            rows > 0 ==> (rows - 1) * linesize + row_bytes <= data.len(),
            at + rows * row_bytes <= before.len(),
            before.len() <= usize::MAX,
            row < rows ==> from == row * linesize,
            to == at + row * row_bytes,
            packed_rows(data, linesize as int, row_bytes as int, row as int).len() == row
                * row_bytes,
            target@ == spliced(
                before,
                at as int,
                packed_rows(data, linesize as int, row_bytes as int, row as int),
            ),
        decreases rows - row,
    {
        proof {
            assert(plane.data.len() == plane.data@.len());
            assert(row * linesize <= (rows - 1) * linesize) by (nonlinear_arith)
                requires
                    row <= rows - 1,
                    linesize >= 0,
            ;
            assert((row + 1) * row_bytes == row * row_bytes + row_bytes) by (nonlinear_arith);
            assert((row + 1) * row_bytes <= rows * row_bytes) by (nonlinear_arith)
                requires
                    row + 1 <= rows,
                    row_bytes >= 0,
            ;
            assert((row + 1) * linesize == row * linesize + linesize) by (nonlinear_arith);
        }
        let ghost done = packed_rows(data, linesize as int, row_bytes as int, row as int);
        copy_bytes(plane.data, from, target, to, row_bytes);
        proof {
            let piece = data.subrange(from as int, from + row_bytes);
            let more = packed_rows(data, linesize as int, row_bytes as int, row + 1);
            assert(more == done + piece);
            assert(target@ =~= spliced(before, at as int, more));
        }
        to = to + row_bytes;
        row = row + 1;
        if row < rows {
            proof {
                assert(row * linesize <= (rows - 1) * linesize) by (nonlinear_arith)
                    requires
                        row <= rows - 1,
                        linesize >= 0,
                ;
            }
            from = from + linesize;
        }
    }
    assert(rows == 0 ==> target@ =~= before);
}

/// The shape of an output for one frame: with or without a leading dimension of one.
pub open spec fn is_frame_shape(shape: Seq<i64>, a: int, b: int, c: int) -> bool {
    ||| shape.len() == 3 && shape[0] == a && shape[1] == b && shape[2] == c
    ||| shape.len() == 4 && shape[0] == 1 && shape[1] == a && shape[2] == b && shape[3] == c
}

fn has_frame_shape(shape: &Vec<i64>, a: i64, b: i64, c: i64) -> (r: bool)
    ensures
        r == is_frame_shape(shape@, a as int, b as int, c as int),
{
    if shape.len() == 3 {
        shape[0] == a && shape[1] == b && shape[2] == c
    } else if shape.len() == 4 {
        shape[0] == 1 && shape[1] == a && shape[2] == b && shape[3] == c
    } else {
        false
    }
}

/// Why an RGB24 frame is not copied into an output of this type and shape.
pub open spec fn rgb24_error(
    frame: PictureFrame<'_>,
    kind: TensorKind,
    shape: Seq<i64>,
) -> Option<ConversionError> {
    if frame.format != PixelFormat::Rgb24 {
        Some(ConversionError::PixelFormat(frame.format))
    } else if kind != TensorKind::Uint8 {
        Some(ConversionError::Kind(kind))
    } else if !is_frame_shape(shape, frame.height as int, frame.width as int, 3) {
        Some(ConversionError::Shape)
    } else {
        None
    }
}

/// The rows of an RGB24 frame.
pub open spec fn rgb_rows(frame: PictureFrame<'_>) -> Seq<u8> {
    packed_rows(
        frame.planes@[0].data@,
        frame.planes@[0].linesize as int,
        frame.width * 3,
        frame.height as int,
    )
}

/// Copies an RGB24 frame into an output of shape `[H, W, 3]` or `[1, H, W, 3]`.
pub fn convert_rgb24_frame_to_tensor(
    frame: &PictureFrame<'_>,
    kind: TensorKind,
    shape: &Vec<i64>,
    dest: &mut [u8],
) -> (r: Result<(), ConversionError>)
    requires
        rgb24_error(*frame, kind, shape@) is None ==> {
            &&& frame.width >= 0
            &&& frame.height >= 0
            &&& frame.planes@.len() > 0
            &&& frame.planes@[0].holds(frame.height as int, frame.width * 3)
            &&& old(dest)@.len() == frame.height * (frame.width * 3)
        },
    ensures
        match rgb24_error(*frame, kind, shape@) {
            Some(error) => {
                &&& r == Err::<(), ConversionError>(error)
                &&& final(dest)@ == old(dest)@
            },
            None => {
                &&& r == Ok::<(), ConversionError>(())
                &&& final(dest)@ == rgb_rows(*frame)
            },
        },
{
    if frame.format != PixelFormat::Rgb24 {
        return Err(ConversionError::PixelFormat(frame.format));
    }
    if kind != TensorKind::Uint8 {
        return Err(ConversionError::Kind(kind));
    }
    if !has_frame_shape(shape, frame.height as i64, frame.width as i64, 3) {
        return Err(ConversionError::Shape);
    }
    let height: usize = frame.height as usize;
    let stride: usize = (frame.width as u64 * 3) as usize;
    let plane = frame.planes[0];
    copy_rows(&plane, stride, height, dest, 0);
    proof {
        let rows = packed_rows(plane.data@, plane.linesize as int, stride as int, height as int);
        assert(dest@ =~= rows);
    }
    Ok(())
}

/// Why a planar float frame is not copied into an output of this type and shape.
pub open spec fn gbrpf32_error(
    frame: PictureFrame<'_>,
    kind: TensorKind,
    shape: Seq<i64>,
) -> Option<ConversionError> {
    if frame.format != PixelFormat::Gbrpf32le {
        Some(ConversionError::PixelFormat(frame.format))
    } else if kind != TensorKind::Float {
        Some(ConversionError::Kind(kind))
    } else if !is_frame_shape(shape, 3, frame.height as int, frame.width as int) {
        Some(ConversionError::Shape)
    } else {
        None
    }
}

/// The rows of a plane of floats.
pub open spec fn float_plane(plane: Plane<'_>, width: i32, height: i32) -> Seq<u8> {
    packed_rows(plane.data@, plane.linesize as int, width * 4, height as int)
}

/// The planes of a frame of float planes G, B, R, in the order R, G, B.
pub open spec fn rgb_planes(frame: PictureFrame<'_>) -> Seq<u8> {
    float_plane(frame.planes@[2], frame.width, frame.height) + float_plane(
        frame.planes@[0],
        frame.width,
        frame.height,
    ) + float_plane(frame.planes@[1], frame.width, frame.height)
}

/// Copies a frame of float planes G, B, R into an output of shape `[3, H, W]` or `[1, 3, H, W]`,
/// whose channels are R, G, B.
pub fn convert_gbrpf32_frame_to_tensor(
    frame: &PictureFrame<'_>,
    kind: TensorKind,
    shape: &Vec<i64>,
    dest: &mut [u8],
) -> (r: Result<(), ConversionError>)
    requires
        gbrpf32_error(*frame, kind, shape@) is None ==> {
            &&& frame.width >= 0
            &&& frame.height >= 0
            &&& frame.planes@.len() >= 3
            &&& forall|p: int|
                0 <= p < 3 ==> (#[trigger] frame.planes@[p]).holds(
                    frame.height as int,
                    frame.width * 4,
                )
            &&& old(dest)@.len() == 3 * (frame.height * (frame.width * 4))
        },
    ensures
        match gbrpf32_error(*frame, kind, shape@) {
            Some(error) => {
                &&& r == Err::<(), ConversionError>(error)
                &&& final(dest)@ == old(dest)@
            },
            None => {
                &&& r == Ok::<(), ConversionError>(())
                &&& final(dest)@ == rgb_planes(*frame)
            },
        },
{
    if frame.format != PixelFormat::Gbrpf32le {
        return Err(ConversionError::PixelFormat(frame.format));
    }
    if kind != TensorKind::Float {
        return Err(ConversionError::Kind(kind));
    }
    if !has_frame_shape(shape, 3, frame.height as i64, frame.width as i64) {
        return Err(ConversionError::Shape);
    }
    let height: usize = frame.height as usize;
    let row_bytes: usize = (frame.width as u64 * 4) as usize;
    proof {
        assert(dest.len() == dest@.len());
        assert(frame.planes@[0].holds(frame.height as int, frame.width * 4));
        assert(row_bytes == frame.width * 4);
        assert(0 <= height * row_bytes) by (nonlinear_arith)
            requires
                height >= 0,
                row_bytes >= 0,
        ;
        assert(height * row_bytes == frame.height * (frame.width * 4));
    }
    let plane_bytes: usize = height * row_bytes;
    let red = frame.planes[2];
    let green = frame.planes[0];
    let blue = frame.planes[1];
    copy_rows(&red, row_bytes, height, dest, 0);
    copy_rows(&green, row_bytes, height, dest, plane_bytes);
    copy_rows(&blue, row_bytes, height, dest, 2 * plane_bytes);
    proof {
        let r = float_plane(red, frame.width, frame.height);
        let g = float_plane(green, frame.width, frame.height);
        let b = float_plane(blue, frame.width, frame.height);
        assert(r.len() == plane_bytes && g.len() == plane_bytes && b.len() == plane_bytes);
        assert(dest@ =~= r + g + b);
    }
    Ok(())
}

/// The shape of an output for a single frame.
pub open spec fn shape_of_frame(
    stream_type: StreamType,
    width: i32,
    height: i32,
    nb_samples: i32,
    num_channels: i32,
) -> Seq<i64> {
    match stream_type {
        StreamType::Video => seq![1i64, height as i64, width as i64, 3i64],
        StreamType::Audio => seq![num_channels as i64, nb_samples as i64],
    }
}

/// The shape of an output for a single frame: rows of packed pixels, or a row of samples for each
/// channel.
pub fn single_frame_shape(
    stream_type: StreamType,
    width: i32,
    height: i32,
    nb_samples: i32,
    num_channels: i32,
) -> (shape: Vec<i64>)
    ensures
        shape@ == shape_of_frame(stream_type, width, height, nb_samples, num_channels),
{
    let shape: Vec<i64> = match stream_type {
        StreamType::Video => vec![1, height as i64, width as i64, 3],
        StreamType::Audio => vec![num_channels as i64, nb_samples as i64],
    };
    assert(shape@ =~= shape_of_frame(stream_type, width, height, nb_samples, num_channels));
    shape
}

/// A video frame that owns its one plane.
#[derive(Debug)]
pub struct OwnedPicture {
    pub format: PixelFormat,
    pub width: i32,
    pub height: i32,
    pub data: Vec<u8>,
    pub linesize: usize,
}

impl OwnedPicture {
    /// The frame, without its bytes being copied.
    pub fn as_frame(&self) -> (frame: PictureFrame<'_>)
        ensures
            frame.format == self.format,
            frame.width == self.width,
            frame.height == self.height,
            frame.planes@.len() == 1,
            frame.planes@[0].data@ == self.data@,
            frame.planes@[0].linesize == self.linesize,
    {
        let plane = Plane { data: self.data.as_slice(), linesize: self.linesize };
        let mut planes: Vec<Plane<'_>> = Vec::new();
        planes.push(plane);
        PictureFrame { format: self.format, width: self.width, height: self.height, planes }
    }
}

/// Why an output does not make an RGB24 frame.
pub open spec fn rgb24_tensor_error(kind: TensorKind, shape: Seq<i64>) -> Option<ConversionError> {
    if kind != TensorKind::Uint8 {
        Some(ConversionError::Kind(kind))
    } else if shape.len() != 3 {
        Some(ConversionError::Shape)
    } else {
        None
    }
}

/// The picture shows an output of shape `[H, W, C]`, in rows that are `linesize` bytes apart.
pub open spec fn shows(
    picture: OwnedPicture,
    shape: Seq<i64>,
    tensor: Seq<u8>,
    linesize: int,
) -> bool {
    &&& picture.format == PixelFormat::Rgb24
    &&& picture.height == shape[0]
    &&& picture.width == shape[1]
    &&& picture.linesize == linesize
    &&& picture.data@ == padded_rows(tensor, linesize, shape[1] * shape[2], shape[0] as int)
}

/// Makes an RGB24 frame, whose rows are `linesize` bytes apart, of an output of shape `[H, W, C]`.
pub fn convert_rgb24_tensor_to_avframe(
    kind: TensorKind,
    shape: &Vec<i64>,
    tensor: &[u8],
    linesize: usize,
) -> (r: Result<OwnedPicture, ConversionError>)
    requires
        rgb24_tensor_error(kind, shape@) is None ==> {
            &&& 0 <= shape@[0] <= i32::MAX
            &&& 0 <= shape@[1] <= i32::MAX
            &&& 0 <= shape@[2]
            &&& shape@[1] * shape@[2] <= linesize
            &&& tensor@.len() == shape@[0] * (shape@[1] * shape@[2])
            &&& shape@[0] * linesize <= usize::MAX
        },
    ensures
        match rgb24_tensor_error(kind, shape@) {
            Some(error) => r == Err::<OwnedPicture, ConversionError>(error),
            None => {
                &&& r matches Ok(picture)
                &&& shows(picture, shape@, tensor@, linesize as int)
                &&& picture.data@.len() == shape@[0] * linesize
            },
        },
{
    if kind != TensorKind::Uint8 {
        return Err(ConversionError::Kind(kind));
    }
    if shape.len() != 3 {
        return Err(ConversionError::Shape);
    }
    let height: usize = shape[0] as usize;
    proof {
        assert(0 <= shape@[1] * shape@[2]) by (nonlinear_arith)
            requires
                shape@[1] >= 0,
                shape@[2] >= 0,
        ;
        assert(shape@[1] * shape@[2] <= u64::MAX);
    }
    let stride: usize = ((shape[1] as i128) * (shape[2] as i128)) as usize;
    let mut data: Vec<u8> = Vec::new();
    let mut row: usize = 0;
    proof {
        assert(0 * linesize == 0) by (nonlinear_arith);
    }
    while row < height
        invariant
            row <= height,
            stride <= linesize,
            tensor@.len() == height * stride,
            height * linesize <= usize::MAX,
            data@ == padded_rows(tensor@, linesize as int, stride as int, row as int),
            data@.len() == row * linesize,
        decreases height - row,
    {
        proof {
            assert(tensor.len() == tensor@.len());
            assert(row * stride + stride == (row + 1) * stride) by (nonlinear_arith);
            assert((row + 1) * stride <= height * stride) by (nonlinear_arith)
                requires
                    row + 1 <= height,
                    stride >= 0,
            ;
            assert(0 <= row * stride) by (nonlinear_arith)
                requires
                    row >= 0,
                    stride >= 0,
            ;
            assert(row * linesize + linesize == (row + 1) * linesize) by (nonlinear_arith);
            assert((row + 1) * linesize <= height * linesize) by (nonlinear_arith)
                requires
                    row + 1 <= height,
                    linesize >= 0,
            ;
        }
        let from: usize = row * stride;
        let ghost done = data@;
        append_bytes(&mut data, tensor, from, stride);
        append_zeros(&mut data, linesize - stride);
        proof {
            let more = padded_rows(tensor@, linesize as int, stride as int, row + 1);
            assert(data@ =~= more);
        }
        row = row + 1;
    }
    Ok(
        OwnedPicture {
            format: PixelFormat::Rgb24,
            width: shape[1] as i32,
            height: shape[0] as i32,
            data,
            linesize,
        },
    )
}

fn append_bytes(target: &mut Vec<u8>, source: &[u8], from: usize, n: usize)
    requires
        from + n <= source@.len(),
    ensures
        final(target)@ == old(target)@ + source@.subrange(from as int, from + n),
{
    let ghost before = target@;
    let mut i: usize = 0;
    while i < n
        invariant
            i <= n,
            from + n <= source@.len(),
            target@ == before + source@.subrange(from as int, from + i),
        decreases n - i,
    {
        assert(source.len() == source@.len());
        target.push(source[from + i]);
        i = i + 1;
        assert(target@ =~= before + source@.subrange(from as int, from + i));
    }
    assert(n == 0 ==> target@ =~= before + source@.subrange(from as int, from + n));
}

fn append_zeros(target: &mut Vec<u8>, n: usize)
    ensures
        final(target)@ == old(target)@ + Seq::new(n as nat, |i: int| 0u8),
{
    let ghost before = target@;
    let mut i: usize = 0;
    while i < n
        invariant
            i <= n,
            target@ == before + Seq::new(i as nat, |i: int| 0u8),
        decreases n - i,
    {
        target.push(0);
        i = i + 1;
        assert(target@ =~= before + Seq::new(i as nat, |i: int| 0u8));
    }
    assert(n == 0 ==> target@ =~= before + Seq::new(n as nat, |i: int| 0u8));
}

proof fn lemma_padded_rows_len(data: Seq<u8>, linesize: int, row_bytes: int, rows: int)
    requires
        0 <= rows,
        0 <= row_bytes <= linesize,
        rows * row_bytes <= data.len(),
    ensures
        padded_rows(data, linesize, row_bytes, rows).len() == rows * linesize,
    decreases rows,
{
    if rows > 0 {
        assert((rows - 1) * row_bytes + row_bytes == rows * row_bytes) by (nonlinear_arith);
        assert(0 <= (rows - 1) * row_bytes) by (nonlinear_arith)
            requires
                rows > 0,
                row_bytes >= 0,
        ;
        lemma_padded_rows_len(data, linesize, row_bytes, rows - 1);
        assert((rows - 1) * linesize + linesize == rows * linesize) by (nonlinear_arith);
    } else {
        assert(rows * linesize == 0) by (nonlinear_arith)
            requires
                rows == 0,
        ;
    }
}

/// What follows the rows makes no difference to them.
proof fn lemma_packed_rows_prefix(
    data: Seq<u8>,
    more: Seq<u8>,
    linesize: int,
    row_bytes: int,
    rows: int,
)
    requires
        0 <= rows,
        0 <= row_bytes <= linesize,
        rows > 0 ==> (rows - 1) * linesize + row_bytes <= data.len(),
    ensures
        packed_rows(data + more, linesize, row_bytes, rows) == packed_rows(
            data,
            linesize,
            row_bytes,
            rows,
        ),
    decreases rows,
{
    if rows > 0 {
        if rows > 1 {
            assert((rows - 2) * linesize + linesize == (rows - 1) * linesize) by (nonlinear_arith);
        }
        assert(0 <= (rows - 1) * linesize) by (nonlinear_arith)
            requires
                rows > 0,
                linesize >= 0,
        ;
        lemma_packed_rows_prefix(data, more, linesize, row_bytes, rows - 1);
        let from = (rows - 1) * linesize;
        assert((data + more).subrange(from, from + row_bytes) =~= data.subrange(
            from,
            from + row_bytes,
        ));
    }
}

/// Rows that are padded and then packed again are what they were: an output that is made into a
/// frame and read back is the same output, however far apart the frame's rows are.
pub proof fn law_rgb24_round_trip(data: Seq<u8>, linesize: int, row_bytes: int, rows: int)
    requires
        0 <= rows,
        0 <= row_bytes <= linesize,
        data.len() == rows * row_bytes,
    ensures
        packed_rows(
            padded_rows(data, linesize, row_bytes, rows),
            linesize,
            row_bytes,
            rows,
        ) == data,
{
    lemma_pad_then_pack(data, linesize, row_bytes, rows);
    assert(data.take(rows * row_bytes) =~= data);
}

proof fn lemma_pad_then_pack(data: Seq<u8>, linesize: int, row_bytes: int, rows: int)
    requires
        0 <= rows,
        0 <= row_bytes <= linesize,
        rows * row_bytes <= data.len(),
    ensures
        packed_rows(
            padded_rows(data, linesize, row_bytes, rows),
            linesize,
            row_bytes,
            rows,
        ) == data.take(rows * row_bytes),
    decreases rows,
{
    if rows > 0 {
        assert((rows - 1) * row_bytes + row_bytes == rows * row_bytes) by (nonlinear_arith);
        assert(0 <= (rows - 1) * row_bytes) by (nonlinear_arith)
            requires
                rows > 0,
                row_bytes >= 0,
        ;
        assert((rows - 1) * linesize + linesize == rows * linesize) by (nonlinear_arith);
        lemma_pad_then_pack(data, linesize, row_bytes, rows - 1);
        lemma_padded_rows_len(data, linesize, row_bytes, rows - 1);
        let before = padded_rows(data, linesize, row_bytes, rows - 1);
        let row = data.subrange((rows - 1) * row_bytes, rows * row_bytes);
        let gap = Seq::new((linesize - row_bytes) as nat, |i: int| 0u8);
        let all = padded_rows(data, linesize, row_bytes, rows);
        assert(all =~= before + (row + gap));
        if rows > 1 {
            assert((rows - 2) * linesize + row_bytes <= (rows - 1) * linesize)
                by (nonlinear_arith)
                requires
                    row_bytes <= linesize,
            ;
        }
        lemma_packed_rows_prefix(before, row + gap, linesize, row_bytes, rows - 1);
        let from = (rows - 1) * linesize;
        assert(all.subrange(from, from + row_bytes) =~= row);
        assert(data.take(rows * row_bytes) =~= data.take((rows - 1) * row_bytes) + row);
    } else {
        assert(rows * row_bytes == 0) by (nonlinear_arith)
            requires
                rows == 0,
        ;
        assert(data.take(0) =~= seq![]);
    }
}

/// What becomes of a frame of audio.
#[derive(Clone, Copy, Debug, PartialEq, Eq, Structural)]
pub enum AudioConversion {
    /// Its samples are made planar floats first.
    Resample,
    /// Its samples are copied.
    Copy,
}

/// What becomes of a frame of audio with this sample format.
pub open spec fn conversion_of(format: SampleFormat) -> Result<AudioConversion, ConversionError> {
    match format {
        SampleFormat::Fltp => Ok(AudioConversion::Copy),
        SampleFormat::Other(_) => Err(ConversionError::SampleFormat(format)),
        _ => Ok(AudioConversion::Resample),
    }
}

/// Decides what becomes of a frame of audio with this sample format.
fn audio_conversion(format: SampleFormat) -> (r: Result<AudioConversion, ConversionError>)
    ensures
        r == conversion_of(format),
{
    match format {
        SampleFormat::Fltp => Ok(AudioConversion::Copy),
        SampleFormat::Other(_) => Err(ConversionError::SampleFormat(format)),
        _ => Ok(AudioConversion::Resample),
    }
}

/// The bytes of one sample.
pub open spec fn sample_bytes(format: SampleFormat) -> Option<usize> {
    match format {
        SampleFormat::U8 | SampleFormat::U8P => Some(1),
        SampleFormat::S16 | SampleFormat::S16P => Some(2),
        SampleFormat::S32 | SampleFormat::S32P | SampleFormat::Flt | SampleFormat::Fltp => Some(4),
        SampleFormat::Dbl | SampleFormat::DblP | SampleFormat::S64 | SampleFormat::S64P => Some(8),
        SampleFormat::Other(_) => None,
    }
}

/// The bytes of one sample, where the format is known.
pub fn get_bytes_per_sample(format: SampleFormat) -> (r: Option<usize>)
    ensures
        r == sample_bytes(format),
{
    match format {
        SampleFormat::U8 | SampleFormat::U8P => Some(1),
        SampleFormat::S16 | SampleFormat::S16P => Some(2),
        SampleFormat::S32 | SampleFormat::S32P | SampleFormat::Flt | SampleFormat::Fltp => Some(4),
        SampleFormat::Dbl | SampleFormat::DblP | SampleFormat::S64 | SampleFormat::S64P => Some(8),
        SampleFormat::Other(_) => None,
    }
}

/// A frame of audio: one plane per channel, which may be missing.
#[derive(Debug)]
pub struct AudioFrame<'a> {
    pub format: SampleFormat,
    pub nb_samples: i32,
    pub planes: Vec<Option<&'a [u8]>>,
}

/// The part of an output that a frame of audio goes to: its channels, the samples that there is
/// room for in each, and how many bytes apart the channels begin.
#[derive(Clone, Copy, Debug, PartialEq, Eq, Structural)]
pub struct AudioDest {
    pub num_channels: usize,
    pub num_samples: usize,
    pub channel_stride: usize,
}

/// Why a frame of audio is not copied.
pub open spec fn fltp_error(frame: AudioFrame<'_>, dest: AudioDest) -> Option<ConversionError> {
    if frame.format != SampleFormat::Fltp {
        Some(ConversionError::SampleFormat(frame.format))
    } else if dest.num_channels != frame.planes@.len() {
        Some(ConversionError::Shape)
    } else {
        None
    }
}

/// The bytes that are copied of each channel: those of the samples that the frame has and that
/// there is room for.
pub open spec fn channel_bytes(nb_samples: i32, num_samples: usize) -> int {
    crate::decoder::slots::audio_step(nb_samples, num_samples as int) * 4
}

/// `target` with the first `n` bytes of each of the first `k` channels in their places.
pub open spec fn with_channels(
    target: Seq<u8>,
    planes: Seq<Option<&[u8]>>,
    stride: int,
    n: int,
    k: int,
) -> Seq<u8>
    decreases k,
{
    if k <= 0 {
        target
    } else {
        let before = with_channels(target, planes, stride, n, k - 1);
        match planes[k - 1] {
            Some(plane) => spliced(before, (k - 1) * stride, plane@.take(n)),
            None => before,
        }
    }
}

/// Copies the channels of a frame of planar floats into their places.
pub fn convert_fltp_frame_into_tensor(
    frame: &AudioFrame<'_>,
    dest: &AudioDest,
    target: &mut [u8],
) -> (r: Result<(), ConversionError>)
    requires
        fltp_error(*frame, *dest) is None ==> {
            let n = channel_bytes(frame.nb_samples, dest.num_samples);
            &&& forall|i: int|
                0 <= i < frame.planes@.len() ==> match #[trigger] frame.planes@[i] {
                    Some(plane) => n <= plane@.len(),
                    None => true,
                }
            &&& n <= dest.channel_stride
            &&& frame.planes@.len() > 0 ==> (frame.planes@.len() - 1) * dest.channel_stride + n
                <= old(target)@.len()
        },
    ensures
        match fltp_error(*frame, *dest) {
            Some(error) => {
                &&& r == Err::<(), ConversionError>(error)
                &&& final(target)@ == old(target)@
            },
            None => {
                &&& r == Ok::<(), ConversionError>(())
                &&& final(target)@ == with_channels(
                    old(target)@,
                    frame.planes@,
                    dest.channel_stride as int,
                    channel_bytes(frame.nb_samples, dest.num_samples),
                    frame.planes@.len() as int,
                )
            },
        },
{
    if frame.format != SampleFormat::Fltp {
        return Err(ConversionError::SampleFormat(frame.format));
    }
    if dest.num_channels != frame.planes.len() {
        return Err(ConversionError::Shape);
    }
    let samples: usize = if frame.nb_samples >= 0 && (frame.nb_samples as usize)
        < dest.num_samples {
        frame.nb_samples as usize
    } else {
        dest.num_samples
    };
    let bps: usize = match get_bytes_per_sample(frame.format) {
        Some(bytes) => bytes,
        None => 0,
    };
    let n: usize = (samples as u128 * bps as u128) as usize;
    let stride: usize = dest.channel_stride;
    let ghost before = target@;
    let ghost channels = frame.planes@.len() as int;
    let mut i: usize = 0;
    let mut at: usize = 0;
    proof {
        assert(target.len() == target@.len());
        assert(0 * stride == 0) by (nonlinear_arith);
    }
    while i < frame.planes.len()
        invariant
            i <= frame.planes@.len(),
            channels == frame.planes@.len(),
            forall|j: int|
                0 <= j < frame.planes@.len() ==> match #[trigger] frame.planes@[j] {
                    Some(plane) => n <= plane@.len(),
                    None => true,
                },
            n <= stride,
            channels > 0 ==> (channels - 1) * stride + n <= before.len(),
            before.len() <= usize::MAX,
            target@.len() == before.len(),
            i < channels ==> at == i * stride,
            target@ == with_channels(before, frame.planes@, stride as int, n as int, i as int),
        decreases frame.planes@.len() - i,
    {
        proof {
            assert(i * stride <= (channels - 1) * stride) by (nonlinear_arith)
                requires
                    i <= channels - 1,
                    stride >= 0,
            ;
            assert((i + 1) * stride == i * stride + stride) by (nonlinear_arith);
        }
        if let Some(plane) = frame.planes[i] {
            assert(frame.planes@[i as int] == Some(plane));
            copy_bytes(plane, 0, target, at, n);
            assert(plane@.subrange(0, 0 + n) =~= plane@.take(n as int));
        }
        i = i + 1;
        if i < frame.planes.len() {
            proof {
                assert(i * stride <= (channels - 1) * stride) by (nonlinear_arith)
                    requires
                        i <= channels - 1,
                        stride >= 0,
                ;
            }
            at = at + stride;
        }
    }
    Ok(())
}

/// What becomes of a frame of audio, and of the output that it goes to.
pub open spec fn converted_audio(frame: AudioFrame<'_>, dest: AudioDest, target: Seq<u8>) -> (
    Result<AudioConversion, ConversionError>,
    Seq<u8>,
) {
    match conversion_of(frame.format) {
        Ok(AudioConversion::Copy) => match fltp_error(frame, dest) {
            Some(error) => (Err(error), target),
            None => (
                Ok(AudioConversion::Copy),
                with_channels(
                    target,
                    frame.planes@,
                    dest.channel_stride as int,
                    channel_bytes(frame.nb_samples, dest.num_samples),
                    frame.planes@.len() as int,
                ),
            ),
        },
        other => (other, target),
    }
}

/// Copies a frame of audio into its place, where its samples are planar floats already. The result
/// says whether they were, or have to be made so first, in which case nothing is copied.
pub fn convert_audio_into_tensor(
    frame: &AudioFrame<'_>,
    dest: &AudioDest,
    target: &mut [u8],
) -> (r: Result<AudioConversion, ConversionError>)
    requires
        fltp_error(*frame, *dest) is None ==> {
            let n = channel_bytes(frame.nb_samples, dest.num_samples);
            &&& forall|i: int|
                0 <= i < frame.planes@.len() ==> match #[trigger] frame.planes@[i] {
                    Some(plane) => n <= plane@.len(),
                    None => true,
                }
            &&& n <= dest.channel_stride
            &&& frame.planes@.len() > 0 ==> (frame.planes@.len() - 1) * dest.channel_stride + n
                <= old(target)@.len()
        },
    ensures
        (r, final(target)@) == converted_audio(*frame, *dest, old(target)@),
{
    match audio_conversion(frame.format) {
        Ok(AudioConversion::Copy) => match convert_fltp_frame_into_tensor(frame, dest, target) {
            Ok(_) => Ok(AudioConversion::Copy),
            Err(error) => Err(error),
        },
        Ok(AudioConversion::Resample) => Ok(AudioConversion::Resample),
        Err(error) => Err(error),
    }
}

/// A frame of audio that owns its planes.
#[derive(Debug)]
pub struct OwnedAudio {
    pub nb_samples: i32,
    pub sample_rate: i32,
    pub planes: Vec<Vec<u8>>,
}

impl OwnedAudio {
    /// The frame, of planar floats, without its bytes being copied.
    pub fn as_frame(&self) -> (frame: AudioFrame<'_>)
        ensures
            frame.format == SampleFormat::Fltp,
            frame.nb_samples == self.nb_samples,
            frame.planes@.len() == self.planes@.len(),
            forall|i: int|
                0 <= i < self.planes@.len() ==> (#[trigger] frame.planes@[i] matches Some(plane)
                    && plane@ == self.planes@[i]@),
    {
        let mut planes: Vec<Option<&[u8]>> = Vec::new();
        let mut i: usize = 0;
        while i < self.planes.len()
            invariant
                i <= self.planes@.len(),
                planes@.len() == i,
                forall|j: int|
                    0 <= j < i ==> (#[trigger] planes@[j] matches Some(plane) && plane@
                        == self.planes@[j]@),
            decreases self.planes@.len() - i,
        {
            planes.push(Some(self.planes[i].as_slice()));
            i = i + 1;
        }
        AudioFrame { format: SampleFormat::Fltp, nb_samples: self.nb_samples, planes }
    }
}

/// The bytes of channel `i` in an output whose channels follow on one another.
pub open spec fn channel(data: Seq<u8>, bytes: int, i: int) -> Seq<u8> {
    data.subrange(i * bytes, i * bytes + bytes)
}

/// The frame holds an output of shape `[channels, samples]`.
pub open spec fn sounds(
    audio: OwnedAudio,
    shape: Seq<i64>,
    tensor: Seq<u8>,
    sample_rate: i32,
) -> bool {
    &&& audio.nb_samples == shape[1]
    &&& audio.sample_rate == sample_rate
    &&& audio.planes@.len() == shape[0]
    &&& forall|i: int|
        0 <= i < audio.planes@.len() ==> (#[trigger] audio.planes@[i])@ == channel(
            tensor,
            shape[1] * 4,
            i,
        )
}

/// Makes a frame of planar floats of an output of shape `[channels, samples]`.
pub fn convert_fltp_tensor_to_avframe(shape: &Vec<i64>, tensor: &[u8], sample_rate: i32) -> (r:
    Result<OwnedAudio, ConversionError>)
    requires
        shape@.len() == 2 ==> {
            &&& 0 <= shape@[0] <= usize::MAX
            &&& 0 <= shape@[1] <= i32::MAX
            &&& tensor@.len() == shape@[0] * (shape@[1] * 4)
            &&& shape@[1] * 4 <= usize::MAX
        },
    ensures
        if shape@.len() != 2 {
            r == Err::<OwnedAudio, ConversionError>(ConversionError::Shape)
        } else {
            &&& r matches Ok(audio)
            &&& sounds(audio, shape@, tensor@, sample_rate)
        },
{
    if shape.len() != 2 {
        return Err(ConversionError::Shape);
    }
    let channels: usize = shape[0] as usize;
    let bytes: usize = (shape[1] as u64 * 4) as usize;
    let mut planes: Vec<Vec<u8>> = Vec::new();
    let mut i: usize = 0;
    while i < channels
        invariant
            i <= channels,
            tensor@.len() == channels * bytes,
            planes@.len() == i,
            forall|j: int|
                0 <= j < i ==> (#[trigger] planes@[j])@ == channel(tensor@, bytes as int, j),
        decreases channels - i,
    {
        proof {
            assert(tensor.len() == tensor@.len());
            assert(i * bytes + bytes == (i + 1) * bytes) by (nonlinear_arith);
            assert((i + 1) * bytes <= channels * bytes) by (nonlinear_arith)
                requires
                    i + 1 <= channels,
                    bytes >= 0,
            ;
            assert(0 <= i * bytes) by (nonlinear_arith)
                requires
                    i >= 0,
                    bytes >= 0,
            ;
        }
        let mut plane: Vec<u8> = Vec::new();
        append_bytes(&mut plane, tensor, i * bytes, bytes);
        assert(plane@ =~= channel(tensor@, bytes as int, i as int));
        planes.push(plane);
        i = i + 1;
    }
    Ok(OwnedAudio { nb_samples: shape[1] as i32, sample_rate, planes })
}

/// An output of audio that is made into a frame and read back is the same output.
pub proof fn law_fltp_round_trip(
    data: Seq<u8>,
    target: Seq<u8>,
    planes: Seq<Option<&[u8]>>,
    bytes: int,
)
    requires
        0 <= bytes,
        data.len() == planes.len() * bytes,
        target.len() == data.len(),
        forall|i: int|
            0 <= i < planes.len() ==> (#[trigger] planes[i] matches Some(plane) && plane@
                == channel(data, bytes, i)),
    ensures
        with_channels(target, planes, bytes, bytes, planes.len() as int) == data,
{
    lemma_channels_read_back(data, target, planes, bytes, planes.len() as int);
    assert(data.take(planes.len() * bytes) =~= data);
    assert(target.skip(planes.len() * bytes) =~= seq![]);
}

proof fn lemma_channels_read_back(
    data: Seq<u8>,
    target: Seq<u8>,
    planes: Seq<Option<&[u8]>>,
    bytes: int,
    k: int,
)
    requires
        0 <= bytes,
        0 <= k <= planes.len(),
        data.len() == planes.len() * bytes,
        target.len() == data.len(),
        forall|i: int|
            0 <= i < planes.len() ==> (#[trigger] planes[i] matches Some(plane) && plane@
                == channel(data, bytes, i)),
    ensures
        0 <= k * bytes <= data.len(),
        with_channels(target, planes, bytes, bytes, k) == data.take(k * bytes) + target.skip(
            k * bytes,
        ),
    decreases k,
{
    assert(0 <= k * bytes <= planes.len() * bytes) by (nonlinear_arith)
        requires
            0 <= k <= planes.len(),
            0 <= bytes,
    ;
    if k > 0 {
        lemma_channels_read_back(data, target, planes, bytes, k - 1);
        assert((k - 1) * bytes + bytes == k * bytes) by (nonlinear_arith);
        let before = with_channels(target, planes, bytes, bytes, k - 1);
        assert(planes[k - 1] is Some);
        let plane = planes[k - 1]->0;
        assert(plane@ == channel(data, bytes, k - 1));
        assert(plane@.take(bytes) =~= plane@);
        assert(spliced(before, (k - 1) * bytes, plane@) =~= data.take(k * bytes) + target.skip(
            k * bytes,
        ));
    } else {
        assert(k * bytes == 0) by (nonlinear_arith)
            requires
                k == 0,
        ;
        assert(data.take(0) + target.skip(0) =~= target);
    }
}

} // verus!
