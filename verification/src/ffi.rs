//! Requests as they come from outside, in words, and the shape in which results are handed back.
use vstd::prelude::*;

use crate::decoder::frame::{Frame, StreamType};
use crate::decoder::request::{self, FrameRate, HdrMode, OutputDtype, RequestError};
use crate::text::{i32_value, parse_i32, same, strip_prefix, view_of};

verus! {

/// A request for a video stream, in words.
#[derive(Clone, Debug)]
pub struct VideoStreamRequest {
    pub index: Option<usize>,
    pub width: Option<u32>,
    pub height: Option<u32>,
    pub fps: Option<FrameRate>,
    pub number_of_threads: Option<usize>,
    pub hardware_acceleration: Option<bool>,
    /// `NCHW` or `NHWC`.
    pub dimension_order: Option<String>,
    /// `cuda` or `cuda:` and a number.
    pub device: Option<String>,
    /// `uint8` or `float32`.
    pub dtype: Option<String>,
    /// `tonemap` or `raw`.
    pub hdr_mode: Option<String>,
}

/// The GPU that a word names.
pub open spec fn device_of(word: Seq<char>) -> Option<i32> {
    if word == "cuda"@ {
        Some(0)
    } else if "cuda:"@.is_prefix_of(word) {
        match i32_value(word.skip("cuda:"@.len() as int)) {
            Some(n) => Some(n as i32),
            None => None,
        }
    } else {
        None
    }
}

/// Whether a word puts the channels last, where it is one that puts them anywhere.
pub open spec fn has_channels_last(word: Seq<char>) -> Option<bool> {
    if word == "NCHW"@ {
        Some(false)
    } else if word == "NHWC"@ {
        Some(true)
    } else {
        None
    }
}

/// The element type that a word names.
pub open spec fn named_dtype(word: Seq<char>) -> Option<OutputDtype> {
    if word == "uint8"@ {
        Some(OutputDtype::Uint8)
    } else if word == "float32"@ {
        Some(OutputDtype::Float32)
    } else {
        None
    }
}

/// Whether the channels are to come last: not where nothing is said. `None` where the word is not one
/// there is.
pub open spec fn channels_last_asked(word: Option<Seq<char>>) -> Option<bool> {
    match word {
        None => Some(false),
        Some(word) => has_channels_last(word),
    }
}

/// The element type that is asked for: bytes where nothing is said. `None` where the word is not one
/// there is.
pub open spec fn dtype_asked(word: Option<Seq<char>>) -> Option<OutputDtype> {
    match word {
        None => Some(OutputDtype::Uint8),
        Some(word) => named_dtype(word),
    }
}

/// The GPU that is asked for: none where nothing is said. `None` where the word is not one there is.
pub open spec fn device_asked(word: Option<Seq<char>>) -> Option<Option<i32>> {
    match word {
        None => Some(None),
        Some(word) => match device_of(word) {
            Some(ordinal) => Some(Some(ordinal)),
            None => None,
        },
    }
}

impl VideoStreamRequest {
    /// Whether the channels are to come last.
    pub fn wants_nhwc(&self) -> (r: Result<bool, RequestError>)
        ensures
            match channels_last_asked(view_of(self.dimension_order)) {
                Some(last) => r == Ok::<bool, RequestError>(last),
                None => r matches Err(RequestError::DimensionOrder(w)) && Some(w@) == view_of(
                    self.dimension_order,
                ),
            },
    {
        match &self.dimension_order {
            None => Ok(false),
            Some(word) => {
                if same(word.as_str(), "NCHW") {
                    Ok(false)
                } else if same(word.as_str(), "NHWC") {
                    Ok(true)
                } else {
                    Err(RequestError::DimensionOrder(word.clone()))
                }
            },
        }
    }

    /// The GPU to keep the frames on.
    pub fn device_ordinal(&self) -> (r: Result<Option<i32>, RequestError>)
        ensures
            match device_asked(view_of(self.device)) {
                Some(device) => r == Ok::<Option<i32>, RequestError>(device),
                None => r matches Err(RequestError::Device(w)) && Some(w@) == view_of(self.device),
            },
    {
        match &self.device {
            None => Ok(None),
            Some(word) => {
                if same(word.as_str(), "cuda") {
                    return Ok(Some(0));
                }
                match strip_prefix(word.as_str(), "cuda:") {
                    Some(digits) => match parse_i32(digits.as_str()) {
                        Some(ordinal) => Ok(Some(ordinal)),
                        None => Err(RequestError::Device(word.clone())),
                    },
                    None => Err(RequestError::Device(word.clone())),
                }
            },
        }
    }

    /// The element type of the video.
    pub fn dtype_parsed(&self) -> (r: Result<OutputDtype, RequestError>)
        ensures
            match dtype_asked(view_of(self.dtype)) {
                Some(dtype) => r == Ok::<OutputDtype, RequestError>(dtype),
                None => r matches Err(RequestError::Dtype(w)) && Some(w@) == view_of(self.dtype),
            },
    {
        match &self.dtype {
            None => Ok(OutputDtype::Uint8),
            Some(word) => {
                if same(word.as_str(), "uint8") {
                    Ok(OutputDtype::Uint8)
                } else if same(word.as_str(), "float32") {
                    Ok(OutputDtype::Float32)
                } else {
                    Err(RequestError::Dtype(word.clone()))
                }
            },
        }
    }

    /// The words of the device, the element type and the range are all ones there are.
    pub open spec fn is_valid(self) -> bool {
        &&& view_of(self.device) matches Some(word) ==> device_of(word) is Some
        &&& view_of(self.dtype) matches Some(word) ==> word == "uint8"@ || word == "float32"@
        &&& view_of(self.hdr_mode) matches Some(word) ==> word == "tonemap"@ || word == "raw"@
    }

    /// `understood` is the request with its words understood.
    pub open spec fn is_understood(self, understood: request::VideoStreamRequest) -> bool {
        &&& understood.index == self.index
        &&& understood.width == self.width
        &&& understood.height == self.height
        &&& understood.frame_rate == self.fps
        &&& understood.number_of_threads == self.number_of_threads
        &&& understood.hardware_acceleration == self.hardware_acceleration
        &&& understood.device == match view_of(self.device) {
            Some(word) => device_of(word),
            None => None,
        }
        &&& understood.dtype == if view_of(self.dtype) == Some("float32"@) {
            OutputDtype::Float32
        } else {
            OutputDtype::Uint8
        }
        &&& understood.hdr_mode == if view_of(self.hdr_mode) == Some("raw"@) {
            HdrMode::Raw
        } else {
            HdrMode::Tonemap
        }
    }

    /// `error` tells the first word that is not understood.
    pub open spec fn is_refused(self, error: RequestError) -> bool {
        match error {
            RequestError::Device(w) => view_of(self.device) == Some(w@) && device_of(w@) is None,
            RequestError::Dtype(w) => {
                &&& view_of(self.device) matches Some(word) ==> device_of(word) is Some
                &&& view_of(self.dtype) == Some(w@)
                &&& w@ != "uint8"@ && w@ != "float32"@
            },
            RequestError::HdrMode(w) => {
                &&& view_of(self.device) matches Some(word) ==> device_of(word) is Some
                &&& view_of(self.dtype) matches Some(word) ==> word == "uint8"@ || word
                    == "float32"@
                &&& view_of(self.hdr_mode) == Some(w@)
                &&& w@ != "tonemap"@ && w@ != "raw"@
            },
            RequestError::DimensionOrder(_) => false,
        }
    }

    /// The request with its words understood; the first word that is not understood, in the order
    /// device, element type, range.
    pub fn to_decoder_request(self) -> (r: Result<request::VideoStreamRequest, RequestError>)
        ensures
            r is Ok <==> self.is_valid(),
            r matches Ok(understood) ==> self.is_understood(understood),
            r matches Err(error) ==> self.is_refused(error),
    {
        proof {
            reveal_strlit("uint8");
            reveal_strlit("float32");
            reveal_strlit("tonemap");
            reveal_strlit("raw");
            assert("uint8"@.len() != "float32"@.len());
            assert("tonemap"@.len() != "raw"@.len());
        }
        let device = match self.device_ordinal() {
            Ok(device) => device,
            Err(error) => {
                return Err(error);
            },
        };
        let dtype = match self.dtype_parsed() {
            Ok(dtype) => dtype,
            Err(error) => {
                return Err(error);
            },
        };
        let name = match &self.hdr_mode {
            Some(word) => Some(word.as_str()),
            None => None,
        };
        let hdr_mode = match HdrMode::parse(name) {
            Ok(mode) => mode,
            Err(error) => {
                return Err(error);
            },
        };
        Ok(
            request::VideoStreamRequest {
                index: self.index,
                width: self.width,
                height: self.height,
                frame_rate: self.fps,
                number_of_threads: self.number_of_threads,
                hardware_acceleration: self.hardware_acceleration,
                device,
                dtype,
                hdr_mode,
            },
        )
    }
}

/// The order in which the dimensions have to be taken, where it is not the one they are in.
pub open spec fn dimension_permutation(channels_first: bool, nhwc: bool) -> Option<Seq<i64>> {
    match (channels_first, nhwc) {
        (true, true) => Some(seq![0i64, 2, 3, 1]),
        (false, false) => Some(seq![0i64, 3, 1, 2]),
        _ => None,
    }
}

/// Video of floats is decoded with its channels before the rows, video of bytes with its channels
/// behind the columns: `[T, C, H, W]` and `[T, H, W, C]`. The order in which the dimensions have to
/// be taken to have the channels where they are asked for; `None` where they are there already.
pub fn video_permutation(channels_first: bool, nhwc: bool) -> (r: Option<Vec<i64>>)
    ensures
        match r {
            None => dimension_permutation(channels_first, nhwc) is None,
            Some(order) => dimension_permutation(channels_first, nhwc) == Some(order@),
        },
{
    match (channels_first, nhwc) {
        (true, false) => None,
        (false, true) => None,
        (true, true) => {
            let order: Vec<i64> = vec![0, 2, 3, 1];
            assert(order@ =~= seq![0i64, 2, 3, 1]);
            Some(order)
        },
        (false, false) => {
            let order: Vec<i64> = vec![0, 3, 1, 2];
            assert(order@ =~= seq![0i64, 3, 1, 2]);
            Some(order)
        },
    }
}

/// The sizes of the dimensions once they are taken in another order.
pub open spec fn permuted(shape: Seq<int>, order: Option<Seq<i64>>) -> Seq<int> {
    match order {
        Some(order) => Seq::new(order.len(), |i: int| shape[order[i] as int]),
        None => shape,
    }
}

/// Whatever the element type, the channels end up where they are asked for.
pub proof fn law_permutation_gives_dimension_order(
    channels_first: bool,
    nhwc: bool,
    t: int,
    c: int,
    h: int,
    w: int,
)
    ensures
        ({
            let order = dimension_permutation(channels_first, nhwc);
            let decoded = if channels_first {
                seq![t, c, h, w]
            } else {
                seq![t, h, w, c]
            };
            permuted(decoded, order) == if nhwc {
                seq![t, h, w, c]
            } else {
                seq![t, c, h, w]
            }
        }),
{
    let order = dimension_permutation(channels_first, nhwc);
    let decoded = if channels_first {
        seq![t, c, h, w]
    } else {
        seq![t, h, w, c]
    };
    let wanted = if nhwc {
        seq![t, h, w, c]
    } else {
        seq![t, c, h, w]
    };
    assert(permuted(decoded, order) =~= wanted);
}

/// A frame is not of the type of its stream.
#[derive(Clone, Copy, Debug, PartialEq, Eq, Structural)]
pub struct WrongFrameType {
    pub expected: StreamType,
}

/// The data of frames that are all of one type, in their order.
pub fn frames_data<D>(frames: Vec<Frame<D>>, stream_type: StreamType) -> (r: Result<
    Vec<D>,
    WrongFrameType,
>)
    ensures
        match r {
            Ok(data) => {
                &&& data@.len() == frames@.len()
                &&& forall|i: int|
                    0 <= i < frames@.len() ==> (#[trigger] frames@[i]).kind() == stream_type
                        && data@[i] == frames@[i].content()
            },
            Err(error) => {
                &&& error.expected == stream_type
                &&& exists|i: int|
                    0 <= i < frames@.len() && (#[trigger] frames@[i]).kind() != stream_type
            },
        },
{
    let ghost all = frames@;
    let mut data: Vec<D> = Vec::new();
    for frame in it: frames
        invariant
            it.seq() == all,
            all == frames@,
            data@.len() == it.index(),
            forall|i: int|
                0 <= i < it.index() ==> (#[trigger] all[i]).kind() == stream_type && data@[i]
                    == all[i].content(),
    {
        assert(all[it.index() as int] == frame);
        match frame.into_data(stream_type) {
            Some(content) => {
                data.push(content);
            },
            None => {
                return Err(WrongFrameType { expected: stream_type });
            },
        }
    }
    Ok(data)
}

} // verus!
