//! What the words of a request mean.
use vstd::prelude::*;

use crate::decoder::plan_laws::law_signed_decimal_round_trip;
use crate::decoder::request::{self, mode_asked, HdrMode, OutputDtype, RequestError};
use crate::ffi::{
    channels_last_asked, device_asked, device_of, dtype_asked, has_channels_last, named_dtype,
    VideoStreamRequest,
};
use crate::text::{i32_value, signed_decimal};

verus! {

/// `cuda` is the first GPU, and `cuda:` with a number the GPU of that number, whatever the number.
/// Nothing that does not begin with `cuda` is a GPU, and nothing that goes on behind a colon with
/// what is no number.
pub proof fn law_device_words(word: Seq<char>, n: i32, rest: Seq<char>)
    ensures
        device_of("cuda"@) == Some(0i32),
        device_of("cuda:"@ + signed_decimal(n as int)) == Some(n),
        i32_value(rest) is None ==> device_of("cuda:"@ + rest) is None,
        device_of(word) is Some ==> word == "cuda"@ || "cuda:"@.is_prefix_of(word),
{
    reveal_strlit("cuda");
    reveal_strlit("cuda:");
    law_signed_decimal_round_trip(n as int);
    let named = "cuda:"@ + signed_decimal(n as int);
    assert(named.subrange(0, 5) =~= "cuda:"@);
    assert(named.skip(5) =~= signed_decimal(n as int));
    assert(named[4] == ':');
    assert(named.len() > 4);
    let other = "cuda:"@ + rest;
    assert(other.subrange(0, 5) =~= "cuda:"@);
    assert(other.skip(5) =~= rest);
    assert(other.len() > 4);
}

/// There are two orders of dimensions and two element types, each with one name.
pub proof fn law_words_of_layout(word: Seq<char>)
    ensures
        has_channels_last(word) == Some(true) <==> word == "NHWC"@,
        has_channels_last(word) == Some(false) <==> word == "NCHW"@,
        named_dtype(word) == Some(OutputDtype::Uint8) <==> word == "uint8"@,
        named_dtype(word) == Some(OutputDtype::Float32) <==> word == "float32"@,
{
    reveal_strlit("NHWC");
    reveal_strlit("NCHW");
    reveal_strlit("uint8");
    reveal_strlit("float32");
    assert("NHWC"@[1] != "NCHW"@[1]);
    assert("uint8"@.len() != "float32"@.len());
}

/// Where nothing is said, the channels come first, the elements are bytes, and the frames are in
/// system memory. What is said counts, if and only if it is understood.
pub proof fn law_what_is_meant(word: Seq<char>)
    ensures
        channels_last_asked(None) == Some(false),
        channels_last_asked(Some(word)) == has_channels_last(word),
        dtype_asked(None) == Some(OutputDtype::Uint8),
        dtype_asked(Some(word)) == named_dtype(word),
        device_asked(None) == Some(None::<i32>),
        device_asked(Some(word)) is Some <==> device_of(word) is Some,
        device_of(word) is Some ==> device_asked(Some(word)) == Some(device_of(word)),
        mode_asked(None) == Some(HdrMode::Tonemap),
        mode_asked(Some(word)) == request::named_mode(word),
{
}

/// Where a word is given, it is understood.
pub open spec fn is_word(given: Option<String>, known: spec_fn(Seq<char>) -> bool) -> bool {
    given is Some ==> known(given->0@)
}

/// A request is understood if and only if its device, its element type and its mode are words there
/// are, or are not given; and then as these words say, with all else as it is. What is not given is
/// system memory, bytes and tone mapping.
pub proof fn law_requests_are_understood(
    words: VideoStreamRequest,
    understood: request::VideoStreamRequest,
    error: RequestError,
)
    ensures
        words.is_valid() <==> {
            &&& is_word(words.device, |w: Seq<char>| device_of(w) is Some)
            &&& is_word(words.dtype, |w: Seq<char>| named_dtype(w) is Some)
            &&& is_word(words.hdr_mode, |w: Seq<char>| request::named_mode(w) is Some)
        },
        words.is_valid() && words.is_understood(understood) ==> {
            &&& understood.index == words.index
            &&& understood.width == words.width
            &&& understood.height == words.height
            &&& understood.frame_rate == words.fps
            &&& understood.number_of_threads == words.number_of_threads
            &&& understood.hardware_acceleration == words.hardware_acceleration
            &&& words.device is None ==> understood.device is None
            &&& words.device is Some ==> understood.device == device_of(words.device->0@)
            &&& words.dtype is None ==> understood.dtype == OutputDtype::Uint8
            &&& words.dtype is Some ==> Some(understood.dtype) == named_dtype(words.dtype->0@)
            &&& words.hdr_mode is None ==> understood.hdr_mode == HdrMode::Tonemap
            &&& words.hdr_mode is Some ==> Some(understood.hdr_mode) == request::named_mode(
                words.hdr_mode->0@,
            )
        },
        words.is_refused(error) ==> !words.is_valid() && match error {
            RequestError::Device(w) => words.device is Some && words.device->0@ == w@ && device_of(
                w@,
            ) is None,
            RequestError::Dtype(w) => {
                &&& words.dtype is Some && words.dtype->0@ == w@ && named_dtype(w@) is None
                &&& is_word(words.device, |w: Seq<char>| device_of(w) is Some)
            },
            RequestError::HdrMode(w) => {
                &&& words.hdr_mode is Some && words.hdr_mode->0@ == w@
                &&& request::named_mode(w@) is None
                &&& is_word(words.device, |w: Seq<char>| device_of(w) is Some)
                &&& is_word(words.dtype, |w: Seq<char>| named_dtype(w) is Some)
            },
            RequestError::DimensionOrder(_) => false,
        },
{
    reveal_strlit("uint8");
    reveal_strlit("float32");
    reveal_strlit("tonemap");
    reveal_strlit("raw");
    assert("uint8"@.len() != "float32"@.len());
    assert("tonemap"@.len() != "raw"@.len());
}

} // verus!
