# avtensor

Decodes audio and video from files, memory, the web and cloud storage into tensors.

The crate in `src/` is a library, verified by Verus, that decides:

- `io`: how a demuxer reads and seeks through a file, a buffer in memory, or a cloud object that
  background readers fill in any order;
- `decoder`: which streams are decoded, with which decoder and into an output of which size; how
  packets become frames and frames become rows; which filters a stream goes through; what the GPU
  is asked to do;
- `conversion`: how the bytes of frames are copied into outputs and back;
- `s3_client`, `util`: what URLs of cloud objects name, and which client reads them;
- `ffi`: what requests in words ask for, and in which order the dimensions of a video come;
- `text`, `double`, `cast`: texts, numbers in decimal, and comparisons of floating-point numbers by
  their bit patterns.

Contracts are stated over mathematical views of the types. Files named `*_laws.rs`, and proof
functions named `law_*`, state what holds across functions.

Floating-point arithmetic is left to the caller. So are files, the network, FFmpeg, libtorch, the
GPU and Python: the crate in `app/` performs what the library asks for, and tells it what came of
it. The outside crates that the library itself calls are `http`, for parsing URIs, and
`aws-sdk-s3`, for making credentials; what is believed of them stands in `util/uri.rs` and
`s3_client.rs`.
