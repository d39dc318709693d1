//! Formats of pixels and of audio samples, as far as they are told apart.
use vstd::prelude::*;

verus! {

/// A pixel format.
#[derive(Clone, Copy, Debug, PartialEq, Eq, Structural)]
pub enum PixelFormat {
    /// No format is set.
    Unset,
    /// Packed RGB, 8 bits each.
    Rgb24,
    /// Planes G, B, R of little-endian 32-bit floats.
    Gbrpf32le,
    Yuv420p,
    Nv12,
    /// Frames in GPU memory.
    Cuda,
    /// Any other, by its number.
    Other(i32),
}

/// A sample format. The names that end in `P` are planar: one plane per channel.
#[derive(Clone, Copy, Debug, PartialEq, Eq, Structural)]
pub enum SampleFormat {
    U8,
    S16,
    S32,
    Flt,
    Dbl,
    U8P,
    S16P,
    S32P,
    Fltp,
    DblP,
    S64,
    S64P,
    /// Any other, by its number.
    Other(i32),
}

} // verus!
