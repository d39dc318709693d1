//! The codes that a demuxer passes to, and expects from, its read and seek callbacks.
use vstd::prelude::*;

verus! {

/// `whence`: the offset counts from the start of the source.
pub const SEEK_SET: i32 = 0;

/// `whence`: the offset counts from the current position.
pub const SEEK_CUR: i32 = 1;

/// `whence`: the offset counts from the end of the source.
pub const SEEK_END: i32 = 2;

/// `whence`: asks for the size of the source; nothing moves.
pub const AVSEEK_SIZE: i32 = 0x10000;

/// `whence`: asks for a seek by any means, however slow.
pub const AVSEEK_FORCE: i32 = 0x20000;

/// What a read callback answers at the end of its source: the negated tag `"EOF "`.
pub const AVERROR_EOF: i32 = -541478725;

/// What a callback answers when it failed.
pub const CALLBACK_FAILED: i64 = -1;

/// The byte that `whence` and `offset` point at in a source of `size` bytes whose cursor is at
/// `position`. `None` when `whence` is not one of the three that move the cursor.
pub open spec fn seek_target(position: int, size: int, offset: int, whence: i32) -> Option<int> {
    if whence == SEEK_SET {
        Some(offset)
    } else if whence == SEEK_CUR {
        Some(position + offset)
    } else if whence == SEEK_END {
        Some(size + offset)
    } else {
        None
    }
}

/// Whether the target of a seek, if there is one, is a number the callback can answer with.
pub open spec fn seek_fits(position: int, size: int, offset: i64, whence: i32) -> bool {
    seek_target(position, size, offset as int, whence) matches Some(t) ==> i64::MIN <= t
        <= i64::MAX
}

/// Whether the target of a seek in a source of this size, if there is one, is a number the callback
/// can answer with.
pub fn seek_in_bounds(position: usize, size: usize, offset: i64, whence: i32) -> (r: bool)
    requires
        position <= size <= i64::MAX,
    ensures
        r == seek_fits(position as int, size as int, offset, whence),
{
    let base: i128 = if whence == SEEK_CUR {
        position as i128
    } else if whence == SEEK_END {
        size as i128
    } else {
        0
    };
    base + offset as i128 <= i64::MAX as i128
}

/// Computes [`seek_target`].
pub fn resolve_seek(position: i64, size: i64, offset: i64, whence: i32) -> (r: Option<i64>)
    requires
        seek_fits(position as int, size as int, offset, whence),
    ensures
        match seek_target(position as int, size as int, offset as int, whence) {
            Some(t) => r == Some(t as i64),
            None => r is None,
        },
{
    if whence == SEEK_SET {
        Some(offset)
    } else if whence == SEEK_CUR {
        Some(position + offset)
    } else if whence == SEEK_END {
        Some(size + offset)
    } else {
        None
    }
}

} // verus!
