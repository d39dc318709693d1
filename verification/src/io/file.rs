//! A byte source that is a file: what to ask of the file, and what to answer for what it did.
use vstd::prelude::*;

use crate::cast::{bits_u64, low_i32, size_to_i32, to_bits_u64};
use crate::io::seek::{
    AVERROR_EOF, AVSEEK_FORCE, AVSEEK_SIZE, CALLBACK_FAILED, SEEK_CUR, SEEK_END, SEEK_SET,
};

verus! {

/// What a read asks of the file.
#[derive(Clone, Copy, Debug, PartialEq, Eq)]
pub enum FileRead {
    /// Nothing: the end is reached.
    Eof,
    /// Up to `len` bytes from where the file stands; the cursor then goes to `right`.
    Read { len: usize, right: u64 },
}

/// What a seek asks of the file.
#[derive(Clone, Copy, Debug, PartialEq, Eq)]
pub enum FileSeek {
    Start(u64),
    Current(i64),
    End(i64),
    /// Nothing: answer with the size of the file.
    Size(i64),
    /// Nothing: the demuxer's "by any means" request is not served.
    ForceUnsupported,
    /// Nothing: the `whence` has no meaning.
    Unsupported(i32),
}

/// The cursor in a file and the size that the file had when it was opened.
#[derive(Clone, Copy, Debug, PartialEq, Eq)]
pub struct IOContext {
    pub current: u64,
    pub file_size: u64,
}

/// The end of what a read of up to `want` bytes may ask for.
pub open spec fn file_window_end(io: IOContext, want: int) -> int {
    if io.current + want < io.file_size {
        io.current + want
    } else {
        io.file_size as int
    }
}

/// What to ask of the file for a buffer of `want` bytes.
pub open spec fn planned_read(io: IOContext, want: int) -> FileRead {
    if file_window_end(io, want) <= io.current {
        FileRead::Eof
    } else {
        FileRead::Read {
            len: (file_window_end(io, want) - io.current) as usize,
            right: file_window_end(io, want) as u64,
        }
    }
}

/// What to answer for a read that leads to `right`, and where it leaves the cursor.
pub open spec fn finished_read(io: IOContext, right: u64, got: Option<usize>) -> (
    i32,
    IOContext,
) {
    match got {
        None => (-1i32, io),
        Some(n) => if n == 0 {
            (AVERROR_EOF, io)
        } else {
            (low_i32(n as int), IOContext { current: right, ..io })
        },
    }
}

/// What to ask of the file for a seek.
pub open spec fn planned_seek(io: IOContext, offset: i64, whence: i32) -> FileSeek {
    if whence == SEEK_SET {
        FileSeek::Start(bits_u64(offset))
    } else if whence == SEEK_CUR {
        FileSeek::Current(offset)
    } else if whence == SEEK_END {
        FileSeek::End(offset)
    } else if whence == AVSEEK_SIZE {
        FileSeek::Size(io.file_size as i64)
    } else if whence == AVSEEK_FORCE {
        FileSeek::ForceUnsupported
    } else {
        FileSeek::Unsupported(whence)
    }
}

/// What to answer for a seek that led to `reached`, and where it leaves the cursor.
pub open spec fn finished_seek(io: IOContext, reached: Option<u64>) -> (i64, IOContext) {
    match reached {
        Some(position) => (position as i64, IOContext { current: position, ..io }),
        None => (CALLBACK_FAILED, io),
    }
}

impl IOContext {
    pub fn new(file_size: u64) -> (io: IOContext)
        ensures
            io == (IOContext { current: 0, file_size }),
    {
        IOContext { current: 0, file_size }
    }

    /// What to ask of the file for a buffer of `want` bytes.
    pub fn plan_read(&self, want: usize) -> (plan: FileRead)
        ensures
            plan == planned_read(*self, want as int),
            plan matches FileRead::Read { len, right } ==> {
                &&& 0 < len <= want
                &&& right == self.current + len
                &&& right <= self.file_size
            },
    {
        if self.file_size <= self.current {
            return FileRead::Eof;
        }
        let left: u64 = self.file_size - self.current;
        if want == 0 {
            return FileRead::Eof;
        }
        if (want as u64) < left {
            FileRead::Read { len: want, right: self.current + want as u64 }
        } else {
            FileRead::Read { len: left as usize, right: self.file_size }
        }
    }

    /// Takes in how many bytes the file gave for a planned read that leads to `right` (`None`
    /// where it failed), and answers for it. The cursor goes to `right` although the file may
    /// have given fewer bytes.
    pub fn finish_read(&mut self, right: u64, got: Option<usize>) -> (code: i32)
        ensures
            (code, *final(self)) == finished_read(*old(self), right, got),
    {
        match got {
            None => -1,
            Some(n) => {
                if n == 0 {
                    AVERROR_EOF
                } else {
                    self.current = right;
                    size_to_i32(n)
                }
            },
        }
    }

    /// What to ask of the file for a seek.
    pub fn plan_seek(&self, offset: i64, whence: i32) -> (plan: FileSeek)
        ensures
            plan == planned_seek(*self, offset, whence),
    {
        if whence == SEEK_SET {
            FileSeek::Start(to_bits_u64(offset))
        } else if whence == SEEK_CUR {
            FileSeek::Current(offset)
        } else if whence == SEEK_END {
            FileSeek::End(offset)
        } else if whence == AVSEEK_SIZE {
            FileSeek::Size(self.file_size as i64)
        } else if whence == AVSEEK_FORCE {
            FileSeek::ForceUnsupported
        } else {
            FileSeek::Unsupported(whence)
        }
    }

    /// Takes in where the file stands after a seek (`None` where it failed), and answers for it.
    pub fn finish_seek(&mut self, reached: Option<u64>) -> (code: i64)
        ensures
            (code, *final(self)) == finished_seek(*old(self), reached),
    {
        match reached {
            Some(position) => {
                self.current = position;
                position as i64
            },
            None => CALLBACK_FAILED,
        }
    }
}

} // verus!
