//! A byte source that is all in memory.
use vstd::prelude::*;

use crate::cast::{low_i32, size_to_i32};
use crate::io::seek::{
    resolve_seek, seek_fits, seek_target, AVERROR_EOF, AVSEEK_SIZE, CALLBACK_FAILED,
};

verus! {

/// Bytes with a cursor.
pub struct MemoryState {
    pub data: Seq<u8>,
    pub position: int,
}

impl MemoryState {
    pub open spec fn wf(self) -> bool {
        &&& 0 <= self.position <= self.data.len()
        &&& self.data.len() <= i64::MAX
    }

    pub open spec fn at(self, position: int) -> MemoryState {
        MemoryState { position, ..self }
    }

    /// How many bytes a read of up to `want` bytes hands out.
    pub open spec fn available(self, want: int) -> int {
        if want < self.data.len() - self.position {
            want
        } else {
            self.data.len() - self.position
        }
    }

    /// The bytes that a read of up to `want` bytes hands out.
    pub open spec fn next_bytes(self, want: int) -> Seq<u8> {
        self.data.subrange(self.position, self.position + self.available(want))
    }
}

/// What a read of up to `want` bytes answers, the bytes that it hands out, and where it leaves the
/// cursor.
pub open spec fn memory_read(state: MemoryState, want: int) -> (i32, Seq<u8>, MemoryState) {
    let n = state.available(want);
    if n == 0 {
        (AVERROR_EOF, seq![], state)
    } else {
        (low_i32(n), state.next_bytes(want), state.at(state.position + n))
    }
}

/// What a seek answers, and where it leaves the cursor.
pub open spec fn memory_seek(state: MemoryState, offset: i64, whence: i32) -> (i64, MemoryState) {
    let size = state.data.len() as int;
    if whence == AVSEEK_SIZE {
        (size as i64, state)
    } else {
        match seek_target(state.position, size, offset as int, whence) {
            Some(target) if 0 <= target <= size => (target as i64, state.at(target)),
            _ => (CALLBACK_FAILED, state),
        }
    }
}

/// A reader of an in-memory byte buffer.
pub struct MemoryReader {
    data: Vec<u8>,
    position: usize,
}

impl View for MemoryReader {
    type V = MemoryState;

    closed spec fn view(&self) -> MemoryState {
        MemoryState { data: self.data@, position: self.position as int }
    }
}

impl MemoryReader {
    /// A reader with its cursor at the first byte.
    pub fn new(data: Vec<u8>) -> (reader: MemoryReader)
        requires
            data@.len() <= i64::MAX,
        ensures
            reader@.wf(),
            reader@ == (MemoryState { data: data@, position: 0 }),
    {
        MemoryReader { data, position: 0 }
    }

    pub fn len(&self) -> (n: usize)
        ensures
            n == self@.data.len(),
    {
        self.data.len()
    }

    /// The cursor.
    pub fn position(&self) -> (p: usize)
        ensures
            p == self@.position,
    {
        self.position
    }

    /// Copies what is at the cursor into `buf` and answers how many bytes that was, or that the
    /// end is reached.
    pub fn read(&mut self, buf: &mut [u8]) -> (code: i32)
        requires
            old(self)@.wf(),
        ensures
            final(self)@.wf(),
            ({
                let (answer, bytes, after) = memory_read(old(self)@, old(buf)@.len() as int);
                &&& code == answer
                &&& final(self)@ == after
                &&& final(buf)@ == bytes + old(buf)@.skip(bytes.len() as int)
            }),
    {
        let ghost want = buf@;
        let size: usize = self.data.len();
        let position: usize = self.position;
        let n: usize = if buf.len() < size - position { buf.len() } else { size - position };
        if n == 0 {
            assert(buf@ =~= Seq::<u8>::empty() + want.skip(0));
            return AVERROR_EOF;
        }
        let mut j: usize = 0;
        while j < n
            invariant
                j <= n,
                n <= want.len(),
                position + n <= size,
                size == self.data@.len(),
                self@ == old(self)@,
                buf@ == self.data@.subrange(position as int, position + j) + want.subrange(
                    j as int,
                    want.len() as int,
                ),
            decreases n - j,
        {
            buf[j] = self.data[position + j];
            j = j + 1;
            assert(buf@ =~= self.data@.subrange(position as int, position + j) + want.subrange(
                j as int,
                want.len() as int,
            ));
        }
        self.position = position + n;
        assert(want.subrange(n as int, want.len() as int) =~= want.skip(n as int));
        size_to_i32(n)
    }

    /// Moves the cursor to a place in the buffer or at its end; answers the place, or the size
    /// where that is what is asked for.
    pub fn seek(&mut self, offset: i64, whence: i32) -> (code: i64)
        requires
            old(self)@.wf(),
            seek_fits(old(self)@.position, old(self)@.data.len() as int, offset, whence),
        ensures
            final(self)@.wf(),
            (code, final(self)@) == memory_seek(old(self)@, offset, whence),
    {
        let size: i64 = self.data.len() as i64;
        if whence == AVSEEK_SIZE {
            return size;
        }
        match resolve_seek(self.position as i64, size, offset, whence) {
            Some(target) => {
                if 0 <= target && target <= size {
                    self.position = target as usize;
                    target
                } else {
                    CALLBACK_FAILED
                }
            },
            None => CALLBACK_FAILED,
        }
    }
}

/// What a seek answers, unless it failed or asked for the size, is where the next read begins.
pub proof fn law_memory_seek_then_read(state: MemoryState, offset: i64, whence: i32, want: int)
    requires
        state.wf(),
        want >= 0,
        whence != AVSEEK_SIZE,
        memory_seek(state, offset, whence).0 != CALLBACK_FAILED,
    ensures
        ({
            let (place, after) = memory_seek(state, offset, whence);
            &&& after.wf()
            &&& after.data == state.data
            &&& after.position == place
            &&& after.next_bytes(want) == state.data.subrange(
                place as int,
                if place + want < state.data.len() {
                    place + want
                } else {
                    state.data.len() as int
                },
            )
        }),
{
}

/// Reading from the start, in pieces of any sizes, gives back the bytes that were handed in: what
/// has been read plus the next piece is again a prefix of them.
pub proof fn law_memory_reads_join(state: MemoryState, want: int)
    requires
        state.wf(),
        want >= 0,
    ensures
        state.data.subrange(0, state.position) + state.next_bytes(want) == state.data.subrange(
            0,
            state.position + state.available(want),
        ),
        want >= state.data.len() - state.position ==> state.data.subrange(0, state.position)
            + state.next_bytes(want) == state.data,
{
    assert(state.data.subrange(0, state.position) + state.next_bytes(want) =~= state.data.subrange(
        0,
        state.position + state.available(want),
    ));
    assert(state.data.subrange(0, state.data.len() as int) =~= state.data);
}

} // verus!
