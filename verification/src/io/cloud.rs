//! The in-memory mirror of a cloud object, filled by background readers and drained by a demuxer.
//!
//! The object's bytes arrive in chunks, in any order, from several readers at once. A mark per
//! byte says which of them are here. The demuxer reads at a cursor that it may move anywhere.
//! Whoever drives this module opens streams, runs the readers and sleeps; every decision about
//! the bytes, the cursor and the readers is taken here.
use vstd::prelude::*;

use crate::cast::{low_i32, size_to_i32};
use crate::io::seek::{resolve_seek, seek_fits, seek_target, AVERROR_EOF, AVSEEK_SIZE, SEEK_END};

verus! {

/// What is known of an object: its bytes so far, a mark per byte that has arrived, the cursor.
pub struct BufferState {
    pub data: Seq<u8>,
    pub ready: Seq<bool>,
    pub position: int,
}

impl BufferState {
    /// One mark per byte, and the cursor inside the object or at its end.
    pub open spec fn wf(self) -> bool {
        &&& self.ready.len() == self.data.len()
        &&& self.data.len() <= i64::MAX
        &&& 0 <= self.position <= self.data.len()
    }

    pub open spec fn size(self) -> int {
        self.data.len() as int
    }

    /// An object of `size` bytes of which none has arrived.
    pub open spec fn fresh(size: nat) -> BufferState {
        BufferState {
            data: Seq::new(size, |i: int| 0u8),
            ready: Seq::new(size, |i: int| false),
            position: 0,
        }
    }

    /// `chunk` has arrived for the bytes from `at` on.
    pub open spec fn with_chunk(self, at: int, chunk: Seq<u8>) -> BufferState {
        BufferState {
            data: Seq::new(
                self.data.len(),
                |i: int| if at <= i < at + chunk.len() { chunk[i - at] } else { self.data[i] },
            ),
            ready: Seq::new(
                self.ready.len(),
                |i: int| at <= i < at + chunk.len() || self.ready[i],
            ),
            position: self.position,
        }
    }

    pub open spec fn at(self, position: int) -> BufferState {
        BufferState { position, ..self }
    }

    /// Whether all bytes of `from..to` have arrived.
    pub open spec fn all_ready(self, from: int, to: int) -> bool {
        forall|i: int| from <= i < to ==> #[trigger] self.ready[i]
    }

    /// The end of what a read of up to `want` bytes may hand out.
    pub open spec fn window_end(self, want: int) -> int {
        if self.position + want < self.size() {
            self.position + want
        } else {
            self.size()
        }
    }

    /// `i` is the first byte of `from..to` that has not arrived.
    pub open spec fn is_first_missing(self, from: int, to: int, i: int) -> bool {
        &&& from <= i < to
        &&& !self.ready[i]
        &&& self.all_ready(from, i)
    }

    /// `i` is the last byte before `to` that has arrived, or 0 where there is none.
    pub open spec fn is_closest_ready(self, to: int, i: int) -> bool {
        ||| 0 <= i < to && self.ready[i] && forall|j: int|
            i < j < to ==> !#[trigger] self.ready[j]
        ||| i == 0 && forall|j: int| 0 <= j < to ==> !#[trigger] self.ready[j]
    }

    /// Every byte that has arrived is the byte of `object` at its place.
    pub open spec fn mirrors(self, object: Seq<u8>) -> bool {
        &&& self.data.len() == object.len()
        &&& self.ready.len() == object.len()
        &&& forall|i: int|
            0 <= i < object.len() && self.ready[i] ==> #[trigger] self.data[i] == object[i]
    }
}

/// The bytes of one cloud object, as far as they have arrived.
pub struct CloudStorageBuffer {
    data: Vec<u8>,
    indicators: Vec<bool>,
    read_position: usize,
}

impl View for CloudStorageBuffer {
    type V = BufferState;

    closed spec fn view(&self) -> BufferState {
        BufferState {
            data: self.data@,
            ready: self.indicators@,
            position: self.read_position as int,
        }
    }
}

impl CloudStorageBuffer {
    /// A buffer for an object of `size` bytes, none of which has arrived.
    pub fn new(size: usize) -> (buffer: CloudStorageBuffer)
        requires
            size <= i64::MAX,
        ensures
            buffer@.wf(),
            buffer@ == BufferState::fresh(size as nat),
    {
        let buffer = CloudStorageBuffer {
            data: vec![0u8;size],
            indicators: vec![false;size],
            read_position: 0,
        };
        assert(buffer@.data =~= BufferState::fresh(size as nat).data);
        assert(buffer@.ready =~= BufferState::fresh(size as nat).ready);
        buffer
    }

    pub fn len(&self) -> (n: usize)
        ensures
            n == self@.size(),
    {
        self.data.len()
    }

    /// The cursor.
    pub fn position(&self) -> (p: usize)
        ensures
            p == self@.position,
    {
        self.read_position
    }

    /// Whether all bytes of `from..to` have arrived.
    pub fn range_ready(&self, from: usize, to: usize) -> (r: bool)
        requires
            self@.wf(),
            from <= to <= self@.size(),
        ensures
            r == self@.all_ready(from as int, to as int),
    {
        self.first_missing(from, to).is_none()
    }

    /// The first byte of `from..to` that has not arrived.
    pub fn first_missing(&self, from: usize, to: usize) -> (r: Option<usize>)
        requires
            self@.wf(),
            from <= to <= self@.size(),
        ensures
            match r {
                Some(i) => self@.is_first_missing(from as int, to as int, i as int),
                None => self@.all_ready(from as int, to as int),
            },
            r is Some <==> !self@.all_ready(from as int, to as int),
    {
        let mut i: usize = from;
        while i < to
            invariant
                self@.wf(),
                from <= i <= to <= self@.size(),
                self@.all_ready(from as int, i as int),
            decreases to - i,
        {
            if !self.indicators[i] {
                assert(!self@.ready[i as int]);
                return Some(i);
            }
            i = i + 1;
        }
        None
    }

    /// The last byte before `to` that has arrived, or 0.
    pub fn closest_available_byte(&self, to: usize) -> (i: usize)
        requires
            self@.wf(),
            to <= self@.size(),
        ensures
            self@.is_closest_ready(to as int, i as int),
            i <= to,
    {
        let mut i: usize = to;
        while i > 0
            invariant
                self@.wf(),
                i <= to <= self@.size(),
                forall|j: int| i <= j < to ==> !#[trigger] self@.ready[j],
            decreases i,
        {
            i = i - 1;
            if self.indicators[i] {
                assert(self@.ready[i as int]);
                return i;
            }
        }
        0
    }

    /// Stores a chunk that starts at byte `at`, and marks its bytes as arrived.
    fn store(&mut self, at: usize, chunk: &[u8])
        requires
            old(self)@.wf(),
            at + chunk@.len() <= old(self)@.size(),
        ensures
            final(self)@.wf(),
            final(self)@ == old(self)@.with_chunk(at as int, chunk@),
    {
        let ghost before = self@;
        let n: usize = chunk.len();
        let mut j: usize = 0;
        while j < n
            invariant
                j <= n,
                n == chunk@.len(),
                at + n <= before.size(),
                before.wf(),
                self@.wf(),
                self@.position == before.position,
                self@.data == before.with_chunk(at as int, chunk@.subrange(0, j as int)).data,
                self@.ready == before.with_chunk(at as int, chunk@.subrange(0, j as int)).ready,
            decreases n - j,
        {
            assert(self@.size() == self.data.len());
            self.data.set(at + j, chunk[j]);
            self.indicators.set(at + j, true);
            j = j + 1;
            assert(self@.data =~= before.with_chunk(
                at as int,
                chunk@.subrange(0, j as int),
            ).data);
            assert(self@.ready =~= before.with_chunk(
                at as int,
                chunk@.subrange(0, j as int),
            ).ready);
        }
        assert(chunk@.subrange(0, n as int) =~= chunk@);
        assert(n == 0 ==> self@.data =~= before.data && self@.ready =~= before.ready);
    }
}

/// A half-open range of bytes.
#[derive(Clone, Copy, Debug, PartialEq, Eq)]
pub struct ReadRange {
    pub start: usize,
    pub end: usize,
}

/// A background reader: the bytes it set out to fetch, and whether it has stopped.
#[derive(Clone, Copy, Debug, PartialEq, Eq)]
pub struct DataReader {
    pub range: ReadRange,
    pub finished: bool,
}

impl DataReader {
    /// The reader is still running and `byte` lies in its range.
    pub open spec fn fetches(self, byte: int) -> bool {
        &&& self.range.start <= byte < self.range.end
        &&& !self.finished
    }
}

/// A reader that has just been started at byte `start` of an object of `size` bytes.
pub open spec fn started_reader(start: usize, size: int) -> DataReader {
    DataReader { range: ReadRange { start, end: size as usize }, finished: false }
}

/// Some reader of `readers` is still fetching `byte`.
pub open spec fn is_covered(readers: Seq<DataReader>, byte: int) -> bool {
    exists|k: int| 0 <= k < readers.len() && (#[trigger] readers[k]).fetches(byte)
}

/// Bytes that a seek looks ahead of the cursor for: the size of the demuxer's own buffer.
pub const FFMPEG_BUFFER_SIZE: usize = 32768;

/// How far behind the cursor a running reader may be for a seek to wait for it: 64 MiB.
pub const DATA_SEGMENT_SIZE: usize = 67108864;

/// How often one read replaces a dead reader before it fails.
pub const MAX_READER_RESPAWNS: u32 = 3;

/// How long a read waits before it looks at the buffer again.
pub const READ_POLL_MS: u64 = 1;

/// Why a seek was refused.
#[derive(Clone, Copy, Debug, PartialEq, Eq)]
pub enum SeekError {
    /// A seek from the end left the object.
    OutsideFromEnd(i64),
    /// The `whence` is not one that moves the cursor.
    UnexpectedWhence(i32),
}

/// What is to be done about a seek.
#[derive(Clone, Copy, Debug, PartialEq, Eq)]
pub enum SeekAction {
    /// Answer with this number.
    Reply(i64),
    /// Answer that the seek failed.
    Refuse(SeekError),
    /// Start a reader at byte `from`. Once its stream is open, answer with `reply`; where it
    /// cannot be opened, answer that the seek failed.
    Fetch { from: usize, reply: i64 },
}

/// What a look at the buffer tells a read.
#[derive(Clone, Copy, Debug, PartialEq, Eq)]
pub enum ReadStep {
    /// The cursor is at the end of the object.
    Eof,
    /// This many bytes were copied out.
    Filled(usize),
    /// Bytes are missing and a running reader is fetching the first of them.
    Pending,
    /// Bytes are missing and nothing is fetching the first of them, which this is.
    Stalled(usize),
}

/// What is to be done about a read.
#[derive(Clone, Copy, Debug, PartialEq, Eq)]
pub enum ReadAction {
    /// Answer with this number.
    Reply(i32),
    /// Wait this many milliseconds, then look again.
    Wait { millis: u64 },
    /// Wait, start a reader at byte `from`, then look again.
    Respawn { from: usize, attempt: u32, backoff_millis: u64 },
    /// The bytes at `at` were not fetched by any of the allowed readers: fail.
    GiveUp { at: usize },
}

/// What a reader does after it has stored a chunk.
#[derive(Clone, Copy, Debug, PartialEq, Eq)]
pub enum ChunkStep {
    /// Go on with the stream.
    Continue,
    /// The next byte is here already, or there is none: stop.
    Stop,
}

/// A chunk reaches beyond the end of the object.
#[derive(Clone, Copy, Debug, PartialEq, Eq)]
pub struct ChunkOverrun {
    pub new_position: usize,
    pub buffer_len: usize,
}

/// The buffer of one object with the readers that fill it.
pub struct CloudStorageReaderContext {
    pub buffer: CloudStorageBuffer,
    pub readers: Vec<DataReader>,
}

/// What a seek does, in terms of what is known of the object and of its readers.
pub open spec fn seek_action(
    before: BufferState,
    readers: Seq<DataReader>,
    offset: i64,
    whence: i32,
    after: BufferState,
    action: SeekAction,
) -> bool {
    if whence == AVSEEK_SIZE {
        action == SeekAction::Reply(before.size() as i64) && after == before
    } else {
        match seek_target(before.position, before.size(), offset as int, whence) {
            None => action == SeekAction::Refuse(SeekError::UnexpectedWhence(whence)) && after
                == before,
            Some(target) => if whence == SEEK_END && !(0 <= target <= before.size()) {
                action == SeekAction::Refuse(SeekError::OutsideFromEnd(offset)) && after == before
            } else if !(0 <= target <= before.size()) {
                // A place outside the object is answered as asked for; the cursor goes to the end.
                action == SeekAction::Reply(target as i64) && after == before.at(before.size())
            } else {
                &&& after == before.at(target)
                &&& if after.all_ready(target, after.window_end(FFMPEG_BUFFER_SIZE as int))
                    || is_waited_for(before, readers, target) {
                    action == SeekAction::Reply(target as i64)
                } else {
                    action == (SeekAction::Fetch { from: target as usize, reply: target as i64 })
                }
            },
        }
    }
}

/// A running reader is fetching the last byte that has arrived before `target`, and that byte is
/// less than a segment away.
pub open spec fn is_waited_for(state: BufferState, readers: Seq<DataReader>, target: int) -> bool {
    exists|i: int|
        #[trigger] state.is_closest_ready(target, i) && target - i < DATA_SEGMENT_SIZE
            && is_covered(readers, i)
}

/// What a look at the buffer does for a read of up to `want.len()` bytes.
pub open spec fn read_step(
    before: BufferState,
    readers: Seq<DataReader>,
    want: Seq<u8>,
    after: BufferState,
    got: Seq<u8>,
    step: ReadStep,
) -> bool {
    let pos = before.position;
    let right = before.window_end(want.len() as int);
    if right <= pos {
        step == ReadStep::Eof && after == before && got == want
    } else if before.all_ready(pos, right) {
        &&& step == ReadStep::Filled((right - pos) as usize)
        &&& after == before.at(right)
        &&& got == before.data.subrange(pos, right) + want.subrange(
            right - pos,
            want.len() as int,
        )
    } else {
        &&& after == before
        &&& got == want
        &&& exists|hole: int| #[trigger]
            before.is_first_missing(pos, right, hole) && step == if is_covered(readers, hole) {
                ReadStep::Pending
            } else {
                ReadStep::Stalled(hole as usize)
            }
    }
}

/// The byte whose mark decides whether a reader that has written up to `position` goes on: the next
/// one, or the last one where there is no next one.
pub open spec fn lookahead(size: int, position: int) -> int {
    if position < size - 1 {
        position
    } else {
        size - 1
    }
}

/// What becomes of a chunk for a reader whose next byte is `position`: what the reader does, what is
/// known of the object, and the reader's next byte.
pub open spec fn chunk_taken(before: BufferState, position: int, chunk: Seq<u8>) -> (
    Result<ChunkStep, ChunkOverrun>,
    BufferState,
    int,
) {
    let end = position + chunk.len();
    if end > before.size() {
        (
            Err(
                ChunkOverrun { new_position: end as usize, buffer_len: before.size() as usize },
            ),
            before,
            position,
        )
    } else {
        let after = before.with_chunk(position, chunk);
        (
            Ok(
                if after.ready[lookahead(before.size(), end)] {
                    ChunkStep::Stop
                } else {
                    ChunkStep::Continue
                },
            ),
            after,
            end,
        )
    }
}

impl CloudStorageReaderContext {
    pub open spec fn wf(self) -> bool {
        self.buffer@.wf()
    }

    /// An object of `size` bytes, with one reader that fetches all of it.
    pub fn new(size: usize) -> (context: CloudStorageReaderContext)
        requires
            size <= i64::MAX,
        ensures
            context.wf(),
            context.buffer@ == BufferState::fresh(size as nat),
            context.readers@ == seq![started_reader(0, size as int)],
    {
        let mut context = CloudStorageReaderContext {
            buffer: CloudStorageBuffer::new(size),
            readers: Vec::new(),
        };
        context.add_reader(0);
        assert(context.readers@ =~= seq![started_reader(0, size as int)]);
        context
    }

    /// Notes a reader that has been started at byte `start` and runs to the end of the object.
    pub fn add_reader(&mut self, start: usize)
        ensures
            final(self).buffer == old(self).buffer,
            final(self).readers@ == old(self).readers@.push(
                started_reader(start, old(self).buffer@.size()),
            ),
    {
        let end: usize = self.buffer.len();
        self.readers.push(DataReader { range: ReadRange { start, end }, finished: false });
    }

    /// Notes whether the reader at `index` has stopped.
    pub fn set_finished(&mut self, index: usize, finished: bool)
        requires
            index < old(self).readers@.len(),
        ensures
            final(self).buffer == old(self).buffer,
            final(self).readers@ == old(self).readers@.update(
                index as int,
                DataReader { range: old(self).readers@[index as int].range, finished },
            ),
    {
        let range = self.readers[index].range;
        self.readers.set(index, DataReader { range, finished });
    }

    /// Whether a running reader is fetching `byte`.
    pub fn covers(&self, byte: usize) -> (r: bool)
        ensures
            r == is_covered(self.readers@, byte as int),
    {
        let mut k: usize = 0;
        while k < self.readers.len()
            invariant
                k <= self.readers@.len(),
                forall|j: int| 0 <= j < k ==> !(#[trigger] self.readers@[j]).fetches(byte as int),
            decreases self.readers@.len() - k,
        {
            let reader = self.readers[k];
            if reader.range.start <= byte && byte < reader.range.end && !reader.finished {
                assert(self.readers@[k as int].fetches(byte as int));
                return true;
            }
            k = k + 1;
        }
        false
    }

    /// Takes in the chunk that a reader, whose next byte is `*position`, has received.
    pub fn write_chunk(&mut self, position: &mut usize, chunk: &[u8]) -> (r: Result<
        ChunkStep,
        ChunkOverrun,
    >)
        requires
            old(self).wf(),
            old(self).buffer@.size() > 0 || *old(position) + chunk@.len() > 0,
            *old(position) + chunk@.len() <= usize::MAX,
        ensures
            final(self).wf(),
            final(self).readers == old(self).readers,
            (r, final(self).buffer@, *final(position) as int) == chunk_taken(
                old(self).buffer@,
                *old(position) as int,
                chunk@,
            ),
            // A reader stops only where the next byte was here before, or there is none.
            r == Ok::<ChunkStep, ChunkOverrun>(ChunkStep::Stop) ==> *final(position) == old(
                self,
            ).buffer@.size() || old(self).buffer@.ready[*final(position) as int],
    {
        let size: usize = self.buffer.len();
        let end: usize = *position + chunk.len();
        if end > size {
            return Err(ChunkOverrun { new_position: end, buffer_len: size });
        }
        self.buffer.store(*position, chunk);
        *position = end;
        let next: usize = if end < size - 1 { end } else { size - 1 };
        if self.buffer.indicators[next] {
            Ok(ChunkStep::Stop)
        } else {
            Ok(ChunkStep::Continue)
        }
    }

    /// One look at the buffer on behalf of a read into `buf`.
    pub fn read(&mut self, buf: &mut [u8]) -> (step: ReadStep)
        requires
            old(self).wf(),
        ensures
            final(self).wf(),
            final(self).readers == old(self).readers,
            read_step(
                old(self).buffer@,
                old(self).readers@,
                old(buf)@,
                final(self).buffer@,
                final(buf)@,
                step,
            ),
    {
        let ghost before = self.buffer@;
        let ghost want = buf@;
        let pos: usize = self.buffer.read_position;
        let size: usize = self.buffer.len();
        let right: usize = if buf.len() < size - pos { pos + buf.len() } else { size };
        if right <= pos {
            return ReadStep::Eof;
        }
        match self.buffer.first_missing(pos, right) {
            None => {
                let n: usize = right - pos;
                let mut j: usize = 0;
                while j < n
                    invariant
                        j <= n,
                        n == right - pos,
                        right <= before.size(),
                        n <= want.len(),
                        self.buffer@ == before,
                        self.buffer.data@ == before.data,
                        self.readers == old(self).readers,
                        buf@ == before.data.subrange(pos as int, pos + j) + want.subrange(
                            j as int,
                            want.len() as int,
                        ),
                    decreases n - j,
                {
                    buf[j] = self.buffer.data[pos + j];
                    j = j + 1;
                    assert(buf@ =~= before.data.subrange(pos as int, pos + j) + want.subrange(
                        j as int,
                        want.len() as int,
                    ));
                }
                self.buffer.read_position = right;
                ReadStep::Filled(n)
            },
            Some(hole) => {
                assert(before.is_first_missing(pos as int, right as int, hole as int));
                if self.covers(hole) {
                    ReadStep::Pending
                } else {
                    ReadStep::Stalled(hole)
                }
            },
        }
    }

    /// Moves the cursor, and says whether a reader has to be started for what is there.
    pub fn seek(&mut self, offset: i64, whence: i32) -> (action: SeekAction)
        requires
            old(self).wf(),
            seek_fits(old(self).buffer@.position, old(self).buffer@.size(), offset, whence),
        ensures
            final(self).wf(),
            final(self).readers == old(self).readers,
            seek_action(
                old(self).buffer@,
                old(self).readers@,
                offset,
                whence,
                final(self).buffer@,
                action,
            ),
    {
        let ghost before = self.buffer@;
        let size: usize = self.buffer.len();
        if whence == AVSEEK_SIZE {
            return SeekAction::Reply(size as i64);
        }
        let target: i64 = match resolve_seek(
            self.buffer.read_position as i64,
            size as i64,
            offset,
            whence,
        ) {
            Some(target) => target,
            None => {
                return SeekAction::Refuse(SeekError::UnexpectedWhence(whence));
            },
        };
        let inside = 0 <= target && target <= size as i64;
        if whence == SEEK_END && !inside {
            return SeekAction::Refuse(SeekError::OutsideFromEnd(offset));
        }
        if !inside {
            self.buffer.read_position = size;
            return SeekAction::Reply(target);
        }
        let position: usize = target as usize;
        self.buffer.read_position = position;
        let ghost after = self.buffer@;
        assert(after == before.at(target as int));
        let right: usize = if FFMPEG_BUFFER_SIZE < size - position {
            position + FFMPEG_BUFFER_SIZE
        } else {
            size
        };
        if self.buffer.range_ready(position, right) {
            return SeekAction::Reply(target);
        }
        let closest: usize = self.buffer.closest_available_byte(position);
        proof {
            lemma_closest_ready_unique(before, target as int, closest as int);
            assert(before.is_closest_ready(target as int, closest as int));
        }
        if position - closest < DATA_SEGMENT_SIZE && self.covers(closest) {
            return SeekAction::Reply(target);
        }
        SeekAction::Fetch { from: position, reply: target }
    }
}

/// At most one byte is the last one before `to` that has arrived.
proof fn lemma_closest_ready_unique(state: BufferState, to: int, i: int)
    requires
        state.is_closest_ready(to, i),
    ensures
        forall|j: int| #[trigger] state.is_closest_ready(to, j) ==> j == i,
{
    assert forall|j: int| #[trigger] state.is_closest_ready(to, j) implies j == i by {
        if 0 <= i < to && state.ready[i] && 0 <= j < to && state.ready[j] {
            assert(!(i < j));
            assert(!(j < i));
        }
    }
}

/// The pause before the `attempt`-th replacement of a reader: 10 ms, doubled each time.
pub open spec fn backoff_millis(attempt: nat) -> nat
    decreases attempt,
{
    if attempt <= 1 {
        10
    } else {
        2 * backoff_millis((attempt - 1) as nat)
    }
}

/// What a read does about what it saw, after `respawns` replacements of dead readers.
pub open spec fn read_action(step: ReadStep, respawns: u32) -> ReadAction {
    match step {
        ReadStep::Eof => ReadAction::Reply(AVERROR_EOF),
        ReadStep::Filled(n) => ReadAction::Reply(low_i32(n as int)),
        ReadStep::Pending => ReadAction::Wait { millis: READ_POLL_MS },
        ReadStep::Stalled(hole) => if respawns >= MAX_READER_RESPAWNS {
            ReadAction::GiveUp { at: hole }
        } else {
            ReadAction::Respawn {
                from: hole,
                attempt: (respawns + 1) as u32,
                backoff_millis: backoff_millis((respawns + 1) as nat) as u64,
            }
        },
    }
}

/// How many dead readers a call has replaced once this is done.
pub open spec fn respawns_after(respawns: int, action: ReadAction) -> int {
    if action is Respawn {
        respawns + 1
    } else {
        respawns
    }
}

/// One call of the read callback: how many dead readers it has replaced.
pub struct CloudRead {
    pub respawns: u32,
}

impl CloudRead {
    pub fn new() -> (call: CloudRead)
        ensures
            call.respawns == 0,
    {
        CloudRead { respawns: 0 }
    }

    /// Looks at the buffer once and says how the call goes on.
    pub fn step(&mut self, context: &mut CloudStorageReaderContext, buf: &mut [u8]) -> (action:
        ReadAction)
        requires
            old(context).wf(),
        ensures
            final(context).wf(),
            final(context).readers == old(context).readers,
            exists|seen: ReadStep| #[trigger]
                read_step(
                    old(context).buffer@,
                    old(context).readers@,
                    old(buf)@,
                    final(context).buffer@,
                    final(buf)@,
                    seen,
                ) && action == read_action(seen, old(self).respawns),
            final(self).respawns == respawns_after(old(self).respawns as int, action),
    {
        let seen = context.read(buf);
        match seen {
            ReadStep::Eof => ReadAction::Reply(AVERROR_EOF),
            ReadStep::Filled(n) => ReadAction::Reply(size_to_i32(n)),
            ReadStep::Pending => ReadAction::Wait { millis: READ_POLL_MS },
            ReadStep::Stalled(hole) => {
                if self.respawns >= MAX_READER_RESPAWNS {
                    return ReadAction::GiveUp { at: hole };
                }
                let attempt: u32 = self.respawns + 1;
                let mut pause: u64 = 10;
                let mut k: u32 = 1;
                while k < attempt
                    invariant
                        1 <= k <= attempt <= MAX_READER_RESPAWNS,
                        pause == backoff_millis(k as nat),
                        k <= 1 ==> pause == 10,
                        k == 2 ==> pause == 20,
                        k == 3 ==> pause == 40,
                    decreases attempt - k,
                {
                    pause = 2 * pause;
                    k = k + 1;
                }
                self.respawns = attempt;
                ReadAction::Respawn { from: hole, attempt, backoff_millis: pause }
            },
        }
    }
}

} // verus!
