//! A file, and its bytes in memory, are the same input to a demuxer.
use vstd::prelude::*;

use crate::io::file::{
    finished_read, finished_seek, planned_read, planned_seek, FileRead, FileSeek, IOContext,
};
use crate::io::memory::{memory_read, memory_seek, MemoryState};
use crate::io::seek::{seek_target, AVERROR_EOF, CALLBACK_FAILED};

verus! {

/// What a demuxer asks of its input.
pub enum Request {
    /// Up to `want` bytes.
    Read { want: usize },
    Seek { offset: i64, whence: i32 },
}

/// The code that a demuxer is answered with, and the bytes that it is given.
pub struct Answer {
    pub code: int,
    pub bytes: Seq<u8>,
}

/// An open file that holds `data` and stands at `position`, and the cursor that is kept for it.
pub struct OpenFile {
    pub data: Seq<u8>,
    pub position: int,
    pub io: IOContext,
}

/// The bytes of a file from where it stands on: `len` of them, or as many as there are.
pub open spec fn bytes_of_file(file: OpenFile, len: int) -> Seq<u8> {
    if file.position >= file.data.len() {
        seq![]
    } else if file.position + len < file.data.len() {
        file.data.subrange(file.position, file.position + len)
    } else {
        file.data.skip(file.position)
    }
}

/// Where a file comes to stand; `None` where it cannot stand there, or need not move.
pub open spec fn file_reaches(file: OpenFile, plan: FileSeek) -> Option<int> {
    let target = match plan {
        FileSeek::Start(place) => Some(place as int),
        FileSeek::Current(offset) => Some(file.position + offset),
        FileSeek::End(offset) => Some(file.data.len() + offset),
        _ => None,
    };
    match target {
        Some(place) if 0 <= place <= i64::MAX => Some(place),
        _ => None,
    }
}

/// What a demuxer is answered from a file that gives every byte that it is asked for and has.
pub open spec fn file_answer(file: OpenFile, request: Request) -> (Answer, OpenFile) {
    match request {
        Request::Read { want } => match planned_read(file.io, want as int) {
            FileRead::Eof => (Answer { code: AVERROR_EOF as int, bytes: seq![] }, file),
            FileRead::Read { len, right } => {
                let bytes = bytes_of_file(file, len as int);
                let (code, io) = finished_read(file.io, right, Some(bytes.len() as usize));
                (
                    Answer { code: code as int, bytes },
                    OpenFile { position: file.position + bytes.len(), io, ..file },
                )
            },
        },
        Request::Seek { offset, whence } => match planned_seek(file.io, offset, whence) {
            FileSeek::Size(size) => (Answer { code: size as int, bytes: seq![] }, file),
            FileSeek::ForceUnsupported | FileSeek::Unsupported(_) => (
                Answer { code: CALLBACK_FAILED as int, bytes: seq![] },
                file,
            ),
            plan => match file_reaches(file, plan) {
                Some(place) => {
                    let (code, io) = finished_seek(file.io, Some(place as u64));
                    (
                        Answer { code: code as int, bytes: seq![] },
                        OpenFile { position: place, io, ..file },
                    )
                },
                None => {
                    let (code, io) = finished_seek(file.io, None);
                    (Answer { code: code as int, bytes: seq![] }, OpenFile { io, ..file })
                },
            },
        },
    }
}

/// What a demuxer is answered from bytes in memory.
pub open spec fn memory_answer(state: MemoryState, request: Request) -> (Answer, MemoryState) {
    match request {
        Request::Read { want } => {
            let (code, bytes, after) = memory_read(state, want as int);
            (Answer { code: code as int, bytes }, after)
        },
        Request::Seek { offset, whence } => {
            let (code, after) = memory_seek(state, offset, whence);
            (Answer { code: code as int, bytes: seq![] }, after)
        },
    }
}

/// The request does not lead behind the end of the input, where a file can stand and a reader of
/// bytes in memory cannot.
pub open spec fn stays_inside(state: MemoryState, request: Request) -> bool {
    request matches Request::Seek { offset, whence } ==> (seek_target(
        state.position,
        state.data.len() as int,
        offset as int,
        whence,
    ) matches Some(target) ==> target <= state.data.len())
}

/// The file holds these bytes and stands where the cursor in memory is.
pub open spec fn stands_alike(file: OpenFile, state: MemoryState) -> bool {
    &&& file.data == state.data
    &&& file.position == state.position
    &&& file.io.current == state.position
    &&& file.io.file_size == state.data.len()
}

/// A file, and a reader of its bytes in memory that is at the same place, give the same answer and
/// the same bytes to whatever a demuxer asks, and are at the same place again.
pub proof fn law_file_and_memory_answer_alike(
    file: OpenFile,
    state: MemoryState,
    request: Request,
)
    requires
        state.wf(),
        stands_alike(file, state),
        stays_inside(state, request),
    ensures
        file_answer(file, request).0 == memory_answer(state, request).0,
        memory_answer(state, request).1.wf(),
        stands_alike(file_answer(file, request).1, memory_answer(state, request).1),
{
    if let Request::Read { want } = request {
        let n = state.available(want as int);
        if n > 0 {
            assert(bytes_of_file(file, n) =~= state.next_bytes(want as int));
        }
    }
}

/// What a demuxer is answered from a file, one request after the other.
pub open spec fn file_answers(file: OpenFile, requests: Seq<Request>) -> Seq<Answer>
    decreases requests.len(),
{
    if requests.len() == 0 {
        seq![]
    } else {
        let (answer, after) = file_answer(file, requests[0]);
        seq![answer] + file_answers(after, requests.drop_first())
    }
}

/// What a demuxer is answered from bytes in memory, one request after the other.
pub open spec fn memory_answers(state: MemoryState, requests: Seq<Request>) -> Seq<Answer>
    decreases requests.len(),
{
    if requests.len() == 0 {
        seq![]
    } else {
        let (answer, after) = memory_answer(state, requests[0]);
        seq![answer] + memory_answers(after, requests.drop_first())
    }
}

/// No seek leads behind the end.
pub open spec fn all_stay_inside(state: MemoryState, requests: Seq<Request>) -> bool
    decreases requests.len(),
{
    requests.len() > 0 ==> stays_inside(state, requests[0]) && all_stay_inside(
        memory_answer(state, requests[0]).1,
        requests.drop_first(),
    )
}

/// A demuxer that never seeks behind the end of its input cannot tell a file from the bytes of the
/// file in memory: whatever it asks, and however often, both give it the same answers.
pub proof fn law_file_and_its_bytes_are_one_input(data: Seq<u8>, requests: Seq<Request>)
    requires
        data.len() <= i64::MAX,
        all_stay_inside(MemoryState { data, position: 0 }, requests),
    ensures
        file_answers(
            OpenFile {
                data,
                position: 0,
                io: IOContext { current: 0, file_size: data.len() as u64 },
            },
            requests,
        ) == memory_answers(MemoryState { data, position: 0 }, requests),
{
    lemma_answers_alike(
        OpenFile { data, position: 0, io: IOContext { current: 0, file_size: data.len() as u64 } },
        MemoryState { data, position: 0 },
        requests,
    );
}

proof fn lemma_answers_alike(file: OpenFile, state: MemoryState, requests: Seq<Request>)
    requires
        state.wf(),
        stands_alike(file, state),
        all_stay_inside(state, requests),
    ensures
        file_answers(file, requests) == memory_answers(state, requests),
    decreases requests.len(),
{
    if requests.len() > 0 {
        law_file_and_memory_answer_alike(file, state, requests[0]);
        lemma_answers_alike(
            file_answer(file, requests[0]).1,
            memory_answer(state, requests[0]).1,
            requests.drop_first(),
        );
    }
}

} // verus!
