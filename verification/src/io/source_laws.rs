//! Where an input is looked for, and what is asked of the store that holds it.
use vstd::prelude::*;

use crate::decoder::request::MediaSource;
use crate::io::cloud::{
    chunk_taken, is_covered, read_action, read_step, respawns_after, seek_action, started_reader,
    BufferState, ChunkOverrun, ChunkStep, DataReader, ReadAction, ReadStep, SeekAction, SeekError,
};
use crate::io::file::{
    finished_read, finished_seek, planned_read, planned_seek, FileRead, FileSeek, IOContext,
};
use crate::io::memory::{memory_read, memory_seek, MemoryState};
use crate::io::source::{
    object_size, object_size_limit, offset_asked, opened_as, opens, range_text, size_checked,
    CloudUri, InputOpener, OpenError, OpenPlan,
};
use crate::text::{decimal, law_decimal_round_trip, unsigned_value};
use crate::util::s3::S3Config;
use crate::util::uri::{uri_parts, UriError};

verus! {

/// A name that begins with `gs://` is looked for in Google Cloud Storage, one that begins with
/// `s3://` in S3, under the bucket that is its host and with the configuration that is given; every
/// other name is left to the media library. What names no bucket, or in S3 no object, is refused.
pub proof fn law_where_inputs_are_looked_for(
    name: Seq<char>,
    s3_config: Option<S3Config>,
    r: Result<InputOpener, UriError>,
    host: Seq<char>,
    key: Seq<char>,
)
    requires
        opens(name, s3_config, r),
    ensures
        r matches Ok(InputOpener::Direct) <==> !("gs://"@.is_prefix_of(name)
            || "s3://"@.is_prefix_of(name)),
        r matches Ok(InputOpener::Cloud(CloudUri::Gcs(_))) ==> "gs://"@.is_prefix_of(name),
        r matches Ok(InputOpener::Cloud(CloudUri::S3(_, _))) ==> "s3://"@.is_prefix_of(name),
        "gs://"@.is_prefix_of(name) && uri_parts(name) == Some((Some(host), seq!['/'] + key)) ==> {
            &&& r matches Ok(InputOpener::Cloud(CloudUri::Gcs(uri)))
            &&& uri.bucket@ == "projects/_/buckets/"@ + host
            &&& uri.key@ == key
        },
        "s3://"@.is_prefix_of(name) && uri_parts(name) == Some((Some(host), seq!['/'] + key))
            && key.len() > 0 ==> {
            &&& r matches Ok(InputOpener::Cloud(CloudUri::S3(uri, config)))
            &&& uri.bucket@ == host
            &&& uri.key@ == key
            &&& config == s3_config
        },
        "s3://"@.is_prefix_of(name) && uri_parts(name) == Some((Some(host), seq!['/'])) ==> {
            r matches Err(UriError::MissingKey)
        },
        r matches Err(UriError::Invalid(_)) ==> uri_parts(name) is None,
        r matches Err(UriError::MissingBucket) ==> uri_parts(name) matches Some((None, _)),
        ("gs://"@.is_prefix_of(name) || "s3://"@.is_prefix_of(name)) && uri_parts(name) is None
            ==> r is Err,
{
    crate::io::source::law_schemes_exclude_each_other(name);
    assert((seq!['/'] + key).skip(1) =~= key);
    assert(seq!['/'].skip(1) =~= seq![]);
}

/// An object may be as large as the environment says, or 16 GiB where it says nothing or no number.
pub proof fn law_how_large_objects_may_be(n: u64, text: Seq<char>)
    ensures
        object_size_limit(None) == 17179869184,
        object_size_limit(Some(decimal(n as nat))) == n,
        unsigned_value(text, u64::MAX as nat) is None ==> object_size_limit(Some(text))
            == 17179869184,
{
    law_decimal_round_trip(n as nat, u64::MAX as nat);
}

/// An object is refused if and only if it is larger than may be held; the refusal tells both sizes.
pub proof fn law_which_objects_are_held(size: u64, max_size: u64)
    ensures
        size_checked(size, max_size) is Ok <==> size <= max_size,
        size_checked(size, max_size) matches Err(error) ==> error.size == size && error.max_size
            == max_size,
{
}

/// The range that is asked for begins at the offset and has no end. An object has the bytes before
/// the offset and those that follow it.
pub proof fn law_ranges_and_sizes(offset: u64, length: i64)
    ensures
        ({
            let text = range_text(offset);
            let n = text.len() as int;
            &&& n > 7
            &&& text.take(6) == "bytes="@
            &&& text[n - 1] == '-'
            &&& unsigned_value(text.subrange(6, n - 1), u64::MAX as nat) == Some(offset as nat)
        }),
        offset_asked(offset) is None <==> offset == 0,
        offset_asked(offset) matches Some(from) ==> from == offset,
        object_size(offset as int, None) == offset,
        length >= 0 ==> object_size(offset as int, Some(length)) == offset + length,
        length < 0 ==> object_size(offset as int, Some(length)) == offset,
{
    reveal_strlit("bytes=");
    reveal_strlit("-");
    law_decimal_round_trip(offset as nat, u64::MAX as nat);
    crate::text::law_decimal_has_no_leading_zeros(offset as nat);
    let text = range_text(offset);
    assert(text.take(6) =~= "bytes="@);
    assert(text.subrange(6, text.len() - 1) =~= decimal(offset as nat));
}

/// A read from memory hands out the bytes at the cursor: as many as are asked for or as there are.
/// It answers how many these are, and that the end is reached if and only if there are none.
pub proof fn law_what_memory_hands_out(state: MemoryState, want: int, i: int)
    requires
        state.wf(),
        0 <= want,
    ensures
        ({
            let (code, bytes, after) = memory_read(state, want);
            &&& bytes.len() <= want
            &&& bytes.len() == want || state.position + bytes.len() == state.data.len()
            &&& after.position == state.position + bytes.len()
            &&& after.data == state.data
            &&& 0 < bytes.len() <= i32::MAX ==> code == bytes.len()
            &&& bytes.len() == 0 ==> code == -541478725
            &&& 0 <= i < bytes.len() ==> bytes[i] == state.data[state.position + i]
        }),
{
}

/// A seek in memory leads to the place that is asked for, from the start, the cursor or the end, if
/// and only if that lies in the bytes or at their end; it is refused otherwise and leaves the cursor
/// where it is. The size is told without moving it.
pub proof fn law_where_memory_seeks_lead(state: MemoryState, offset: i64, whence: i32, target: int)
    requires
        state.wf(),
        whence == 0 ==> target == offset,
        whence == 1 ==> target == state.position + offset,
        whence == 2 ==> target == state.data.len() + offset,
    ensures
        ({
            let (code, after) = memory_seek(state, offset, whence);
            &&& after.data == state.data
            &&& if whence == 0x10000 {
                code == state.data.len() && after.position == state.position
            } else if (whence == 0 || whence == 1 || whence == 2) && 0 <= target
                <= state.data.len() {
                code == target && after.position == target
            } else {
                code == -1 && after.position == state.position
            }
        }),
{
}

/// A file is asked to seek from where the demuxer counts from, and is not asked at all where it is
/// its size that the demuxer asks for.
pub proof fn law_what_is_asked_of_a_file(io: IOContext, offset: i64, whence: i32)
    ensures
        match planned_seek(io, offset, whence) {
            FileSeek::Start(place) => whence == 0 && (offset >= 0 ==> place == offset),
            FileSeek::Current(by) => whence == 1 && by == offset,
            FileSeek::End(by) => whence == 2 && by == offset,
            FileSeek::Size(size) => whence == 0x10000 && (io.file_size <= i64::MAX ==> size
                == io.file_size),
            FileSeek::ForceUnsupported => whence == 0x20000,
            FileSeek::Unsupported(code) => {
                &&& code == whence
                &&& whence != 0 && whence != 1 && whence != 2
                &&& whence != 0x10000 && whence != 0x20000
            },
        },
{
}

/// A seek in a cloud object leads to the place that is asked for, from the start, the cursor or the
/// end. A place outside the object is refused where it counts from the end; otherwise it is answered
/// as it was asked for, and the cursor goes to the end of the object.
pub proof fn law_where_cloud_seeks_lead(
    before: BufferState,
    readers: Seq<DataReader>,
    offset: i64,
    whence: i32,
    after: BufferState,
    action: SeekAction,
    target: int,
)
    requires
        before.wf(),
        seek_action(before, readers, offset, whence, after, action),
        whence == 0 ==> target == offset,
        whence == 1 ==> target == before.position + offset,
        whence == 2 ==> target == before.data.len() + offset,
        i64::MIN <= target <= i64::MAX,
    ensures
        whence == 0x10000 ==> action == SeekAction::Reply(before.data.len() as i64) && after
            == before,
        whence != 0 && whence != 1 && whence != 2 && whence != 0x10000 ==> action
            == SeekAction::Refuse(SeekError::UnexpectedWhence(whence)) && after == before,
        (whence == 0 || whence == 1 || whence == 2) && 0 <= target <= before.data.len() ==> {
            &&& after.position == target
            &&& action == SeekAction::Reply(target as i64) || action == (SeekAction::Fetch {
                from: target as usize,
                reply: target as i64,
            })
        },
        whence == 2 && !(0 <= target <= before.data.len()) ==> action == SeekAction::Refuse(
            SeekError::OutsideFromEnd(offset),
        ) && after == before,
        (whence == 0 || whence == 1) && !(0 <= target <= before.data.len()) ==> action
            == SeekAction::Reply(target as i64) && after.position == before.data.len(),
{
}

/// Nothing of an object is here at first, and reading begins with its first byte.
pub proof fn law_objects_begin_unread(size: nat, i: int)
    requires
        0 <= i < size,
    ensures
        BufferState::fresh(size).data.len() == size,
        BufferState::fresh(size).ready.len() == size,
        !BufferState::fresh(size).ready[i],
        BufferState::fresh(size).position == 0,
{
}

/// A reader that still runs has this byte in its range.
pub open spec fn is_being_fetched(readers: Seq<DataReader>, byte: int) -> bool {
    exists|k: int|
        0 <= k < readers.len() && !(#[trigger] readers[k]).finished && readers[k].range.start
            <= byte < readers[k].range.end
}

/// A seek into the object starts a reader if and only if one of the next 32768 bytes is missing and
/// no running reader is on its way there: one that has the last byte before the cursor that has
/// arrived in its range (the first byte where none has), less than 64 MiB away.
pub proof fn law_when_a_seek_starts_a_reader(
    before: BufferState,
    readers: Seq<DataReader>,
    offset: i64,
    whence: i32,
    after: BufferState,
    action: SeekAction,
    target: int,
    last: int,
)
    requires
        before.wf(),
        seek_action(before, readers, offset, whence, after, action),
        whence == 0 || whence == 1 || whence == 2,
        whence == 0 ==> target == offset,
        whence == 1 ==> target == before.position + offset,
        whence == 2 ==> target == before.data.len() + offset,
        0 <= target <= before.data.len(),
        0 <= last,
        last < target && before.ready[last] || last == 0 && forall|j: int|
            0 <= j < target ==> !#[trigger] before.ready[j],
        forall|j: int| last < j < target ==> !#[trigger] before.ready[j],
    ensures
        action is Fetch <==> {
            &&& exists|b: int|
                target <= b < before.data.len() && b < target + 32768 && !#[trigger] before.ready[b]
            &&& !(target - last < 67108864 && is_being_fetched(readers, last))
        },
{
    assert(before.is_closest_ready(target, last));
    assert forall|i: int| #[trigger] before.is_closest_ready(target, i) implies i == last by {
        if 0 <= i < target && before.ready[i] && i != last {
            if last < i {
                assert(!before.ready[i]);
            } else if last < target && before.ready[last] {
                assert(!before.ready[last]);
            }
        }
    }
    lemma_being_fetched(readers, last);
    let right = after.window_end(32768);
    if exists|b: int|
        target <= b < before.data.len() && b < target + 32768 && !#[trigger] before.ready[b] {
        let b = choose|b: int|
            target <= b < before.data.len() && b < target + 32768 && !#[trigger] before.ready[b];
        assert(!after.ready[b]);
        assert(!after.all_ready(target, right));
    } else {
        assert(after.all_ready(target, right));
    }
}

proof fn lemma_being_fetched(readers: Seq<DataReader>, byte: int)
    ensures
        is_being_fetched(readers, byte) <==> is_covered(readers, byte),
{
    if is_covered(readers, byte) {
        let k = choose|k: int| 0 <= k < readers.len() && (#[trigger] readers[k]).fetches(byte);
        assert(!readers[k].finished);
    }
    if is_being_fetched(readers, byte) {
        let k = choose|k: int|
            0 <= k < readers.len() && !(#[trigger] readers[k]).finished && readers[k].range.start
                <= byte < readers[k].range.end;
        assert(readers[k].fetches(byte));
    }
}

/// A read that finds a byte missing waits if and only if a running reader is fetching the first such
/// byte; otherwise it stalls there.
pub proof fn law_when_a_read_waits(
    before: BufferState,
    readers: Seq<DataReader>,
    want: Seq<u8>,
    after: BufferState,
    got: Seq<u8>,
    step: ReadStep,
    hole: int,
)
    requires
        before.wf(),
        want.len() <= usize::MAX,
        before.data.len() <= usize::MAX,
        read_step(before, readers, want, after, got, step),
        before.position <= hole < before.data.len(),
        hole < before.position + want.len(),
        !before.ready[hole],
        forall|j: int| before.position <= j < hole ==> #[trigger] before.ready[j],
    ensures
        step == if is_being_fetched(readers, hole) {
            ReadStep::Pending
        } else {
            ReadStep::Stalled(hole as usize)
        },
        after == before,
        got == want,
{
    let right = before.window_end(want.len() as int);
    assert(!before.all_ready(before.position, right));
    let found = choose|h: int| #[trigger]
        before.is_first_missing(before.position, right, h) && step == if is_covered(readers, h) {
            ReadStep::Pending
        } else {
            ReadStep::Stalled(h as usize)
        };
    if found < hole {
        assert(before.ready[found]);
    }
    if hole < found {
        assert(before.ready[hole]);
    }
    lemma_being_fetched(readers, hole);
}

/// A read answers with the number of bytes that it has, or that the object is at its end; it waits a
/// millisecond for a running reader, and replaces a dead one up to three times, with pauses that
/// double from ten milliseconds on.
pub proof fn law_how_a_read_goes_on(step: ReadStep, respawns: u32)
    ensures
        match step {
            ReadStep::Eof => read_action(step, respawns) == ReadAction::Reply(-541478725i32),
            ReadStep::Filled(n) => n <= i32::MAX ==> read_action(step, respawns)
                == ReadAction::Reply(n as i32),
            ReadStep::Pending => read_action(step, respawns) == (ReadAction::Wait { millis: 1 }),
            ReadStep::Stalled(hole) => if respawns < 3 {
                &&& read_action(step, respawns) matches ReadAction::Respawn {
                    from,
                    attempt,
                    backoff_millis,
                }
                &&& from == hole
                &&& attempt == respawns + 1
                &&& respawns == 0 ==> backoff_millis == 10
                &&& respawns == 1 ==> backoff_millis == 20
                &&& respawns == 2 ==> backoff_millis == 40
            } else {
                read_action(step, respawns) == (ReadAction::GiveUp { at: hole })
            },
        },
{
    reveal_with_fuel(crate::io::cloud::backoff_millis, 3);
}

/// A reader that is started fetches every byte from its start to the end of the object, and no other
/// byte.
pub proof fn law_what_a_started_reader_fetches(start: usize, size: int, byte: int)
    requires
        0 <= size <= usize::MAX,
    ensures
        started_reader(start, size).fetches(byte) <==> start <= byte < size,
        !started_reader(start, size).finished,
{
}

/// Each replacement of a dead reader counts, so that one read replaces at most three of them.
pub proof fn law_replacements_count(step: ReadStep, respawns: u32)
    ensures
        ({
            let action = read_action(step, respawns);
            let after = respawns_after(respawns as int, action);
            &&& action is Respawn ==> after == respawns + 1 && after <= 3
            &&& !(action is Respawn) ==> after == respawns
        }),
{
}

/// What a read from a file answers: that it failed, that the end is reached where the file gave
/// nothing, or how many bytes it gave. The cursor moves if and only if there are any.
pub proof fn law_what_a_file_read_answers(io: IOContext, right: u64, got: Option<usize>)
    ensures
        ({
            let (code, after) = finished_read(io, right, got);
            &&& after.file_size == io.file_size
            &&& got is None ==> code == -1 && after.current == io.current
            &&& got == Some(0usize) ==> code == -541478725 && after.current == io.current
            &&& got is Some && got->0 > 0 ==> after.current == right && (got->0 <= i32::MAX
                ==> code == got->0)
        }),
{
}

/// A read asks a file for no more than is wanted and than the file has from the cursor on, for all
/// of that, and for nothing at the end.
pub proof fn law_what_a_read_asks_of_a_file(io: IOContext, want: usize)
    ensures
        match planned_read(io, want as int) {
            FileRead::Eof => want == 0 || io.current >= io.file_size,
            FileRead::Read { len, right } => {
                &&& 0 < len <= want
                &&& right == io.current + len
                &&& right <= io.file_size
                &&& len == want || right == io.file_size
            },
        },
{
}

/// What a seek in a file answers: where the file stands then, or that it failed, in which case the
/// cursor stays.
pub proof fn law_what_a_file_seek_answers(io: IOContext, reached: Option<u64>)
    ensures
        ({
            let (code, after) = finished_seek(io, reached);
            &&& after.file_size == io.file_size
            &&& reached is None ==> code == -1 && after.current == io.current
            &&& reached is Some ==> after.current == reached->0 && (reached->0 <= i64::MAX ==> code
                == reached->0)
        }),
{
}

/// Bytes are read from memory, from the first on; a name is opened as it says, unless C cannot take
/// it.
pub proof fn law_how_sources_are_opened(
    source: MediaSource,
    s3_config: Option<S3Config>,
    r: Result<OpenPlan, OpenError>,
)
    requires
        opened_as(source, s3_config, r),
    ensures
        source matches MediaSource::Bytes(bytes) ==> {
            &&& r matches Ok(OpenPlan::Memory(reader))
            &&& reader@.data == bytes@
            &&& reader@.position == 0
        },
        source matches MediaSource::Uri(uri) ==> match r {
            Ok(OpenPlan::Named { name, opener }) => name@ == uri@ && opens(
                uri@,
                s3_config,
                Ok(opener),
            ),
            Ok(OpenPlan::Memory(_)) => false,
            Err(OpenError::Uri(error)) => opens(uri@, s3_config, Err(error)),
            Err(OpenError::Name(nul)) => exists|i: int|
                0 <= i < uri@.len() && #[trigger] uri@[i] == '\0',
        },
        source matches MediaSource::Uri(uri) ==> (r matches Ok(_) ==> forall|i: int|
            0 <= i < uri@.len() ==> #[trigger] uri@[i] != '\0'),
{
}

/// A chunk that lies in the object is stored, byte by byte in its place, and marked; no other byte
/// changes. Its reader goes on behind it, unless the next byte is here already or there is none. A
/// chunk that does not is refused, and nothing changes.
pub proof fn law_what_becomes_of_a_chunk(
    before: BufferState,
    position: int,
    chunk: Seq<u8>,
    i: int,
)
    requires
        before.wf(),
        before.data.len() <= usize::MAX,
        0 <= position,
        position + chunk.len() <= usize::MAX,
        0 <= i < before.data.len(),
    ensures
        ({
            let (r, after, next) = chunk_taken(before, position, chunk);
            let end = position + chunk.len();
            if end <= before.data.len() {
                &&& next == end
                &&& after.position == before.position
                &&& after.data.len() == before.data.len()
                &&& after.ready.len() == before.ready.len()
                &&& after.data[i] == if position <= i < end {
                    chunk[i - position]
                } else {
                    before.data[i]
                }
                &&& after.ready[i] <==> position <= i < end || before.ready[i]
                &&& end < before.data.len() ==> r == Ok::<ChunkStep, ChunkOverrun>(
                    if before.ready[end] {
                        ChunkStep::Stop
                    } else {
                        ChunkStep::Continue
                    },
                )
                &&& end == before.data.len() && chunk.len() > 0 ==> r == Ok::<
                    ChunkStep,
                    ChunkOverrun,
                >(ChunkStep::Stop)
            } else {
                &&& r == Err::<ChunkStep, ChunkOverrun>(
                    ChunkOverrun {
                        new_position: end as usize,
                        buffer_len: before.data.len() as usize,
                    },
                )
                &&& after == before
                &&& next == position
            }
        }),
{
}

} // verus!
