//! The rows, or samples, of a stream's output that have been handed out.
use vstd::prelude::*;

use crate::decoder::frame::{Seek, StreamType};
use crate::double::Double;

verus! {

/// A run of rows (video) or of samples (audio) in a stream's output.
#[derive(Clone, Copy, Debug, PartialEq, Eq, Structural)]
pub struct Slot {
    pub start: usize,
    pub len: usize,
}

/// What is known of a stream's output.
pub struct SlotsState {
    pub stream_type: StreamType,
    /// How many rows or samples there is room for.
    pub capacity: int,
    /// How many of them are taken.
    pub written: int,
    /// For each row of a video, when it is shown.
    pub pts: Seq<Double>,
}

/// How many samples of a frame of `nb_samples` fit into `room`.
pub open spec fn audio_step(nb_samples: i32, room: int) -> int {
    if 0 <= nb_samples < room {
        nb_samples as int
    } else {
        room
    }
}

impl SlotsState {
    /// No more is taken than there is room for, and each row of a video has its time.
    pub open spec fn wf(self) -> bool {
        &&& 0 <= self.written <= self.capacity <= usize::MAX
        &&& self.pts.len() == if self.stream_type == StreamType::Video {
            self.written
        } else {
            0
        }
    }

    pub open spec fn is_full(self) -> bool {
        self.written >= self.capacity
    }

    /// The next slot for a frame: one row, or as many samples as it has and as there is room for.
    /// A video that is full has none; audio that is full has an empty one.
    pub open spec fn next_slot(self, nb_samples: i32) -> Option<Slot> {
        match self.stream_type {
            StreamType::Video => if self.is_full() {
                None
            } else {
                Some(Slot { start: self.written as usize, len: 1 })
            },
            StreamType::Audio => Some(
                Slot {
                    start: self.written as usize,
                    len: audio_step(nb_samples, self.capacity - self.written) as usize,
                },
            ),
        }
    }

    /// `slot` is taken by a frame shown at `pts`.
    pub open spec fn taken(self, slot: Slot, pts: Double) -> SlotsState {
        SlotsState {
            written: self.written + slot.len,
            pts: if self.stream_type == StreamType::Video {
                self.pts.push(pts)
            } else {
                self.pts
            },
            ..self
        }
    }

    /// The slot that a frame gets without a filter graph: none where it is not kept or where there
    /// is no room.
    pub open spec fn direct_slot(self, pts: Double, nb_samples: i32, seek: Seek) -> Option<Slot> {
        if !seek.keeps(self.stream_type, pts) {
            None
        } else {
            match self.next_slot(nb_samples) {
                Some(slot) if slot.len > 0 => Some(slot),
                _ => None,
            }
        }
    }
}

/// The rows or samples of a stream's output, in the order in which they are taken.
#[derive(Debug)]
pub struct OutputSlots {
    stream_type: StreamType,
    capacity: usize,
    written: usize,
    frame_pts: Vec<Double>,
}

impl View for OutputSlots {
    type V = SlotsState;

    closed spec fn view(&self) -> SlotsState {
        SlotsState {
            stream_type: self.stream_type,
            capacity: self.capacity as int,
            written: self.written as int,
            pts: self.frame_pts@,
        }
    }
}

/// The dimension along which a stream's output is filled.
pub open spec fn filled_dimension(stream_type: StreamType) -> int {
    match stream_type {
        StreamType::Video => 0,
        StreamType::Audio => 1,
    }
}

/// How many rows or samples there is room for in an output of this shape.
pub open spec fn capacity_of(stream_type: StreamType, shape: Seq<i64>) -> int {
    match stream_type {
        StreamType::Video => if shape.len() > 0 {
            shape[0] as int
        } else {
            0
        },
        StreamType::Audio => if shape.len() > 1 {
            shape[1] as int
        } else {
            0
        },
    }
}

/// There is room for as many rows or samples as the dimension has that is filled.
pub proof fn law_room_is_in_the_filled_dimension(stream_type: StreamType, shape: Seq<i64>)
    ensures
        0 <= filled_dimension(stream_type) < 2,
        filled_dimension(stream_type) < shape.len() ==> capacity_of(stream_type, shape)
            == shape[filled_dimension(stream_type)],
        shape.len() <= filled_dimension(stream_type) ==> capacity_of(stream_type, shape) == 0,
        filled_dimension(StreamType::Video) == 0,
        filled_dimension(StreamType::Audio) == 1,
{
}

/// A video has a row for the next frame, behind all others, if and only if it is not full.
pub proof fn law_rows_come_one_by_one(slots: SlotsState, nb_samples: i32)
    requires
        slots.wf(),
        slots.stream_type == StreamType::Video,
    ensures
        slots.next_slot(nb_samples) is Some <==> slots.written < slots.capacity,
        slots.next_slot(nb_samples) matches Some(slot) ==> slot.len == 1 && slot.start
            == slots.written,
        slots.is_full() <==> slots.written == slots.capacity,
{
}

/// The dimension along which a stream's output is filled: rows come first in that of a video, and
/// samples behind the channels in that of audio.
pub fn filled_dim(stream_type: StreamType) -> (r: usize)
    ensures
        r == filled_dimension(stream_type),
{
    match stream_type {
        StreamType::Video => 0,
        StreamType::Audio => 1,
    }
}

/// The size of the dimension along which a stream's output is filled.
pub fn output_capacity(stream_type: StreamType, shape: &Vec<i64>) -> (r: usize)
    requires
        forall|i: int| 0 <= i < shape@.len() ==> 0 <= #[trigger] shape@[i] <= usize::MAX,
    ensures
        r == capacity_of(stream_type, shape@),
{
    match stream_type {
        StreamType::Video => if shape.len() > 0 {
            shape[0] as usize
        } else {
            0
        },
        StreamType::Audio => if shape.len() > 1 {
            shape[1] as usize
        } else {
            0
        },
    }
}

impl OutputSlots {
    /// Room for `capacity` rows or samples, none of which is taken.
    pub fn new(stream_type: StreamType, capacity: usize) -> (slots: OutputSlots)
        ensures
            slots@.wf(),
            slots@ == (SlotsState {
                stream_type,
                capacity: capacity as int,
                written: 0,
                pts: seq![],
            }),
    {
        let slots = OutputSlots { stream_type, capacity, written: 0, frame_pts: Vec::new() };
        assert(slots@.pts =~= seq![]);
        slots
    }

    pub fn stream_type(&self) -> (r: StreamType)
        ensures
            r == self@.stream_type,
    {
        self.stream_type
    }

    /// How many rows or samples are taken.
    pub fn written(&self) -> (r: usize)
        ensures
            r == self@.written,
    {
        self.written
    }

    /// Whether there is no room left.
    pub fn has_finished_decoding(&self) -> (r: bool)
        ensures
            r == self@.is_full(),
    {
        self.written >= self.capacity
    }

    /// The next slot for a frame.
    pub fn next_slot(&self, nb_samples: i32) -> (r: Option<Slot>)
        requires
            self@.wf(),
        ensures
            r == self@.next_slot(nb_samples),
    {
        match self.stream_type {
            StreamType::Video => {
                if self.written >= self.capacity {
                    None
                } else {
                    Some(Slot { start: self.written, len: 1 })
                }
            },
            StreamType::Audio => {
                let room: usize = self.capacity - self.written;
                let len: usize = if nb_samples >= 0 && (nb_samples as usize) < room {
                    nb_samples as usize
                } else {
                    room
                };
                Some(Slot { start: self.written, len })
            },
        }
    }

    /// The slot that a frame gets without a filter graph.
    pub fn direct_slot(&self, pts: &Double, nb_samples: i32, seek: &Seek) -> (r: Option<Slot>)
        requires
            self@.wf(),
        ensures
            r == self@.direct_slot(*pts, nb_samples, *seek),
    {
        if !seek.wants(self.stream_type, pts) {
            return None;
        }
        match self.next_slot(nb_samples) {
            Some(slot) => {
                if slot.len > 0 {
                    Some(slot)
                } else {
                    None
                }
            },
            None => None,
        }
    }

    /// Takes the slot that is next for a frame shown at `pts`.
    pub fn take(&mut self, slot: Slot, pts: Double)
        requires
            old(self)@.wf(),
            slot.len <= old(self)@.capacity - old(self)@.written,
            old(self)@.stream_type == StreamType::Video ==> slot.len == 1,
        ensures
            final(self)@.wf(),
            final(self)@ == old(self)@.taken(slot, pts),
    {
        self.written = self.written + slot.len;
        if self.stream_type == StreamType::Video {
            self.frame_pts.push(pts);
        }
    }

    /// How many rows or samples hold something, and the times of the rows of a video.
    pub fn into_filled(self) -> (r: (usize, Vec<Double>))
        ensures
            r.0 == self@.written,
            r.1@ == self@.pts,
    {
        (self.written, self.frame_pts)
    }
}

/// A slot lies in the output and begins where the ones before it end.
pub proof fn law_slots_are_consecutive(slots: SlotsState, nb_samples: i32, pts: Double)
    requires
        slots.wf(),
        slots.next_slot(nb_samples) is Some,
    ensures
        ({
            let slot = slots.next_slot(nb_samples)->0;
            &&& slot.start == slots.written
            &&& slot.start + slot.len <= slots.capacity
            &&& slots.taken(slot, pts).wf()
            &&& slots.taken(slot, pts).written == slot.start + slot.len
        }),
{
}

/// Audio is cut where the output ends, and only there: a frame that fits is taken whole.
pub proof fn law_audio_is_cut_only_at_the_end(slots: SlotsState, nb_samples: i32, pts: Double)
    requires
        slots.wf(),
        slots.stream_type == StreamType::Audio,
        nb_samples >= 0,
    ensures
        ({
            let slot = slots.next_slot(nb_samples)->0;
            &&& slot.len == nb_samples || slots.taken(slot, pts).is_full()
            &&& slot.len <= nb_samples
        }),
{
}

/// A row is never taken back, and its time never changes.
pub proof fn law_rows_keep_their_time(slots: SlotsState, slot: Slot, pts: Double, row: int)
    requires
        slots.wf(),
        slots.stream_type == StreamType::Video,
        slot.len == 1,
        0 <= row < slots.written,
    ensures
        slots.taken(slot, pts).pts[row] == slots.pts[row],
        slots.taken(slot, pts).pts[slots.written] == pts,
        slots.taken(slot, pts).pts.len() == slots.taken(slot, pts).written,
{
}

} // verus!
