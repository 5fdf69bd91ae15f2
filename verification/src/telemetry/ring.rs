//! The last events of one processor.

use vstd::prelude::*;

use super::record::EventRecord;
use crate::error::{ErrorCode, ErrorPhase, MonadError, MonadResult};

verus! {

pub const EVENT_RING_CAPACITY: usize = 1024;

/// A record and its place in the order of all that were ever recorded.
#[derive(Debug, Clone, Copy, PartialEq, Eq, Structural)]
pub struct EventSlot {
    pub ordinal: u64,
    pub record: EventRecord,
}

/// What a reader got.
#[derive(Debug, Clone, Copy, PartialEq, Eq, Structural)]
pub struct RingSnapshot {
    pub count: usize,
    pub next_sequence: u64,
    pub dropped: u64,
}

/// A ring as contracts see it.
pub struct RingModel {
    pub slots: Seq<EventSlot>,
    pub next_sequence: u64,
    pub published: u64,
    pub reader_ordinal: u64,
    pub reader_sequence: u64,
    pub dropped: u64,
}

/// Counting up, around the end of the word.
pub open spec fn next(value: u64) -> u64 {
    if value == u64::MAX {
        0
    } else {
        (value + 1) as u64
    }
}

impl RingModel {
    /// The record with an ordinal, while the ring still holds it.
    pub open spec fn record_at(self, ordinal: int) -> EventRecord {
        self.slots[ordinal % 1024].record
    }

    /// The first ordinal that the ring still holds.
    pub open spec fn earliest(self) -> int {
        if self.published >= EVENT_RING_CAPACITY {
            self.published - EVENT_RING_CAPACITY
        } else {
            0
        }
    }

    /// Every slot holds the ordinal that belongs there.
    pub open spec fn in_step(self) -> bool {
        &&& self.slots.len() == EVENT_RING_CAPACITY
        &&& forall|ordinal: int|
            self.earliest() <= ordinal < self.published ==> (#[trigger] self.slots[ordinal
                % 1024]).ordinal == ordinal
    }

    /// Where the reader goes on: at the first record that it has not seen and
    /// that the ring still holds.
    pub open spec fn cursor(self) -> int {
        if self.reader_ordinal < self.earliest() {
            self.earliest()
        } else {
            self.reader_ordinal as int
        }
    }

    /// How many records a reader with room for `room` gets.
    pub open spec fn readable(self, room: int) -> int {
        let available = if self.published > self.cursor() {
            self.published - self.cursor()
        } else {
            0
        };
        if available < room {
            available
        } else {
            room
        }
    }

    /// The ring after an event. The reader has missed one more where the
    /// event takes the place of one that it has not seen.
    pub open spec fn recorded(self, record: EventRecord) -> RingModel {
        RingModel {
            slots: self.slots.update(
                self.published as int % 1024,
                EventSlot {
                    ordinal: self.published,
                    record: EventRecord { sequence: self.next_sequence, ..record },
                },
            ),
            next_sequence: next(self.next_sequence),
            published: next(self.published),
            dropped: if self.published - self.reader_ordinal >= EVENT_RING_CAPACITY {
                next(self.dropped)
            } else {
                self.dropped
            },
            ..self
        }
    }

    /// The sequence that a reader with room for `room` has come to.
    pub open spec fn read_sequence(self, room: int) -> u64 {
        let count = self.readable(room);
        if count == 0 {
            self.reader_sequence
        } else {
            self.record_at(self.cursor() + count - 1).sequence
        }
    }

    /// The ring after a reader with room for `room`.
    pub open spec fn read(self, room: int) -> RingModel {
        RingModel {
            reader_ordinal: (self.cursor() + self.readable(room)) as u64,
            reader_sequence: self.read_sequence(room),
            ..self
        }
    }
}

/// The ring of one processor.
pub struct EventRing {
    slots: Vec<EventSlot>,
    next_sequence: u64,
    published: u64,
    reader_ordinal: u64,
    reader_sequence: u64,
    dropped: u64,
}

/// Counts up, around the end of the word.
fn advance(value: u64) -> (after: u64)
    ensures
        after == next(value),
{
    if value == u64::MAX {
        0
    } else {
        value + 1
    }
}

impl EventRing {
    /// The ring as contracts see it.
    pub closed spec fn view(&self) -> RingModel {
        RingModel {
            slots: self.slots@,
            next_sequence: self.next_sequence,
            published: self.published,
            reader_ordinal: self.reader_ordinal,
            reader_sequence: self.reader_sequence,
            dropped: self.dropped,
        }
    }

    /// An empty ring, if there is memory for one.
    pub fn try_new() -> (result: MonadResult<Self>)
        ensures
            match result {
                Ok(ring) => {
                    &&& ring@.in_step()
                    &&& ring@.next_sequence == 1
                    &&& ring@.published == 0
                    &&& ring@.reader_ordinal == 0
                    &&& ring@.reader_sequence == 0
                    &&& ring@.dropped == 0
                },
                Err(error) => error == MonadError::new(
                    ErrorPhase::Telemetry,
                    ErrorCode::AllocationFailure,
                    EVENT_RING_CAPACITY as u64,
                ),
            },
    {
        let mut slots: Vec<EventSlot> = Vec::new();
        if slots.try_reserve(EVENT_RING_CAPACITY).is_err() {
            return Err(
                MonadError::new(
                    ErrorPhase::Telemetry,
                    ErrorCode::AllocationFailure,
                    EVENT_RING_CAPACITY as u64,
                ),
            );
        }
        while slots.len() < EVENT_RING_CAPACITY
            invariant
                slots@.len() <= EVENT_RING_CAPACITY,
            decreases EVENT_RING_CAPACITY - slots@.len(),
        {
            slots.push(EventSlot { ordinal: u64::MAX, record: EventRecord::zeroed() });
        }
        Ok(
            EventRing {
                slots,
                next_sequence: 1,
                published: 0,
                reader_ordinal: 0,
                reader_sequence: 0,
                dropped: 0,
            },
        )
    }

    /// Records an event under the next sequence number.
    pub fn record(&mut self, record: EventRecord)
        requires
            old(self)@.in_step(),
        ensures
            final(self)@.in_step(),
            final(self)@ == old(self)@.recorded(record),
    {
        let ghost model = self@;
        let ordinal: u64 = self.published;
        let sequence: u64 = self.next_sequence;
        self.next_sequence = advance(sequence);
        let behind: u64 = if ordinal > self.reader_ordinal {
            ordinal - self.reader_ordinal
        } else {
            0
        };
        if behind >= EVENT_RING_CAPACITY as u64 {
            self.dropped = advance(self.dropped);
        }
        let index: usize = (ordinal % (EVENT_RING_CAPACITY as u64)) as usize;
        self.slots.set(index, EventSlot { ordinal, record: EventRecord { sequence, ..record } });
        self.published = advance(ordinal);
        proof {
            assert(self@.slots =~= model.recorded(record).slots);
            assert forall|other: int|
                self@.earliest() <= other < self@.published implies (#[trigger] self@.slots[other
                % 1024]).ordinal == other by {
                if other != ordinal {
                    assert(model.earliest() <= other < model.published);
                    assert(model.slots[other % 1024].ordinal == other);
                    assert(other % 1024 != ordinal as int % 1024) by {
                        assert(0 < ordinal - other < 1024);
                    }
                }
            }
        }
    }

    /// Copies out what the reader has not seen, oldest first, as far as the
    /// ring still holds it and the output has room.
    pub fn snapshot(&mut self, output: &mut [EventRecord]) -> (snapshot: RingSnapshot)
        requires
            old(self)@.in_step(),
        ensures
            final(self)@ == old(self)@.read(old(output)@.len() as int),
            final(self)@.in_step(),
            snapshot == (RingSnapshot {
                count: old(self)@.readable(old(output)@.len() as int) as usize,
                next_sequence: old(self)@.read_sequence(old(output)@.len() as int),
                dropped: old(self)@.dropped,
            }),
            final(output)@.len() == old(output)@.len(),
            forall|k: int|
                0 <= k < final(output)@.len() ==> #[trigger] final(output)@[k] == if k
                    < snapshot.count {
                    old(self)@.record_at(old(self)@.cursor() + k)
                } else {
                    old(output)@[k]
                },
    {
        let ghost model = self@;
        let ghost room = output@.len() as int;
        let earliest: u64 = if self.published >= EVENT_RING_CAPACITY as u64 {
            self.published - EVENT_RING_CAPACITY as u64
        } else {
            0
        };
        let cursor: u64 = if self.reader_ordinal < earliest {
            earliest
        } else {
            self.reader_ordinal
        };
        let available: usize = if self.published > cursor {
            (self.published - cursor) as usize
        } else {
            0
        };
        let wanted: usize = if available < output.len() {
            available
        } else {
            output.len()
        };
        let mut copied: usize = 0;
        while copied < wanted
            invariant
                copied <= wanted,
                wanted == model.readable(room),
                wanted <= room,
                cursor == model.cursor(),
                model.in_step(),
                self@ == model,
                room == old(output)@.len(),
                output@.len() == room,
                forall|k: int|
                    0 <= k < room ==> #[trigger] output@[k] == if k < copied {
                        model.record_at(model.cursor() + k)
                    } else {
                        old(output)@[k]
                    },
            decreases wanted - copied,
        {
            let ordinal: u64 = cursor + copied as u64;
            let index: usize = (ordinal % (EVENT_RING_CAPACITY as u64)) as usize;
            let slot = self.slots[index];
            output[copied] = slot.record;
            copied = copied + 1;
        }
        if copied > 0 {
            self.reader_sequence = output[copied - 1].sequence;
        }
        self.reader_ordinal = cursor + copied as u64;
        proof {
            assert(self@.in_step()) by {
                assert(self@.earliest() == model.earliest());
                assert(self@.slots == model.slots);
            }
        }
        RingSnapshot {
            count: copied,
            next_sequence: self.reader_sequence,
            dropped: self.dropped,
        }
    }

    /// A snapshot for a reader that says what it has seen last. Zero says
    /// nothing.
    pub fn snapshot_from(&mut self, after_sequence: u64, output: &mut [EventRecord]) -> (result:
        MonadResult<RingSnapshot>)
        requires
            old(self)@.in_step(),
        ensures
            final(self)@.in_step(),
            final(output)@.len() == old(output)@.len(),
            if after_sequence != 0 && after_sequence != old(self)@.reader_sequence {
                &&& result == Err::<RingSnapshot, MonadError>(
                    MonadError::new(ErrorPhase::Telemetry, ErrorCode::StaleHandle, after_sequence),
                )
                &&& final(self)@ == old(self)@
                &&& final(output)@ == old(output)@
            } else {
                &&& result == Ok::<RingSnapshot, MonadError>(
                    RingSnapshot {
                        count: old(self)@.readable(old(output)@.len() as int) as usize,
                        next_sequence: old(self)@.read_sequence(old(output)@.len() as int),
                        dropped: old(self)@.dropped,
                    },
                )
                &&& final(self)@ == old(self)@.read(old(output)@.len() as int)
                &&& forall|k: int|
                    0 <= k < final(output)@.len() ==> #[trigger] final(output)@[k] == if k < old(
                        self,
                    )@.readable(old(output)@.len() as int) {
                        old(self)@.record_at(old(self)@.cursor() + k)
                    } else {
                        old(output)@[k]
                    }
            },
    {
        if after_sequence != 0 && after_sequence != self.reader_sequence {
            return Err(
                MonadError::new(ErrorPhase::Telemetry, ErrorCode::StaleHandle, after_sequence),
            );
        }
        Ok(self.snapshot(output))
    }

    /// The sequence number of the last event.
    pub fn latest_sequence(&self) -> (sequence: u64)
        ensures
            next(sequence) == self@.next_sequence,
    {
        if self.next_sequence == 0 {
            u64::MAX
        } else {
            self.next_sequence - 1
        }
    }

    /// Goes on counting from another sequence number.
    pub fn set_next_sequence(&mut self, sequence: u64)
        ensures
            final(self)@ == (RingModel { next_sequence: sequence, ..old(self)@ }),
    {
        self.next_sequence = sequence;
    }
}

/// An event stays as it was recorded, under its sequence number, until as many
/// events as the ring has room for came after it.
pub proof fn law_events_are_kept(ring: RingModel, record: EventRecord, ordinal: int)
    requires
        ring.in_step(),
        ring.published < u64::MAX,
        ring.recorded(record).earliest() <= ordinal <= ring.published,
    ensures
        ring.recorded(record).in_step(),
        ring.recorded(record).record_at(ordinal) == if ordinal == ring.published {
            EventRecord { sequence: ring.next_sequence, ..record }
        } else {
            ring.record_at(ordinal)
        },
{
    let after = ring.recorded(record);
    assert forall|other: int|
        after.earliest() <= other < after.published implies (#[trigger] after.slots[other
        % 1024]).ordinal == other by {
        if other != ring.published {
            assert(ring.slots[other % 1024].ordinal == other);
            assert(other % 1024 != ring.published as int % 1024) by {
                assert(0 < ring.published - other < 1024);
            }
        }
    }
    if ordinal != ring.published {
        assert(ordinal % 1024 != ring.published as int % 1024) by {
            assert(0 < ring.published - ordinal < 1024);
        }
    }
}

/// A reader gets no event twice and skips none that the ring still holds: it
/// goes on right behind what it got.
pub proof fn law_reader_goes_on_behind(ring: RingModel, room: int)
    requires
        ring.in_step(),
        room >= 0,
        ring.reader_ordinal <= ring.published,
    ensures
        ring.read(room).in_step(),
        ring.read(room).cursor() == ring.cursor() + ring.readable(room),
        ring.readable(room) == room || ring.read(room).cursor() == ring.published,
        forall|more: int|
            more >= 0 && ring.readable(room) < room ==> #[trigger] ring.read(room).readable(more)
                == 0,
{
    let after = ring.read(room);
    assert(after.earliest() == ring.earliest());
    assert(after.slots == ring.slots);
}

} // verus!
