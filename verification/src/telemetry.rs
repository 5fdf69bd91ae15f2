//! What the hypervisor remembers of its own doings.

use vstd::prelude::*;

pub mod record;
pub mod ring;

pub use record::{
    EventKind, EventRecord, EVENT_PROVENANCE_VALID, EVENT_RECORD_BYTES, EVENT_SCHEMA_VERSION,
};
pub use ring::{EventRing, RingSnapshot, EVENT_RING_CAPACITY};

verus! {

} // verus!
