//! One event, and its words.

use vstd::prelude::*;

use crate::bits;
use crate::ept::view::ViewId;
use crate::error::MonadError;
use crate::exit::context;
use crate::exit::context::{ContextField, ExitContext, ExitFieldValidity};
use crate::topology::CpuId;

verus! {

pub const EVENT_RECORD_BYTES: usize = 128;

pub const EVENT_SCHEMA_VERSION: u16 = 2;

pub const EVENT_PROVENANCE_VALID: u32 = 1;

/// How many words a record takes.
pub const EVENT_WORDS: usize = 16;

/// What happened.
#[derive(Debug, Clone, Copy, PartialEq, Eq, Structural)]
pub enum EventKind {
    VmmLaunch,
    LaunchFailure,
    ViewSwitch,
    ViewSwitchRollback,
    EptViolation,
    MalformedInternalVmcall,
    UnexpectedVmcall,
    UnexpectedVmExit,
    MtrrModificationAttempt,
    RepeatedEptFault,
    Fatal,
    ShutdownEntry,
    VmxoffCompletion,
}

impl EventKind {
    pub open spec fn spec_code(self) -> u8 {
        match self {
            EventKind::VmmLaunch => 1,
            EventKind::LaunchFailure => 2,
            EventKind::ViewSwitch => 3,
            EventKind::ViewSwitchRollback => 4,
            EventKind::EptViolation => 5,
            EventKind::MalformedInternalVmcall => 6,
            EventKind::UnexpectedVmcall => 7,
            EventKind::UnexpectedVmExit => 8,
            EventKind::MtrrModificationAttempt => 9,
            EventKind::RepeatedEptFault => 10,
            EventKind::Fatal => 11,
            EventKind::ShutdownEntry => 12,
            EventKind::VmxoffCompletion => 13,
        }
    }

    #[verifier::when_used_as_spec(spec_code)]
    pub fn code(self) -> (code: u8)
        ensures
            code == self.spec_code(),
    {
        match self {
            EventKind::VmmLaunch => 1,
            EventKind::LaunchFailure => 2,
            EventKind::ViewSwitch => 3,
            EventKind::ViewSwitchRollback => 4,
            EventKind::EptViolation => 5,
            EventKind::MalformedInternalVmcall => 6,
            EventKind::UnexpectedVmcall => 7,
            EventKind::UnexpectedVmExit => 8,
            EventKind::MtrrModificationAttempt => 9,
            EventKind::RepeatedEptFault => 10,
            EventKind::Fatal => 11,
            EventKind::ShutdownEntry => 12,
            EventKind::VmxoffCompletion => 13,
        }
    }
}

/// One event.
#[derive(Debug, Clone, Copy, PartialEq, Eq, Structural)]
pub struct EventRecord {
    pub sequence: u64,
    pub tsc: u64,
    pub cpu_dense_index: u16,
    pub cpu_group: u16,
    pub cpu_number: u8,
    pub kind: u8,
    pub access: u8,
    pub reserved0: u8,
    pub view_slot: u16,
    pub reserved1: u16,
    pub view_generation: u64,
    pub guest_rip: u64,
    pub guest_rsp: u64,
    pub guest_rflags: u64,
    pub qualification: u64,
    pub guest_physical_address: u64,
    pub guest_linear_address: u64,
    pub status: u32,
    pub detail: u32,
    pub schema_version: u16,
    pub record_size: u16,
    pub provenance_flags: u32,
    pub view_epoch: u64,
    pub run_id: u64,
    pub attempt_epoch: u64,
}

/// The word that names processor, kind and access.
pub open spec fn origin_word(record: EventRecord) -> u64 {
    record.cpu_dense_index as u64 | ((record.cpu_group as u64) << 16) | ((record.cpu_number as u64)
        << 32) | ((record.kind as u64) << 40) | ((record.access as u64) << 48) | ((
    record.reserved0 as u64) << 56)
}

/// The word that names the slot of the view.
pub open spec fn slot_word(record: EventRecord) -> u64 {
    record.view_slot as u64 | ((record.reserved1 as u64) << 16)
}

/// The word that holds status and detail.
pub open spec fn status_word(record: EventRecord) -> u64 {
    record.status as u64 | ((record.detail as u64) << 32)
}

/// The word that says how to read the record.
pub open spec fn schema_word(record: EventRecord) -> u64 {
    record.schema_version as u64 | ((record.record_size as u64) << 16) | ((
    record.provenance_flags as u64) << 32)
}

impl EventRecord {
    pub open spec fn spec_zeroed() -> Self {
        EventRecord {
            sequence: 0,
            tsc: 0,
            cpu_dense_index: 0,
            cpu_group: 0,
            cpu_number: 0,
            kind: 0,
            access: 0,
            reserved0: 0,
            view_slot: 0,
            reserved1: 0,
            view_generation: 0,
            guest_rip: 0,
            guest_rsp: 0,
            guest_rflags: 0,
            qualification: 0,
            guest_physical_address: 0,
            guest_linear_address: 0,
            status: 0,
            detail: 0,
            schema_version: 0,
            record_size: 0,
            provenance_flags: 0,
            view_epoch: 0,
            run_id: 0,
            attempt_epoch: 0,
        }
    }

    /// A record of nothing.
    #[verifier::when_used_as_spec(spec_zeroed)]
    pub fn zeroed() -> (record: Self)
        ensures
            record == Self::spec_zeroed(),
    {
        EventRecord {
            sequence: 0,
            tsc: 0,
            cpu_dense_index: 0,
            cpu_group: 0,
            cpu_number: 0,
            kind: 0,
            access: 0,
            reserved0: 0,
            view_slot: 0,
            reserved1: 0,
            view_generation: 0,
            guest_rip: 0,
            guest_rsp: 0,
            guest_rflags: 0,
            qualification: 0,
            guest_physical_address: 0,
            guest_linear_address: 0,
            status: 0,
            detail: 0,
            schema_version: 0,
            record_size: 0,
            provenance_flags: 0,
            view_epoch: 0,
            run_id: 0,
            attempt_epoch: 0,
        }
    }

    pub open spec fn spec_from_exit(
        context: &ExitContext,
        kind: EventKind,
        access: u8,
        status: u32,
        detail: u32,
    ) -> Self {
        EventRecord {
            tsc: context.tsc,
            cpu_dense_index: context.cpu.dense_index,
            cpu_group: context.cpu.group,
            cpu_number: context.cpu.number,
            kind: kind.spec_code(),
            access,
            view_slot: context.active_view.slot,
            view_generation: context.active_view.generation,
            guest_rip: context.guest_rip,
            guest_rsp: context.guest_rsp,
            guest_rflags: context.guest_rflags,
            qualification: match context.qualification {
                Some(value) => value,
                None => 0,
            },
            guest_physical_address: match context.guest_physical_address {
                Some(value) => value,
                None => 0,
            },
            guest_linear_address: match context.guest_linear_address {
                Some(value) => value,
                None => 0,
            },
            status,
            detail,
            schema_version: EVENT_SCHEMA_VERSION,
            record_size: 128,
            ..Self::spec_zeroed()
        }
    }

    /// A record of an exit.
    #[verifier::when_used_as_spec(spec_from_exit)]
    pub fn from_exit(
        context: &ExitContext,
        kind: EventKind,
        access: u8,
        status: u32,
        detail: u32,
    ) -> (record: Self)
        ensures
            record == Self::spec_from_exit(context, kind, access, status, detail),
    {
        EventRecord {
            tsc: context.tsc,
            cpu_dense_index: context.cpu.dense_index,
            cpu_group: context.cpu.group,
            cpu_number: context.cpu.number,
            kind: kind.code(),
            access,
            view_slot: context.active_view.slot,
            view_generation: context.active_view.generation,
            guest_rip: context.guest_rip,
            guest_rsp: context.guest_rsp,
            guest_rflags: context.guest_rflags,
            qualification: match context.qualification {
                Some(value) => value,
                None => 0,
            },
            guest_physical_address: match context.guest_physical_address {
                Some(value) => value,
                None => 0,
            },
            guest_linear_address: match context.guest_linear_address {
                Some(value) => value,
                None => 0,
            },
            status,
            detail,
            schema_version: EVENT_SCHEMA_VERSION,
            record_size: EVENT_RECORD_BYTES as u16,
            ..EventRecord::zeroed()
        }
    }

    pub open spec fn spec_from_transition(
        cpu: CpuId,
        active_view: ViewId,
        tsc: u64,
        kind: EventKind,
        status: u32,
        detail: u32,
    ) -> Self {
        EventRecord {
            tsc,
            cpu_dense_index: cpu.dense_index,
            cpu_group: cpu.group,
            cpu_number: cpu.number,
            kind: kind.spec_code(),
            view_slot: active_view.slot,
            view_generation: active_view.generation,
            status,
            detail,
            schema_version: EVENT_SCHEMA_VERSION,
            record_size: 128,
            ..Self::spec_zeroed()
        }
    }

    /// A record of a step that no exit reports.
    #[verifier::when_used_as_spec(spec_from_transition)]
    pub fn from_transition(
        cpu: CpuId,
        active_view: ViewId,
        tsc: u64,
        kind: EventKind,
        status: u32,
        detail: u32,
    ) -> (record: Self)
        ensures
            record == Self::spec_from_transition(cpu, active_view, tsc, kind, status, detail),
    {
        EventRecord {
            tsc,
            cpu_dense_index: cpu.dense_index,
            cpu_group: cpu.group,
            cpu_number: cpu.number,
            kind: kind.code(),
            view_slot: active_view.slot,
            view_generation: active_view.generation,
            status,
            detail,
            schema_version: EVENT_SCHEMA_VERSION,
            record_size: EVENT_RECORD_BYTES as u16,
            ..EventRecord::zeroed()
        }
    }

    pub open spec fn spec_with_provenance(
        self,
        run_id: u64,
        view_epoch: u64,
        attempt_epoch: u64,
    ) -> Self {
        EventRecord {
            provenance_flags: self.provenance_flags | EVENT_PROVENANCE_VALID,
            view_epoch,
            run_id,
            attempt_epoch,
            ..self
        }
    }

    /// The record, with where it belongs.
    #[verifier::when_used_as_spec(spec_with_provenance)]
    pub fn with_provenance(self, run_id: u64, view_epoch: u64, attempt_epoch: u64) -> (record: Self)
        ensures
            record == self.spec_with_provenance(run_id, view_epoch, attempt_epoch),
    {
        EventRecord {
            provenance_flags: self.provenance_flags | EVENT_PROVENANCE_VALID,
            view_epoch,
            run_id,
            attempt_epoch,
            ..self
        }
    }

    /// The words of the record.
    pub open spec fn words(self) -> Seq<u64> {
        seq![
            self.sequence,
            self.tsc,
            origin_word(self),
            slot_word(self),
            self.view_generation,
            self.guest_rip,
            self.guest_rsp,
            self.guest_rflags,
            self.qualification,
            self.guest_physical_address,
            self.guest_linear_address,
            status_word(self),
            schema_word(self),
            self.view_epoch,
            self.run_id,
            self.attempt_epoch,
        ]
    }

    /// The record that words hold.
    pub open spec fn of_words(words: Seq<u64>) -> Self {
        EventRecord {
            sequence: words[0],
            tsc: words[1],
            cpu_dense_index: words[2] as u16,
            cpu_group: (words[2] >> 16) as u16,
            cpu_number: (words[2] >> 32) as u8,
            kind: (words[2] >> 40) as u8,
            access: (words[2] >> 48) as u8,
            reserved0: (words[2] >> 56) as u8,
            view_slot: words[3] as u16,
            reserved1: (words[3] >> 16) as u16,
            view_generation: words[4],
            guest_rip: words[5],
            guest_rsp: words[6],
            guest_rflags: words[7],
            qualification: words[8],
            guest_physical_address: words[9],
            guest_linear_address: words[10],
            status: words[11] as u32,
            detail: (words[11] >> 32) as u32,
            schema_version: words[12] as u16,
            record_size: (words[12] >> 16) as u16,
            provenance_flags: (words[12] >> 32) as u32,
            view_epoch: words[13],
            run_id: words[14],
            attempt_epoch: words[15],
        }
    }

    /// Packs the record.
    pub fn encode_words(self) -> (words: [u64; EVENT_WORDS])
        ensures
            words@ == self.words(),
    {
        let origin: u64 = self.cpu_dense_index as u64 | ((self.cpu_group as u64) << 16) | ((
        self.cpu_number as u64) << 32) | ((self.kind as u64) << 40) | ((self.access as u64) << 48)
            | ((self.reserved0 as u64) << 56);
        let schema: u64 = self.schema_version as u64 | ((self.record_size as u64) << 16) | ((
        self.provenance_flags as u64) << 32);
        [
            self.sequence,
            self.tsc,
            origin,
            self.view_slot as u64 | ((self.reserved1 as u64) << 16),
            self.view_generation,
            self.guest_rip,
            self.guest_rsp,
            self.guest_rflags,
            self.qualification,
            self.guest_physical_address,
            self.guest_linear_address,
            self.status as u64 | ((self.detail as u64) << 32),
            schema,
            self.view_epoch,
            self.run_id,
            self.attempt_epoch,
        ]
    }

    /// Unpacks a record.
    pub fn decode_words(words: [u64; EVENT_WORDS]) -> (record: Self)
        ensures
            record == Self::of_words(words@),
    {
        EventRecord {
            sequence: words[0],
            tsc: words[1],
            cpu_dense_index: words[2] as u16,
            cpu_group: (words[2] >> 16) as u16,
            cpu_number: (words[2] >> 32) as u8,
            kind: (words[2] >> 40) as u8,
            access: (words[2] >> 48) as u8,
            reserved0: (words[2] >> 56) as u8,
            view_slot: words[3] as u16,
            reserved1: (words[3] >> 16) as u16,
            view_generation: words[4],
            guest_rip: words[5],
            guest_rsp: words[6],
            guest_rflags: words[7],
            qualification: words[8],
            guest_physical_address: words[9],
            guest_linear_address: words[10],
            status: words[11] as u32,
            detail: (words[11] >> 32) as u32,
            schema_version: words[12] as u16,
            record_size: (words[12] >> 16) as u16,
            provenance_flags: (words[12] >> 32) as u32,
            view_epoch: words[13],
            run_id: words[14],
            attempt_epoch: words[15],
        }
    }

    /// The processor that the record names.
    pub fn cpu(&self) -> (cpu: CpuId)
        ensures
            cpu.dense_index == self.cpu_dense_index,
            cpu.group == self.cpu_group,
            cpu.number == self.cpu_number,
            cpu.clean(),
    {
        CpuId {
            dense_index: self.cpu_dense_index,
            group: self.cpu_group,
            number: self.cpu_number,
            reserved: [0;3],
        }
    }

    /// The view that the record names.
    pub fn view(&self) -> (view: ViewId)
        ensures
            view == (ViewId {
                slot: self.view_slot,
                reserved: 0,
                generation: self.view_generation,
            }),
    {
        ViewId { slot: self.view_slot, reserved: 0, generation: self.view_generation }
    }

    /// Whether the packed record holds nothing where it should hold zero.
    pub fn encoded_reserved_is_zero(self) -> (zero: bool)
        ensures
            zero == (self.reserved0 == 0 && self.reserved1 == 0),
    {
        let words = self.encode_words();
        proof {
            lemma_slot_word(self.view_slot, self.reserved1);
        }
        self.reserved0 == 0 && self.reserved1 == 0 && words[3] >> 32 == 0
    }
}

impl Default for EventRecord {
    fn default() -> (record: Self)
        ensures
            record == Self::spec_zeroed(),
    {
        EventRecord::zeroed()
    }
}

/// The parts of every packed word stand side by side.
proof fn lemma_packed_words(a: u16, b: u16, c: u8, d: u8, e: u8, f: u8, g: u32, h: u32)
    by (bit_vector)
    ensures
        ({
            let word = a as u64 | ((b as u64) << 16) | ((c as u64) << 32) | ((d as u64) << 40) | ((
            e as u64) << 48) | ((f as u64) << 56);
            &&& word as u16 == a
            &&& (word >> 16) as u16 == b
            &&& (word >> 32) as u8 == c
            &&& (word >> 40) as u8 == d
            &&& (word >> 48) as u8 == e
            &&& (word >> 56) as u8 == f
            &&& word == a + 0x1_0000 * b + 0x1_0000_0000 * c + 0x100_0000_0000 * d
                + 0x1_0000_0000_0000 * e + 0x100_0000_0000_0000 * f
        }),
        ({
            let word = a as u64 | ((b as u64) << 16);
            &&& word as u16 == a
            &&& (word >> 16) as u16 == b
            &&& word >> 32 == 0
            &&& word == a + 0x1_0000 * b
        }),
        ({
            let word = g as u64 | ((h as u64) << 32);
            &&& word as u32 == g
            &&& (word >> 32) as u32 == h
            &&& word == g + 0x1_0000_0000 * h
        }),
        ({
            let word = a as u64 | ((b as u64) << 16) | ((g as u64) << 32);
            &&& word as u16 == a
            &&& (word >> 16) as u16 == b
            &&& (word >> 32) as u32 == g
            &&& word == a + 0x1_0000 * b + 0x1_0000_0000 * g
        }),
{
}

proof fn lemma_origin_word(a: u16, b: u16, c: u8, d: u8, e: u8, f: u8)
    ensures
        ({
            let word = a as u64 | ((b as u64) << 16) | ((c as u64) << 32) | ((d as u64) << 40) | ((
            e as u64) << 48) | ((f as u64) << 56);
            &&& word as u16 == a
            &&& (word >> 16) as u16 == b
            &&& (word >> 32) as u8 == c
            &&& (word >> 40) as u8 == d
            &&& (word >> 48) as u8 == e
            &&& (word >> 56) as u8 == f
            &&& word == a + 0x1_0000 * b + 0x1_0000_0000 * c + 0x100_0000_0000 * d
                + 0x1_0000_0000_0000 * e + 0x100_0000_0000_0000 * f
        }),
{
    lemma_packed_words(a, b, c, d, e, f, 0, 0);
}

proof fn lemma_slot_word(a: u16, b: u16)
    ensures
        ({
            let word = a as u64 | ((b as u64) << 16);
            &&& word as u16 == a
            &&& (word >> 16) as u16 == b
            &&& word >> 32 == 0
            &&& word == a + 0x1_0000 * b
        }),
{
    lemma_packed_words(a, b, 0, 0, 0, 0, 0, 0);
}

/// Two halves of a word stand side by side.
pub proof fn lemma_status_word(a: u32, b: u32)
    ensures
        ({
            let word = a as u64 | ((b as u64) << 32);
            &&& word as u32 == a
            &&& (word >> 32) as u32 == b
            &&& word == a + 0x1_0000_0000 * b
        }),
{
    lemma_packed_words(0, 0, 0, 0, 0, 0, a, b);
}

proof fn lemma_schema_word(a: u16, b: u16, c: u32)
    ensures
        ({
            let word = a as u64 | ((b as u64) << 16) | ((c as u64) << 32);
            &&& word as u16 == a
            &&& (word >> 16) as u16 == b
            &&& (word >> 32) as u32 == c
            &&& word == a + 0x1_0000 * b + 0x1_0000_0000 * c
        }),
{
    lemma_packed_words(a, b, 0, 0, 0, 0, c, 0);
}

/// A record that was packed is unpacked as it was.
pub proof fn law_record_round_trip(record: EventRecord)
    ensures
        EventRecord::of_words(record.words()) == record,
        record.words().len() == EVENT_WORDS,
{
    lemma_origin_word(
        record.cpu_dense_index,
        record.cpu_group,
        record.cpu_number,
        record.kind,
        record.access,
        record.reserved0,
    );
    lemma_slot_word(record.view_slot, record.reserved1);
    lemma_status_word(record.status, record.detail);
    lemma_schema_word(record.schema_version, record.record_size, record.provenance_flags);
}

/// The number under which readers know a kind of event.
pub open spec fn kind_number(kind: EventKind) -> int {
    match kind {
        EventKind::VmmLaunch => 1,
        EventKind::LaunchFailure => 2,
        EventKind::ViewSwitch => 3,
        EventKind::ViewSwitchRollback => 4,
        EventKind::EptViolation => 5,
        EventKind::MalformedInternalVmcall => 6,
        EventKind::UnexpectedVmcall => 7,
        EventKind::UnexpectedVmExit => 8,
        EventKind::MtrrModificationAttempt => 9,
        EventKind::RepeatedEptFault => 10,
        EventKind::Fatal => 11,
        EventKind::ShutdownEntry => 12,
        EventKind::VmxoffCompletion => 13,
    }
}

/// The record of an exit says what was read at that exit: the guest-physical
/// address, the linear address, the qualification, and the guest's place, stack
/// and flags are each the value that came for that field, and zero where the exit
/// gives none. None of them depends on what came for another field.
pub proof fn law_record_says_what_the_exit_gave(
    validity: ExitFieldValidity,
    reads: Seq<context::ContextRead>,
    cpu: CpuId,
    active_view: ViewId,
    tsc: u64,
    exit: ExitContext,
    kind: EventKind,
    access: u8,
    status: u32,
    detail: u32,
    record: EventRecord,
)
    requires
        context::follows(reads, context::planned(validity, 18)),
        reads.len() > 0,
        context::read_outcome(ExitContext::blank(cpu, active_view, tsc), reads) == Ok::<
            ExitContext,
            MonadError,
        >(exit),
        call_ensures(EventRecord::from_exit, (&exit, kind, access, status, detail), record),
    ensures
        forall|i: int|
            0 <= i < reads.len() ==> {
                let value = (#[trigger] reads[i]).result.unwrap();
                &&& reads[i].result is Ok
                &&& match reads[i].field {
                    ContextField::GuestPhysicalAddress => record.guest_physical_address == value,
                    ContextField::GuestLinearAddress => record.guest_linear_address == value,
                    ContextField::Qualification => record.qualification == value,
                    ContextField::GuestRip => record.guest_rip == value,
                    ContextField::GuestRsp => record.guest_rsp == value,
                    ContextField::GuestRflags => record.guest_rflags == value,
                    _ => true,
                }
            },
        validity.guest_physical_address ==> exists|i: int|
            0 <= i < reads.len() && (#[trigger] reads[i]).field is GuestPhysicalAddress,
        validity.guest_linear_address ==> exists|i: int|
            0 <= i < reads.len() && (#[trigger] reads[i]).field is GuestLinearAddress,
        validity.qualification ==> exists|i: int|
            0 <= i < reads.len() && (#[trigger] reads[i]).field is Qualification,
        !validity.guest_physical_address ==> record.guest_physical_address == 0,
        !validity.guest_linear_address ==> record.guest_linear_address == 0,
        !validity.qualification ==> record.qualification == 0,
        record.cpu_dense_index == cpu.dense_index,
        record.cpu_group == cpu.group,
        record.cpu_number == cpu.number,
        record.view_slot == active_view.slot,
        record.view_generation == active_view.generation,
        record.tsc == tsc,
        record.kind == kind_number(kind),
        record.access == access,
        record.status == status,
        record.detail == detail,
        record.schema_version == 2,
        record.record_size == 128,
        record.reserved0 == 0,
        record.reserved1 == 0,
        record.provenance_flags == 0,
{
    context::law_context_holds_what_was_read(validity, reads, cpu, active_view, tsc, exit);
    context::law_context_holds_what_is_valid(
        validity,
        ExitContext::blank(cpu, active_view, tsc),
        reads,
        cpu,
        active_view,
        tsc,
    );
    assert(validity.spec_wants(ContextField::GuestPhysicalAddress)
        == validity.guest_physical_address);
    assert(validity.spec_wants(ContextField::GuestLinearAddress) == validity.guest_linear_address);
    assert(validity.spec_wants(ContextField::Qualification) == validity.qualification);
    assert forall|i: int| 0 <= i < reads.len() implies context::held(
        exit,
        (#[trigger] reads[i]).field,
    ) == Some(reads[i].result.unwrap() as int % context::values_of(reads[i].field)) by {}
}

/// Two exits whose records are made alike, and which differ in the linear address
/// alone, have records that differ in the linear address alone.
pub proof fn law_linear_address_stays_in_its_place(
    exit: ExitContext,
    linear: Option<u64>,
    kind: EventKind,
    access: u8,
    status: u32,
    detail: u32,
    one: EventRecord,
    other: EventRecord,
)
    requires
        call_ensures(EventRecord::from_exit, (&exit, kind, access, status, detail), one),
        call_ensures(
            EventRecord::from_exit,
            (
                &(ExitContext { guest_linear_address: linear, ..exit }),
                kind,
                access,
                status,
                detail,
            ),
            other,
        ),
    ensures
        other == (EventRecord { guest_linear_address: other.guest_linear_address, ..one }),
        other.guest_linear_address == match linear {
            Some(value) => value,
            None => 0,
        },
{
}

/// A step that no exit reports is recorded with its processor, view, time and
/// outcome, and with nothing of a guest.
pub proof fn law_transition_record(
    cpu: CpuId,
    active_view: ViewId,
    tsc: u64,
    kind: EventKind,
    status: u32,
    detail: u32,
    record: EventRecord,
)
    requires
        call_ensures(
            EventRecord::from_transition,
            (cpu, active_view, tsc, kind, status, detail),
            record,
        ),
    ensures
        record.cpu_dense_index == cpu.dense_index,
        record.cpu_group == cpu.group,
        record.cpu_number == cpu.number,
        record.view_slot == active_view.slot,
        record.view_generation == active_view.generation,
        record.tsc == tsc,
        record.kind == kind_number(kind),
        record.status == status,
        record.detail == detail,
        record.schema_version == 2,
        record.record_size == 128,
        record.access == 0,
        record.guest_rip == 0,
        record.guest_rsp == 0,
        record.guest_rflags == 0,
        record.qualification == 0,
        record.guest_physical_address == 0,
        record.guest_linear_address == 0,
        record.provenance_flags == 0,
        record.reserved0 == 0,
        record.reserved1 == 0,
{
}

/// A record that is told where it belongs is marked so, holds run, view epoch and
/// attempt each in its place, and is otherwise as it was.
pub proof fn law_provenance_is_added(
    record: EventRecord,
    run_id: u64,
    view_epoch: u64,
    attempt_epoch: u64,
    marked: EventRecord,
)
    requires
        call_ensures(
            EventRecord::with_provenance,
            (record, run_id, view_epoch, attempt_epoch),
            marked,
        ),
    ensures
        marked.run_id == run_id,
        marked.view_epoch == view_epoch,
        marked.attempt_epoch == attempt_epoch,
        marked.provenance_flags == if record.provenance_flags % 2 == 1 {
            record.provenance_flags as int
        } else {
            record.provenance_flags + 1
        },
        marked == (EventRecord {
            run_id,
            view_epoch,
            attempt_epoch,
            provenance_flags: marked.provenance_flags,
            ..record
        }),
{
    bits::lemma_fields_u32(record.provenance_flags);
}

/// The words of a record, by their weights: where a reader finds each part.
pub proof fn law_words_of_a_record(record: EventRecord, list: [u64; EVENT_WORDS])
    requires
        call_ensures(EventRecord::encode_words, (record,), list),
    ensures
        ({
            let words = list@;
            &&& words.len() == 16
            &&& words[0] == record.sequence
            &&& words[1] == record.tsc
            &&& words[2] == record.cpu_dense_index + 0x1_0000 * record.cpu_group
                + 0x1_0000_0000 * record.cpu_number + 0x100_0000_0000 * record.kind
                + 0x1_0000_0000_0000 * record.access + 0x100_0000_0000_0000 * record.reserved0
            &&& words[3] == record.view_slot + 0x1_0000 * record.reserved1
            &&& words[4] == record.view_generation
            &&& words[5] == record.guest_rip
            &&& words[6] == record.guest_rsp
            &&& words[7] == record.guest_rflags
            &&& words[8] == record.qualification
            &&& words[9] == record.guest_physical_address
            &&& words[10] == record.guest_linear_address
            &&& words[11] == record.status + 0x1_0000_0000 * record.detail
            &&& words[12] == record.schema_version + 0x1_0000 * record.record_size
                + 0x1_0000_0000 * record.provenance_flags
            &&& words[13] == record.view_epoch
            &&& words[14] == record.run_id
            &&& words[15] == record.attempt_epoch
        }),
{
    lemma_origin_word(
        record.cpu_dense_index,
        record.cpu_group,
        record.cpu_number,
        record.kind,
        record.access,
        record.reserved0,
    );
    lemma_slot_word(record.view_slot, record.reserved1);
    lemma_status_word(record.status, record.detail);
    lemma_schema_word(record.schema_version, record.record_size, record.provenance_flags);
}

} // verus!
