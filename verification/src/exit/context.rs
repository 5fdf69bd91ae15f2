//! The guest's state at an exit, read only where the processor says that it
//! is valid.

use vstd::prelude::*;

use crate::ept::view::ViewId;
use crate::error::MonadResult;
use crate::topology::CpuId;

verus! {

/// One field of the guest's state.
#[derive(Debug, Clone, Copy, PartialEq, Eq, Structural)]
pub enum ContextField {
    ExitReason,
    Qualification,
    InstructionLength,
    GuestRip,
    GuestRsp,
    GuestRflags,
    GuestCsSelector,
    GuestSsSelector,
    GuestCsAccess,
    GuestSsAccess,
    GuestCr0,
    GuestCr3,
    GuestCr4,
    GuestLinearAddress,
    GuestPhysicalAddress,
    ExitInterruptionInfo,
    IdtVectoringInfo,
    IdtVectoringErrorCode,
}

/// How many fields there are.
pub const CONTEXT_FIELDS: usize = 18;

impl ContextField {
    /// The fields in the order in which they are read.
    pub open spec fn spec_at(index: usize) -> ContextField {
        match index {
            0 => ContextField::ExitReason,
            1 => ContextField::Qualification,
            2 => ContextField::InstructionLength,
            3 => ContextField::GuestRip,
            4 => ContextField::GuestRsp,
            5 => ContextField::GuestRflags,
            6 => ContextField::GuestCsSelector,
            7 => ContextField::GuestSsSelector,
            8 => ContextField::GuestCsAccess,
            9 => ContextField::GuestSsAccess,
            10 => ContextField::GuestCr0,
            11 => ContextField::GuestCr3,
            12 => ContextField::GuestCr4,
            13 => ContextField::GuestLinearAddress,
            14 => ContextField::GuestPhysicalAddress,
            15 => ContextField::ExitInterruptionInfo,
            16 => ContextField::IdtVectoringInfo,
            _ => ContextField::IdtVectoringErrorCode,
        }
    }

    /// The fields in the order in which they are read.
    #[verifier::when_used_as_spec(spec_at)]
    pub fn at(index: usize) -> (field: ContextField)
        ensures
            field == Self::spec_at(index),
    {
        match index {
            0 => ContextField::ExitReason,
            1 => ContextField::Qualification,
            2 => ContextField::InstructionLength,
            3 => ContextField::GuestRip,
            4 => ContextField::GuestRsp,
            5 => ContextField::GuestRflags,
            6 => ContextField::GuestCsSelector,
            7 => ContextField::GuestSsSelector,
            8 => ContextField::GuestCsAccess,
            9 => ContextField::GuestSsAccess,
            10 => ContextField::GuestCr0,
            11 => ContextField::GuestCr3,
            12 => ContextField::GuestCr4,
            13 => ContextField::GuestLinearAddress,
            14 => ContextField::GuestPhysicalAddress,
            15 => ContextField::ExitInterruptionInfo,
            16 => ContextField::IdtVectoringInfo,
            _ => ContextField::IdtVectoringErrorCode,
        }
    }
}

/// One read of a field, and what came of it.
pub struct ContextRead {
    pub field: ContextField,
    pub result: MonadResult<u64>,
}

/// The fields that a reader was asked for, in order.
pub type ContextLog = Seq<ContextRead>;

/// What reads the fields.
pub trait ContextReader {
    /// The reads that were made so far.
    spec fn reads(&self) -> ContextLog;

    fn read(&mut self, field: ContextField) -> (result: MonadResult<u64>)
        ensures
            final(self).reads() == old(self).reads().push(ContextRead { field, result }),
    ;
}

/// Which of the fields that are not always valid are.
#[derive(Debug, Clone, Copy, PartialEq, Eq, Structural)]
pub struct ExitFieldValidity {
    pub qualification: bool,
    pub instruction_length: bool,
    pub guest_linear_address: bool,
    pub guest_physical_address: bool,
    pub exit_interruption_info: bool,
    pub idt_vectoring_info: bool,
    pub idt_vectoring_error_code: bool,
}

impl ExitFieldValidity {
    /// What the basic reason of an exit says of its fields.
    pub open spec fn spec_for_basic_reason(reason: u16, qualification: u64) -> Self {
        ExitFieldValidity {
            qualification: reason == 48,
            instruction_length: reason == 10 || reason == 18 || reason == 31 || reason == 32,
            guest_linear_address: reason == 48 && qualification & 0x80 != 0,
            guest_physical_address: reason == 48 || reason == 49,
            exit_interruption_info: false,
            idt_vectoring_info: false,
            idt_vectoring_error_code: false,
        }
    }

    /// What the basic reason of an exit says of its fields.
    #[verifier::when_used_as_spec(spec_for_basic_reason)]
    pub fn for_basic_reason(reason: u16, qualification: u64) -> (validity: Self)
        ensures
            validity == Self::spec_for_basic_reason(reason, qualification),
    {
        ExitFieldValidity {
            qualification: reason == 48,
            instruction_length: reason == 10 || reason == 18 || reason == 31 || reason == 32,
            guest_linear_address: reason == 48 && qualification & 0x80 != 0,
            guest_physical_address: reason == 48 || reason == 49,
            exit_interruption_info: false,
            idt_vectoring_info: false,
            idt_vectoring_error_code: false,
        }
    }

    /// Whether a field is to be read.
    pub open spec fn spec_wants(self, field: ContextField) -> bool {
        match field {
            ContextField::Qualification => self.qualification,
            ContextField::InstructionLength => self.instruction_length,
            ContextField::GuestLinearAddress => self.guest_linear_address,
            ContextField::GuestPhysicalAddress => self.guest_physical_address,
            ContextField::ExitInterruptionInfo => self.exit_interruption_info,
            ContextField::IdtVectoringInfo => self.idt_vectoring_info,
            ContextField::IdtVectoringErrorCode => self.idt_vectoring_error_code,
            _ => true,
        }
    }

    /// Whether a field is to be read.
    #[verifier::when_used_as_spec(spec_wants)]
    pub fn wants(self, field: ContextField) -> (wanted: bool)
        ensures
            wanted == self.spec_wants(field),
    {
        match field {
            ContextField::Qualification => self.qualification,
            ContextField::InstructionLength => self.instruction_length,
            ContextField::GuestLinearAddress => self.guest_linear_address,
            ContextField::GuestPhysicalAddress => self.guest_physical_address,
            ContextField::ExitInterruptionInfo => self.exit_interruption_info,
            ContextField::IdtVectoringInfo => self.idt_vectoring_info,
            ContextField::IdtVectoringErrorCode => self.idt_vectoring_error_code,
            _ => true,
        }
    }
}

/// The guest's state at an exit.
#[derive(Debug, Clone, Copy, PartialEq, Eq)]
pub struct ExitContext {
    pub basic_reason: u16,
    pub qualification: Option<u64>,
    pub instruction_length: Option<u32>,
    pub guest_rip: u64,
    pub guest_rsp: u64,
    pub guest_rflags: u64,
    pub guest_cs_selector: u16,
    pub guest_ss_selector: u16,
    pub guest_cs_access: u32,
    pub guest_ss_access: u32,
    pub guest_cr0: u64,
    pub guest_cr3: u64,
    pub guest_cr4: u64,
    pub guest_linear_address: Option<u64>,
    pub guest_physical_address: Option<u64>,
    pub exit_interruption_info: Option<u32>,
    pub idt_vectoring_info: Option<u32>,
    pub idt_vectoring_error_code: Option<u32>,
    pub cpu: CpuId,
    pub active_view: ViewId,
    pub tsc: u64,
}

impl ExitContext {
    /// A context of which nothing was read.
    pub open spec fn spec_blank(cpu: CpuId, active_view: ViewId, tsc: u64) -> Self {
        ExitContext {
            basic_reason: 0,
            qualification: None,
            instruction_length: None,
            guest_rip: 0,
            guest_rsp: 0,
            guest_rflags: 0,
            guest_cs_selector: 0,
            guest_ss_selector: 0,
            guest_cs_access: 0,
            guest_ss_access: 0,
            guest_cr0: 0,
            guest_cr3: 0,
            guest_cr4: 0,
            guest_linear_address: None,
            guest_physical_address: None,
            exit_interruption_info: None,
            idt_vectoring_info: None,
            idt_vectoring_error_code: None,
            cpu,
            active_view,
            tsc,
        }
    }

    /// A context of which nothing was read.
    #[verifier::when_used_as_spec(spec_blank)]
    pub fn blank(cpu: CpuId, active_view: ViewId, tsc: u64) -> (context: Self)
        ensures
            context == Self::spec_blank(cpu, active_view, tsc),
    {
        ExitContext {
            basic_reason: 0,
            qualification: None,
            instruction_length: None,
            guest_rip: 0,
            guest_rsp: 0,
            guest_rflags: 0,
            guest_cs_selector: 0,
            guest_ss_selector: 0,
            guest_cs_access: 0,
            guest_ss_access: 0,
            guest_cr0: 0,
            guest_cr3: 0,
            guest_cr4: 0,
            guest_linear_address: None,
            guest_physical_address: None,
            exit_interruption_info: None,
            idt_vectoring_info: None,
            idt_vectoring_error_code: None,
            cpu,
            active_view,
            tsc,
        }
    }

    /// The context with the value that a field was read as.
    pub open spec fn spec_with(self, field: ContextField, value: u64) -> Self {
        match field {
            ContextField::ExitReason => ExitContext { basic_reason: value as u16, ..self },
            ContextField::Qualification => ExitContext { qualification: Some(value), ..self },
            ContextField::InstructionLength => ExitContext {
                instruction_length: Some(value as u32),
                ..self
            },
            ContextField::GuestRip => ExitContext { guest_rip: value, ..self },
            ContextField::GuestRsp => ExitContext { guest_rsp: value, ..self },
            ContextField::GuestRflags => ExitContext { guest_rflags: value, ..self },
            ContextField::GuestCsSelector => ExitContext {
                guest_cs_selector: value as u16,
                ..self
            },
            ContextField::GuestSsSelector => ExitContext {
                guest_ss_selector: value as u16,
                ..self
            },
            ContextField::GuestCsAccess => ExitContext { guest_cs_access: value as u32, ..self },
            ContextField::GuestSsAccess => ExitContext { guest_ss_access: value as u32, ..self },
            ContextField::GuestCr0 => ExitContext { guest_cr0: value, ..self },
            ContextField::GuestCr3 => ExitContext { guest_cr3: value, ..self },
            ContextField::GuestCr4 => ExitContext { guest_cr4: value, ..self },
            ContextField::GuestLinearAddress => ExitContext {
                guest_linear_address: Some(value),
                ..self
            },
            ContextField::GuestPhysicalAddress => ExitContext {
                guest_physical_address: Some(value),
                ..self
            },
            ContextField::ExitInterruptionInfo => ExitContext {
                exit_interruption_info: Some(value as u32),
                ..self
            },
            ContextField::IdtVectoringInfo => ExitContext {
                idt_vectoring_info: Some(value as u32),
                ..self
            },
            ContextField::IdtVectoringErrorCode => ExitContext {
                idt_vectoring_error_code: Some(value as u32),
                ..self
            },
        }
    }

    /// The context with the value that a field was read as. Values of narrow
    /// fields are cut to their width.
    #[verifier::when_used_as_spec(spec_with)]
    pub fn with(self, field: ContextField, value: u64) -> (context: Self)
        ensures
            context == self.spec_with(field, value),
    {
        match field {
            ContextField::ExitReason => ExitContext {
                basic_reason: #[verifier::truncate]
                (value as u16),
                ..self
            },
            ContextField::Qualification => ExitContext { qualification: Some(value), ..self },
            ContextField::InstructionLength => ExitContext {
                instruction_length: Some(
                    #[verifier::truncate]
                    (value as u32),
                ),
                ..self
            },
            ContextField::GuestRip => ExitContext { guest_rip: value, ..self },
            ContextField::GuestRsp => ExitContext { guest_rsp: value, ..self },
            ContextField::GuestRflags => ExitContext { guest_rflags: value, ..self },
            ContextField::GuestCsSelector => ExitContext {
                guest_cs_selector: #[verifier::truncate]
                (value as u16),
                ..self
            },
            ContextField::GuestSsSelector => ExitContext {
                guest_ss_selector: #[verifier::truncate]
                (value as u16),
                ..self
            },
            ContextField::GuestCsAccess => ExitContext {
                guest_cs_access: #[verifier::truncate]
                (value as u32),
                ..self
            },
            ContextField::GuestSsAccess => ExitContext {
                guest_ss_access: #[verifier::truncate]
                (value as u32),
                ..self
            },
            ContextField::GuestCr0 => ExitContext { guest_cr0: value, ..self },
            ContextField::GuestCr3 => ExitContext { guest_cr3: value, ..self },
            ContextField::GuestCr4 => ExitContext { guest_cr4: value, ..self },
            ContextField::GuestLinearAddress => ExitContext {
                guest_linear_address: Some(value),
                ..self
            },
            ContextField::GuestPhysicalAddress => ExitContext {
                guest_physical_address: Some(value),
                ..self
            },
            ContextField::ExitInterruptionInfo => ExitContext {
                exit_interruption_info: Some(
                    #[verifier::truncate]
                    (value as u32),
                ),
                ..self
            },
            ContextField::IdtVectoringInfo => ExitContext {
                idt_vectoring_info: Some(
                    #[verifier::truncate]
                    (value as u32),
                ),
                ..self
            },
            ContextField::IdtVectoringErrorCode => ExitContext {
                idt_vectoring_error_code: Some(
                    #[verifier::truncate]
                    (value as u32),
                ),
                ..self
            },
        }
    }
}

/// The fields to read among the first `count`, in order.
pub open spec fn planned(validity: ExitFieldValidity, count: nat) -> Seq<ContextField>
    decreases count,
{
    if count == 0 {
        Seq::empty()
    } else {
        let before = planned(validity, (count - 1) as nat);
        let field = ContextField::spec_at((count - 1) as usize);
        if validity.spec_wants(field) {
            before.push(field)
        } else {
            before
        }
    }
}

/// Whether reads follow a plan up to its end or the first that fails.
pub open spec fn follows(reads: Seq<ContextRead>, plan: Seq<ContextField>) -> bool {
    &&& reads.len() <= plan.len()
    &&& forall|i: int| 0 <= i < reads.len() ==> (#[trigger] reads[i]).field == plan[i]
    &&& forall|i: int| 0 <= i < reads.len() - 1 ==> (#[trigger] reads[i]).result is Ok
    &&& reads.len() < plan.len() ==> reads.len() > 0 && reads.last().result is Err
}

/// A context with the values of successful reads.
pub open spec fn filled(context: ExitContext, reads: Seq<ContextRead>) -> ExitContext
    decreases reads.len(),
{
    if reads.len() == 0 {
        context
    } else {
        let read = reads.last();
        filled(context, reads.drop_last()).spec_with(read.field, read.result.unwrap())
    }
}

/// What reads that follow a plan come to: the context that they fill, or the
/// error of the one that failed.
pub open spec fn read_outcome(blank: ExitContext, reads: Seq<ContextRead>) -> MonadResult<
    ExitContext,
> {
    match reads.last().result {
        Ok(_) => Ok(filled(blank, reads)),
        Err(error) => Err(error),
    }
}

proof fn lemma_planned_prefix(validity: ExitFieldValidity, count: nat, more: nat)
    requires
        count <= more,
    ensures
        planned(validity, count).is_prefix_of(planned(validity, more)),
    decreases more,
{
    if count < more {
        lemma_planned_prefix(validity, count, (more - 1) as nat);
    }
}

/// Reads the fields that are valid, and no others.
pub fn capture_exit_context<R: ContextReader>(
    reader: &mut R,
    validity: ExitFieldValidity,
    cpu: CpuId,
    active_view: ViewId,
    tsc: u64,
) -> (result: MonadResult<ExitContext>)
    ensures
        ({
            let before = old(reader).reads();
            let after = final(reader).reads();
            let made = after.skip(before.len() as int);
            &&& after.len() > before.len()
            &&& after.take(before.len() as int) == before
            &&& follows(made, planned(validity, CONTEXT_FIELDS as nat))
            &&& result == read_outcome(ExitContext::blank(cpu, active_view, tsc), made)
        }),
{
    let ghost before = reader.reads();
    let ghost blank = ExitContext::blank(cpu, active_view, tsc);
    let mut context = ExitContext::blank(cpu, active_view, tsc);
    let mut index: usize = 0;
    while index < CONTEXT_FIELDS
        invariant
            index <= CONTEXT_FIELDS,
            before == old(reader).reads(),
            blank == ExitContext::blank(cpu, active_view, tsc),
            reader.reads().len() >= before.len(),
            reader.reads().len() > before.len() || index == 0,
            reader.reads().take(before.len() as int) == before,
            ({
                let made = reader.reads().skip(before.len() as int);
                &&& made.len() == planned(validity, index as nat).len()
                &&& forall|i: int|
                    0 <= i < made.len() ==> (#[trigger] made[i]).field == planned(
                        validity,
                        index as nat,
                    )[i]
                &&& forall|i: int| 0 <= i < made.len() ==> (#[trigger] made[i]).result is Ok
                &&& context == filled(blank, made)
            }),
        decreases CONTEXT_FIELDS - index,
    {
        let field = ContextField::at(index);
        if validity.wants(field) {
            let ghost middle = reader.reads();
            let ghost so_far = middle.skip(before.len() as int);
            let result = reader.read(field);
            proof {
                let made = reader.reads().skip(before.len() as int);
                assert(made =~= so_far.push(ContextRead { field, result }));
                assert(made.drop_last() =~= so_far);
                assert(reader.reads().take(before.len() as int) =~= before) by {
                    assert(middle.take(before.len() as int) == before);
                }
                lemma_planned_prefix(validity, (index + 1) as nat, CONTEXT_FIELDS as nat);
            }
            match result {
                Ok(value) => {
                    context = context.with(field, value);
                },
                Err(error) => {
                    proof {
                        let made = reader.reads().skip(before.len() as int);
                        let plan = planned(validity, CONTEXT_FIELDS as nat);
                        let part = planned(validity, (index + 1) as nat);
                        assert(part == planned(validity, index as nat).push(field));
                        assert(part.is_prefix_of(plan));
                        assert(made.last() == ContextRead { field, result });
                        assert forall|i: int| 0 <= i < made.len() implies (
                        #[trigger] made[i]).field == plan[i] by {
                            assert(part[i] == plan[i]);
                            if i < so_far.len() {
                                assert(made[i] == so_far[i]);
                            }
                        }
                        assert forall|i: int| 0 <= i < made.len() - 1 implies (
                        #[trigger] made[i]).result is Ok by {
                            assert(made[i] == so_far[i]);
                        }
                        assert(follows(made, plan));
                    }
                    return Err(error);
                },
            }
        }
        index = index + 1;
    }
    Ok(context)
}

/// A context that was read holds the optional fields that are valid, and only
/// those, and no field is read that is not valid.
pub proof fn law_context_holds_what_is_valid(
    validity: ExitFieldValidity,
    blank: ExitContext,
    reads: Seq<ContextRead>,
    cpu: CpuId,
    active_view: ViewId,
    tsc: u64,
)
    requires
        blank == ExitContext::blank(cpu, active_view, tsc),
        follows(reads, planned(validity, CONTEXT_FIELDS as nat)),
        reads.len() > 0,
    ensures
        forall|i: int| 0 <= i < reads.len() ==> validity.spec_wants((#[trigger] reads[i]).field),
        match read_outcome(blank, reads) {
            Ok(context) => {
                &&& (context.qualification is Some) == validity.qualification
                &&& (context.instruction_length is Some) == validity.instruction_length
                &&& (context.guest_linear_address is Some) == validity.guest_linear_address
                &&& (context.guest_physical_address is Some) == validity.guest_physical_address
                &&& (context.exit_interruption_info is Some) == validity.exit_interruption_info
                &&& (context.idt_vectoring_info is Some) == validity.idt_vectoring_info
                &&& (context.idt_vectoring_error_code is Some)
                    == validity.idt_vectoring_error_code
                &&& context.cpu == cpu
                &&& context.active_view == active_view
                &&& context.tsc == tsc
            },
            Err(_) => true,
        },
{
    let plan = planned(validity, CONTEXT_FIELDS as nat);
    lemma_plan_is_wanted(validity, CONTEXT_FIELDS as nat);
    assert forall|i: int| 0 <= i < reads.len() implies validity.spec_wants(
        (#[trigger] reads[i]).field,
    ) by {
        assert(plan.contains(plan[i]));
    }
    lemma_filled(blank, reads, plan.take(reads.len() as int));
    if reads.last().result is Ok {
        assert(reads.len() == plan.len());
        assert(plan.take(reads.len() as int) =~= plan);
        assert(plan.contains(ContextField::Qualification) == validity.qualification) by {
            assert(ContextField::spec_at(1) == ContextField::Qualification);
        }
        assert(plan.contains(ContextField::InstructionLength) == validity.instruction_length) by {
            assert(ContextField::spec_at(2) == ContextField::InstructionLength);
        }
        assert(plan.contains(ContextField::GuestLinearAddress) == validity.guest_linear_address)
            by {
            assert(ContextField::spec_at(13) == ContextField::GuestLinearAddress);
        }
        assert(plan.contains(ContextField::GuestPhysicalAddress)
            == validity.guest_physical_address) by {
            assert(ContextField::spec_at(14) == ContextField::GuestPhysicalAddress);
        }
        assert(plan.contains(ContextField::ExitInterruptionInfo)
            == validity.exit_interruption_info) by {
            assert(ContextField::spec_at(15) == ContextField::ExitInterruptionInfo);
        }
        assert(plan.contains(ContextField::IdtVectoringInfo) == validity.idt_vectoring_info) by {
            assert(ContextField::spec_at(16) == ContextField::IdtVectoringInfo);
        }
        assert(plan.contains(ContextField::IdtVectoringErrorCode)
            == validity.idt_vectoring_error_code) by {
            assert(ContextField::spec_at(17) == ContextField::IdtVectoringErrorCode);
        }
    }
}

/// A plan holds the fields among the first that are wanted, and no others.
proof fn lemma_plan_is_wanted(validity: ExitFieldValidity, count: nat)
    requires
        count <= CONTEXT_FIELDS,
    ensures
        forall|field: ContextField| #[trigger]
            planned(validity, count).contains(field) ==> validity.spec_wants(field),
        forall|i: usize|
            i < count && validity.spec_wants(#[trigger] ContextField::spec_at(i)) ==> planned(
                validity,
                count,
            ).contains(ContextField::spec_at(i)),
    decreases count,
{
    if count > 0 {
        let fewer = (count - 1) as nat;
        lemma_plan_is_wanted(validity, fewer);
        let before = planned(validity, fewer);
        let last = ContextField::spec_at((count - 1) as usize);
        let plan = planned(validity, count);
        if validity.spec_wants(last) {
            assert(plan == before.push(last));
            assert(plan[before.len() as int] == last);
            assert forall|field: ContextField| #[trigger] plan.contains(field) implies
                validity.spec_wants(field) by {
                let i = plan.index_of(field);
                if i < before.len() {
                    assert(before[i] == field);
                    assert(before.contains(field));
                }
            }
            assert forall|i: usize|
                i < count && validity.spec_wants(
                    #[trigger] ContextField::spec_at(i),
                ) implies plan.contains(ContextField::spec_at(i)) by {
                if i < fewer {
                    let at = before.index_of(ContextField::spec_at(i));
                    assert(plan[at] == ContextField::spec_at(i));
                }
            }
        } else {
            assert forall|i: usize|
                i < count && validity.spec_wants(
                    #[trigger] ContextField::spec_at(i),
                ) implies plan.contains(ContextField::spec_at(i)) by {
                assert(i < fewer);
            }
        }
    }
}

/// An optional field is present where its read is among those that filled the
/// context.
proof fn lemma_filled(blank: ExitContext, reads: Seq<ContextRead>, fields: Seq<ContextField>)
    requires
        blank == ExitContext::blank(blank.cpu, blank.active_view, blank.tsc),
        fields.len() == reads.len(),
        forall|i: int| 0 <= i < reads.len() ==> (#[trigger] reads[i]).field == fields[i],
    ensures
        ({
            let context = filled(blank, reads);
            &&& (context.qualification is Some) == fields.contains(ContextField::Qualification)
            &&& (context.instruction_length is Some) == fields.contains(
                ContextField::InstructionLength,
            )
            &&& (context.guest_linear_address is Some) == fields.contains(
                ContextField::GuestLinearAddress,
            )
            &&& (context.guest_physical_address is Some) == fields.contains(
                ContextField::GuestPhysicalAddress,
            )
            &&& (context.exit_interruption_info is Some) == fields.contains(
                ContextField::ExitInterruptionInfo,
            )
            &&& (context.idt_vectoring_info is Some) == fields.contains(
                ContextField::IdtVectoringInfo,
            )
            &&& (context.idt_vectoring_error_code is Some) == fields.contains(
                ContextField::IdtVectoringErrorCode,
            )
            &&& context.cpu == blank.cpu
            &&& context.active_view == blank.active_view
            &&& context.tsc == blank.tsc
        }),
    decreases reads.len(),
{
    if reads.len() > 0 {
        let fewer = fields.drop_last();
        lemma_filled(blank, reads.drop_last(), fewer);
        let last = fields.last();
        assert forall|field: ContextField| #[trigger]
            fields.contains(field) == (fewer.contains(field) || field == last) by {
            if fewer.contains(field) {
                let i = fewer.index_of(field);
                assert(fields[i] == field);
            }
            if fields.contains(field) && field != last {
                let i = fields.index_of(field);
                assert(fewer[i] == field);
            }
            if field == last {
                assert(fields[fields.len() - 1] == field);
            }
        }
    }
}

/// What a context holds of a field, if it was read.
pub open spec fn held(context: ExitContext, field: ContextField) -> Option<int> {
    match field {
        ContextField::ExitReason => Some(context.basic_reason as int),
        ContextField::Qualification => optional(context.qualification),
        ContextField::InstructionLength => optional_short(context.instruction_length),
        ContextField::GuestRip => Some(context.guest_rip as int),
        ContextField::GuestRsp => Some(context.guest_rsp as int),
        ContextField::GuestRflags => Some(context.guest_rflags as int),
        ContextField::GuestCsSelector => Some(context.guest_cs_selector as int),
        ContextField::GuestSsSelector => Some(context.guest_ss_selector as int),
        ContextField::GuestCsAccess => Some(context.guest_cs_access as int),
        ContextField::GuestSsAccess => Some(context.guest_ss_access as int),
        ContextField::GuestCr0 => Some(context.guest_cr0 as int),
        ContextField::GuestCr3 => Some(context.guest_cr3 as int),
        ContextField::GuestCr4 => Some(context.guest_cr4 as int),
        ContextField::GuestLinearAddress => optional(context.guest_linear_address),
        ContextField::GuestPhysicalAddress => optional(context.guest_physical_address),
        ContextField::ExitInterruptionInfo => optional_short(context.exit_interruption_info),
        ContextField::IdtVectoringInfo => optional_short(context.idt_vectoring_info),
        ContextField::IdtVectoringErrorCode => optional_short(context.idt_vectoring_error_code),
    }
}

pub open spec fn optional(value: Option<u64>) -> Option<int> {
    match value {
        Some(value) => Some(value as int),
        None => None,
    }
}

pub open spec fn optional_short(value: Option<u32>) -> Option<int> {
    match value {
        Some(value) => Some(value as int),
        None => None,
    }
}

/// How many values a field can hold: selectors and reasons have sixteen bits,
/// access rights, lengths and interruption fields have thirty-two.
pub open spec fn values_of(field: ContextField) -> int {
    match field {
        ContextField::ExitReason => 0x1_0000,
        ContextField::GuestCsSelector => 0x1_0000,
        ContextField::GuestSsSelector => 0x1_0000,
        ContextField::InstructionLength => 0x1_0000_0000,
        ContextField::GuestCsAccess => 0x1_0000_0000,
        ContextField::GuestSsAccess => 0x1_0000_0000,
        ContextField::ExitInterruptionInfo => 0x1_0000_0000,
        ContextField::IdtVectoringInfo => 0x1_0000_0000,
        ContextField::IdtVectoringErrorCode => 0x1_0000_0000,
        _ => 0x1_0000_0000_0000_0000,
    }
}

/// The place of a field in the order of reading.
spec fn rank(field: ContextField) -> int {
    match field {
        ContextField::ExitReason => 0,
        ContextField::Qualification => 1,
        ContextField::InstructionLength => 2,
        ContextField::GuestRip => 3,
        ContextField::GuestRsp => 4,
        ContextField::GuestRflags => 5,
        ContextField::GuestCsSelector => 6,
        ContextField::GuestSsSelector => 7,
        ContextField::GuestCsAccess => 8,
        ContextField::GuestSsAccess => 9,
        ContextField::GuestCr0 => 10,
        ContextField::GuestCr3 => 11,
        ContextField::GuestCr4 => 12,
        ContextField::GuestLinearAddress => 13,
        ContextField::GuestPhysicalAddress => 14,
        ContextField::ExitInterruptionInfo => 15,
        ContextField::IdtVectoringInfo => 16,
        ContextField::IdtVectoringErrorCode => 17,
    }
}

pub proof fn lemma_cut(value: u64)
    ensures
        value as u16 == value % 0x1_0000,
        value as u32 == value % 0x1_0000_0000,
{
    crate::bits::lemma_word(value);
}

/// A plan reads its fields in the order of their places.
proof fn lemma_plan_rises(validity: ExitFieldValidity, count: nat)
    requires
        count <= 18,
    ensures
        forall|j: int|
            0 <= j < planned(validity, count).len() ==> 0 <= rank(
                #[trigger] planned(validity, count)[j],
            ) < count,
        forall|i: int, j: int|
            0 <= i < j < planned(validity, count).len() ==> rank(
                #[trigger] planned(validity, count)[i],
            ) < rank(#[trigger] planned(validity, count)[j]),
    decreases count,
{
    if count > 0 {
        let fewer = (count - 1) as nat;
        lemma_plan_rises(validity, fewer);
        let before = planned(validity, fewer);
        let plan = planned(validity, count);
        assert forall|j: int| 0 <= j < before.len() implies before[j] == #[trigger] plan[j] by {}
    }
}

/// Reads of different fields each leave what they read.
proof fn lemma_filled_holds(blank: ExitContext, reads: Seq<ContextRead>)
    requires
        forall|i: int| 0 <= i < reads.len() ==> (#[trigger] reads[i]).result is Ok,
        forall|i: int, j: int|
            0 <= i < j < reads.len() ==> (#[trigger] reads[i]).field != (
            #[trigger] reads[j]).field,
    ensures
        forall|i: int|
            0 <= i < reads.len() ==> held(filled(blank, reads), (#[trigger] reads[i]).field)
                == Some(reads[i].result.unwrap() as int % values_of(reads[i].field)),
    decreases reads.len(),
{
    if reads.len() > 0 {
        let fewer = reads.drop_last();
        lemma_filled_holds(blank, fewer);
        let last = reads.last();
        lemma_cut(last.result.unwrap());
        assert forall|i: int| 0 <= i < reads.len() implies held(
            filled(blank, reads),
            (#[trigger] reads[i]).field,
        ) == Some(reads[i].result.unwrap() as int % values_of(reads[i].field)) by {
            if i < fewer.len() {
                assert(fewer[i] == reads[i]);
                assert(reads[i].field != reads[reads.len() - 1].field);
            }
        }
    }
}

/// A context that was read holds, of every field that was read, the value that
/// came for that field, cut to the width of the field; each field that is always
/// valid, or said to be, is read, and none is read twice.
pub proof fn law_context_holds_what_was_read(
    validity: ExitFieldValidity,
    reads: Seq<ContextRead>,
    cpu: CpuId,
    active_view: ViewId,
    tsc: u64,
    context: ExitContext,
)
    requires
        follows(reads, planned(validity, CONTEXT_FIELDS as nat)),
        reads.len() > 0,
        read_outcome(ExitContext::blank(cpu, active_view, tsc), reads) == Ok::<
            ExitContext,
            crate::error::MonadError,
        >(context),
    ensures
        forall|i: int|
            0 <= i < reads.len() ==> {
                &&& (#[trigger] reads[i]).result is Ok
                &&& held(context, reads[i].field) == Some(
                    reads[i].result.unwrap() as int % values_of(reads[i].field),
                )
            },
        forall|i: int, j: int|
            0 <= i < j < reads.len() ==> (#[trigger] reads[i]).field != (
            #[trigger] reads[j]).field,
        forall|field: ContextField| #[trigger]
            validity.spec_wants(field) ==> exists|i: int|
                0 <= i < reads.len() && (#[trigger] reads[i]).field == field,
        context.cpu == cpu,
        context.active_view == active_view,
        context.tsc == tsc,
{
    let plan = planned(validity, 18);
    let blank = ExitContext::blank(cpu, active_view, tsc);
    law_context_holds_what_is_valid(validity, blank, reads, cpu, active_view, tsc);
    lemma_plan_rises(validity, 18);
    lemma_plan_is_wanted(validity, 18);
    assert(reads[reads.len() - 1].result is Ok);
    assert forall|i: int, j: int| 0 <= i < j < reads.len() implies (#[trigger] reads[i]).field != (
    #[trigger] reads[j]).field by {
        assert(rank(plan[i]) < rank(plan[j]));
    }
    lemma_filled_holds(blank, reads);
    assert forall|field: ContextField| #[trigger] validity.spec_wants(field) implies exists|i: int|
        0 <= i < reads.len() && (#[trigger] reads[i]).field == field by {
        assert(ContextField::spec_at(rank(field) as usize) == field);
        assert(plan.contains(field));
        let i = plan.index_of(field);
        assert(reads[i].field == field);
    }
}

/// Which fields an exit gives: a violation of a view (48) gives qualification and
/// guest-physical address, and the linear address where bit 7 of the
/// qualification says so; a misconfiguration (49) gives the guest-physical
/// address; the instructions that are handled (10, 18, 31 and 32) give their
/// length; no exit that is handled gives more.
pub proof fn law_fields_that_an_exit_gives(
    reason: u16,
    qualification: u64,
    validity: ExitFieldValidity,
)
    requires
        call_ensures(
            ExitFieldValidity::for_basic_reason,
            (reason, qualification),
            validity,
        ),
    ensures
        validity.qualification == (reason == 48),
        validity.guest_physical_address == (reason == 48 || reason == 49),
        validity.guest_linear_address == (reason == 48 && (qualification / 0x80) % 2 == 1),
        validity.instruction_length == (reason == 10 || reason == 18 || reason == 31 || reason
            == 32),
        !validity.exit_interruption_info,
        !validity.idt_vectoring_info,
        !validity.idt_vectoring_error_code,
        forall|field: ContextField| #[trigger]
            validity.spec_wants(field) == match field {
                ContextField::Qualification => validity.qualification,
                ContextField::InstructionLength => validity.instruction_length,
                ContextField::GuestLinearAddress => validity.guest_linear_address,
                ContextField::GuestPhysicalAddress => validity.guest_physical_address,
                ContextField::ExitInterruptionInfo => false,
                ContextField::IdtVectoringInfo => false,
                ContextField::IdtVectoringErrorCode => false,
                _ => true,
            },
{
    crate::bits::lemma_single_bits(qualification);
}

} // verus!
