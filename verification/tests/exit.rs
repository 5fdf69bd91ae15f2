//! What the hypervisor decides when a guest leaves for it.

use monad::arch::intel::caps::CpuidRegisters;
use monad::arch::intel::vmcs::GuestRegs;
use monad::ept::ViewId;
use monad::error::{ErrorCode, ErrorPhase, MonadError, MonadResult};
use monad::exit::context::{
    capture_exit_context, ContextField, ContextLog, ContextReader, ExitContext,
    ExitFieldValidity, CONTEXT_FIELDS,
};
use monad::exit::disposition::{ExitDisposition, FatalReason};
use monad::exit::ept::handle_misconfig;
use monad::exit::ept_fault::{
    decode_fault, resolve_disposition, EptFault, EptFaultDisposition, EptFaultPolicy,
    EptFaultTracker, COMPILED_ALLOWED_VIEW_MASK, COMPILED_EPT_FAULT_POLICY,
    MAX_IDENTICAL_EPT_RETRIES,
};
use monad::exit::eventinjection::{
    inject_gp, inject_ud, prepare_injection, prepare_reinjection, InterruptionType, VmEntryEvent,
    DELIVER_ERROR_CODE_BIT, TYPE_SHIFT, VALID_BIT,
};
use monad::exit::vmexit::{
    advance_rip, capture, route_exit_reason, unknown_exit_disposition, ExitRoute, REASON_CPUID,
    REASON_EPT_MISCONFIGURATION, REASON_EPT_VIOLATION, REASON_INVEPT, REASON_INVVPID, REASON_RDMSR,
    REASON_TRIPLE_FAULT, REASON_VMCALL, REASON_VMCLEAR, REASON_VMFUNC, REASON_VMLAUNCH,
    REASON_VMPTRLD, REASON_VMPTRST, REASON_VMREAD, REASON_VMRESUME, REASON_VMWRITE, REASON_VMXOFF,
    REASON_VMXON, REASON_WRMSR, REASON_XSETBV,
};
use monad::exit::xsetbv::{admission, joined, valid_xcr0, KNOWN_XCR0};
use monad::exit::{cpuid, genericvmx, msr, triplefault};
use monad::rendezvous::{InternalMailbox, MailboxRequest, MailboxState, RendezvousOperation};
use monad::topology::CpuId;

struct Spy {
    reads: Vec<ContextField>,
}

fn ordinal(field: ContextField) -> u64 {
    (0..CONTEXT_FIELDS)
        .position(|index| ContextField::at(index) == field)
        .expect("a field") as u64
}

impl ContextReader for Spy {
    fn reads(&self) -> ContextLog {
        unreachable!("a log for proofs")
    }

    fn read(&mut self, field: ContextField) -> MonadResult<u64> {
        self.reads.push(field);
        Ok(match field {
            ContextField::ExitReason => 48,
            _ => ordinal(field) + 1,
        })
    }
}

struct Failure;

impl ContextReader for Failure {
    fn reads(&self) -> ContextLog {
        unreachable!("a log for proofs")
    }

    fn read(&mut self, _field: ContextField) -> MonadResult<u64> {
        Err(MonadError::new(ErrorPhase::ExitHandling, ErrorCode::VmreadFailure, 0))
    }
}

fn cpu() -> CpuId {
    CpuId { dense_index: 1, group: 0, number: 1, reserved: [0; 3] }
}

fn view(slot: u16) -> ViewId {
    ViewId { slot, reserved: 0, generation: 1 }
}

#[test]
fn exit_context_validity() {
    for bits in 0u8..128 {
        let validity = ExitFieldValidity {
            qualification: bits & 1 != 0,
            instruction_length: bits & 2 != 0,
            guest_linear_address: bits & 4 != 0,
            guest_physical_address: bits & 8 != 0,
            exit_interruption_info: bits & 16 != 0,
            idt_vectoring_info: bits & 32 != 0,
            idt_vectoring_error_code: bits & 64 != 0,
        };
        let mut spy = Spy { reads: Vec::new() };
        let context = capture_exit_context(&mut spy, validity, cpu(), view(0), 7).expect("context");
        for (field, valid) in [
            (ContextField::Qualification, validity.qualification),
            (ContextField::InstructionLength, validity.instruction_length),
            (ContextField::GuestLinearAddress, validity.guest_linear_address),
            (ContextField::GuestPhysicalAddress, validity.guest_physical_address),
            (ContextField::ExitInterruptionInfo, validity.exit_interruption_info),
            (ContextField::IdtVectoringInfo, validity.idt_vectoring_info),
            (ContextField::IdtVectoringErrorCode, validity.idt_vectoring_error_code),
        ] {
            assert_eq!(spy.reads.contains(&field), valid);
        }
        assert_eq!(context.qualification.is_some(), validity.qualification);
    }

    assert!(capture_exit_context(
        &mut Failure,
        ExitFieldValidity::for_basic_reason(48, 0),
        cpu(),
        view(0),
        0
    )
    .is_err());
}

#[test]
fn ept_violation_does_not_advance() {
    let disposition = ExitDisposition::Fatal(FatalReason::UnhandledEptViolation);
    assert!(!disposition.advances_rip());
}

#[test]
fn ept_fault_never_advances_or_writes_tables() {
    for disposition in [
        ExitDisposition::ResumeWithoutAdvance,
        ExitDisposition::SwitchPublishedView(view(1)),
        ExitDisposition::Fatal(FatalReason::InvalidVmcsState),
    ] {
        assert!(!disposition.advances_rip());
    }
}

fn fault() -> EptFault {
    decode_fault(1, Some(0x1234), None, 0x4000).expect("fault")
}

struct Fixed(EptFaultDisposition);

impl EptFaultPolicy for Fixed {
    fn allows(
        &self,
        _cpu: CpuId,
        _active_view: ViewId,
        _fault: EptFault,
        decision: EptFaultDisposition,
    ) -> bool {
        decision == self.0
    }

    fn handle(&self, _cpu: CpuId, _active_view: ViewId, _fault: &EptFault) -> EptFaultDisposition {
        self.0
    }
}

#[test]
fn fault_access_decode() {
    for access in 1..=7u64 {
        let decoded = decode_fault(access, Some(0x1234), None, 9).expect("access");
        assert_eq!(u64::from(decoded.access.bits()), access);
        assert_eq!(decoded.guest_physical_page, 0x1000);
    }
    assert!(decode_fault(0, Some(0), None, 0).is_err());
    assert!(decode_fault(1, None, None, 0).is_err());
    assert!(decode_fault(1 << 63 | 1, Some(0), None, 0).is_err());
    assert!(decode_fault(1 | 1 << 7, Some(0), None, 0).is_err());
    assert!(decode_fault(1, Some(1u64 << 48), None, 0).is_err());
    assert!(decode_fault(1 | 1 << 7, Some(0), Some(7), 0).is_ok());
}

#[test]
fn fault_disposition_table() {
    let mut tracker = EptFaultTracker::new();
    let fatal = Fixed(EptFaultDisposition::Fatal(FatalReason::CorruptEptHierarchy));
    assert_eq!(
        resolve_disposition(&fatal, cpu(), view(0), &fault(), &mut tracker, 3, |_| true),
        ExitDisposition::Fatal(FatalReason::CorruptEptHierarchy)
    );
    let inject = Fixed(EptFaultDisposition::Inject(VmEntryEvent::ud()));
    assert!(matches!(
        resolve_disposition(&inject, cpu(), view(0), &fault(), &mut tracker, 3, |_| true),
        ExitDisposition::Inject(_)
    ));
    let switch = Fixed(EptFaultDisposition::SwitchToPublishedView(view(1)));
    assert_eq!(
        resolve_disposition(&switch, cpu(), view(0), &fault(), &mut tracker, 3, |_| true),
        ExitDisposition::SwitchPublishedView(view(1))
    );
    assert_eq!(
        resolve_disposition(&switch, cpu(), view(0), &fault(), &mut tracker, 1, |_| true),
        ExitDisposition::Fatal(FatalReason::InvalidActiveView)
    );
    assert_eq!(
        resolve_disposition(&switch, cpu(), view(0), &fault(), &mut tracker, 3, |_| false),
        ExitDisposition::Fatal(FatalReason::InvalidActiveView)
    );
    let retry = Fixed(EptFaultDisposition::RetryCurrentView);
    assert_eq!(
        resolve_disposition(&retry, cpu(), view(0), &fault(), &mut tracker, 3, |_| true),
        ExitDisposition::ResumeWithoutAdvance
    );
}

#[test]
fn identical_fault_limit() {
    let retry = Fixed(EptFaultDisposition::RetryCurrentView);
    let mut tracker = EptFaultTracker::new();
    for _ in 0..MAX_IDENTICAL_EPT_RETRIES {
        assert_eq!(
            resolve_disposition(&retry, cpu(), view(0), &fault(), &mut tracker, 1, |_| true),
            ExitDisposition::ResumeWithoutAdvance
        );
    }
    assert_eq!(
        resolve_disposition(&retry, cpu(), view(0), &fault(), &mut tracker, 1, |_| true),
        ExitDisposition::Fatal(FatalReason::RepeatedEptFault)
    );
    let changed_view =
        resolve_disposition(&retry, cpu(), view(1), &fault(), &mut tracker, 3, |_| true);
    assert_eq!(changed_view, ExitDisposition::ResumeWithoutAdvance);
    let mut changed_fault = fault();
    changed_fault.guest_rip += 1;
    assert_eq!(
        resolve_disposition(&retry, cpu(), view(1), &changed_fault, &mut tracker, 3, |_| true),
        ExitDisposition::ResumeWithoutAdvance
    );
}

#[test]
fn the_built_in_policy_stops() {
    let mut tracker = EptFaultTracker::default();
    assert_eq!(
        resolve_disposition(
            &COMPILED_EPT_FAULT_POLICY,
            cpu(),
            view(0),
            &fault(),
            &mut tracker,
            COMPILED_ALLOWED_VIEW_MASK,
            |_| true
        ),
        ExitDisposition::Fatal(FatalReason::UnhandledEptViolation)
    );
    assert_eq!(
        handle_misconfig(0x1000),
        ExitDisposition::Fatal(FatalReason::CorruptEptHierarchy)
    );
}

fn context() -> ExitContext {
    ExitContext {
        basic_reason: 48,
        qualification: Some(1),
        instruction_length: None,
        guest_rip: 0x1000,
        guest_rsp: 0x2000,
        guest_rflags: 2,
        guest_cs_selector: 0x10,
        guest_ss_selector: 0x18,
        guest_cs_access: 0,
        guest_ss_access: 0,
        guest_cr0: 0,
        guest_cr3: 0,
        guest_cr4: 0,
        guest_linear_address: None,
        guest_physical_address: Some(0x3000),
        exit_interruption_info: None,
        idt_vectoring_info: None,
        idt_vectoring_error_code: None,
        cpu: CpuId::default(),
        active_view: view(0),
        tsc: 0,
    }
}

#[test]
fn injection_uses_explicit_fresh_state() {
    let mut fresh = context();
    fresh.guest_rflags = 0x202;
    fresh.guest_rip = 0x1234;
    let update = prepare_injection(&fresh, VmEntryEvent::gp(7), 0).expect("update");
    assert_eq!(update.guest_rflags, 0x1_0202);
    assert_eq!(update.error_code, Some(7));
    assert_eq!(fresh.guest_rip, 0x1234);
    assert_eq!(update.instruction_length, 0);
    assert!(prepare_injection(&fresh, VmEntryEvent::ud(), 1 << 31).is_err());
    fresh.idt_vectoring_info = Some(1 << 31);
    assert!(prepare_injection(&fresh, VmEntryEvent::ud(), 0).is_err());
}

#[test]
fn vectoring_event_is_reinjected_losslessly() {
    let mut hardware = context();
    hardware.guest_rflags = 0x202;
    hardware.idt_vectoring_info = Some(
        VALID_BIT
            | DELIVER_ERROR_CODE_BIT
            | (u32::from(InterruptionType::HardwareException.code()) << TYPE_SHIFT)
            | 14,
    );
    hardware.idt_vectoring_error_code = Some(5);
    let update =
        prepare_reinjection(&hardware, 0).expect("valid vectoring state").expect("event");
    assert_eq!(update.interruption_info, hardware.idt_vectoring_info.unwrap());
    assert_eq!(update.error_code, Some(5));
    assert_eq!(update.instruction_length, 0);
    assert_eq!(update.guest_rflags, 0x202);

    let mut software = context();
    software.instruction_length = Some(2);
    software.idt_vectoring_info = Some(
        VALID_BIT | (u32::from(InterruptionType::SoftwareInterrupt.code()) << TYPE_SHIFT) | 0x80,
    );
    assert_eq!(
        prepare_reinjection(&software, 0)
            .expect("valid vectoring state")
            .expect("event")
            .instruction_length,
        2
    );
    assert!(prepare_reinjection(&software, VALID_BIT).is_err());
    software.instruction_length = None;
    assert!(prepare_reinjection(&software, 0).is_err());
    software.instruction_length = Some(2);
    software.idt_vectoring_info =
        Some(VALID_BIT | (u32::from(InterruptionType::Reserved.code()) << TYPE_SHIFT));
    assert!(prepare_reinjection(&software, 0).is_err());
}

#[test]
fn triple_fault_never_uses_reset_port() {
    let result = triplefault::disposition();
    assert_eq!(result, ExitDisposition::Fatal(FatalReason::TripleFault));
    assert!(!result.advances_rip());
}

#[test]
fn public_vmcall_is_ud() {
    let mailbox = InternalMailbox::new();

    // guest register noise cannot affect the private mailbox.
    for guest_value in [0, 1, u32::MAX as u64, u64::MAX] {
        let regs = GuestRegs {
            rax: guest_value,
            rcx: !guest_value,
            rdx: guest_value.rotate_left(17),
            r10: guest_value.rotate_right(11),
            ..GuestRegs::default()
        };
        let before = mailbox.state();
        assert_eq!(before, Some(MailboxState::Idle));
        assert_eq!(
            (regs.rax, regs.rcx, regs.rdx, regs.r10),
            (
                guest_value,
                !guest_value,
                guest_value.rotate_left(17),
                guest_value.rotate_right(11)
            )
        );
    }
}

#[test]
fn private_shutdown_requires_cpl0_and_mailbox() {
    let mut mailbox = InternalMailbox::new();
    mailbox
        .prepare(MailboxRequest {
            epoch: 1,
            operation: RendezvousOperation::Shutdown,
            target_view: view(0),
            target_eptp: 0x1000,
            expected_old_eptp: 0x1000,
        })
        .expect("prepare");
    assert_eq!(mailbox.state(), Some(MailboxState::Prepared));
}

#[test]
fn dispatch_known_reason() {
    let cases = [
        (REASON_TRIPLE_FAULT, ExitRoute::TripleFault),
        (REASON_CPUID, ExitRoute::Cpuid),
        (REASON_VMCALL, ExitRoute::Vmcall),
        (REASON_VMCLEAR, ExitRoute::GuestVmxInstruction),
        (REASON_VMLAUNCH, ExitRoute::GuestVmxInstruction),
        (REASON_VMPTRLD, ExitRoute::GuestVmxInstruction),
        (REASON_VMPTRST, ExitRoute::GuestVmxInstruction),
        (REASON_VMREAD, ExitRoute::GuestVmxInstruction),
        (REASON_VMRESUME, ExitRoute::GuestVmxInstruction),
        (REASON_VMWRITE, ExitRoute::GuestVmxInstruction),
        (REASON_VMXOFF, ExitRoute::GuestVmxInstruction),
        (REASON_VMXON, ExitRoute::GuestVmxInstruction),
        (REASON_RDMSR, ExitRoute::Rdmsr),
        (REASON_WRMSR, ExitRoute::Wrmsr),
        (REASON_EPT_VIOLATION, ExitRoute::EptViolation),
        (REASON_EPT_MISCONFIGURATION, ExitRoute::EptMisconfiguration),
        (REASON_INVEPT, ExitRoute::GuestVmxInstruction),
        (REASON_INVVPID, ExitRoute::GuestVmxInstruction),
        (REASON_VMFUNC, ExitRoute::GuestVmxInstruction),
    ];
    for (reason, expected) in cases {
        assert_eq!(route_exit_reason(reason), expected, "reason {reason}");
    }
    assert_eq!(route_exit_reason(REASON_XSETBV), ExitRoute::Xsetbv);
}

#[test]
fn dispatch_unknown_is_fatal() {
    assert_eq!(route_exit_reason(u64::MAX), ExitRoute::Unknown);
    let disposition = unknown_exit_disposition();
    assert_eq!(disposition, ExitDisposition::Fatal(FatalReason::UnexpectedVmExit));
    assert!(!disposition.advances_rip());
}

#[test]
fn xsetbv_admission_preserves_exception_priority() {
    let osxsave = 1 << 18;
    assert_eq!(admission(3, 0, 1, 0, KNOWN_XCR0), Err(inject_ud()));
    assert_eq!(admission(3, osxsave, 0, 3, KNOWN_XCR0), Err(inject_gp()));
    assert_eq!(admission(0, osxsave, 1, 3, KNOWN_XCR0), Err(inject_gp()));
    assert_eq!(admission(0, osxsave, 0, 5, KNOWN_XCR0), Err(inject_gp()));
    assert_eq!(admission(0, osxsave, 0, 3, KNOWN_XCR0), Ok(()));
}

#[test]
fn xcr0_dependencies_and_reserved_bits() {
    for value in [1, 3, 7, 0x1f, 0xe7, 0x207, 0x60003, KNOWN_XCR0] {
        assert!(valid_xcr0(value, KNOWN_XCR0), "{value:x}");
    }
    for value in [0, 2, 5, 0xb, 0x13, 0x27, 0x67, 0xe3, 0x20003, 0x40003, 1 << 63] {
        assert!(!valid_xcr0(value, KNOWN_XCR0), "{value:x}");
    }
    assert!(!valid_xcr0(7, 3));
    assert_eq!(joined(0xffff_ffff_0000_0001, 0xffff_ffff_0000_0002), 0x1_0000_0002);
}

#[test]
fn extended_state_is_asked_for_under_the_guests_mask() {
    for (rax, rcx, masked) in [(0xd, 0, true), (0xd, 1, true), (0xd, 2, false), (1, 0, false)] {
        let regs = GuestRegs { rax: rax | (1 << 32), rcx, ..GuestRegs::default() };
        let asked = cpuid::question(&regs);
        assert_eq!((asked.leaf, asked.subleaf), (rax as u32, rcx as u32));
        assert_eq!(asked.under_guest_mask, masked);
    }
}

#[test]
fn the_guest_is_told_of_no_hypervisor() {
    let native = CpuidRegisters { eax: 1, ebx: 2, ecx: u32::MAX, edx: 4 };
    let mut regs = GuestRegs { rax: 1, ..GuestRegs::default() };
    assert_eq!(cpuid::handle(&mut regs, 0, native), ExitDisposition::ResumeAndAdvance);
    assert_eq!(regs.rcx, 0x7fff_ffff);
    assert_eq!((regs.rax, regs.rbx, regs.rdx), (1, 2, 4));

    let mut extended = GuestRegs { rax: 7, ..GuestRegs::default() };
    cpuid::handle(&mut extended, 0, native);
    assert_eq!(extended.rcx, 0xffff_ffef);
    let silent = CpuidRegisters { ecx: 0, ..native };
    let mut with_keys = GuestRegs { rax: 7, ..GuestRegs::default() };
    cpuid::handle(&mut with_keys, 1 << 22, silent);
    assert_eq!(with_keys.rcx, 1 << 4);

    let mut other = GuestRegs { rax: 0x16, ..GuestRegs::default() };
    cpuid::handle(&mut other, 0, native);
    assert_eq!(other.rcx, u64::from(u32::MAX));
}

#[test]
fn memory_types_must_not_change_under_a_guest() {
    assert_eq!(
        msr::handle(0x2ff, true, 8),
        ExitDisposition::Fatal(FatalReason::MtrrChangedWhileRunning)
    );
    assert_eq!(msr::handle(0x2ff, false, 8), inject_gp());
    assert_eq!(genericvmx::handle(), inject_ud());
}

#[test]
fn the_next_instruction_is_as_far_as_its_length() {
    let mut left = context();
    left.instruction_length = Some(3);
    assert_eq!(advance_rip(&left), Ok(0x1003));
    left.guest_rip = u64::MAX;
    assert!(advance_rip(&left).is_err());
    left.instruction_length = None;
    assert!(advance_rip(&left).is_err());
}

#[test]
fn a_captured_exit_names_its_processor_and_view() {
    let mut spy = Spy { reads: Vec::new() };
    let captured = capture(&mut spy, cpu(), view(3), 77).expect("context");
    assert_eq!(captured.basic_reason, 48);
    assert_eq!(captured.active_view, view(3));
    assert_eq!(captured.tsc, 77);
    assert_eq!(captured.guest_rip, ordinal(ContextField::GuestRip) + 1);
    assert!(capture(&mut Failure, cpu(), view(3), 77).is_err());
}
