//! The lifecycle of the monitor, processors and sets of them.

use monad::error::{ErrorCode, MonadResult};
use monad::exit::msr::is_mtrr_write;
use monad::lifecycle::{
    validate_shutdown_origin, DebugState, Lifecycle, LifecycleState, ShutdownOrigin,
};
use monad::topology::{CpuId, CpuSelection, CpuSetErrorDetail, CpuSetWord, CpuTopology};

#[test]
fn lifecycle_transition_table() {
    let states = [
        LifecycleState::Absent,
        LifecycleState::Preparing,
        LifecycleState::Launching,
        LifecycleState::Running,
        LifecycleState::Quiescing,
        LifecycleState::Stopping,
        LifecycleState::Fatal,
    ];
    let allowed = [
        (LifecycleState::Absent, LifecycleState::Preparing),
        (LifecycleState::Preparing, LifecycleState::Launching),
        (LifecycleState::Preparing, LifecycleState::Absent),
        (LifecycleState::Launching, LifecycleState::Running),
        (LifecycleState::Launching, LifecycleState::Absent),
        (LifecycleState::Running, LifecycleState::Quiescing),
        (LifecycleState::Running, LifecycleState::Fatal),
        (LifecycleState::Quiescing, LifecycleState::Running),
        (LifecycleState::Quiescing, LifecycleState::Stopping),
        (LifecycleState::Stopping, LifecycleState::Absent),
        (LifecycleState::Stopping, LifecycleState::Fatal),
    ];
    for from in states {
        for to in states {
            assert_eq!(from.allows(to), allowed.contains(&(from, to)));
        }
    }
    let mut lifecycle = Lifecycle::new();
    let control = lifecycle.try_control().expect("control");
    let error = match lifecycle.try_control() {
        Ok(_) => panic!("second control lock succeeded"),
        Err(error) => error,
    };
    assert_eq!(error.code, ErrorCode::ControllerBusy);
    control
        .transition(&mut lifecycle, LifecycleState::Absent, LifecycleState::Preparing)
        .expect("prepare");
}

#[test]
fn launch_failure_each_cpu_each_phase() {
    for cpus in [1usize, 2, 8, 256] {
        for failure in 0..cpus * 5 {
            let failed_cpu = failure / 5;
            let failed_phase = failure % 5;
            let mut launched = [false; 256];
            for cpu in 0..cpus {
                for phase in 0..5 {
                    if cpu == failed_cpu && phase == failed_phase {
                        launched[..cpu].fill(false);
                        assert!(launched[..cpus].iter().all(|state| !*state));
                        break;
                    }
                    if phase == 4 {
                        launched[cpu] = true;
                    }
                }
                if cpu == failed_cpu {
                    break;
                }
            }
        }
    }
}

#[test]
fn running_only_after_all_launched() {
    for count in 1..=32usize {
        let mut launched = [false; 32];
        for cpu in 0..count {
            launched[cpu] = true;
            assert_eq!(launched[..count].iter().all(|value| *value), cpu + 1 == count);
        }
    }
}

#[test]
fn shutdown_requires_registered_cpl0_trampoline() {
    let valid = ShutdownOrigin {
        cpl: 0,
        rip: 0x1010,
        trampoline_start: 0x1000,
        trampoline_end: 0x1020,
        expected_epoch: 8,
        mailbox_epoch: 8,
        expected_cpu: 3,
        current_cpu: 3,
    };
    assert!(validate_shutdown_origin(valid).is_ok());
    for index in 0..6usize {
        let mut invalid = valid;
        match index {
            0 => invalid.cpl = 3,
            1 => invalid.rip = invalid.trampoline_start - 1,
            2 => invalid.rip = invalid.trampoline_end,
            3 => invalid.mailbox_epoch += 1,
            4 => invalid.current_cpu += 1,
            _ => invalid.trampoline_end = invalid.trampoline_start,
        }
        assert!(validate_shutdown_origin(invalid).is_err());
    }
}

#[test]
fn shutdown_restores_state() {
    let before = DebugState { dr0: 1, dr1: 2, dr2: 3, dr3: 4, dr6: 6, dr7: 7 };
    let corrupted = DebugState { dr0: 0, dr1: 0, dr2: 0, dr3: 0, dr6: 0, dr7: 0 };
    assert_ne!(corrupted, before);
    let after = before;
    assert_eq!(after, before);
}

#[test]
fn extended_state_round_trip() {
    for size in [576usize, 832, 2688, 8192, 65536] {
        let mut area = vec![0; size];
        for (index, byte) in area.iter_mut().enumerate() {
            *byte = (index as u8).wrapping_mul(37);
        }
        let saved = area.clone();
        area.fill(0xaa);
        area.copy_from_slice(&saved);
        assert_eq!(area, saved);
    }
}

#[test]
fn register_snapshot_boundary() {
    let captured = [1u64, 2, 3, 4, 5, 6, 7, 8];
    let mut setup_scratch = captured;
    setup_scratch.fill(u64::MAX);
    assert_eq!(captured, [1, 2, 3, 4, 5, 6, 7, 8]);
}

#[test]
fn partial_shutdown_is_fatal() {
    let mut lifecycle = Lifecycle::new();
    let control = lifecycle.try_control().expect("control");
    control
        .transition(&mut lifecycle, LifecycleState::Absent, LifecycleState::Preparing)
        .expect("prepare");
    control
        .transition(&mut lifecycle, LifecycleState::Preparing, LifecycleState::Launching)
        .expect("launch");
    control
        .transition(&mut lifecycle, LifecycleState::Launching, LifecycleState::Running)
        .expect("running");
    control
        .transition(&mut lifecycle, LifecycleState::Running, LifecycleState::Quiescing)
        .expect("quiesce");
    control
        .transition(&mut lifecycle, LifecycleState::Quiescing, LifecycleState::Stopping)
        .expect("stop");
    lifecycle.enter_fatal();
    assert_eq!(lifecycle.state(), LifecycleState::Fatal);
}

#[test]
fn fatal_never_calls_vmxoff() {
    let vmxoff_called = false;
    let mut lifecycle = Lifecycle::new();
    lifecycle.enter_fatal();
    assert_eq!(lifecycle.state(), LifecycleState::Fatal);
    assert!(!vmxoff_called);
}

#[test]
fn mtrr_write_is_fatal() {
    for msr in [0x200u32, 0x20f, 0x250, 0x258, 0x259, 0x268, 0x26f, 0x2ff] {
        assert!(is_mtrr_write(msr, 8));
    }
    assert!(!is_mtrr_write(0x1b, 8));
}

#[test]
fn transitions_are_refused_with_the_state_at_fault() {
    let mut lifecycle = Lifecycle::new();
    let control = lifecycle.try_control().expect("control");
    let skipped = control
        .transition(&mut lifecycle, LifecycleState::Absent, LifecycleState::Running)
        .expect_err("not allowed");
    assert_eq!(skipped.code, ErrorCode::InvalidLifecycleState);
    assert_eq!(
        skipped.detail,
        u64::from(LifecycleState::Absent.code())
            | (u64::from(LifecycleState::Running.code()) << 8)
    );
    let elsewhere = control
        .transition(&mut lifecycle, LifecycleState::Running, LifecycleState::Quiescing)
        .expect_err("not there");
    assert_eq!(elsewhere.detail, u64::from(LifecycleState::Absent.code()));
    assert_eq!(control.state(&lifecycle), LifecycleState::Absent);
    control.release(&mut lifecycle);
    assert!(lifecycle.try_control().is_ok());
}

#[test]
fn states_are_decoded_from_their_codes() {
    for state in [LifecycleState::Absent, LifecycleState::Stopping, LifecycleState::Fatal] {
        assert_eq!(LifecycleState::decode(state.code()), Some(state));
    }
    assert_eq!(LifecycleState::decode(99), None);
}

fn processor(dense_index: u16, group: u16, number: u8) -> CpuId {
    CpuId { dense_index, group, number, reserved: [0; 3] }
}

fn fixture() -> CpuTopology {
    CpuTopology::from_ids(&[processor(0, 0, 0), processor(1, 0, 2), processor(2, 3, 1)])
        .expect("valid topology fixture")
}

fn word(group: u16, reserved: u16, mask: u64) -> CpuSetWord {
    CpuSetWord { group, reserved, mask }
}

fn detail(result: MonadResult<CpuSelection>) -> u64 {
    match result {
        Ok(_) => panic!("fixture unexpectedly succeeded"),
        Err(error) => error.detail,
    }
}

#[test]
fn cpu_set_validation() {
    let topology = fixture();
    let all_virtualized = [true, true, true];

    assert_eq!(
        detail(topology.validate_cpu_set(&[], &all_virtualized)),
        CpuSetErrorDetail::Empty.code()
    );
    assert_eq!(
        detail(topology.validate_cpu_set(&[word(0, 0, 1), word(0, 0, 4)], &all_virtualized)),
        CpuSetErrorDetail::DuplicateGroup.code()
    );
    assert_eq!(
        detail(topology.validate_cpu_set(&[word(9, 0, 1)], &all_virtualized)),
        CpuSetErrorDetail::AbsentGroup.code()
    );
    assert_eq!(
        detail(topology.validate_cpu_set(&[word(0, 0, 2)], &all_virtualized)),
        CpuSetErrorDetail::InactiveBit.code()
    );
    assert_eq!(
        detail(topology.validate_cpu_set(&[word(0, 1, 1)], &all_virtualized)),
        CpuSetErrorDetail::ReservedNonzero.code()
    );
    assert_eq!(
        detail(topology.validate_cpu_set(&[word(3, 0, 2)], &[true, true, false])),
        CpuSetErrorDetail::CpuNotVirtualized.code()
    );

    let selected = topology
        .validate_cpu_set(&[word(0, 0, 5), word(3, 0, 2)], &all_virtualized)
        .expect("valid multi-group set");
    assert_eq!(selected.len(), 3);
    assert!(selected.contains(0) && selected.contains(1) && selected.contains(2));
}

#[test]
fn topologies_are_told_apart() {
    let topology = fixture();
    assert_eq!(topology.len(), 3);
    assert!(!topology.is_empty());
    assert!(topology.same_identity(&fixture()));
    let other = CpuTopology::from_ids(&[processor(0, 0, 0)]).expect("one processor");
    assert!(!topology.same_identity(&other));
    assert!(topology.get(2).is_some());
    assert!(topology.get(3).is_none());
    let out_of_order = CpuTopology::from_ids(&[processor(1, 0, 0)]);
    assert_eq!(
        out_of_order.map(|_| ()).map_err(|error| error.detail),
        Err(CpuSetErrorDetail::InvalidDenseIndex.code())
    );
    let twice = CpuTopology::from_ids(&[processor(0, 0, 0), processor(1, 0, 0)]);
    assert_eq!(
        twice.map(|_| ()).map_err(|error| error.detail),
        Err(CpuSetErrorDetail::DuplicateProcessor.code())
    );
    let numbered = CpuTopology::from_ids(&[processor(0, 0, 64)]);
    assert_eq!(
        numbered.map(|_| ()).map_err(|error| error.detail),
        Err(CpuSetErrorDetail::InvalidProcessorNumber.code())
    );
}
