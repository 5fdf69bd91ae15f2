//! The physical memory that the machine has.

use vstd::prelude::*;

use crate::ept::inventory::{PhysicalRange, PhysicalRangeKind, RequiredPhysicalRange};
use crate::error::{ErrorCode, ErrorPhase, MonadError, MonadResult};

verus! {

/// A range of memory as the operating system reports it.
#[derive(Debug, Clone, Copy, PartialEq, Eq, Structural)]
pub struct MemoryRange {
    pub base: i64,
    pub bytes: i64,
}

impl MemoryRange {
    /// The end of a report.
    pub open spec fn is_end(self) -> bool {
        self.base == 0 && self.bytes == 0
    }

    /// A range that there can be.
    pub open spec fn is_memory(self) -> bool {
        self.base >= 0 && self.bytes > 0
    }
}

/// How many ranges a report has before its end.
pub open spec fn reported(report: Seq<MemoryRange>, from: nat) -> nat
    decreases report.len() - from,
{
    if from >= report.len() || report[from as int].is_end() {
        from
    } else {
        reported(report, from + 1)
    }
}

proof fn lemma_reported(report: Seq<MemoryRange>, from: nat)
    requires
        from <= report.len(),
    ensures
        from <= reported(report, from) <= report.len(),
    decreases report.len() - from,
{
    if from < report.len() && !report[from as int].is_end() {
        lemma_reported(report, from + 1);
    }
}

/// The ranges that make up the machine: the memory, then the devices.
pub open spec fn inventory_at(report: Seq<MemoryRange>, devices: Seq<PhysicalRange>, k: int)
    -> PhysicalRange {
    let count = reported(report, 0);
    if k < count {
        PhysicalRange {
            start: report[k].base as u64,
            length: report[k].bytes as u64,
            kind: PhysicalRangeKind::Memory,
        }
    } else {
        devices[k - count]
    }
}

/// The first range that cannot be, and the error that it makes.
pub open spec fn inventory_fault(
    report: Seq<MemoryRange>,
    devices: Seq<PhysicalRange>,
    error: MonadError,
) -> bool {
    let count = reported(report, 0);
    ||| exists|k: int|
        {
            &&& 0 <= k < count
            &&& !(#[trigger] report[k]).is_memory()
            &&& forall|j: int| 0 <= j < k ==> (#[trigger] report[j]).is_memory()
            &&& error == MonadError::new(ErrorPhase::EptBuild, ErrorCode::InvalidRange, k as u64)
        }
    ||| exists|k: int|
        {
            &&& 0 <= k < devices.len()
            &&& (#[trigger] devices[k]).kind != PhysicalRangeKind::Device
            &&& forall|j: int|
                0 <= j < k ==> (#[trigger] devices[j]).kind == PhysicalRangeKind::Device
            &&& forall|j: int| 0 <= j < count ==> (#[trigger] report[j]).is_memory()
            &&& error == MonadError::new(ErrorPhase::EptBuild, ErrorCode::InvalidRange, k as u64)
        }
}

/// Whether an error says that there was no memory to hold the ranges: it counts
/// the devices, or tells how far a report or the devices were read.
pub open spec fn memory_short(
    report: Seq<MemoryRange>,
    devices: Seq<PhysicalRange>,
    error: MonadError,
) -> bool {
    &&& error == MonadError::new(
        ErrorPhase::EptBuild,
        ErrorCode::AllocationFailure,
        error.detail,
    )
    &&& error.detail <= devices.len() || error.detail < reported(report, 0)
}

fn out_of_memory(detail: u64) -> (error: MonadError)
    ensures
        error == MonadError::new(ErrorPhase::EptBuild, ErrorCode::AllocationFailure, detail),
{
    MonadError::new(ErrorPhase::EptBuild, ErrorCode::AllocationFailure, detail)
}

/// The memory of a report.
fn collect_memory(report: &[MemoryRange], inventory: &mut Vec<PhysicalRange>) -> (result:
    MonadResult<()>)
    requires
        old(inventory)@.len() == 0,
    ensures
        match result {
            Ok(_) => {
                &&& final(inventory)@.len() == reported(report@, 0)
                &&& forall|k: int|
                    0 <= k < final(inventory)@.len() ==> (#[trigger] report@[k]).is_memory()
                &&& forall|k: int|
                    0 <= k < final(inventory)@.len() ==> #[trigger] final(inventory)@[k] == (
                    PhysicalRange {
                        start: report@[k].base as u64,
                        length: report@[k].bytes as u64,
                        kind: PhysicalRangeKind::Memory,
                    })
            },
            Err(error) => {
                ||| error.detail < reported(report@, 0) && error == MonadError::new(
                    ErrorPhase::EptBuild,
                    ErrorCode::AllocationFailure,
                    error.detail,
                )
                ||| exists|k: int|
                    {
                        &&& 0 <= k < reported(report@, 0)
                        &&& !(#[trigger] report@[k]).is_memory()
                        &&& forall|j: int| 0 <= j < k ==> (#[trigger] report@[j]).is_memory()
                        &&& error == MonadError::new(
                            ErrorPhase::EptBuild,
                            ErrorCode::InvalidRange,
                            k as u64,
                        )
                    }
            },
        },
{
    let mut index: usize = 0;
    while index < report.len()
        invariant
            index <= report@.len(),
            inventory@.len() == index,
            reported(report@, 0) == reported(report@, index as nat),
            forall|k: int| 0 <= k < index ==> (#[trigger] report@[k]).is_memory(),
            forall|k: int|
                0 <= k < index ==> #[trigger] inventory@[k] == (PhysicalRange {
                    start: report@[k].base as u64,
                    length: report@[k].bytes as u64,
                    kind: PhysicalRangeKind::Memory,
                }),
        decreases report@.len() - index,
    {
        let range = report[index];
        proof {
            lemma_reported(report@, index as nat);
            if !report@[index as int].is_end() {
                lemma_reported(report@, index as nat + 1);
            }
        }
        if range.base == 0 && range.bytes == 0 {
            return Ok(());
        }
        if range.base < 0 || range.bytes <= 0 {
            assert(!report@[index as int].is_memory());
            return Err(
                MonadError::new(ErrorPhase::EptBuild, ErrorCode::InvalidRange, index as u64),
            );
        }
        if inventory.try_reserve(1).is_err() {
            return Err(out_of_memory(index as u64));
        }
        inventory.push(
            PhysicalRange {
                start: range.base as u64,
                length: range.bytes as u64,
                kind: PhysicalRangeKind::Memory,
            },
        );
        index = index + 1;
    }
    Ok(())
}

/// Joins the memory of the machine with the devices that the controller names.
/// The devices are required: the views must be able to reach them.
pub fn collect_physical_inventory(
    report: &[MemoryRange],
    device_ranges: &[PhysicalRange],
) -> (result: MonadResult<(Vec<PhysicalRange>, Vec<RequiredPhysicalRange>)>)
    ensures
        match result {
            Ok((inventory, required)) => {
                let count = reported(report@, 0);
                &&& forall|k: int| 0 <= k < count ==> (#[trigger] report@[k]).is_memory()
                &&& forall|k: int|
                    0 <= k < device_ranges@.len() ==> (#[trigger] device_ranges@[k]).kind
                        == PhysicalRangeKind::Device
                &&& inventory@.len() == count + device_ranges@.len()
                &&& forall|k: int|
                    0 <= k < inventory@.len() ==> #[trigger] inventory@[k] == inventory_at(
                        report@,
                        device_ranges@,
                        k,
                    )
                &&& required@.len() == device_ranges@.len()
                &&& forall|k: int|
                    0 <= k < required@.len() ==> #[trigger] required@[k] == (
                    RequiredPhysicalRange {
                        start: device_ranges@[k].start,
                        length: device_ranges@[k].length,
                    })
            },
            Err(error) => {
                ||| inventory_fault(report@, device_ranges@, error)
                ||| memory_short(report@, device_ranges@, error)
            },
        },
{
    let mut inventory: Vec<PhysicalRange> = Vec::new();
    if inventory.try_reserve(device_ranges.len()).is_err() {
        return Err(out_of_memory(device_ranges.len() as u64));
    }
    collect_memory(report, &mut inventory)?;
    let ghost memory = inventory@;
    let mut required: Vec<RequiredPhysicalRange> = Vec::new();
    if required.try_reserve(device_ranges.len()).is_err() {
        return Err(out_of_memory(device_ranges.len() as u64));
    }
    let mut index: usize = 0;
    while index < device_ranges.len()
        invariant
            index <= device_ranges@.len(),
            memory.len() == reported(report@, 0),
            forall|k: int| 0 <= k < memory.len() ==> (#[trigger] report@[k]).is_memory(),
            forall|k: int|
                0 <= k < memory.len() ==> #[trigger] memory[k] == inventory_at(
                    report@,
                    device_ranges@,
                    k,
                ),
            inventory@.len() == memory.len() + index,
            forall|k: int|
                0 <= k < inventory@.len() ==> #[trigger] inventory@[k] == inventory_at(
                    report@,
                    device_ranges@,
                    k,
                ),
            required@.len() == index,
            forall|k: int|
                0 <= k < index ==> #[trigger] required@[k] == (RequiredPhysicalRange {
                    start: device_ranges@[k].start,
                    length: device_ranges@[k].length,
                }),
            forall|k: int|
                0 <= k < index ==> (#[trigger] device_ranges@[k]).kind
                    == PhysicalRangeKind::Device,
        decreases device_ranges@.len() - index,
    {
        let range = device_ranges[index];
        if range.kind != PhysicalRangeKind::Device {
            assert(device_ranges@[index as int].kind != PhysicalRangeKind::Device);
            return Err(
                MonadError::new(ErrorPhase::EptBuild, ErrorCode::InvalidRange, index as u64),
            );
        }
        if inventory.try_reserve(1).is_err() {
            return Err(out_of_memory(index as u64));
        }
        inventory.push(range);
        required.push(RequiredPhysicalRange { start: range.start, length: range.length });
        index = index + 1;
    }
    Ok((inventory, required))
}

} // verus!
