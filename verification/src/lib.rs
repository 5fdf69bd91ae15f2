//! An Intel VT-x hypervisor's decisions: second-level page tables, memory
//! types, processor state, lifecycle, rendezvous, exits, telemetry and the
//! control interface, each with a proved contract.

use vstd::prelude::*;

pub mod arch;
pub mod bits;
pub mod driver;
pub mod error;
pub mod ept;
pub mod exit;
pub mod lifecycle;
pub mod logging;
pub mod memory;
pub mod rendezvous;
pub mod sorted;
pub mod telemetry;
pub mod topology;
pub mod vmm;

verus! {

} // verus!
