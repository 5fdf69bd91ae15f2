//! What happens when a guest leaves for the hypervisor.

use vstd::prelude::*;

pub mod answers;
pub mod context;
pub mod cpuid;
pub mod disposition;
pub mod ept;
pub mod ept_fault;
pub mod eventinjection;
pub mod genericvmx;
pub mod msr;
pub mod triplefault;
pub mod vmcall;
pub mod vmexit;
pub mod xsetbv;

verus! {

} // verus!
