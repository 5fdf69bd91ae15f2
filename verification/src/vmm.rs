//! The virtual machine monitor: virtual processors, launch, activation and
//! shutdown.

use vstd::prelude::*;

pub mod activation;
pub mod bringup;
pub mod confined;
pub mod control;
pub mod launch;
pub mod machine;
pub mod outcomes;
pub mod promises;
pub mod setup;
pub mod starting;
pub mod tally;
pub mod together;
pub mod vcpu;

pub use vcpu::{ActiveViewReport, Vcpu};

verus! {

} // verus!
