//! Intel processors: capabilities, controls, state and the VMX instructions.

use vstd::prelude::*;

pub mod caps;
pub mod control;
pub mod manual;
pub mod state;
pub mod takeover;
pub mod vmcs;
pub mod vmx;

verus! {

} // verus!
