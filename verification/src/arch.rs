//! What is particular to a processor family.

use vstd::prelude::*;

pub mod intel;

verus! {

} // verus!
