//! A guest that uses a VMX instruction of its own. There are none for it.

use vstd::prelude::*;

use super::disposition::ExitDisposition;
use super::eventinjection;
use super::eventinjection::inject_ud;

verus! {

pub fn handle() -> (disposition: ExitDisposition)
    ensures
        disposition == eventinjection::spec_inject_ud(),
{
    inject_ud()
}

} // verus!
