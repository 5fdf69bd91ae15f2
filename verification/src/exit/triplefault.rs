//! A guest that is beyond help. It is neither reset nor shut down on its own.

use vstd::prelude::*;

use super::disposition::{ExitDisposition, FatalReason};

verus! {

pub open spec fn spec_disposition() -> ExitDisposition {
    ExitDisposition::Fatal(FatalReason::TripleFault)
}

#[verifier::when_used_as_spec(spec_disposition)]
pub fn disposition() -> (disposition: ExitDisposition)
    ensures
        disposition == spec_disposition(),
{
    ExitDisposition::Fatal(FatalReason::TripleFault)
}

} // verus!
