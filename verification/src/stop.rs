//! The stop callback of a parse that is never asked to stop.
use vstd::prelude::*;
use enough::{Stop, StopReason, Unstoppable};

verus! {

/// `Stop::check` of `Unstoppable`: the token that never asks to stop
/// answers `Ok`.
#[verifier::external_body]
pub(crate) fn unstoppable_check() -> (r: Result<(), StopReason>)
    ensures
        r is Ok,
{
    Unstoppable.check()
}

} // verus!
