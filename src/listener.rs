//! The accept loop's policy: a failed bind ends startup, a failed accept is
//! logged and the loop goes on, and each accepted socket is dispatched to an
//! admission task of its own.
use vstd::prelude::*;

verus! {

/// What the accept loop does after one call to accept.
#[derive(Clone, Copy, Debug, PartialEq, Eq, Structural)]
pub enum AcceptAction {
    /// Hand the socket to a new admission task and accept again.
    Dispatch,
    /// Log the failure and accept again.
    LogAndContinue,
}

/// What startup does after binding the listen address.
#[derive(Clone, Copy, Debug, PartialEq, Eq, Structural)]
pub enum StartupAction {
    Serve,
    Halt,
}

/// The action after an accept that succeeded or failed. Neither ends the
/// loop: a failed accept is never fatal.
pub fn after_accept(accepted: bool) -> (r: AcceptAction)
    ensures
        accepted ==> r == AcceptAction::Dispatch,
        !accepted ==> r == AcceptAction::LogAndContinue,
{
    if accepted {
        AcceptAction::Dispatch
    } else {
        AcceptAction::LogAndContinue
    }
}

/// The action after binding: without a listening socket there is nothing to
/// serve.
pub fn after_bind(bound: bool) -> (r: StartupAction)
    ensures
        bound ==> r == StartupAction::Serve,
        !bound ==> r == StartupAction::Halt,
{
    if bound {
        StartupAction::Serve
    } else {
        StartupAction::Halt
    }
}

} // verus!
