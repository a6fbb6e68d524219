//! Errors of the harness.
use vstd::prelude::*;

verus! {

/// What went wrong, by kind.
#[derive(Debug, Clone, Copy, PartialEq, Eq, Structural)]
pub enum HarnessError {
    /// The rendezvous with the fuzzer failed.
    Bootstrap,
    /// A message arrived that the current state does not accept.
    Protocol,
    /// The simulator could not do what was asked of it.
    Simulator,
    /// An index or a size lies outside what is allowed.
    OutOfRange,
    /// The fuzzer went away.
    PeerGone,
}

} // verus!
