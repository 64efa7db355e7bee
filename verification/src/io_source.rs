//! The state kept for a source of I/O that is registered with the selector.

use vstd::prelude::*;

verus! {

/// `std::io::Error`, which the operations of a source fail with. Its
/// contents are not looked into.
#[verifier::external_type_specification]
#[verifier::external_body]
pub struct ExIoError(std::io::Error);

/// The state of a registered source: none. A registered descriptor is
/// already in non-blocking mode, so its operations run as they are.
#[derive(Clone, Copy, Debug, PartialEq, Eq, Structural)]
pub struct IoSourceState;

impl IoSourceState {
    /// The state of a new source.
    pub fn new() -> (state: IoSourceState) {
        IoSourceState
    }

    /// Runs the operation `f` on the resource `io` and hands its result on
    /// as it is.
    pub fn do_io<T, F, R>(&self, f: F, io: &T) -> (result: Result<R, std::io::Error>) where
        F: FnOnce(&T) -> Result<R, std::io::Error>,

        requires
            f.requires((io,)),
        ensures
            f.ensures((io,), result),
    {
        f(io)
    }
}

} // verus!
