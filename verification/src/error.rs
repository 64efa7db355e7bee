//! The ways in which the selector's operations fail.

use vstd::prelude::*;

verus! {

/// A failure of a selector operation.
#[derive(Clone, Copy, Debug, PartialEq, Eq, Structural)]
pub enum SelectorError {
    /// The wake channel could not be set up; holds the native error code.
    ConstructionFailure(u16),
    /// The native poll itself failed; holds the native error code.
    PollFailure(u16),
    /// The native poll succeeded, and the error field of one of its outcomes
    /// was not success; holds that code.
    PerSubscriptionFailure(u16),
    /// The descriptor to deregister has no subscription.
    NotFound,
}

impl SelectorError {
    /// The native error code that the failure carries, if it carries one.
    pub open spec fn spec_errno(&self) -> Option<u16> {
        match *self {
            SelectorError::ConstructionFailure(code) => Some(code),
            SelectorError::PollFailure(code) => Some(code),
            SelectorError::PerSubscriptionFailure(code) => Some(code),
            SelectorError::NotFound => None,
        }
    }

    /// The native error code that the failure carries, if it carries one.
    #[verifier::when_used_as_spec(spec_errno)]
    pub fn errno(&self) -> (code: Option<u16>)
        ensures
            code == self.spec_errno(),
    {
        match self {
            SelectorError::ConstructionFailure(code) => Some(*code),
            SelectorError::PollFailure(code) => Some(*code),
            SelectorError::PerSubscriptionFailure(code) => Some(*code),
            SelectorError::NotFound => None,
        }
    }

    /// The operating-system error number to report for the failure: that of
    /// its native code, and none for `NotFound`.
    pub fn raw_os_error(&self) -> (code: Option<i32>)
        ensures
            code == match self.spec_errno() {
                Some(errno) => Some(errno as i32),
                None => None,
            },
            code matches Some(n) ==> 0 <= n <= u16::MAX,
    {
        match self.errno() {
            Some(errno) => Some(io_err(errno)),
            None => None,
        }
    }
}

/// The operating-system error number that stands for a native error code: the
/// code itself.
pub fn io_err(errno: u16) -> (code: i32)
    ensures
        code == errno,
{
    errno as i32
}

} // verus!
