//! The values of the host ABI that the selector reads and writes, taken from
//! the `wasix` bindings.

use vstd::prelude::*;

verus! {

/// The ABI tag of a clock subscription or event.
pub open spec fn spec_eventtype_clock() -> u8 {
    0
}

/// The ABI tag of a read-readiness subscription or event.
pub open spec fn spec_eventtype_fd_read() -> u8 {
    1
}

/// The ABI tag of a write-readiness subscription or event.
pub open spec fn spec_eventtype_fd_write() -> u8 {
    2
}

/// The error code that stands for success.
pub open spec fn spec_errno_success() -> u16 {
    0
}

/// The event flag that reports a hangup of the peer.
pub open spec fn spec_hangup_flag() -> u16 {
    1
}

/// The descriptor flag for non-blocking mode.
pub open spec fn spec_nonblock_flag() -> u16 {
    4
}

/// The identifier of the monotonic clock.
pub open spec fn spec_clockid_monotonic() -> u32 {
    1
}

/// `wasix::EVENTTYPE_CLOCK.raw()`: trusted to be the tag 0, as the bindings
/// define the constant.
#[verifier::external_body]
#[verifier::when_used_as_spec(spec_eventtype_clock)]
pub(crate) fn eventtype_clock() -> (tag: u8)
    ensures
        tag == spec_eventtype_clock(),
{
    wasix::EVENTTYPE_CLOCK.raw()
}

/// `wasix::EVENTTYPE_FD_READ.raw()`: trusted to be the tag 1, as the bindings
/// define the constant.
#[verifier::external_body]
#[verifier::when_used_as_spec(spec_eventtype_fd_read)]
pub(crate) fn eventtype_fd_read() -> (tag: u8)
    ensures
        tag == spec_eventtype_fd_read(),
{
    wasix::EVENTTYPE_FD_READ.raw()
}

/// `wasix::EVENTTYPE_FD_WRITE.raw()`: trusted to be the tag 2, as the bindings
/// define the constant.
#[verifier::external_body]
#[verifier::when_used_as_spec(spec_eventtype_fd_write)]
pub(crate) fn eventtype_fd_write() -> (tag: u8)
    ensures
        tag == spec_eventtype_fd_write(),
{
    wasix::EVENTTYPE_FD_WRITE.raw()
}

/// `wasix::ERRNO_SUCCESS.raw()`: trusted to be the code 0, as the bindings
/// define the constant.
#[verifier::external_body]
#[verifier::when_used_as_spec(spec_errno_success)]
pub(crate) fn errno_success() -> (code: u16)
    ensures
        code == spec_errno_success(),
{
    wasix::ERRNO_SUCCESS.raw()
}

/// `wasix::EVENTRWFLAGS_FD_READWRITE_HANGUP`: trusted to be bit 0, as the
/// bindings define the constant.
#[verifier::external_body]
#[verifier::when_used_as_spec(spec_hangup_flag)]
pub(crate) fn hangup_flag() -> (flag: u16)
    ensures
        flag == spec_hangup_flag(),
{
    wasix::EVENTRWFLAGS_FD_READWRITE_HANGUP
}

/// `wasix::FDFLAGS_NONBLOCK`: trusted to be bit 2, as the bindings define the
/// constant.
#[verifier::external_body]
#[verifier::when_used_as_spec(spec_nonblock_flag)]
pub(crate) fn nonblock_flag() -> (flag: u16)
    ensures
        flag == spec_nonblock_flag(),
{
    wasix::FDFLAGS_NONBLOCK
}

/// `wasix::CLOCKID_MONOTONIC.raw()`: trusted to be the identifier 1, as the
/// bindings define the constant.
#[verifier::external_body]
#[verifier::when_used_as_spec(spec_clockid_monotonic)]
pub(crate) fn clockid_monotonic() -> (id: u32)
    ensures
        id == spec_clockid_monotonic(),
{
    wasix::CLOCKID_MONOTONIC.raw()
}

} // verus!
