//! Interest in one source of readiness, as the native poll takes it.

use vstd::prelude::*;
use crate::abi::{
    clockid_monotonic, eventtype_clock, eventtype_fd_read, eventtype_fd_write,
    spec_clockid_monotonic, spec_eventtype_clock, spec_eventtype_fd_read,
    spec_eventtype_fd_write,
};
use crate::event::Token;
use core::time::Duration;

verus! {

/// The correlation value reserved for the wake channel's subscription.
pub const WAKE_TOKEN: u64 = 0xffff_ffff_ffff_ffff;

/// The correlation value reserved for the timeout's clock subscription. It
/// is the value of `WAKE_TOKEN`: the two subscriptions, and their events,
/// are told apart by their kind.
pub const TIMEOUT_TOKEN: u64 = 0xffff_ffff_ffff_ffff;

/// The slack, in nanoseconds, granted to the host for coalescing the timeout
/// with other events: one millisecond.
pub const TIMEOUT_PRECISION: u64 = 1_000_000;

/// The directions of readiness a caller asks for.
#[derive(Clone, Copy, Debug, PartialEq, Eq, Structural)]
pub struct Interest {
    /// Interest in data to read.
    pub readable: bool,
    /// Interest in room to write.
    pub writable: bool,
}

impl Interest {
    /// Interest in reading only.
    pub fn readable() -> (interest: Interest)
        ensures
            interest == (Interest { readable: true, writable: false }),
    {
        Interest { readable: true, writable: false }
    }

    /// Interest in writing only.
    pub fn writable() -> (interest: Interest)
        ensures
            interest == (Interest { readable: false, writable: true }),
    {
        Interest { readable: false, writable: true }
    }

    /// Interest in both directions.
    pub fn both() -> (interest: Interest)
        ensures
            interest == (Interest { readable: true, writable: true }),
    {
        Interest { readable: true, writable: true }
    }

    /// Whether reading is asked for.
    pub fn is_readable(&self) -> (b: bool)
        ensures
            b == self.readable,
    {
        self.readable
    }

    /// Whether writing is asked for.
    pub fn is_writable(&self) -> (b: bool)
        ensures
            b == self.writable,
    {
        self.writable
    }
}

/// What a subscription waits for.
#[derive(Clone, Copy, Debug, PartialEq, Eq, Structural)]
pub enum SubscriptionKind {
    /// A deadline on a clock.
    Clock {
        /// The clock that the deadline is measured on.
        id: u32,
        /// The deadline, in nanoseconds.
        timeout: u64,
        /// The slack, in nanoseconds, that the host may add.
        precision: u64,
        /// ABI flag bits; 0 makes the deadline relative to now.
        flags: u16,
    },
    /// Data to read on a descriptor.
    FdRead {
        /// The descriptor.
        fd: u32,
    },
    /// Room to write on a descriptor.
    FdWrite {
        /// The descriptor.
        fd: u32,
    },
}

/// One entry of the registry.
#[derive(Clone, Copy, Debug, PartialEq, Eq, Structural)]
pub struct Subscription {
    /// The correlation value that comes back on the entry's events.
    pub userdata: u64,
    /// What the entry waits for.
    pub kind: SubscriptionKind,
}

/// The length of a duration in whole nanoseconds, as
/// `Duration::as_nanos` gives it.
pub uninterp spec fn duration_nanos(duration: Duration) -> u128;

/// `Duration::as_nanos`: the result is a function of the duration alone, and
/// nothing more is claimed of it.
pub assume_specification[ Duration::as_nanos ](duration: &Duration) -> (nanos: u128)
    ensures
        nanos == duration_nanos(*duration),
;

/// A count of nanoseconds as a native timestamp: itself where it fits, and
/// the largest timestamp otherwise.
pub open spec fn spec_clock_deadline(nanos: u128) -> u64 {
    if nanos > u64::MAX {
        u64::MAX
    } else {
        nanos as u64
    }
}

/// A count of nanoseconds as a native timestamp, saturating at the largest
/// timestamp.
#[verifier::when_used_as_spec(spec_clock_deadline)]
pub fn clock_deadline(nanos: u128) -> (deadline: u64)
    ensures
        deadline == spec_clock_deadline(nanos),
{
    if nanos > 0xffff_ffff_ffff_ffff {
        0xffff_ffff_ffff_ffff
    } else {
        nanos as u64
    }
}

impl Subscription {
    /// The subscription for data to read on `fd`.
    pub open spec fn spec_fd_read(fd: u32, token: Token) -> Subscription {
        Subscription { userdata: token.0 as u64, kind: SubscriptionKind::FdRead { fd } }
    }

    /// The subscription for room to write on `fd`.
    pub open spec fn spec_fd_write(fd: u32, token: Token) -> Subscription {
        Subscription { userdata: token.0 as u64, kind: SubscriptionKind::FdWrite { fd } }
    }

    /// The wake channel's subscription: data to read on the channel's
    /// descriptor, under the reserved token.
    pub open spec fn spec_wake(fd: u32) -> Subscription {
        Subscription { userdata: WAKE_TOKEN, kind: SubscriptionKind::FdRead { fd } }
    }

    /// The timeout's subscription: a deadline of `deadline` nanoseconds from
    /// now on the monotonic clock, under the reserved token.
    pub open spec fn spec_timeout(deadline: u64) -> Subscription {
        Subscription {
            userdata: TIMEOUT_TOKEN,
            kind: SubscriptionKind::Clock {
                id: spec_clockid_monotonic(),
                timeout: deadline,
                precision: TIMEOUT_PRECISION,
                flags: 0,
            },
        }
    }

    /// Whether the entry waits on the descriptor `fd`, in either direction.
    pub open spec fn spec_watches(&self, fd: u32) -> bool {
        match self.kind {
            SubscriptionKind::FdRead { fd: own } => own == fd,
            SubscriptionKind::FdWrite { fd: own } => own == fd,
            SubscriptionKind::Clock { .. } => false,
        }
    }

    /// The ABI tag of the entry's kind.
    pub open spec fn spec_tag(&self) -> u8 {
        match self.kind {
            SubscriptionKind::Clock { .. } => spec_eventtype_clock(),
            SubscriptionKind::FdRead { .. } => spec_eventtype_fd_read(),
            SubscriptionKind::FdWrite { .. } => spec_eventtype_fd_write(),
        }
    }

    /// Whether the entry is a timeout's clock subscription.
    pub open spec fn spec_is_timeout(&self) -> bool {
        self.kind is Clock && self.userdata == TIMEOUT_TOKEN
    }

    /// Whether the entry is the subscription of the wake channel `fd`.
    pub open spec fn spec_is_wake(&self, fd: u32) -> bool {
        *self == Subscription::spec_wake(fd)
    }

    /// The subscription for data to read on `fd`.
    #[verifier::when_used_as_spec(spec_fd_read)]
    pub fn fd_read(fd: u32, token: Token) -> (subscription: Subscription)
        ensures
            subscription == Subscription::spec_fd_read(fd, token),
    {
        Subscription { userdata: token.0 as u64, kind: SubscriptionKind::FdRead { fd } }
    }

    /// The subscription for room to write on `fd`.
    #[verifier::when_used_as_spec(spec_fd_write)]
    pub fn fd_write(fd: u32, token: Token) -> (subscription: Subscription)
        ensures
            subscription == Subscription::spec_fd_write(fd, token),
    {
        Subscription { userdata: token.0 as u64, kind: SubscriptionKind::FdWrite { fd } }
    }

    /// The wake channel's subscription.
    #[verifier::when_used_as_spec(spec_wake)]
    pub fn wake(fd: u32) -> (subscription: Subscription)
        ensures
            subscription == Subscription::spec_wake(fd),
    {
        Subscription { userdata: WAKE_TOKEN, kind: SubscriptionKind::FdRead { fd } }
    }

    /// The timeout's subscription for a deadline in nanoseconds.
    #[verifier::when_used_as_spec(spec_timeout)]
    pub fn timeout(deadline: u64) -> (subscription: Subscription)
        ensures
            subscription == Subscription::spec_timeout(deadline),
    {
        Subscription {
            userdata: TIMEOUT_TOKEN,
            kind: SubscriptionKind::Clock {
                id: clockid_monotonic(),
                timeout: deadline,
                precision: TIMEOUT_PRECISION,
                flags: 0,
            },
        }
    }

    /// Whether the entry waits on the descriptor `fd`, in either direction.
    #[verifier::when_used_as_spec(spec_watches)]
    pub fn watches(&self, fd: u32) -> (b: bool)
        ensures
            b == self.spec_watches(fd),
    {
        match self.kind {
            SubscriptionKind::FdRead { fd: own } => own == fd,
            SubscriptionKind::FdWrite { fd: own } => own == fd,
            SubscriptionKind::Clock { .. } => false,
        }
    }

    /// The ABI tag of the entry's kind.
    #[verifier::when_used_as_spec(spec_tag)]
    pub fn tag(&self) -> (tag: u8)
        ensures
            tag == self.spec_tag(),
    {
        match self.kind {
            SubscriptionKind::Clock { .. } => eventtype_clock(),
            SubscriptionKind::FdRead { .. } => eventtype_fd_read(),
            SubscriptionKind::FdWrite { .. } => eventtype_fd_write(),
        }
    }

    /// Whether the entry is the subscription of the wake channel `fd`.
    #[verifier::when_used_as_spec(spec_is_wake)]
    pub fn is_wake(&self, fd: u32) -> (b: bool)
        ensures
            b == self.spec_is_wake(fd),
    {
        match self.kind {
            SubscriptionKind::FdRead { fd: own } => own == fd && self.userdata == WAKE_TOKEN,
            _ => false,
        }
    }

    /// Whether the entry is a timeout's clock subscription.
    #[verifier::when_used_as_spec(spec_is_timeout)]
    pub fn is_timeout(&self) -> (b: bool)
        ensures
            b == self.spec_is_timeout(),
    {
        self.tag() == eventtype_clock() && self.userdata == TIMEOUT_TOKEN
    }
}

/// The subscription that ends a poll after `timeout`: a deadline of that many
/// nanoseconds from now, cut off at the largest timestamp.
pub fn timeout_subscription(timeout: Duration) -> (subscription: Subscription)
    ensures
        subscription == Subscription::spec_timeout(spec_clock_deadline(duration_nanos(timeout))),
{
    Subscription::timeout(clock_deadline(timeout.as_nanos()))
}

/// The token of a registration comes back unchanged from the correlation
/// value of its subscriptions.
pub proof fn lemma_token_round_trip(fd: u32, token: Token)
    ensures
        Subscription::spec_fd_read(fd, token).userdata as usize == token.0,
        Subscription::spec_fd_write(fd, token).userdata as usize == token.0,
{
}

/// The two reserved subscriptions share their correlation value and differ
/// in kind: the wake channel's is no timeout's, and a timeout's is no wake
/// channel's and waits on no descriptor.
pub proof fn lemma_reserved_subscriptions_differ(wake_fd: u32, deadline: u64, fd: u32)
    ensures
        Subscription::spec_wake(wake_fd).userdata == Subscription::spec_timeout(deadline).userdata,
        Subscription::spec_wake(wake_fd).spec_tag() != Subscription::spec_timeout(
            deadline,
        ).spec_tag(),
        !Subscription::spec_wake(wake_fd).spec_is_timeout(),
        Subscription::spec_timeout(deadline).spec_is_timeout(),
        !Subscription::spec_timeout(deadline).spec_is_wake(fd),
        !Subscription::spec_timeout(deadline).spec_watches(fd),
{
}

} // verus!
