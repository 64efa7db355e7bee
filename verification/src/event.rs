//! One outcome of a native poll, and the questions a caller asks of it.

use vstd::prelude::*;
use crate::abi::{
    eventtype_clock, eventtype_fd_read, eventtype_fd_write, hangup_flag, spec_eventtype_clock,
    spec_eventtype_fd_read, spec_eventtype_fd_write, spec_hangup_flag,
};

verus! {

/// The correlation value a caller attaches to a registration and finds again
/// on each event of it.
#[derive(Clone, Copy, Debug, PartialEq, Eq, Structural)]
pub struct Token(pub usize);

/// What an event reports.
#[derive(Clone, Copy, Debug, PartialEq, Eq, Structural)]
pub enum EventKind {
    /// A clock subscription's deadline has passed.
    Clock,
    /// The descriptor has data to read.
    FdRead,
    /// The descriptor has room to write.
    FdWrite,
}

impl EventKind {
    /// The ABI tag of this kind.
    pub open spec fn spec_raw(self) -> u8 {
        match self {
            EventKind::Clock => spec_eventtype_clock(),
            EventKind::FdRead => spec_eventtype_fd_read(),
            EventKind::FdWrite => spec_eventtype_fd_write(),
        }
    }

    /// The kind that an ABI tag stands for, if it stands for one.
    pub open spec fn spec_from_raw(tag: u8) -> Option<EventKind> {
        if tag == spec_eventtype_clock() {
            Some(EventKind::Clock)
        } else if tag == spec_eventtype_fd_read() {
            Some(EventKind::FdRead)
        } else if tag == spec_eventtype_fd_write() {
            Some(EventKind::FdWrite)
        } else {
            None
        }
    }

    /// The ABI tag of this kind.
    #[verifier::when_used_as_spec(spec_raw)]
    pub fn raw(self) -> (tag: u8)
        ensures
            tag == self.spec_raw(),
    {
        match self {
            EventKind::Clock => eventtype_clock(),
            EventKind::FdRead => eventtype_fd_read(),
            EventKind::FdWrite => eventtype_fd_write(),
        }
    }

    /// Reads an ABI tag: `None` for a tag that names no kind of event.
    #[verifier::when_used_as_spec(spec_from_raw)]
    pub fn from_raw(tag: u8) -> (kind: Option<EventKind>)
        ensures
            kind == EventKind::spec_from_raw(tag),
    {
        if tag == eventtype_clock() {
            Some(EventKind::Clock)
        } else if tag == eventtype_fd_read() {
            Some(EventKind::FdRead)
        } else if tag == eventtype_fd_write() {
            Some(EventKind::FdWrite)
        } else {
            None
        }
    }
}

/// Reading a kind's tag gives the kind back.
pub proof fn lemma_kind_tag_round_trip(kind: EventKind)
    ensures
        EventKind::spec_from_raw(kind.spec_raw()) == Some(kind),
{
}

/// One outcome record of a native poll.
#[derive(Clone, Copy, Debug, PartialEq, Eq, Structural)]
pub struct Event {
    /// The correlation value of the subscription that fired.
    pub userdata: u64,
    /// The error met while the subscription was processed; 0 for none.
    pub error: u16,
    /// What the event reports.
    pub kind: EventKind,
    /// The number of bytes ready to be read or written.
    pub nbytes: u64,
    /// The state of the descriptor, as ABI flag bits.
    pub flags: u16,
}

impl Event {
    /// Whether the hangup bit is set in the event's flags.
    pub open spec fn hangup(self) -> bool {
        self.flags & spec_hangup_flag() != 0
    }

    /// The token of the registration that the event belongs to.
    pub open spec fn spec_token(self) -> Token {
        Token(self.userdata as usize)
    }

    /// Builds an event from the fields of a native record: `None` where the
    /// tag names no kind of event.
    pub fn from_raw(userdata: u64, error: u16, tag: u8, nbytes: u64, flags: u16) -> (event: Option<
        Event,
    >)
        ensures
            event == match EventKind::spec_from_raw(tag) {
                Some(kind) => Some(Event { userdata, error, kind, nbytes, flags }),
                None => None,
            },
    {
        match EventKind::from_raw(tag) {
            Some(kind) => Some(Event { userdata, error, kind, nbytes, flags }),
            None => None,
        }
    }
}

/// The token of the registration that the event belongs to.
pub fn token(event: &Event) -> (token: Token)
    ensures
        token == event.spec_token(),
{
    Token(event.userdata as usize)
}

/// Whether the event reports data to read.
pub fn is_readable(event: &Event) -> (b: bool)
    ensures
        b == (event.kind == EventKind::FdRead),
{
    event.kind.raw() == eventtype_fd_read()
}

/// Whether the event reports room to write.
pub fn is_writable(event: &Event) -> (b: bool)
    ensures
        b == (event.kind == EventKind::FdWrite),
{
    event.kind.raw() == eventtype_fd_write()
}

/// Always false: an error on a subscription fails the poll as a whole and
/// never shows as an event.
pub fn is_error(event: &Event) -> (b: bool)
    ensures
        !b,
{
    false
}

/// Whether the event reports that the peer closed the read side.
pub fn is_read_closed(event: &Event) -> (b: bool)
    ensures
        b == (event.kind == EventKind::FdRead && event.hangup()),
{
    event.kind.raw() == eventtype_fd_read() && (event.flags & hangup_flag()) != 0
}

/// Whether the event reports that the peer closed the write side.
pub fn is_write_closed(event: &Event) -> (b: bool)
    ensures
        b == (event.kind == EventKind::FdWrite && event.hangup()),
{
    event.kind.raw() == eventtype_fd_write() && (event.flags & hangup_flag()) != 0
}

/// Always false: the host reports no priority readiness.
pub fn is_priority(event: &Event) -> (b: bool)
    ensures
        !b,
{
    false
}

/// Always false: the host reports no asynchronous I/O completion.
pub fn is_aio(event: &Event) -> (b: bool)
    ensures
        !b,
{
    false
}

/// Always false: the host reports no list I/O completion.
pub fn is_lio(event: &Event) -> (b: bool)
    ensures
        !b,
{
    false
}

} // verus!
