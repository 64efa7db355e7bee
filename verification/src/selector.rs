//! The selector: the registry of subscriptions and the decisions around each
//! native poll.

use vstd::prelude::*;
use vstd::multiset::Multiset;
use crate::abi::{errno_success, nonblock_flag, spec_errno_success, spec_nonblock_flag};
use crate::error::SelectorError;
use crate::event::{Event, EventKind, Token};
use crate::subscription::{
    duration_nanos, spec_clock_deadline, timeout_subscription, Interest, Subscription,
    TIMEOUT_TOKEN, WAKE_TOKEN,
};
use core::time::Duration;

verus! {

/// The value written to the wake channel to make it readable.
pub const WAKE_SIGNAL: u64 = 1;

/// The descriptor flags to set on the wake channel: those it has, and
/// non-blocking mode.
pub fn wake_channel_flags(flags: u16) -> (updated: u16)
    ensures
        updated == flags | spec_nonblock_flag(),
{
    flags | nonblock_flag()
}

/// What a selector holds, as plain values.
pub struct SelectorView {
    /// The identifier given at construction.
    pub id: usize,
    /// The registry, in the order in which the native poll receives it.
    pub subscriptions: Seq<Subscription>,
    /// Whether a waker has been registered.
    pub has_waker: bool,
    /// The wake channel's descriptor.
    pub wake_fd: u32,
}

/// Whether `entry` belongs to a registration of the descriptor `fd`: it
/// waits on `fd` and is not the subscription of the wake channel `wake_fd`.
pub open spec fn belongs_to(entry: Subscription, fd: u32, wake_fd: u32) -> bool {
    entry.spec_watches(fd) && !entry.spec_is_wake(wake_fd)
}

/// Whether some entry of `subscriptions` belongs to a registration of the
/// descriptor `fd`.
pub open spec fn is_registered(subscriptions: Seq<Subscription>, fd: u32, wake_fd: u32) -> bool {
    exists|i: int|
        0 <= i < subscriptions.len() && belongs_to(#[trigger] subscriptions[i], fd, wake_fd)
}

/// What deregistering `fd` answers: success where some entry belongs to a
/// registration of `fd`, and `NotFound` otherwise.
pub open spec fn deregister_result(
    subscriptions: Seq<Subscription>,
    fd: u32,
    wake_fd: u32,
) -> Result<(), SelectorError> {
    if is_registered(subscriptions, fd, wake_fd) {
        Ok(())
    } else {
        Err(SelectorError::NotFound)
    }
}

/// Whether `event` reports, without error, that `subscription` is ready.
pub open spec fn fires(subscription: Subscription, event: Event) -> bool {
    &&& event.userdata == subscription.userdata
    &&& event.kind.spec_raw() == subscription.spec_tag()
    &&& event.error == spec_errno_success()
}

/// The entries that a registration of `fd` adds: one for writing, then one
/// for reading, each only if asked for. An entry that would be the
/// subscription of the wake channel `wake_fd` over again is not added: that
/// one stays the only one of its like.
pub open spec fn interest_subscriptions(
    fd: u32,
    token: Token,
    interests: Interest,
    wake_fd: u32,
) -> Seq<Subscription> {
    let write = if interests.writable {
        seq![Subscription::spec_fd_write(fd, token)]
    } else {
        Seq::empty()
    };
    let read = if interests.readable && !Subscription::spec_fd_read(fd, token).spec_is_wake(
        wake_fd,
    ) {
        seq![Subscription::spec_fd_read(fd, token)]
    } else {
        Seq::empty()
    };
    write + read
}

/// The entries of `subscriptions` that do not belong to a registration of
/// `fd`, without their order.
pub open spec fn remaining(subscriptions: Seq<Subscription>, fd: u32, wake_fd: u32) -> Multiset<
    Subscription,
> {
    subscriptions.to_multiset().filter(|s: Subscription| !belongs_to(s, fd, wake_fd))
}

/// `subscriptions` without the entry at `index`: the last entry takes its
/// place.
pub open spec fn swap_removed(subscriptions: Seq<Subscription>, index: int) -> Seq<Subscription> {
    subscriptions.update(index, subscriptions.last()).drop_last()
}

/// `subscriptions` after the entries from `from` on that belong to a
/// registration of `fd` have been removed, front to back, each by moving the
/// last entry into its place.
pub open spec fn without_descriptor_from(
    subscriptions: Seq<Subscription>,
    fd: u32,
    wake_fd: u32,
    from: int,
) -> Seq<Subscription>
    decreases subscriptions.len() - from,
{
    if from < 0 || from >= subscriptions.len() {
        subscriptions
    } else if belongs_to(subscriptions[from], fd, wake_fd) {
        without_descriptor_from(swap_removed(subscriptions, from), fd, wake_fd, from)
    } else {
        without_descriptor_from(subscriptions, fd, wake_fd, from + 1)
    }
}

/// The registry after `fd` has been deregistered: every entry that belongs
/// to a registration of `fd` has been removed, front to back, each by moving
/// the last entry into its place. The wake channel's subscription stays.
pub open spec fn without_descriptor(subscriptions: Seq<Subscription>, fd: u32, wake_fd: u32) -> Seq<
    Subscription,
> {
    without_descriptor_from(subscriptions, fd, wake_fd, 0)
}

/// The registry as the native poll receives it: the entries at rest, and
/// after them the timeout's subscription where a timeout is asked for.
pub open spec fn native_input(subscriptions: Seq<Subscription>, timeout: Option<Duration>) -> Seq<
    Subscription,
> {
    match timeout {
        Some(duration) => subscriptions.push(
            Subscription::spec_timeout(spec_clock_deadline(duration_nanos(duration))),
        ),
        None => subscriptions,
    }
}

/// Whether an event is the firing of a timeout's clock subscription.
pub open spec fn spec_is_timeout_event(event: Event) -> bool {
    event.kind == EventKind::Clock && event.userdata == TIMEOUT_TOKEN
}

/// Whether an event is the firing of the wake channel's subscription: a
/// read event under the reserved token.
pub open spec fn spec_is_wake_event(event: Event) -> bool {
    event.kind == EventKind::FdRead && event.userdata == WAKE_TOKEN
}

/// Whether an event is the firing of the wake channel's subscription.
pub fn is_wake_event(event: &Event) -> (b: bool)
    ensures
        b == spec_is_wake_event(*event),
{
    match event.kind {
        EventKind::FdRead => event.userdata == WAKE_TOKEN,
        _ => false,
    }
}

/// Whether an event is the firing of a timeout's clock subscription.
pub fn is_timeout_event(event: &Event) -> (b: bool)
    ensures
        b == spec_is_timeout_event(*event),
{
    match event.kind {
        EventKind::Clock => event.userdata == TIMEOUT_TOKEN,
        _ => false,
    }
}

/// The error code of the first event whose error field is not success.
pub open spec fn first_failure(events: Seq<Event>) -> Option<u16>
    decreases events.len(),
{
    if events.len() == 0 {
        None
    } else if events[0].error != spec_errno_success() {
        Some(events[0].error)
    } else {
        first_failure(events.drop_first())
    }
}

/// What a check of `events` for errors gives: the first failure, if there
/// is one.
pub open spec fn spec_check_errors(events: Seq<Event>) -> Result<(), SelectorError> {
    match first_failure(events) {
        Some(code) => Err(SelectorError::PerSubscriptionFailure(code)),
        None => Ok(()),
    }
}

/// Looks through the events for an error field that is not success, and
/// fails with the first one found.
pub fn check_errors(events: &Vec<Event>) -> (result: Result<(), SelectorError>)
    ensures
        result == spec_check_errors(events@),
{
    let success = errno_success();
    let mut index: usize = 0;
    assert(events@.skip(0) =~= events@);
    while index < events.len()
        invariant
            index <= events.len(),
            success == spec_errno_success(),
            first_failure(events@) == first_failure(events@.skip(index as int)),
        decreases events.len() - index,
    {
        let ghost rest = events@.skip(index as int);
        assert(rest[0] == events@[index as int]);
        assert(rest.drop_first() =~= events@.skip(index + 1));
        if events[index].error != success {
            return Err(SelectorError::PerSubscriptionFailure(events[index].error));
        }
        index = index + 1;
    }
    assert(events@.skip(index as int).len() == 0);
    Ok(())
}

/// What the caller of a poll is to do next.
#[derive(Clone, Copy, Debug, PartialEq, Eq)]
pub enum Polled {
    /// The poll was interrupted for a change of the registry: poll again.
    Interrupted,
    /// The poll is over, with this result.
    Completed(Result<(), SelectorError>),
}

/// The outcome of a native poll as plain values: the events it stored, or
/// its error code.
pub open spec fn outcome_view(outcome: Result<Vec<Event>, u16>) -> Result<Seq<Event>, u16> {
    match outcome {
        Ok(events) => Ok(events@),
        Err(code) => Err(code),
    }
}

/// Whether the outcome of a native poll is an interruption: success with
/// exactly one event, which is the firing of the wake channel.
pub open spec fn is_interruption(outcome: Result<Seq<Event>, u16>) -> bool {
    outcome matches Ok(events) && events.len() == 1 && spec_is_wake_event(events[0])
}

/// Whether an event is shown to the caller: it is neither a firing of the
/// timeout nor one of the wake channel.
pub open spec fn is_shown(event: Event) -> bool {
    !spec_is_timeout_event(event) && !spec_is_wake_event(event)
}

/// The events of a native poll that are shown to the caller: all but the
/// firings of the timeout and of the wake channel, in their order.
pub open spec fn surfaced(events: Seq<Event>) -> Seq<Event> {
    events.filter(|event: Event| is_shown(event))
}

/// The events of a native poll that are looked through for errors: all but
/// the firings of the timeout, in their order.
pub open spec fn scanned(events: Seq<Event>) -> Seq<Event> {
    events.filter(|event: Event| !spec_is_timeout_event(event))
}

/// What the caller's buffer holds after a poll with this outcome.
pub open spec fn delivered(outcome: Result<Seq<Event>, u16>) -> Seq<Event> {
    match outcome {
        Ok(events) => if is_interruption(outcome) {
            Seq::empty()
        } else {
            surfaced(events)
        },
        Err(_) => Seq::empty(),
    }
}

/// What the caller is told after a poll with this outcome.
pub open spec fn polled(outcome: Result<Seq<Event>, u16>) -> Polled {
    match outcome {
        Ok(events) => if is_interruption(outcome) {
            Polled::Interrupted
        } else {
            Polled::Completed(spec_check_errors(scanned(events)))
        },
        Err(code) => Polled::Completed(Err(SelectorError::PollFailure(code))),
    }
}

impl SelectorView {
    /// How often the wake channel's subscription is in the registry.
    pub open spec fn wake_count(self) -> nat {
        self.subscriptions.to_multiset().count(Subscription::spec_wake(self.wake_fd))
    }

    /// The registry at rest, between polls: the wake channel's subscription
    /// is there exactly once, and no clock subscription is left behind.
    pub open spec fn wf(self) -> bool {
        &&& self.wake_count() == 1
        &&& forall|i: int|
            0 <= i < self.subscriptions.len() ==> !((#[trigger] self.subscriptions[i]).kind is Clock)
    }
}

/// The selector's state: the registry, the wake channel's descriptor, and two
/// values kept for diagnostics.
pub struct Selector {
    id: usize,
    subscriptions: Vec<Subscription>,
    has_waker: bool,
    wake_fd: u32,
}

impl View for Selector {
    type V = SelectorView;

    closed spec fn view(&self) -> SelectorView {
        SelectorView {
            id: self.id,
            subscriptions: self.subscriptions@,
            has_waker: self.has_waker,
            wake_fd: self.wake_fd,
        }
    }
}

impl Selector {
    /// A selector around the wake channel `wake_fd`: its registry holds the
    /// channel's subscription and nothing else.
    pub fn new(wake_fd: u32, id: usize) -> (selector: Selector)
        ensures
            selector@ == (SelectorView {
                id,
                subscriptions: seq![Subscription::spec_wake(wake_fd)],
                has_waker: false,
                wake_fd,
            }),
            selector@.wf(),
    {
        let mut subscriptions: Vec<Subscription> = Vec::new();
        subscriptions.push(Subscription::wake(wake_fd));
        proof {
            broadcast use vstd::seq_lib::group_to_multiset_ensures;
            broadcast use vstd::multiset::group_multiset_axioms;

            let wake = Subscription::spec_wake(wake_fd);
            let none = Seq::<Subscription>::empty();
            assert(subscriptions@ =~= seq![wake]);
            assert(subscriptions@ =~= none.push(wake));
            assert(none.to_multiset().len() == 0);
            assert(none.to_multiset().count(wake) == 0);
        }
        Selector { id, subscriptions, has_waker: false, wake_fd }
    }

    /// The identifier given at construction.
    pub fn id(&self) -> (id: usize)
        ensures
            id == self@.id,
    {
        self.id
    }

    /// The wake channel's descriptor.
    pub fn wake_fd(&self) -> (fd: u32)
        ensures
            fd == self@.wake_fd,
    {
        self.wake_fd
    }

    /// The registry, in the order in which the native poll receives it.
    pub fn subscriptions(&self) -> (subscriptions: &Vec<Subscription>)
        ensures
            subscriptions@ == self@.subscriptions,
    {
        &self.subscriptions
    }

    /// Records that a waker is registered, and tells whether one was before.
    pub fn register_waker(&mut self) -> (had_waker: bool)
        ensures
            had_waker == old(self)@.has_waker,
            final(self)@ == (SelectorView { has_waker: true, ..old(self)@ }),
    {
        let had_waker = self.has_waker;
        self.has_waker = true;
        had_waker
    }

    /// Adds the entries for `fd`: one for writing, then one for reading, each
    /// only if `interests` asks for it. Both carry `token`. The wake
    /// channel's subscription is never added a second time, so it stays in
    /// the registry as often as it was.
    pub fn register(&mut self, fd: u32, token: Token, interests: Interest)
        ensures
            final(self)@ == (SelectorView {
                subscriptions: old(self)@.subscriptions + interest_subscriptions(
                    fd,
                    token,
                    interests,
                    old(self)@.wake_fd,
                ),
                ..old(self)@
            }),
            final(self)@.wake_count() == old(self)@.wake_count(),
            old(self)@.wf() ==> final(self)@.wf(),
    {
        if interests.is_writable() {
            self.subscriptions.push(Subscription::fd_write(fd, token));
        }
        if interests.is_readable() {
            let entry = Subscription::fd_read(fd, token);
            if !entry.is_wake(self.wake_fd) {
                self.subscriptions.push(entry);
            }
        }
        proof {
            let added = interest_subscriptions(fd, token, interests, old(self)@.wake_fd);
            assert(self.subscriptions@ =~= old(self)@.subscriptions + added);
            lemma_append_keeps_wake_count(old(self)@, added);
        }
    }

    /// Removes every entry that waits on `fd`, but the wake channel's own
    /// subscription, front to back, each by moving the last entry into its
    /// place. Fails with `NotFound`, and changes nothing, where there is no
    /// such entry.
    pub fn deregister(&mut self, fd: u32) -> (result: Result<(), SelectorError>)
        ensures
            final(self)@ == (SelectorView {
                subscriptions: without_descriptor(
                    old(self)@.subscriptions,
                    fd,
                    old(self)@.wake_fd,
                ),
                ..old(self)@
            }),
            result == deregister_result(old(self)@.subscriptions, fd, old(self)@.wake_fd),
            final(self)@.subscriptions.to_multiset() == remaining(
                old(self)@.subscriptions,
                fd,
                old(self)@.wake_fd,
            ),
            !is_registered(final(self)@.subscriptions, fd, old(self)@.wake_fd),
            result is Err ==> final(self)@ == old(self)@,
            final(self)@.wake_count() == old(self)@.wake_count(),
            old(self)@.wf() ==> final(self)@.wf(),
    {
        let ghost before = self.subscriptions@;
        let mut found = false;
        let mut index: usize = 0;
        while index < self.subscriptions.len()
            invariant
                index <= self.subscriptions.len(),
                self.id == old(self).id,
                self.has_waker == old(self).has_waker,
                self.wake_fd == old(self).wake_fd,
                self.subscriptions.len() <= before.len(),
                found <==> self.subscriptions.len() < before.len(),
                without_descriptor_from(self.subscriptions@, fd, self.wake_fd, index as int)
                    == without_descriptor(before, fd, self.wake_fd),
            decreases self.subscriptions.len() - index,
        {
            let entry = self.subscriptions[index];
            if entry.watches(fd) && !entry.is_wake(self.wake_fd) {
                self.subscriptions.swap_remove(index);
                found = true;
            } else {
                index = index + 1;
            }
        }
        proof {
            lemma_without_descriptor(before, fd, self.wake_fd);
            lemma_remaining_keeps_wf(old(self)@, self.subscriptions@, fd);
        }
        if found {
            Ok(())
        } else {
            Err(SelectorError::NotFound)
        }
    }

    /// Replaces the entries of `fd`: removes them as `deregister` does, then
    /// adds new ones as `register` does. Fails with `NotFound`, and changes
    /// nothing, where `deregister` does.
    pub fn reregister(&mut self, fd: u32, token: Token, interests: Interest) -> (result: Result<
        (),
        SelectorError,
    >)
        ensures
            result == deregister_result(old(self)@.subscriptions, fd, old(self)@.wake_fd),
            result is Err ==> final(self)@ == old(self)@,
            result is Ok ==> final(self)@ == (SelectorView {
                subscriptions: without_descriptor(
                    old(self)@.subscriptions,
                    fd,
                    old(self)@.wake_fd,
                ) + interest_subscriptions(fd, token, interests, old(self)@.wake_fd),
                ..old(self)@
            }),
            final(self)@.wake_count() == old(self)@.wake_count(),
            old(self)@.wf() ==> final(self)@.wf(),
    {
        match self.deregister(fd) {
            Ok(()) => {
                self.register(fd, token, interests);
                Ok(())
            },
            Err(error) => Err(error),
        }
    }

    /// Makes the registry ready for a native poll: where a timeout is asked
    /// for, its clock subscription is appended.
    pub fn begin_select(&mut self, timeout: Option<Duration>)
        ensures
            final(self)@ == (SelectorView {
                subscriptions: native_input(old(self)@.subscriptions, timeout),
                ..old(self)@
            }),
    {
        if let Some(duration) = timeout {
            self.subscriptions.push(timeout_subscription(duration));
        }
    }

    /// Takes the outcome of the native poll that followed `begin_select`.
    ///
    /// The timeout's subscription, if one was appended, leaves the registry.
    /// An outcome of exactly one event, the firing of the wake channel, is an
    /// interruption: the buffer stays empty. A failed poll gives its error
    /// code. Otherwise the result is the first error among the events but
    /// the firings of the timeout, if any, and the buffer receives the
    /// events but the firings of the timeout and of the wake channel.
    pub fn select(
        &mut self,
        events: &mut Vec<Event>,
        timeout: Option<Duration>,
        outcome: Result<Vec<Event>, u16>,
    ) -> (next: Polled)
        requires
            timeout is Some ==> old(self)@.subscriptions.len() > 0 && old(
                self,
            )@.subscriptions.last().kind is Clock,
        ensures
            final(self)@ == (SelectorView {
                subscriptions: if timeout is Some {
                    old(self)@.subscriptions.drop_last()
                } else {
                    old(self)@.subscriptions
                },
                ..old(self)@
            }),
            final(events)@ == delivered(outcome_view(outcome)),
            next == polled(outcome_view(outcome)),
            forall|i: int| 0 <= i < final(events)@.len() ==> is_shown(#[trigger] final(events)@[i]),
    {
        events.clear();
        if timeout.is_some() {
            self.subscriptions.pop();
        }
        match outcome {
            Err(code) => Polled::Completed(Err(SelectorError::PollFailure(code))),
            Ok(native) => {
                if native.len() == 1 && is_wake_event(&native[0]) {
                    return Polled::Interrupted;
                }
                let ghost shown = |event: Event| is_shown(event);
                let ghost looked_at = |event: Event| !spec_is_timeout_event(event);
                let mut scan: Vec<Event> = Vec::new();
                let mut index: usize = 0;
                proof {
                    reveal(Seq::filter);
                    assert(native@.take(0).len() == 0);
                }
                while index < native.len()
                    invariant
                        index <= native.len(),
                        shown == |event: Event| is_shown(event),
                        looked_at == |event: Event| !spec_is_timeout_event(event),
                        events@ == native@.take(index as int).filter(shown),
                        scan@ == native@.take(index as int).filter(looked_at),
                    decreases native.len() - index,
                {
                    proof {
                        reveal(Seq::filter);
                        let next_prefix = native@.take(index + 1);
                        assert(next_prefix.drop_last() =~= native@.take(index as int));
                        assert(next_prefix.last() == native@[index as int]);
                    }
                    if !is_timeout_event(&native[index]) {
                        scan.push(native[index]);
                        if !is_wake_event(&native[index]) {
                            events.push(native[index]);
                        }
                    }
                    index = index + 1;
                }
                proof {
                    assert(native@.take(index as int) =~= native@);
                    lemma_surfaced_all_shown(native@);
                }
                Polled::Completed(check_errors(&scan))
            },
        }
    }
}

/// Every event that is shown to the caller is neither a firing of the
/// timeout nor one of the wake channel.
pub proof fn lemma_surfaced_all_shown(events: Seq<Event>)
    ensures
        forall|i: int| 0 <= i < surfaced(events).len() ==> is_shown(#[trigger] surfaced(events)[i]),
{
    broadcast use vstd::seq_lib::group_filter_ensures;

    let shown = |event: Event| is_shown(event);
    assert forall|i: int| 0 <= i < surfaced(events).len() implies is_shown(
        #[trigger] surfaced(events)[i],
    ) by {
        assert(shown(events.filter(shown)[i]));
    }
}

/// Appending entries among which the wake channel's subscription is not
/// leaves its count as it was; where none of them is of a clock either, a
/// well-formed registry stays well-formed.
pub proof fn lemma_append_keeps_wake_count(view: SelectorView, added: Seq<Subscription>)
    requires
        forall|i: int| 0 <= i < added.len() ==> !(#[trigger] added[i]).spec_is_wake(view.wake_fd),
    ensures
        (SelectorView { subscriptions: view.subscriptions + added, ..view }).wake_count()
            == view.wake_count(),
        view.wf() && (forall|i: int| 0 <= i < added.len() ==> !((#[trigger] added[i]).kind is Clock))
            ==> (SelectorView { subscriptions: view.subscriptions + added, ..view }).wf(),
    decreases added.len(),
{
    broadcast use vstd::seq_lib::group_to_multiset_ensures;
    broadcast use vstd::multiset::group_multiset_axioms;

    if added.len() == 0 {
        assert(view.subscriptions + added =~= view.subscriptions);
    } else {
        let front = added.drop_last();
        lemma_append_keeps_wake_count(view, front);
        let mid = view.subscriptions + front;
        assert(view.subscriptions + added =~= mid.push(added.last()));
        assert(!added.last().spec_is_wake(view.wake_fd));
        assert(mid.push(added.last()).to_multiset() =~= mid.to_multiset().insert(added.last()));
        if view.wf() && (forall|i: int|
            0 <= i < added.len() ==> !((#[trigger] added[i]).kind is Clock)) {
            assert forall|i: int| 0 <= i < front.len() implies !((#[trigger] front[i]).kind
                is Clock) by {
                assert(front[i] == added[i]);
            }
            assert(!(added.last().kind is Clock));
        }
    }
}

/// Removing an entry that belongs to a registration of `fd`, by moving the
/// last entry into its place, leaves the other entries as they were.
proof fn lemma_swap_remove_remaining(
    subscriptions: Seq<Subscription>,
    index: int,
    fd: u32,
    wake_fd: u32,
)
    requires
        0 <= index < subscriptions.len(),
        belongs_to(subscriptions[index], fd, wake_fd),
    ensures
        remaining(swap_removed(subscriptions, index), fd, wake_fd) == remaining(
            subscriptions,
            fd,
            wake_fd,
        ),
{
    broadcast use vstd::seq_lib::group_to_multiset_ensures;
    broadcast use vstd::multiset::group_multiset_axioms;

    let last = subscriptions.last();
    let gone = subscriptions[index];
    let updated = subscriptions.update(index, last);
    let after = updated.drop_last();
    assert(updated =~= after.push(last));
    assert(updated.to_multiset() =~= after.to_multiset().insert(last));
    assert(updated.to_multiset() =~= subscriptions.to_multiset().insert(last).remove(gone));
    assert forall|s: Subscription| #[trigger]
        remaining(after, fd, wake_fd).count(s) == remaining(subscriptions, fd, wake_fd).count(
            s,
        ) by {
        if !belongs_to(s, fd, wake_fd) {
            assert(s != gone);
            assert(after.to_multiset().insert(last).count(s) == subscriptions.to_multiset().insert(
                last,
            ).remove(gone).count(s));
        }
    }
    assert(remaining(after, fd, wake_fd) =~= remaining(subscriptions, fd, wake_fd));
}

/// Where no entry belongs to a registration of `fd`, the entries that do not
/// are all of them.
proof fn lemma_remaining_of_unregistered(subscriptions: Seq<Subscription>, fd: u32, wake_fd: u32)
    requires
        forall|j: int|
            0 <= j < subscriptions.len() ==> !belongs_to(#[trigger] subscriptions[j], fd, wake_fd),
    ensures
        remaining(subscriptions, fd, wake_fd) == subscriptions.to_multiset(),
{
    broadcast use vstd::seq_lib::group_to_multiset_ensures;
    broadcast use vstd::multiset::group_multiset_axioms;

    assert forall|s: Subscription| #[trigger]
        remaining(subscriptions, fd, wake_fd).count(s) == subscriptions.to_multiset().count(
            s,
        ) by {
        if belongs_to(s, fd, wake_fd) {
            if subscriptions.contains(s) {
                let k = choose|k: int| 0 <= k < subscriptions.len() && subscriptions[k] == s;
                assert(!belongs_to(subscriptions[k], fd, wake_fd));
            }
        }
    }
    assert(remaining(subscriptions, fd, wake_fd) =~= subscriptions.to_multiset());
}

/// What removing from `from` on leaves, where no entry before `from` belongs
/// to a registration of `fd`.
proof fn lemma_without_descriptor_from(
    subscriptions: Seq<Subscription>,
    fd: u32,
    wake_fd: u32,
    from: int,
)
    requires
        0 <= from <= subscriptions.len(),
        forall|j: int| 0 <= j < from ==> !belongs_to(#[trigger] subscriptions[j], fd, wake_fd),
    ensures
        ({
            let left = without_descriptor_from(subscriptions, fd, wake_fd, from);
            &&& left.to_multiset() == remaining(subscriptions, fd, wake_fd)
            &&& forall|j: int| 0 <= j < left.len() ==> !belongs_to(#[trigger] left[j], fd, wake_fd)
            &&& left.len() <= subscriptions.len()
            &&& is_registered(subscriptions, fd, wake_fd) <==> left.len() < subscriptions.len()
            &&& !is_registered(subscriptions, fd, wake_fd) ==> left == subscriptions
        }),
    decreases subscriptions.len() - from,
{
    if from >= subscriptions.len() {
        lemma_remaining_of_unregistered(subscriptions, fd, wake_fd);
    } else if belongs_to(subscriptions[from], fd, wake_fd) {
        let next = swap_removed(subscriptions, from);
        lemma_swap_remove_remaining(subscriptions, from, fd, wake_fd);
        assert forall|j: int| 0 <= j < from implies !belongs_to(#[trigger] next[j], fd, wake_fd) by {
            assert(next[j] == subscriptions[j]);
        }
        lemma_without_descriptor_from(next, fd, wake_fd, from);
    } else {
        lemma_without_descriptor_from(subscriptions, fd, wake_fd, from + 1);
        let left = without_descriptor_from(subscriptions, fd, wake_fd, from);
        if left.len() < subscriptions.len() {
            assert(is_registered(subscriptions, fd, wake_fd));
        }
    }
}

/// Deregistering `fd` removes every entry that belongs to a registration of
/// `fd` and no other; it shortens the registry exactly where there is such an
/// entry, and changes nothing otherwise.
pub proof fn lemma_without_descriptor(subscriptions: Seq<Subscription>, fd: u32, wake_fd: u32)
    ensures
        without_descriptor(subscriptions, fd, wake_fd).to_multiset() == remaining(
            subscriptions,
            fd,
            wake_fd,
        ),
        !is_registered(without_descriptor(subscriptions, fd, wake_fd), fd, wake_fd),
        without_descriptor(subscriptions, fd, wake_fd).len() <= subscriptions.len(),
        is_registered(subscriptions, fd, wake_fd) <==> without_descriptor(
            subscriptions,
            fd,
            wake_fd,
        ).len() < subscriptions.len(),
        !is_registered(subscriptions, fd, wake_fd) ==> without_descriptor(
            subscriptions,
            fd,
            wake_fd,
        ) == subscriptions,
{
    lemma_without_descriptor_from(subscriptions, fd, wake_fd, 0);
}

/// Dropping the entries of a descriptor leaves the wake channel's
/// subscription as often as it was, and keeps a well-formed registry
/// well-formed.
pub proof fn lemma_remaining_keeps_wf(view: SelectorView, after: Seq<Subscription>, fd: u32)
    requires
        after.to_multiset() == remaining(view.subscriptions, fd, view.wake_fd),
    ensures
        (SelectorView { subscriptions: after, ..view }).wake_count() == view.wake_count(),
        view.wf() ==> (SelectorView { subscriptions: after, ..view }).wf(),
{
    broadcast use vstd::seq_lib::group_to_multiset_ensures;
    broadcast use vstd::multiset::group_multiset_axioms;

    let wake = Subscription::spec_wake(view.wake_fd);
    assert(!belongs_to(wake, fd, view.wake_fd));
    assert(after.to_multiset().count(wake) == view.subscriptions.to_multiset().count(wake));
    if view.wf() {
        assert forall|i: int| 0 <= i < after.len() implies !((#[trigger] after[i]).kind
            is Clock) by {
            assert(after.contains(after[i]));
            assert(after.to_multiset().count(after[i]) > 0);
            assert(view.subscriptions.contains(after[i]));
        }
    }
}

} // verus!
