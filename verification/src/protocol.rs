//! What holds of the selector across its operations.

use vstd::prelude::*;
use crate::abi::spec_errno_success;
use crate::error::SelectorError;
use crate::event::{Event, EventKind, Token};
use crate::selector::{
    belongs_to, delivered, deregister_result, fires, first_failure, interest_subscriptions, is_interruption,
    is_registered, is_shown, lemma_remaining_keeps_wf, lemma_surfaced_all_shown,
    lemma_without_descriptor, native_input, polled, scanned, spec_check_errors,
    spec_is_timeout_event, spec_is_wake_event, surfaced, without_descriptor, Polled,
    SelectorView,
};
use crate::subscription::{Interest, Subscription, WAKE_TOKEN};
use core::time::Duration;

verus! {

/// The first failure among `events` is the error of an event before which
/// every error field is success; there is none exactly where every error
/// field is success.
pub proof fn lemma_first_failure(events: Seq<Event>)
    ensures
        match first_failure(events) {
            Some(code) => exists|k: int|
                {
                    &&& 0 <= k < events.len()
                    &&& (#[trigger] events[k]).error == code
                    &&& code != spec_errno_success()
                    &&& forall|j: int| 0 <= j < k ==> (#[trigger] events[j]).error == spec_errno_success()
                },
            None => forall|j: int|
                0 <= j < events.len() ==> (#[trigger] events[j]).error == spec_errno_success(),
        },
    decreases events.len(),
{
    if events.len() == 0 {
    } else if events[0].error != spec_errno_success() {
        assert(events[0].error == first_failure(events)->Some_0);
    } else {
        let rest = events.drop_first();
        lemma_first_failure(rest);
        match first_failure(rest) {
            Some(code) => {
                let k = choose|k: int|
                    {
                        &&& 0 <= k < rest.len()
                        &&& (#[trigger] rest[k]).error == code
                        &&& code != spec_errno_success()
                        &&& forall|j: int|
                            0 <= j < k ==> (#[trigger] rest[j]).error == spec_errno_success()
                    };
                assert(events[k + 1] == rest[k]);
                assert forall|j: int| 0 <= j < k + 1 implies (#[trigger] events[j]).error
                    == spec_errno_success() by {
                    if j > 0 {
                        assert(events[j] == rest[j - 1]);
                    }
                }
            },
            None => {
                assert forall|j: int| 0 <= j < events.len() implies (#[trigger] events[j]).error
                    == spec_errno_success() by {
                    if j > 0 {
                        assert(events[j] == rest[j - 1]);
                    }
                }
            },
        }
    }
}

/// Events among which none is a firing of the timeout or of the wake channel
/// are all shown, in their order.
pub proof fn lemma_surfaced_keeps_shown(events: Seq<Event>)
    requires
        forall|i: int| 0 <= i < events.len() ==> is_shown(#[trigger] events[i]),
    ensures
        surfaced(events) == events,
    decreases events.len(),
{
    reveal(Seq::filter);
    if events.len() > 0 {
        lemma_surfaced_keeps_shown(events.drop_last());
        assert(events.drop_last().push(events.last()) =~= events);
    }
}

/// Events among which none is a firing of the timeout are all looked
/// through for errors, in their order.
pub proof fn lemma_scanned_keeps_others(events: Seq<Event>)
    requires
        forall|i: int| 0 <= i < events.len() ==> !spec_is_timeout_event(#[trigger] events[i]),
    ensures
        scanned(events) == events,
    decreases events.len(),
{
    reveal(Seq::filter);
    if events.len() > 0 {
        lemma_scanned_keeps_others(events.drop_last());
        assert(events.drop_last().push(events.last()) =~= events);
    }
}

/// A registration adds one entry for each direction asked for, but never the
/// wake channel's subscription over again; each entry waits on the
/// descriptor and carries the token, and none is of a clock.
pub proof fn lemma_interest_subscriptions(
    fd: u32,
    token: Token,
    interests: Interest,
    wake_fd: u32,
)
    ensures
        ({
            let added = interest_subscriptions(fd, token, interests, wake_fd);
            let again = fd == wake_fd && token.0 as u64 == WAKE_TOKEN;
            &&& added.len() == (if interests.writable { 1int } else { 0 }) + (if interests.readable
                && !again {
                1int
            } else {
                0
            })
            &&& forall|i: int|
                0 <= i < added.len() ==> {
                    &&& (#[trigger] added[i]).spec_watches(fd)
                    &&& added[i].userdata as usize == token.0
                    &&& !(added[i].kind is Clock)
                    &&& !added[i].spec_is_wake(wake_fd)
                }
        }),
{
}

/// A descriptor registered for reading and writing under a token other than
/// the reserved one, and then reported ready in both directions, gives a
/// completed poll that delivers exactly the two events: both carry the
/// token, one is readable and the other writable.
pub proof fn lemma_both_directions_reported(
    fd: u32,
    token: Token,
    wake_fd: u32,
    events: Seq<Event>,
)
    requires
        token.0 as u64 != WAKE_TOKEN,
        events.len() == 2,
        ({
            let subscriptions = interest_subscriptions(
                fd,
                token,
                Interest { readable: true, writable: true },
                wake_fd,
            );
            ||| fires(subscriptions[0], events[0]) && fires(subscriptions[1], events[1])
            ||| fires(subscriptions[0], events[1]) && fires(subscriptions[1], events[0])
        }),
    ensures
        interest_subscriptions(
            fd,
            token,
            Interest { readable: true, writable: true },
            wake_fd,
        ).len() == 2,
        polled(Ok(events)) == Polled::Completed(Ok(())),
        delivered(Ok(events)) == events,
        events[0].spec_token() == token,
        events[1].spec_token() == token,
        (events[0].kind == EventKind::FdRead && events[1].kind == EventKind::FdWrite) || (
        events[0].kind == EventKind::FdWrite && events[1].kind == EventKind::FdRead),
{
    lemma_surfaced_keeps_shown(events);
    lemma_scanned_keeps_others(events);
    lemma_first_failure(events);
}

/// After a descriptor is deregistered none of its entries is left, and
/// deregistering it once more answers `NotFound` and changes nothing.
pub proof fn lemma_deregister_twice(subscriptions: Seq<Subscription>, fd: u32, wake_fd: u32)
    ensures
        !is_registered(without_descriptor(subscriptions, fd, wake_fd), fd, wake_fd),
        deregister_result(without_descriptor(subscriptions, fd, wake_fd), fd, wake_fd) == Err::<
            (),
            SelectorError,
        >(SelectorError::NotFound),
        without_descriptor(without_descriptor(subscriptions, fd, wake_fd), fd, wake_fd)
            == without_descriptor(subscriptions, fd, wake_fd),
{
    lemma_without_descriptor(subscriptions, fd, wake_fd);
    lemma_without_descriptor(without_descriptor(subscriptions, fd, wake_fd), fd, wake_fd);
}

/// The wake channel's subscription is never removed: deregistering any
/// descriptor, the wake channel's own too, leaves it in the registry as
/// often as it was. On a fresh selector, deregistering the wake channel's
/// descriptor answers `NotFound`.
pub proof fn lemma_wake_subscription_stays(view: SelectorView, fd: u32)
    ensures
        (SelectorView {
            subscriptions: without_descriptor(view.subscriptions, fd, view.wake_fd),
            ..view
        }).wake_count() == view.wake_count(),
        view.wf() ==> (SelectorView {
            subscriptions: without_descriptor(view.subscriptions, fd, view.wake_fd),
            ..view
        }).wf(),
        deregister_result(seq![Subscription::spec_wake(view.wake_fd)], view.wake_fd, view.wake_fd)
            == Err::<(), SelectorError>(SelectorError::NotFound),
{
    lemma_without_descriptor(view.subscriptions, fd, view.wake_fd);
    lemma_remaining_keeps_wf(view, without_descriptor(view.subscriptions, fd, view.wake_fd), fd);
}

/// Every event delivered to the caller is shown: it is neither a firing of
/// the timeout nor one of the wake channel.
pub proof fn lemma_delivered_all_shown(outcome: Result<Seq<Event>, u16>)
    ensures
        forall|i: int|
            0 <= i < delivered(outcome).len() ==> is_shown(#[trigger] delivered(outcome)[i]),
{
    if let Ok(events) = outcome {
        lemma_surfaced_all_shown(events);
    }
}

/// No firing of the timeout is ever delivered to the caller.
pub proof fn lemma_timeout_never_delivered(outcome: Result<Seq<Event>, u16>)
    ensures
        forall|i: int|
            0 <= i < delivered(outcome).len() ==> !spec_is_timeout_event(
                #[trigger] delivered(outcome)[i],
            ),
{
    lemma_delivered_all_shown(outcome);
}

/// A firing of the timeout is no firing of the wake channel, though both
/// carry the same reserved token; alone, it is no interruption.
pub proof fn lemma_timeout_is_no_interruption(event: Event)
    requires
        spec_is_timeout_event(event),
    ensures
        event.userdata == WAKE_TOKEN,
        !spec_is_wake_event(event),
        !is_interruption(Ok(seq![event])),
{
}

/// A poll in which nothing fired but the timeout completes with success and
/// delivers no event.
pub proof fn lemma_timeout_alone_is_empty_success(event: Event)
    requires
        spec_is_timeout_event(event),
    ensures
        polled(Ok(seq![event])) == Polled::Completed(Ok(())),
        delivered(Ok(seq![event])) == Seq::<Event>::empty(),
{
    reveal_with_fuel(Seq::filter, 2);
    let events = seq![event];
    assert(events.drop_last() =~= Seq::<Event>::empty());
    assert(surfaced(events) =~= Seq::<Event>::empty());
    assert(scanned(events) =~= Seq::<Event>::empty());
}

/// A firing of the wake channel that is the only outcome of a native poll is
/// an interruption, and nothing is delivered.
pub proof fn lemma_wake_event_alone_interrupts(event: Event)
    requires
        spec_is_wake_event(event),
    ensures
        polled(Ok(seq![event])) == Polled::Interrupted,
        delivered(Ok(seq![event])) == Seq::<Event>::empty(),
{
}

/// No firing of the wake channel is ever delivered to the caller, whether
/// it was the only outcome of the native poll or came with others.
pub proof fn lemma_wake_event_not_delivered(outcome: Result<Seq<Event>, u16>)
    ensures
        forall|i: int|
            0 <= i < delivered(outcome).len() ==> !spec_is_wake_event(
                #[trigger] delivered(outcome)[i],
            ),
{
    lemma_delivered_all_shown(outcome);
}

/// The poll that follows `begin_select` may hand its outcome to `select`,
/// which leaves the registry as it was before `begin_select`.
pub proof fn lemma_select_undoes_begin(subscriptions: Seq<Subscription>, timeout: Option<Duration>)
    ensures
        timeout is Some ==> native_input(subscriptions, timeout).len() > 0 && native_input(
            subscriptions,
            timeout,
        ).last().kind is Clock && native_input(subscriptions, timeout).drop_last()
            == subscriptions,
        timeout is None ==> native_input(subscriptions, timeout) == subscriptions,
{
    if let Some(duration) = timeout {
        assert(native_input(subscriptions, timeout).drop_last() =~= subscriptions);
    }
}

/// A poll on a well-formed registry leaves it well-formed: between
/// `begin_select` and `select` the registry holds one entry more, the
/// timeout's, and afterwards none of a clock.
pub proof fn lemma_poll_keeps_wf(view: SelectorView, timeout: Option<Duration>)
    requires
        view.wf(),
    ensures
        ({
            let during = native_input(view.subscriptions, timeout);
            let after = if timeout is Some {
                during.drop_last()
            } else {
                during
            };
            (SelectorView { subscriptions: after, ..view }).wf()
        }),
{
    lemma_select_undoes_begin(view.subscriptions, timeout);
}

/// A registration made after an interruption is part of the next native
/// poll's input: each of its entries is handed to that poll.
pub proof fn lemma_registration_reaches_next_poll(
    subscriptions: Seq<Subscription>,
    fd: u32,
    token: Token,
    interests: Interest,
    wake_fd: u32,
    timeout: Option<Duration>,
)
    ensures
        ({
            let added = interest_subscriptions(fd, token, interests, wake_fd);
            let next = native_input(subscriptions + added, timeout);
            forall|i: int| 0 <= i < added.len() ==> next.contains(#[trigger] added[i])
        }),
{
    let added = interest_subscriptions(fd, token, interests, wake_fd);
    let registry = subscriptions + added;
    let next = native_input(registry, timeout);
    assert forall|i: int| 0 <= i < added.len() implies next.contains(#[trigger] added[i]) by {
        assert(registry[subscriptions.len() + i] == added[i]);
        assert(next[subscriptions.len() + i] == added[i]);
    }
}

/// A deregistration made after an interruption is seen by the next native
/// poll: no entry of its input belongs to a registration of the descriptor.
pub proof fn lemma_deregistration_reaches_next_poll(
    subscriptions: Seq<Subscription>,
    fd: u32,
    wake_fd: u32,
    timeout: Option<Duration>,
)
    ensures
        !is_registered(
            native_input(without_descriptor(subscriptions, fd, wake_fd), timeout),
            fd,
            wake_fd,
        ),
{
    lemma_without_descriptor(subscriptions, fd, wake_fd);
    let after = without_descriptor(subscriptions, fd, wake_fd);
    let next = native_input(after, timeout);
    assert forall|i: int| 0 <= i < next.len() implies !belongs_to(
        #[trigger] next[i],
        fd,
        wake_fd,
    ) by {
        if i < after.len() {
            assert(next[i] == after[i]);
        }
    }
}

/// An event whose error field is not success fails the poll, with the first
/// such error among the events that are no firings of the timeout. This
/// holds of a firing of the wake channel too, where it comes with other
/// events; it does not hold of a firing of the timeout, which is taken out
/// first, nor of an interruption.
pub proof fn lemma_entry_error_fails_poll(events: Seq<Event>, index: int)
    requires
        0 <= index < events.len(),
        events[index].error != spec_errno_success(),
        !spec_is_timeout_event(events[index]),
        !is_interruption(Ok(events)),
    ensures
        delivered(Ok(events)) == surfaced(events),
        first_failure(scanned(events)) is Some,
        polled(Ok(events)) == Polled::Completed(
            Err(SelectorError::PerSubscriptionFailure(first_failure(scanned(events))->Some_0)),
        ),
{
    broadcast use vstd::seq_lib::group_filter_ensures;

    let looked_at = |event: Event| !spec_is_timeout_event(event);
    assert(looked_at(events[index]));
    assert(events.filter(looked_at).contains(events[index]));
    let k = choose|k: int| 0 <= k < scanned(events).len() && scanned(events)[k] == events[index];
    lemma_first_failure(scanned(events));
    if first_failure(scanned(events)) is None {
        assert(scanned(events)[k].error == spec_errno_success());
    }
    assert(spec_check_errors(scanned(events)) == Err::<(), SelectorError>(
        SelectorError::PerSubscriptionFailure(first_failure(scanned(events))->Some_0),
    ));
}

} // verus!
