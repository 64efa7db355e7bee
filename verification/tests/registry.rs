use std::time::Duration;
use wasi_selector::error::SelectorError;
use wasi_selector::event::Token;
use wasi_selector::selector::{wake_channel_flags, Selector, WAKE_SIGNAL};
use wasi_selector::subscription::{
    clock_deadline, timeout_subscription, Interest, Subscription, SubscriptionKind,
    TIMEOUT_PRECISION, TIMEOUT_TOKEN, WAKE_TOKEN,
};

const WAKE_FD: u32 = 5;

fn read(fd: u32, token: u64) -> Subscription {
    Subscription { userdata: token, kind: SubscriptionKind::FdRead { fd } }
}

fn write(fd: u32, token: u64) -> Subscription {
    Subscription { userdata: token, kind: SubscriptionKind::FdWrite { fd } }
}

fn sorted(subscriptions: &[Subscription]) -> Vec<(u64, u8, u32)> {
    let mut keys: Vec<(u64, u8, u32)> = subscriptions
        .iter()
        .map(|s| match s.kind {
            SubscriptionKind::FdRead { fd } => (s.userdata, s.tag(), fd),
            SubscriptionKind::FdWrite { fd } => (s.userdata, s.tag(), fd),
            SubscriptionKind::Clock { .. } => (s.userdata, s.tag(), u32::MAX),
        })
        .collect();
    keys.sort();
    keys
}

#[test]
fn new_holds_only_the_wake_subscription() {
    let selector = Selector::new(WAKE_FD, 3);
    assert_eq!(selector.id(), 3);
    assert_eq!(selector.wake_fd(), WAKE_FD);
    assert_eq!(selector.subscriptions().as_slice(), &[read(WAKE_FD, u64::MAX)]);
}

#[test]
fn reserved_tokens() {
    assert_eq!(WAKE_TOKEN, u64::MAX);
    assert_eq!(TIMEOUT_TOKEN, u64::MAX);
    assert_eq!(WAKE_SIGNAL, 1);
}

#[test]
fn wake_channel_flags_add_nonblocking_mode() {
    assert_eq!(wake_channel_flags(0), 4);
    assert_eq!(wake_channel_flags(1), 5);
    assert_eq!(wake_channel_flags(4), 4);
    assert_eq!(wake_channel_flags(0xffff), 0xffff);
    assert_eq!(wake_channel_flags(0), wasix::FDFLAGS_NONBLOCK);
}

#[test]
fn subscription_tags() {
    assert_eq!(read(1, 1).tag(), 1);
    assert_eq!(write(1, 1).tag(), 2);
    assert_eq!(Subscription::timeout(10).tag(), 0);
    assert_eq!(read(1, 1).tag(), wasix::EVENTTYPE_FD_READ.raw());
    assert_eq!(write(1, 1).tag(), wasix::EVENTTYPE_FD_WRITE.raw());
    assert_eq!(Subscription::timeout(10).tag(), wasix::EVENTTYPE_CLOCK.raw());
}

#[test]
fn subscription_constructors() {
    assert_eq!(Subscription::fd_read(7, Token(42)), read(7, 42));
    assert_eq!(Subscription::fd_write(7, Token(42)), write(7, 42));
    assert_eq!(Subscription::wake(9), read(9, u64::MAX));
}

#[test]
fn watches_goes_by_descriptor() {
    assert!(read(7, 1).watches(7));
    assert!(write(7, 1).watches(7));
    assert!(!read(7, 1).watches(8));
    assert!(!write(7, 1).watches(0));
    assert!(!Subscription::timeout(7).watches(7));
    assert!(!Subscription::timeout(7).watches(1));
}

#[test]
fn timeout_subscription_of_fifty_milliseconds() {
    let subscription = timeout_subscription(Duration::from_millis(50));
    assert_eq!(subscription.userdata, u64::MAX);
    assert_eq!(subscription.tag(), wasix::EVENTTYPE_CLOCK.raw());
    assert_eq!(
        subscription.kind,
        SubscriptionKind::Clock { id: 1, timeout: 50_000_000, precision: 1_000_000, flags: 0 }
    );
    assert!(subscription.is_timeout());
}

#[test]
fn timeout_subscription_of_zero() {
    let subscription = timeout_subscription(Duration::from_secs(0));
    assert_eq!(subscription.userdata, u64::MAX);
    assert_eq!(subscription.tag(), 0);
    assert_eq!(
        subscription.kind,
        SubscriptionKind::Clock { id: 1, timeout: 0, precision: 1_000_000, flags: 0 }
    );
}

#[test]
fn timeout_subscription_saturates() {
    let subscription = timeout_subscription(Duration::MAX);
    assert_eq!(
        subscription.kind,
        SubscriptionKind::Clock { id: 1, timeout: u64::MAX, precision: 1_000_000, flags: 0 }
    );
    let beyond = Duration::new(18_446_744_074, 0);
    assert_eq!(
        timeout_subscription(beyond).kind,
        SubscriptionKind::Clock { id: 1, timeout: u64::MAX, precision: 1_000_000, flags: 0 }
    );
    let within = Duration::new(18_446_744_073, 709_551_615);
    assert_eq!(
        timeout_subscription(within).kind,
        SubscriptionKind::Clock { id: 1, timeout: u64::MAX, precision: 1_000_000, flags: 0 }
    );
    let below = Duration::new(18_446_744_073, 709_551_614);
    assert_eq!(
        timeout_subscription(below).kind,
        SubscriptionKind::Clock { id: 1, timeout: u64::MAX - 1, precision: 1_000_000, flags: 0 }
    );
}

#[test]
fn timeout_clock_and_precision() {
    let subscription = Subscription::timeout(5);
    match subscription.kind {
        SubscriptionKind::Clock { id, timeout, precision, flags } => {
            assert_eq!(id, wasix::CLOCKID_MONOTONIC.raw());
            assert_eq!(timeout, 5);
            assert_eq!(precision, TIMEOUT_PRECISION);
            assert_eq!(u128::from(precision), Duration::from_millis(1).as_nanos());
            assert_eq!(flags, 0);
        }
        _ => panic!("not a clock subscription"),
    }
}

#[test]
fn clock_deadline_saturates() {
    assert_eq!(clock_deadline(0), 0);
    assert_eq!(clock_deadline(1), 1);
    assert_eq!(clock_deadline(u64::MAX as u128 - 1), u64::MAX - 1);
    assert_eq!(clock_deadline(u64::MAX as u128), u64::MAX);
    assert_eq!(clock_deadline(u64::MAX as u128 + 1), u64::MAX);
    assert_eq!(clock_deadline(u128::MAX), u64::MAX);
}

#[test]
fn is_timeout_needs_clock_and_token() {
    assert!(Subscription::timeout(0).is_timeout());
    assert!(!read(1, TIMEOUT_TOKEN).is_timeout());
    let other_clock = Subscription {
        userdata: 3,
        kind: SubscriptionKind::Clock { id: 1, timeout: 0, precision: 0, flags: 0 },
    };
    assert!(!other_clock.is_timeout());
}

#[test]
fn is_wake_needs_kind_descriptor_and_token() {
    assert!(Subscription::wake(WAKE_FD).is_wake(WAKE_FD));
    assert!(read(WAKE_FD, u64::MAX).is_wake(WAKE_FD));
    assert!(!read(WAKE_FD, u64::MAX).is_wake(6));
    assert!(!read(WAKE_FD, 1).is_wake(WAKE_FD));
    assert!(!write(WAKE_FD, u64::MAX).is_wake(WAKE_FD));
    assert!(!Subscription::timeout(0).is_wake(WAKE_FD));
    assert!(!Subscription::wake(WAKE_FD).is_timeout());
}

#[test]
fn interest_constructors() {
    assert!(Interest::readable().is_readable());
    assert!(!Interest::readable().is_writable());
    assert!(Interest::writable().is_writable());
    assert!(!Interest::writable().is_readable());
    assert!(Interest::both().is_readable());
    assert!(Interest::both().is_writable());
}

#[test]
fn register_readable_appends_one_entry() {
    let mut selector = Selector::new(WAKE_FD, 0);
    selector.register(7, Token(42), Interest::readable());
    assert_eq!(selector.subscriptions().as_slice(), &[read(WAKE_FD, u64::MAX), read(7, 42)]);
}

#[test]
fn register_writable_appends_one_entry() {
    let mut selector = Selector::new(WAKE_FD, 0);
    selector.register(7, Token(42), Interest::writable());
    assert_eq!(selector.subscriptions().as_slice(), &[read(WAKE_FD, u64::MAX), write(7, 42)]);
}

#[test]
fn register_both_appends_write_then_read() {
    let mut selector = Selector::new(WAKE_FD, 0);
    selector.register(3, Token(1), Interest::both());
    assert_eq!(
        selector.subscriptions().as_slice(),
        &[read(WAKE_FD, u64::MAX), write(3, 1), read(3, 1)]
    );
}

#[test]
fn register_nothing_appends_nothing() {
    let mut selector = Selector::new(WAKE_FD, 0);
    selector.register(3, Token(1), Interest { readable: false, writable: false });
    assert_eq!(selector.subscriptions().as_slice(), &[read(WAKE_FD, u64::MAX)]);
}

#[test]
fn deregister_twice_gives_not_found() {
    let mut selector = Selector::new(WAKE_FD, 0);
    selector.register(3, Token(1), Interest::both());
    assert_eq!(selector.deregister(3), Ok(()));
    assert_eq!(selector.subscriptions().as_slice(), &[read(WAKE_FD, u64::MAX)]);
    assert_eq!(selector.deregister(3), Err(SelectorError::NotFound));
    assert_eq!(selector.subscriptions().as_slice(), &[read(WAKE_FD, u64::MAX)]);
}

#[test]
fn deregister_unknown_descriptor_changes_nothing() {
    let mut selector = Selector::new(WAKE_FD, 0);
    selector.register(3, Token(1), Interest::both());
    assert_eq!(selector.deregister(4), Err(SelectorError::NotFound));
    assert_eq!(
        selector.subscriptions().as_slice(),
        &[read(WAKE_FD, u64::MAX), write(3, 1), read(3, 1)]
    );
}

#[test]
fn deregister_moves_the_last_entry_into_the_gap() {
    let mut selector = Selector::new(WAKE_FD, 0);
    selector.register(3, Token(1), Interest::readable());
    selector.register(4, Token(2), Interest::readable());
    selector.register(6, Token(3), Interest::readable());
    assert_eq!(selector.deregister(3), Ok(()));
    assert_eq!(
        selector.subscriptions().as_slice(),
        &[read(WAKE_FD, u64::MAX), read(6, 3), read(4, 2)]
    );
}

#[test]
fn deregister_removes_every_entry_of_the_descriptor() {
    let mut selector = Selector::new(WAKE_FD, 0);
    selector.register(3, Token(1), Interest::both());
    selector.register(4, Token(2), Interest::both());
    selector.register(3, Token(9), Interest::readable());
    selector.register(8, Token(5), Interest::writable());
    assert_eq!(selector.deregister(3), Ok(()));
    assert_eq!(
        selector.subscriptions().as_slice(),
        &[read(WAKE_FD, u64::MAX), write(8, 5), read(4, 2), write(4, 2)]
    );
    assert_eq!(
        sorted(selector.subscriptions()),
        sorted(&[read(WAKE_FD, u64::MAX), write(4, 2), read(4, 2), write(8, 5)])
    );
    assert!(selector.subscriptions().iter().all(|s| !s.watches(3)));
}

#[test]
fn deregister_where_every_trailing_entry_matches() {
    let mut selector = Selector::new(WAKE_FD, 0);
    selector.register(4, Token(2), Interest::readable());
    selector.register(3, Token(1), Interest::both());
    selector.register(3, Token(1), Interest::both());
    assert_eq!(selector.deregister(3), Ok(()));
    assert_eq!(selector.subscriptions().as_slice(), &[read(WAKE_FD, u64::MAX), read(4, 2)]);
}

#[test]
fn deregister_of_the_wake_descriptor_keeps_its_subscription() {
    let mut selector = Selector::new(WAKE_FD, 0);
    assert_eq!(selector.deregister(WAKE_FD), Err(SelectorError::NotFound));
    assert_eq!(selector.subscriptions().as_slice(), &[read(WAKE_FD, u64::MAX)]);
    selector.register(3, Token(1), Interest::readable());
    assert_eq!(selector.deregister(WAKE_FD), Err(SelectorError::NotFound));
    assert_eq!(selector.subscriptions().as_slice(), &[read(WAKE_FD, u64::MAX), read(3, 1)]);
}

#[test]
fn deregister_of_the_wake_descriptor_removes_only_what_was_registered() {
    let mut selector = Selector::new(WAKE_FD, 0);
    selector.register(WAKE_FD, Token(2), Interest::both());
    selector.register(3, Token(1), Interest::readable());
    assert_eq!(
        selector.subscriptions().as_slice(),
        &[read(WAKE_FD, u64::MAX), write(WAKE_FD, 2), read(WAKE_FD, 2), read(3, 1)]
    );
    assert_eq!(selector.deregister(WAKE_FD), Ok(()));
    assert_eq!(selector.subscriptions().as_slice(), &[read(WAKE_FD, u64::MAX), read(3, 1)]);
    assert_eq!(selector.deregister(WAKE_FD), Err(SelectorError::NotFound));
    assert_eq!(selector.subscriptions().as_slice(), &[read(WAKE_FD, u64::MAX), read(3, 1)]);
}

#[test]
fn reregister_of_the_wake_descriptor_keeps_its_subscription() {
    let mut selector = Selector::new(WAKE_FD, 0);
    assert_eq!(
        selector.reregister(WAKE_FD, Token(1), Interest::both()),
        Err(SelectorError::NotFound)
    );
    assert_eq!(selector.subscriptions().as_slice(), &[read(WAKE_FD, u64::MAX)]);
}

#[test]
fn register_never_adds_the_wake_subscription_again() {
    let mut selector = Selector::new(WAKE_FD, 0);
    let reserved = Token(u64::MAX as usize);
    if reserved.0 as u64 == u64::MAX {
        selector.register(WAKE_FD, reserved, Interest::readable());
        assert_eq!(selector.subscriptions().as_slice(), &[read(WAKE_FD, u64::MAX)]);
        selector.register(WAKE_FD, reserved, Interest::both());
        assert_eq!(
            selector.subscriptions().as_slice(),
            &[read(WAKE_FD, u64::MAX), write(WAKE_FD, u64::MAX)]
        );
        selector.register(6, reserved, Interest::readable());
        assert_eq!(
            selector.subscriptions().as_slice(),
            &[read(WAKE_FD, u64::MAX), write(WAKE_FD, u64::MAX), read(6, u64::MAX)]
        );
    }
    let wakes = selector.subscriptions().iter().filter(|s| s.is_wake(WAKE_FD)).count();
    assert_eq!(wakes, 1);
}

#[test]
fn reregister_replaces_the_entries() {
    let mut selector = Selector::new(WAKE_FD, 0);
    selector.register(3, Token(1), Interest::both());
    assert_eq!(selector.reregister(3, Token(8), Interest::writable()), Ok(()));
    assert_eq!(selector.subscriptions().as_slice(), &[read(WAKE_FD, u64::MAX), write(3, 8)]);
}

#[test]
fn reregister_unknown_descriptor_gives_not_found() {
    let mut selector = Selector::new(WAKE_FD, 0);
    selector.register(3, Token(1), Interest::both());
    assert_eq!(
        selector.reregister(4, Token(8), Interest::writable()),
        Err(SelectorError::NotFound)
    );
    assert_eq!(
        selector.subscriptions().as_slice(),
        &[read(WAKE_FD, u64::MAX), write(3, 1), read(3, 1)]
    );
}

#[test]
fn register_waker_tells_the_previous_flag() {
    let mut selector = Selector::new(WAKE_FD, 0);
    assert!(!selector.register_waker());
    assert!(selector.register_waker());
    assert!(selector.register_waker());
}
