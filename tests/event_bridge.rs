use async_ui_bridge::bridge::{BridgePoll, EventBridge};
use async_ui_bridge::listeners::{EventKind, ListenerSet, SubscribeError};

const CLICK: u32 = 1;
const KEYDOWN: u32 = 2;

fn ready<P: std::fmt::Debug>(p: BridgePoll<P>) -> P {
    match p {
        BridgePoll::Ready(v) => v,
        other => panic!("expected a payload, got {:?}", other),
    }
}

#[test]
fn click_keeps_latest_then_parks_then_resolves() {
    let mut set = ListenerSet::new();
    let mut bridge: EventBridge<&str> = EventBridge::new(&mut set, 7, EventKind::new(CLICK)).unwrap();
    assert!(!bridge.deliver("A"));
    assert!(!bridge.deliver("B"));
    assert_eq!(ready(bridge.poll_next()), "B");
    assert!(matches!(bridge.poll_next(), BridgePoll::Pending));
    assert!(bridge.is_parked());
    assert!(bridge.deliver("C"));
    assert_eq!(ready(bridge.poll_next()), "C");
}

#[test]
fn parked_poll_is_woken_by_the_next_firing() {
    let mut set = ListenerSet::new();
    let kind = EventKind::new(CLICK);
    let mut bridge: EventBridge<u32> = EventBridge::new(&mut set, 3, kind).unwrap();
    assert!(matches!(bridge.poll_next(), BridgePoll::Pending));
    assert!(bridge.fire(&set, 3, kind, 41));
    assert_eq!(ready(bridge.poll_next()), 41);
}

#[test]
fn firing_another_kind_or_emitter_is_not_delivered() {
    let mut set = ListenerSet::new();
    let kind = EventKind::new(CLICK);
    let mut bridge: EventBridge<u32> = EventBridge::new(&mut set, 3, kind).unwrap();
    assert!(matches!(bridge.poll_next(), BridgePoll::Pending));
    assert!(!bridge.fire(&set, 3, EventKind::new(KEYDOWN), 1));
    assert!(!bridge.fire(&set, 4, kind, 2));
    assert!(matches!(bridge.poll_next(), BridgePoll::Pending));
    assert!(bridge.fire(&set, 3, kind, 3));
    assert_eq!(ready(bridge.poll_next()), 3);
}

#[test]
fn cancel_unregisters_and_later_fires_do_nothing() {
    let mut set = ListenerSet::new();
    let kind = EventKind::new(CLICK);
    let mut bridge: EventBridge<u32> = EventBridge::new(&mut set, 9, kind).unwrap();
    let token = bridge.token();
    assert!(matches!(bridge.poll_next(), BridgePoll::Pending));
    bridge.deliver(5);
    bridge.cancel(&mut set);
    assert!(!bridge.is_live());
    assert!(!set.is_registered(token));
    assert!(set.dispatch_targets(9, kind).is_empty());
    assert!(!bridge.fire(&set, 9, kind, 6));
    assert!(!bridge.deliver(7));
    assert!(matches!(bridge.poll_next(), BridgePoll::Closed));
    assert!(matches!(bridge.poll_next(), BridgePoll::Closed));
}

#[test]
fn cancelling_twice_is_a_no_op() {
    let mut set = ListenerSet::new();
    let kind = EventKind::new(CLICK);
    let mut first: EventBridge<u32> = EventBridge::new(&mut set, 1, kind).unwrap();
    let second: EventBridge<u32> = EventBridge::new(&mut set, 1, kind).unwrap();
    first.cancel(&mut set);
    first.cancel(&mut set);
    assert_eq!(set.dispatch_targets(1, kind), vec![second.token()]);
    assert!(set.is_registered(second.token()));
}

#[test]
fn unsubscribing_a_released_subscription_changes_nothing() {
    let mut set = ListenerSet::new();
    let kind = EventKind::new(KEYDOWN);
    let mut a = set.subscribe(5, kind).unwrap();
    let b = set.subscribe(5, kind).unwrap();
    set.unsubscribe(&mut a);
    assert!(!a.is_live());
    set.unsubscribe(&mut a);
    assert!(!set.is_registered(a.token()));
    assert_eq!(set.dispatch_targets(5, kind), vec![b.token()]);
}

#[test]
fn tokens_are_handed_out_in_order() {
    let mut set = ListenerSet::new();
    let kind = EventKind::new(CLICK);
    let a = set.subscribe(1, kind).unwrap();
    let b = set.subscribe(2, kind).unwrap();
    let c = set.subscribe(1, kind).unwrap();
    let d = set.subscribe(1, EventKind::new(KEYDOWN)).unwrap();
    assert_eq!((a.token(), b.token(), c.token(), d.token()), (0, 1, 2, 3));
    assert_eq!(c.emitter(), 1);
    assert_eq!(c.kind(), kind);
    assert_eq!(set.dispatch_targets(1, kind), vec![0, 2]);
    assert_eq!(set.dispatch_targets(2, kind), vec![1]);
    assert!(set.dispatch_targets(2, EventKind::new(KEYDOWN)).is_empty());
}

#[test]
fn detached_emitter_is_refused_at_construction() {
    let mut set = ListenerSet::new();
    let kind = EventKind::new(CLICK);
    set.mark_detached(4);
    assert!(set.is_detached(4));
    assert!(!set.is_detached(5));
    let r: Result<EventBridge<u32>, SubscribeError> = EventBridge::new(&mut set, 4, kind);
    assert!(matches!(r, Err(SubscribeError::EmitterDetached)));
    assert!(set.dispatch_targets(4, kind).is_empty());
    let ok: Result<EventBridge<u32>, SubscribeError> = EventBridge::new(&mut set, 5, kind);
    assert_eq!(ok.unwrap().token(), 0);
}

#[test]
fn registrations_made_before_detach_stay_until_released() {
    let mut set = ListenerSet::new();
    let kind = EventKind::new(CLICK);
    let mut bridge: EventBridge<u32> = EventBridge::new(&mut set, 4, kind).unwrap();
    set.mark_detached(4);
    set.mark_detached(4);
    assert!(set.is_registered(bridge.token()));
    bridge.cancel(&mut set);
    assert!(!set.is_registered(bridge.token()));
}
