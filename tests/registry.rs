use chat_relay::action::{Delivery, UserAction};
use chat_relay::address::{Address, Host};
use chat_relay::registry::Registry;

fn peer(port: u16) -> Address {
    Address::v4(127, 0, 0, 1, port)
}

#[test]
fn v4_address_value() {
    let a = Address::v4(127, 0, 0, 1, 8080);
    assert_eq!(a.host, Host::V4(0x7f00_0001));
    assert_eq!(a.port, 8080);
    let b = Address::v4(10, 20, 30, 40, 1);
    assert_eq!(b.host, Host::V4(0x0a14_1e28));
}

#[test]
fn new_registry_is_empty() {
    let r: Registry<u32> = Registry::new();
    assert_eq!(r.len(), 0);
    assert!(r.snapshot_excluding(peer(1)).is_empty());
    assert!(r.lookup(peer(1)).is_none());
}

#[test]
fn register_makes_peer_visible() {
    let mut r: Registry<u32> = Registry::new();
    r.register(peer(1), 11);
    r.register(peer(2), 22);
    assert!(r.contains(peer(1)));
    assert!(r.contains(peer(2)));
    assert!(!r.contains(peer(3)));
    assert_eq!(r.lookup(peer(1)), Some(&11));
    assert_eq!(r.lookup(peer(2)), Some(&22));
    assert_eq!(r.lookup(peer(3)), None);
    assert_eq!(r.len(), 2);
}

#[test]
fn enumeration_follows_register_and_unregister() {
    let mut r: Registry<u32> = Registry::new();
    r.register(peer(1), 1);
    r.register(peer(2), 2);
    r.register(peer(3), 3);
    assert!(r.unregister(peer(2)));
    r.register(peer(4), 4);
    assert!(r.unregister(peer(1)));
    r.register(peer(1), 5);
    assert_eq!(r.snapshot_excluding(peer(9)), vec![peer(3), peer(4), peer(1)]);
    assert_eq!(r.len(), 3);
    assert_eq!(r.lookup(peer(1)), Some(&5));
    assert_eq!(r.lookup(peer(2)), None);
}

#[test]
fn unregister_twice_reports_nothing_the_second_time() {
    let mut r: Registry<u32> = Registry::new();
    r.register(peer(1), 1);
    r.register(peer(2), 2);
    assert!(r.unregister(peer(1)));
    assert!(!r.unregister(peer(1)));
    assert_eq!(r.snapshot_excluding(peer(9)), vec![peer(2)]);
}

#[test]
fn unregister_of_unknown_identity_is_harmless() {
    let mut r: Registry<u32> = Registry::new();
    assert!(!r.unregister(peer(1)));
    r.register(peer(2), 2);
    assert!(!r.unregister(peer(1)));
    assert_eq!(r.len(), 1);
}

#[test]
fn snapshot_leaves_out_the_excluded_identity() {
    let mut r: Registry<u32> = Registry::new();
    r.register(peer(1), 1);
    r.register(peer(2), 2);
    r.register(peer(3), 3);
    assert_eq!(r.snapshot_excluding(peer(2)), vec![peer(1), peer(3)]);
    assert_eq!(r.snapshot_excluding(peer(4)), vec![peer(1), peer(2), peer(3)]);
}

#[test]
fn snapshot_does_not_see_later_registrations() {
    let mut r: Registry<u32> = Registry::new();
    r.register(peer(1), 1);
    let snap = r.snapshot_excluding(peer(9));
    r.register(peer(2), 2);
    r.unregister(peer(1));
    assert_eq!(snap, vec![peer(1)]);
    assert_eq!(r.snapshot_excluding(peer(9)), vec![peer(2)]);
}

#[test]
fn broadcast_excluding_reaches_every_other_peer() {
    let mut r: Registry<u32> = Registry::new();
    r.register(peer(1), 1);
    r.register(peer(2), 2);
    r.register(peer(3), 3);
    let plan = r.broadcast_excluding(peer(2), &UserAction::Disconnected(peer(7)));
    assert_eq!(
        plan,
        vec![
            Delivery { to: peer(1), action: UserAction::Disconnected(peer(7)) },
            Delivery { to: peer(3), action: UserAction::Disconnected(peer(7)) },
        ]
    );
}

#[test]
fn broadcast_with_a_broken_handle_still_reaches_the_rest() {
    // Handles are (id, works): a send through a broken one fails.
    let mut r: Registry<(u32, bool)> = Registry::new();
    r.register(peer(1), (1, true));
    r.register(peer(2), (2, false));
    r.register(peer(3), (3, true));
    r.register(peer(4), (4, true));
    let plan = r.broadcast_excluding(peer(1), &UserAction::Connected(peer(1)));
    let mut received: Vec<u32> = Vec::new();
    let mut failures = 0;
    for d in plan {
        let (id, works) = *r.lookup(d.to).unwrap();
        if works {
            received.push(id);
        } else {
            failures += 1;
        }
    }
    assert_eq!(received, vec![3, 4]);
    assert_eq!(failures, 1);
}
