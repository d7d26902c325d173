use chat_relay::action::{ChatMsg, Delivery, UserAction};
use chat_relay::address::Address;
use chat_relay::client::{Screen, User};
use chat_relay::registry::Registry;
use chat_relay::relay::{Connection, Inbound, Phase};

fn peer(port: u16) -> Address {
    Address::v4(127, 0, 0, 1, port)
}

fn to(a: Address, action: UserAction) -> Delivery {
    Delivery { to: a, action }
}

fn join(reg: &mut Registry<u32>, a: Address, handle: u32) -> (Connection, Vec<Delivery>) {
    let mut c = Connection::accept(a);
    assert_eq!(c.phase, Phase::Accepting);
    c.begin_handshake();
    assert_eq!(c.phase, Phase::Handshaking);
    let plan = c.go_online(reg, handle);
    assert_eq!(c.phase, Phase::Online);
    (c, plan)
}

fn chat(from: Address, to_peer: Address, body: &str) -> ChatMsg {
    ChatMsg::new(from, to_peer, body.to_string())
}

#[test]
fn joining_peers_learn_identity_then_list_then_announcements() {
    let (a, b) = (peer(1000), peer(2000));
    let mut reg: Registry<u32> = Registry::new();
    let (_ca, plan_a) = join(&mut reg, a, 1);
    assert_eq!(
        plan_a,
        vec![to(a, UserAction::RequestedIp(a)), to(a, UserAction::RequestedOnlineList(vec![]))]
    );
    let (_cb, plan_b) = join(&mut reg, b, 2);
    assert_eq!(
        plan_b,
        vec![
            to(b, UserAction::RequestedIp(b)),
            to(b, UserAction::RequestedOnlineList(vec![a])),
            to(a, UserAction::Connected(b)),
        ]
    );
    assert_eq!(reg.snapshot_excluding(peer(1)), vec![a, b]);
}

#[test]
fn third_peer_is_announced_to_both_others() {
    let (a, b, c) = (peer(1), peer(2), peer(3));
    let mut reg: Registry<u32> = Registry::new();
    join(&mut reg, a, 1);
    join(&mut reg, b, 2);
    let (_cc, plan) = join(&mut reg, c, 3);
    assert_eq!(
        plan,
        vec![
            to(c, UserAction::RequestedIp(c)),
            to(c, UserAction::RequestedOnlineList(vec![a, b])),
            to(a, UserAction::Connected(c)),
            to(b, UserAction::Connected(c)),
        ]
    );
}

#[test]
fn chat_reaches_its_receiver_once_and_not_the_sender() {
    let (a, b) = (peer(1), peer(2));
    let mut reg: Registry<u32> = Registry::new();
    let (mut ca, _) = join(&mut reg, a, 1);
    join(&mut reg, b, 2);
    let plan = ca.on_inbound(&mut reg, Inbound::Action(UserAction::SentMsgInChat(chat(a, b, "hi"))));
    assert_eq!(plan, vec![to(b, UserAction::ReceivedMsgInChat(chat(a, b, "hi")))]);
    assert_eq!(ca.phase, Phase::Online);
    assert_eq!(reg.len(), 2);
}

#[test]
fn chat_to_an_offline_identity_is_dropped() {
    let (a, b) = (peer(1), peer(2));
    let mut reg: Registry<u32> = Registry::new();
    let (mut ca, _) = join(&mut reg, a, 1);
    let plan = ca.on_inbound(&mut reg, Inbound::Action(UserAction::SentMsgInChat(chat(a, b, "hi"))));
    assert!(plan.is_empty());
    assert_eq!(ca.phase, Phase::Online);
    assert_eq!(reg.snapshot_excluding(b), vec![a]);
}

#[test]
fn disconnect_is_announced_once_to_each_remaining_peer() {
    let (a, b, c) = (peer(1), peer(2), peer(3));
    let mut reg: Registry<u32> = Registry::new();
    let (mut ca, _) = join(&mut reg, a, 1);
    let (mut cb, _) = join(&mut reg, b, 2);
    join(&mut reg, c, 3);
    let plan = cb.on_inbound(&mut reg, Inbound::Close);
    assert_eq!(plan, vec![to(a, UserAction::Disconnected(b)), to(c, UserAction::Disconnected(b))]);
    assert_eq!(cb.phase, Phase::Closed);
    assert!(!reg.contains(b));
    assert_eq!(reg.lookup(b), None);
    let later = ca.on_inbound(&mut reg, Inbound::Action(UserAction::SentMsgInChat(chat(a, b, "hi"))));
    assert!(later.is_empty());
}

#[test]
fn last_peer_leaving_announces_to_nobody() {
    let a = peer(1);
    let mut reg: Registry<u32> = Registry::new();
    let (mut ca, _) = join(&mut reg, a, 1);
    let plan = ca.on_inbound(&mut reg, Inbound::Close);
    assert!(plan.is_empty());
    assert_eq!(reg.len(), 0);
}

#[test]
fn malformed_and_other_frames_are_ignored() {
    let (a, b) = (peer(1), peer(2));
    let mut reg: Registry<u32> = Registry::new();
    let (mut ca, _) = join(&mut reg, a, 1);
    join(&mut reg, b, 2);
    assert!(ca.on_inbound(&mut reg, Inbound::Malformed).is_empty());
    assert!(ca.on_inbound(&mut reg, Inbound::Other).is_empty());
    assert!(ca.on_inbound(&mut reg, Inbound::Action(UserAction::RequestedIp(a))).is_empty());
    assert!(ca.on_inbound(&mut reg, Inbound::Action(UserAction::Connected(b))).is_empty());
    assert_eq!(ca.phase, Phase::Online);
    assert_eq!(reg.len(), 2);
}

#[test]
fn failed_handshake_registers_nothing() {
    let reg: Registry<u32> = Registry::new();
    let mut c = Connection::accept(peer(5));
    c.begin_handshake();
    c.handshake_failed();
    assert_eq!(c.phase, Phase::Closed);
    assert_eq!(c.identity, peer(5));
    assert_eq!(reg.len(), 0);
}

#[test]
fn duplicate_copies_a_message() {
    let m = UserAction::RequestedOnlineList(vec![peer(1), peer(2)]);
    assert_eq!(m.duplicate(), m);
    let c = UserAction::ReceivedMsgInChat(chat(peer(1), peer(2), "body"));
    assert_eq!(c.duplicate(), c);
}

#[test]
fn fresh_client_state() {
    let u = User::default();
    assert!(u.login.is_none());
    assert!(u.ip.is_none());
    assert_ne!(Screen::Login, Screen::Chat);
}
