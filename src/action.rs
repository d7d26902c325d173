use vstd::prelude::*;

use crate::address::Address;

verus! {

/// A chat message: who wrote it, for whom, and its text.
#[derive(Debug, PartialEq, Eq)]
pub struct ChatMsg {
    pub sender_ip: Address,
    pub receiver_ip: Address,
    pub msg: String,
}

/// The mathematical value of a chat message.
pub struct ChatView {
    pub sender: Address,
    pub receiver: Address,
    pub body: Seq<char>,
}

impl View for ChatMsg {
    type V = ChatView;

    open spec fn view(&self) -> ChatView {
        ChatView { sender: self.sender_ip, receiver: self.receiver_ip, body: self.msg@ }
    }
}

impl ChatMsg {
    pub fn new(sender_ip: Address, receiver_ip: Address, msg: String) -> (r: ChatMsg)
        ensures
            r.sender_ip == sender_ip,
            r.receiver_ip == receiver_ip,
            r.msg@ == msg@,
    {
        ChatMsg { sender_ip, receiver_ip, msg }
    }

    /// A copy with the same sender, receiver and text.
    pub fn duplicate(&self) -> (r: ChatMsg)
        ensures
            r@ == self@,
    {
        ChatMsg { sender_ip: self.sender_ip, receiver_ip: self.receiver_ip, msg: self.msg.clone() }
    }
}

/// An application message, as exchanged between a client and the relay.
#[derive(Debug, PartialEq, Eq)]
pub enum UserAction {
    /// A peer came online.
    Connected(Address),
    /// The peers online besides the receiver.
    RequestedOnlineList(Vec<Address>),
    /// The receiver's own address, as the relay sees it.
    RequestedIp(Address),
    /// A peer went offline.
    Disconnected(Address),
    /// A chat message on its way from its sender to the relay.
    SentMsgInChat(ChatMsg),
    /// A chat message on its way from the relay to its receiver.
    ReceivedMsgInChat(ChatMsg),
}

/// The mathematical value of an application message.
pub enum ActionView {
    Connected(Address),
    RequestedOnlineList(Seq<Address>),
    RequestedIp(Address),
    Disconnected(Address),
    SentMsgInChat(ChatView),
    ReceivedMsgInChat(ChatView),
}

impl View for UserAction {
    type V = ActionView;

    open spec fn view(&self) -> ActionView {
        match self {
            UserAction::Connected(a) => ActionView::Connected(*a),
            UserAction::RequestedOnlineList(l) => ActionView::RequestedOnlineList(l@),
            UserAction::RequestedIp(a) => ActionView::RequestedIp(*a),
            UserAction::Disconnected(a) => ActionView::Disconnected(*a),
            UserAction::SentMsgInChat(m) => ActionView::SentMsgInChat(m@),
            UserAction::ReceivedMsgInChat(m) => ActionView::ReceivedMsgInChat(m@),
        }
    }
}

impl UserAction {
    /// A copy with the same value.
    pub fn duplicate(&self) -> (r: UserAction)
        ensures
            r@ == self@,
    {
        match self {
            UserAction::Connected(a) => UserAction::Connected(*a),
            UserAction::RequestedOnlineList(l) => {
                let mut c: Vec<Address> = Vec::new();
                let mut i: usize = 0;
                while i < l.len()
                    invariant
                        i <= l@.len(),
                        c@ == l@.subrange(0, i as int),
                    decreases l@.len() - i,
                {
                    c.push(l[i]);
                    i = i + 1;
                }
                assert(c@ =~= l@);
                UserAction::RequestedOnlineList(c)
            },
            UserAction::RequestedIp(a) => UserAction::RequestedIp(*a),
            UserAction::Disconnected(a) => UserAction::Disconnected(*a),
            UserAction::SentMsgInChat(m) => UserAction::SentMsgInChat(m.duplicate()),
            UserAction::ReceivedMsgInChat(m) => UserAction::ReceivedMsgInChat(m.duplicate()),
        }
    }
}

} // verus!

verus! {

/// One message to hand to one online peer.
#[derive(Debug, PartialEq, Eq)]
pub struct Delivery {
    pub to: Address,
    pub action: UserAction,
}

/// The value of a list of deliveries: each recipient with the message's value.
pub open spec fn plan_view(ds: Seq<Delivery>) -> Seq<(Address, ActionView)> {
    ds.map_values(|d: Delivery| (d.to, d.action@))
}

/// One delivery of the message `m` to each of `targets`, in their order.
pub open spec fn fan_out(targets: Seq<Address>, m: ActionView) -> Seq<(Address, ActionView)> {
    targets.map_values(|a: Address| (a, m))
}

} // verus!
