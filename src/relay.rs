use vstd::prelude::*;

use crate::action::{fan_out, plan_view, ActionView, ChatMsg, Delivery, UserAction};
use crate::address::Address;
use crate::registry::{entries_without, not_addr, others, OnlineUser, Registry};
use crate::seq_facts::{lemma_filter_facts, lemma_filter_keeps_all};

verus! {

broadcast use vstd::seq_lib::group_seq_properties;

/// Where a connection stands in its life.
#[derive(Clone, Copy, Debug, PartialEq, Eq, Structural)]
pub enum Phase {
    /// The transport accepted it; its identity is known.
    Accepting,
    /// The protocol upgrade is under way.
    Handshaking,
    /// Registered: it can send and be reached.
    Online,
    /// It is being taken out of the registry.
    Closing,
    /// Finished.
    Closed,
}

/// What a connection's reader hands over: a decoded message, a frame that
/// did not decode, the end of the stream, or a frame of no meaning here.
#[derive(Debug)]
pub enum Inbound {
    Action(UserAction),
    Malformed,
    Close,
    Other,
}

/// The mathematical value of an inbound event.
pub enum InboundView {
    Action(ActionView),
    Malformed,
    Close,
    Other,
}

impl View for Inbound {
    type V = InboundView;

    open spec fn view(&self) -> InboundView {
        match self {
            Inbound::Action(a) => InboundView::Action(a@),
            Inbound::Malformed => InboundView::Malformed,
            Inbound::Close => InboundView::Close,
            Inbound::Other => InboundView::Other,
        }
    }
}

/// The messages a peer joining as `me` causes, when `ids` were online before
/// it: its own address, then the list of those online, both to itself; then
/// an announcement of it to each of the others.
pub open spec fn join_plan(ids: Seq<Address>, me: Address) -> Seq<(Address, ActionView)> {
    seq![(me, ActionView::RequestedIp(me)), (me, ActionView::RequestedOnlineList(others(ids, me)))]
        + fan_out(others(ids, me), ActionView::Connected(me))
}

/// The messages that an event on the connection of `me` causes, when `ids`
/// are online: a chat goes, re-tagged, to its receiver if that one is online;
/// the end of the stream is announced to every other peer; nothing else
/// causes any message.
pub open spec fn response(ids: Seq<Address>, me: Address, ev: InboundView) -> Seq<(Address, ActionView)> {
    match ev {
        InboundView::Action(ActionView::SentMsgInChat(m)) => if ids.contains(m.receiver) {
            seq![(m.receiver, ActionView::ReceivedMsgInChat(m))]
        } else {
            Seq::empty()
        },
        InboundView::Close => fan_out(others(ids, me), ActionView::Disconnected(me)),
        _ => Seq::empty(),
    }
}

/// One client connection as the relay sees it.
#[derive(Debug)]
pub struct Connection {
    pub identity: Address,
    pub phase: Phase,
}

impl Connection {
    /// A connection the transport has just accepted from `identity`.
    pub fn accept(identity: Address) -> (r: Connection)
        ensures
            r.identity == identity,
            r.phase == Phase::Accepting,
    {
        Connection { identity, phase: Phase::Accepting }
    }

    /// The protocol upgrade starts.
    pub fn begin_handshake(&mut self)
        requires
            old(self).phase == Phase::Accepting,
        ensures
            final(self).identity == old(self).identity,
            final(self).phase == Phase::Handshaking,
    {
        self.phase = Phase::Handshaking;
    }

    /// The protocol upgrade failed: the connection ends without ever having
    /// been registered.
    pub fn handshake_failed(&mut self)
        requires
            old(self).phase == Phase::Handshaking,
        ensures
            final(self).identity == old(self).identity,
            final(self).phase == Phase::Closed,
    {
        self.phase = Phase::Closed;
    }

    /// The upgrade succeeded: registers the connection with its handle and
    /// returns, in order, what must be sent: the peer's own address and the
    /// list of the others to the peer itself, then its announcement to each
    /// other peer.
    pub fn go_online<H>(&mut self, reg: &mut Registry<H>, outbound: H) -> (r: Vec<Delivery>)
        requires
            old(self).phase == Phase::Handshaking,
            old(reg).wf(),
            !old(reg).online(old(self).identity),
        ensures
            final(self).identity == old(self).identity,
            final(self).phase == Phase::Online,
            final(reg)@ == old(reg)@.push(OnlineUser { identity: old(self).identity, outbound }),
            final(reg).wf(),
            plan_view(r@) == join_plan(old(reg).ids(), old(self).identity),
    {
        let me = self.identity;
        let ghost before = reg.ids();
        let mut r: Vec<Delivery> = Vec::new();
        r.push(Delivery { to: me, action: UserAction::RequestedIp(me) });
        reg.register(me, outbound);
        self.phase = Phase::Online;
        let list = reg.snapshot_excluding(me);
        proof {
            before.lemma_filter_push(me, not_addr(me));
        }
        r.push(Delivery { to: me, action: UserAction::RequestedOnlineList(list) });
        let mut announce = reg.broadcast_excluding(me, &UserAction::Connected(me));
        let ghost head = r@;
        let ghost tail = announce@;
        r.append(&mut announce);
        proof {
            assert(plan_view(head + tail) =~= plan_view(head) + plan_view(tail));
            assert(plan_view(head) =~= seq![
                (me, ActionView::RequestedIp(me)),
                (me, ActionView::RequestedOnlineList(others(before, me))),
            ]);
        }
        r
    }

    /// Handles one inbound event of an online connection and returns what
    /// must be sent. A chat goes to its receiver, re-tagged as received, if
    /// that one is online, and is dropped otherwise; the end of the stream
    /// takes the connection out of the registry first and then announces its
    /// departure to every remaining peer; anything else is ignored.
    pub fn on_inbound<H>(&mut self, reg: &mut Registry<H>, ev: Inbound) -> (r: Vec<Delivery>)
        requires
            old(self).phase == Phase::Online,
            old(reg).wf(),
        ensures
            final(self).identity == old(self).identity,
            final(self).phase == (if ev is Close {
                Phase::Closed
            } else {
                Phase::Online
            }),
            final(reg)@ == (if ev is Close {
                entries_without(old(reg)@, old(self).identity)
            } else {
                old(reg)@
            }),
            final(reg).wf(),
            plan_view(r@) == response(old(reg).ids(), old(self).identity, ev@),
    {
        match ev {
            Inbound::Action(UserAction::SentMsgInChat(m)) => {
                let to = m.receiver_ip;
                let mut r: Vec<Delivery> = Vec::new();
                if reg.contains(to) {
                    r.push(Delivery { to, action: UserAction::ReceivedMsgInChat(m) });
                    assert(plan_view(r@) =~= response(reg.ids(), self.identity, ev@));
                } else {
                    assert(plan_view(r@) =~= response(reg.ids(), self.identity, ev@));
                }
                r
            },
            Inbound::Close => {
                let me = self.identity;
                self.phase = Phase::Closing;
                reg.unregister(me);
                let r = reg.broadcast_excluding(me, &UserAction::Disconnected(me));
                proof {
                    lemma_others_twice(old(reg).ids(), me);
                }
                self.phase = Phase::Closed;
                r
            },
            _ => {
                let r: Vec<Delivery> = Vec::new();
                assert(plan_view(r@) =~= response(reg.ids(), self.identity, ev@));
                r
            },
        }
    }
}

/// Leaving out the same identity twice is leaving it out once.
pub proof fn lemma_others_twice(ids: Seq<Address>, x: Address)
    ensures
        others(others(ids, x), x) == others(ids, x),
{
    let once = others(ids, x);
    lemma_filter_facts(ids, not_addr(x));
    assert forall|j: int| 0 <= j < once.len() implies (not_addr(x))(once[j]) by {
        assert(once.contains(once[j]));
    }
    lemma_filter_keeps_all(once, not_addr(x));
}

} // verus!
