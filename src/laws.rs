use vstd::prelude::*;

use crate::action::{fan_out, ActionView};
use crate::address::Address;
use crate::registry::{not_addr, others};
use crate::relay::{join_plan, lemma_others_twice, response, InboundView};
use crate::seq_facts::{lemma_filter_facts, lemma_filter_map_commute};

verus! {

broadcast use vstd::seq_lib::group_seq_properties;

/// A change of the registry's membership.
pub enum Op {
    Register(Address),
    Unregister(Address),
}

/// The identities online after `ops`, in order, as `Registry::register` and
/// `Registry::unregister` state them: a registration appends, an
/// unregistration leaves the identity out.
pub open spec fn replay(ops: Seq<Op>) -> Seq<Address>
    decreases ops.len(),
{
    if ops.len() == 0 {
        Seq::empty()
    } else {
        let before = replay(ops.drop_last());
        match ops.last() {
            Op::Register(a) => before.push(a),
            Op::Unregister(a) => others(before, a),
        }
    }
}

/// Every registration in `ops` is of an identity that is not online at that
/// point, as `Registry::register` requires.
pub open spec fn admissible(ops: Seq<Op>) -> bool
    decreases ops.len(),
{
    ops.len() == 0 || (admissible(ops.drop_last()) && match ops.last() {
        Op::Register(a) => !replay(ops.drop_last()).contains(a),
        Op::Unregister(_) => true,
    })
}

/// The set of identities that `ops` leave online.
pub open spec fn online_set(ops: Seq<Op>) -> Set<Address>
    decreases ops.len(),
{
    if ops.len() == 0 {
        Set::empty()
    } else {
        let before = online_set(ops.drop_last());
        match ops.last() {
            Op::Register(a) => before.insert(a),
            Op::Unregister(a) => before.remove(a),
        }
    }
}

/// After any admissible sequence of registrations and unregistrations, the
/// registry lists each online identity exactly once, and nothing else: no
/// duplicate, and no identity that was unregistered.
pub proof fn lemma_enumeration_is_exact(ops: Seq<Op>)
    requires
        admissible(ops),
    ensures
        replay(ops).no_duplicates(),
        replay(ops).to_set() == online_set(ops),
    decreases ops.len(),
{
    if ops.len() > 0 {
        let init = ops.drop_last();
        lemma_enumeration_is_exact(init);
        let before = replay(init);
        match ops.last() {
            Op::Register(a) => {
                assert forall|i: int, j: int|
                    0 <= i < before.push(a).len() && 0 <= j < before.push(a).len() && i != j implies before.push(a)[i]
                    != before.push(a)[j] by {
                    if i == before.len() {
                        assert(before.contains(before[j]));
                    }
                    if j == before.len() {
                        assert(before.contains(before[i]));
                    }
                }
                assert(before.push(a).to_set() =~= before.to_set().insert(a));
            },
            Op::Unregister(a) => {
                lemma_filter_facts(before, not_addr(a));
                assert(others(before, a).to_set() =~= before.to_set().remove(a));
            },
        }
    } else {
        assert(replay(ops).to_set() =~= online_set(ops));
    }
}

/// A snapshot taken while `ids` are online never holds the excluded
/// identity, nor any identity that was not online when it was taken (one
/// registered afterwards).
pub proof fn lemma_snapshot_excludes(ids: Seq<Address>, x: Address, later: Address)
    requires
        !ids.contains(later),
    ensures
        !others(ids, x).contains(x),
        !others(ids, x).contains(later),
{
    lemma_filter_facts(ids, not_addr(x));
}

/// Holds of a delivery whose recipient's handle works.
pub open spec fn reaches(ok: Set<Address>) -> spec_fn((Address, ActionView)) -> bool {
    |d: (Address, ActionView)| ok.contains(d.0)
}

/// Holds of an identity whose handle works.
pub open spec fn works(ok: Set<Address>) -> spec_fn(Address) -> bool {
    |a: Address| ok.contains(a)
}

/// A broadcast from `x` while `ids` are online, where only the handles of
/// `ok` work: the deliveries that go through are exactly one to each other
/// online peer whose handle works, in registration order, whatever the
/// broken handles are.
pub proof fn lemma_broken_handles_spare_others(
    ids: Seq<Address>,
    x: Address,
    m: ActionView,
    ok: Set<Address>,
)
    requires
        ids.no_duplicates(),
    ensures
        fan_out(others(ids, x), m).filter(reaches(ok)) == fan_out(others(ids, x).filter(works(ok)), m),
        others(ids, x).filter(works(ok)).no_duplicates(),
        forall|a: Address|
            #[trigger] others(ids, x).filter(works(ok)).contains(a) <==> (ids.contains(a) && a != x
                && ok.contains(a)),
{
    let targets = others(ids, x);
    lemma_filter_facts(ids, not_addr(x));
    lemma_filter_facts(targets, works(ok));
    lemma_filter_map_commute(targets, |a: Address| (a, m), works(ok), reaches(ok));
}

/// A peer joining as `me`, when it is not online yet, is first sent its own
/// address, then a list of the online peers that does not hold itself; it is
/// sent no announcement of anybody in that call, and every announcement that
/// call makes is of itself and goes to another peer.
pub proof fn lemma_join_order(ids: Seq<Address>, me: Address)
    requires
        !ids.contains(me),
    ensures
        join_plan(ids, me)[0] == (me, ActionView::RequestedIp(me)),
        join_plan(ids, me)[1] == (me, ActionView::RequestedOnlineList(others(ids, me))),
        !others(ids, me).contains(me),
        forall|i: int|
            2 <= i < join_plan(ids, me).len() ==> #[trigger] join_plan(ids, me)[i] == (
                join_plan(ids, me)[i].0,
                ActionView::Connected(me),
            ) && join_plan(ids, me)[i].0 != me,
        forall|i: int|
            0 <= i < join_plan(ids, me).len() && join_plan(ids, me)[i].0 == me ==> i < 2,
{
    lemma_filter_facts(ids, not_addr(me));
    let l = others(ids, me);
    assert forall|i: int| 2 <= i < join_plan(ids, me).len() implies #[trigger] join_plan(ids, me)[i]
        == (join_plan(ids, me)[i].0, ActionView::Connected(me)) && join_plan(ids, me)[i].0
        != me by {
        assert(join_plan(ids, me)[i] == fan_out(l, ActionView::Connected(me))[i - 2]);
        assert(l.contains(l[i - 2]));
    }
    assert forall|i: int|
        0 <= i < join_plan(ids, me).len() && join_plan(ids, me)[i].0 == me implies i < 2 by {
        if i >= 2 {
            assert(join_plan(ids, me)[i] == fan_out(l, ActionView::Connected(me))[i - 2]);
            assert(l.contains(l[i - 2]));
        }
    }
}

/// When `b` disconnects, every other online peer is sent exactly one
/// announcement of it, the departed peer is sent nothing, and after it `b`
/// is no longer online.
pub proof fn lemma_disconnect_announced_once(ids: Seq<Address>, b: Address)
    requires
        ids.no_duplicates(),
    ensures
        response(ids, b, InboundView::Close) == fan_out(others(ids, b), ActionView::Disconnected(b)),
        others(ids, b).no_duplicates(),
        forall|a: Address| #[trigger] others(ids, b).contains(a) <==> (ids.contains(a) && a != b),
        !others(ids, b).contains(b),
{
    lemma_filter_facts(ids, not_addr(b));
}

/// Unregistering the same identity twice in a row: the second time nothing
/// is online under it, so nothing is removed and the registry stays as the
/// first call left it.
pub proof fn lemma_unregister_twice(ids: Seq<Address>, x: Address)
    ensures
        !others(ids, x).contains(x),
        others(others(ids, x), x) == others(ids, x),
{
    lemma_filter_facts(ids, not_addr(x));
    lemma_others_twice(ids, x);
}

} // verus!
