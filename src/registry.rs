use vstd::prelude::*;

use crate::action::{fan_out, plan_view, Delivery, UserAction};
use crate::address::Address;
use crate::seq_facts::{lemma_filter_facts, lemma_filter_keeps_all, lemma_filter_map_commute};

verus! {

broadcast use vstd::seq_lib::group_seq_properties;

/// A registered connection: the peer's identity and the handle that reaches it.
pub struct OnlineUser<H> {
    pub identity: Address,
    pub outbound: H,
}

/// The peers that are online, in the order in which they registered, each
/// with the handle through which messages reach it. Every operation takes
/// the registry whole, so one lock around it makes each operation atomic.
pub struct Registry<H> {
    entries: Vec<OnlineUser<H>>,
}

/// The identities of `ids` other than `x`, in their order.
pub open spec fn others(ids: Seq<Address>, x: Address) -> Seq<Address> {
    ids.filter(not_addr(x))
}

/// Holds of every identity but `x`.
pub open spec fn not_addr(x: Address) -> spec_fn(Address) -> bool {
    |a: Address| a != x
}

/// Holds of every entry whose identity is not `x`.
pub open spec fn not_entry<H>(x: Address) -> spec_fn(OnlineUser<H>) -> bool {
    |e: OnlineUser<H>| e.identity != x
}

/// The identities of a sequence of entries.
pub open spec fn identities<H>(es: Seq<OnlineUser<H>>) -> Seq<Address> {
    es.map_values(|e: OnlineUser<H>| e.identity)
}

/// The entries of `es` whose identity is not `x`.
pub open spec fn entries_without<H>(es: Seq<OnlineUser<H>>, x: Address) -> Seq<OnlineUser<H>> {
    es.filter(not_entry(x))
}

impl<H> View for Registry<H> {
    type V = Seq<OnlineUser<H>>;

    closed spec fn view(&self) -> Seq<OnlineUser<H>> {
        self.entries@
    }
}

impl<H> Registry<H> {
    /// The online identities, in the order of registration.
    pub open spec fn ids(&self) -> Seq<Address> {
        identities(self@)
    }

    /// No identity is registered twice.
    pub open spec fn wf(&self) -> bool {
        self.ids().no_duplicates()
    }

    /// Whether `id` is registered.
    pub open spec fn online(&self, id: Address) -> bool {
        self.ids().contains(id)
    }

    /// An empty registry.
    pub fn new() -> (r: Registry<H>)
        ensures
            r@ == Seq::<OnlineUser<H>>::empty(),
            r.wf(),
    {
        let r = Registry { entries: Vec::new() };
        assert(r.ids() =~= Seq::<Address>::empty());
        r
    }

    /// The number of online peers.
    pub fn len(&self) -> (r: usize)
        ensures
            r == self@.len(),
    {
        self.entries.len()
    }

    /// Whether `id` is online.
    pub fn contains(&self, id: Address) -> (r: bool)
        ensures
            r == self.online(id),
    {
        let mut i: usize = 0;
        while i < self.entries.len()
            invariant
                i <= self@.len(),
                forall|j: int| 0 <= j < i ==> self.ids()[j] != id,
            decreases self@.len() - i,
        {
            if self.entries[i].identity == id {
                assert(self.ids()[i as int] == id);
                return true;
            }
            i = i + 1;
        }
        false
    }

    /// Adds `id`, reached through `outbound`, as the last online peer.
    pub fn register(&mut self, id: Address, outbound: H)
        requires
            old(self).wf(),
            !old(self).online(id),
        ensures
            final(self)@ == old(self)@.push(OnlineUser { identity: id, outbound }),
            final(self).ids() == old(self).ids().push(id),
            final(self).wf(),
    {
        self.entries.push(OnlineUser { identity: id, outbound });
        assert(self.ids() =~= old(self).ids().push(id));
    }

    /// Removes `id` if it is online, and tells whether it was.
    pub fn unregister(&mut self, id: Address) -> (removed: bool)
        requires
            old(self).wf(),
        ensures
            removed == old(self).online(id),
            final(self)@ == entries_without(old(self)@, id),
            final(self).ids() == others(old(self).ids(), id),
            final(self).wf(),
    {
        let mut i: usize = 0;
        while i < self.entries.len()
            invariant
                self@ == old(self)@,
                self.wf(),
                i <= self@.len(),
                forall|j: int| 0 <= j < i ==> self.ids()[j] != id,
            decreases self@.len() - i,
        {
            if self.entries[i].identity == id {
                assert(self.ids()[i as int] == id);
                proof {
                    lemma_remove_unique(self@, i as int, id);
                    lemma_identities_without(self@, id);
                    lemma_others_no_duplicates(self.ids(), id);
                }
                self.entries.remove(i);
                return true;
            }
            i = i + 1;
        }
        proof {
            assert forall|j: int| 0 <= j < self@.len() implies (not_entry::<H>(id))(self@[j]) by {
                assert(self.ids()[j] == self@[j].identity);
            }
            lemma_filter_keeps_all(self@, not_entry::<H>(id));
            lemma_filter_keeps_all(self.ids(), not_addr(id));
        }
        false
    }

    /// The handle of `id`, if it is online.
    pub fn lookup(&self, id: Address) -> (r: Option<&H>)
        ensures
            r is None <==> !self.online(id),
            r matches Some(h) ==> exists|j: int|
                0 <= j < self@.len() && self@[j].identity == id && self@[j].outbound == *h,
    {
        let mut i: usize = 0;
        while i < self.entries.len()
            invariant
                i <= self@.len(),
                forall|j: int| 0 <= j < i ==> self.ids()[j] != id,
            decreases self@.len() - i,
        {
            if self.entries[i].identity == id {
                assert(self.ids()[i as int] == id);
                return Some(&self.entries[i].outbound);
            }
            i = i + 1;
        }
        None
    }

    /// A copy of the online identities other than `id`, in registration order.
    pub fn snapshot_excluding(&self, id: Address) -> (r: Vec<Address>)
        ensures
            r@ == others(self.ids(), id),
    {
        let mut r: Vec<Address> = Vec::new();
        let mut i: usize = 0;
        while i < self.entries.len()
            invariant
                i <= self@.len(),
                r@ == others(self.ids().take(i as int), id),
            decreases self@.len() - i,
        {
            let a = self.entries[i].identity;
            assert(self.ids().take(i + 1) =~= self.ids().take(i as int).push(a));
            proof {
                self.ids().take(i as int).lemma_filter_push(a, not_addr(id));
            }
            if a != id {
                r.push(a);
            }
            i = i + 1;
        }
        assert(self.ids().take(i as int) =~= self.ids());
        r
    }

    /// One delivery of `msg` to each online peer other than `id`, in
    /// registration order.
    pub fn broadcast_excluding(&self, id: Address, msg: &UserAction) -> (r: Vec<Delivery>)
        ensures
            plan_view(r@) == fan_out(others(self.ids(), id), msg@),
    {
        let targets = self.snapshot_excluding(id);
        let mut r: Vec<Delivery> = Vec::new();
        let mut i: usize = 0;
        while i < targets.len()
            invariant
                i <= targets@.len(),
                plan_view(r@) == fan_out(targets@.take(i as int), msg@),
            decreases targets@.len() - i,
        {
            let ghost before = r@;
            assert(plan_view(before).len() == before.len());
            let d = Delivery { to: targets[i], action: msg.duplicate() };
            r.push(d);
            assert forall|j: int| 0 <= j <= i implies plan_view(r@)[j] == fan_out(
                targets@.take(i + 1),
                msg@,
            )[j] by {
                if j < i {
                    assert(plan_view(before)[j] == fan_out(targets@.take(i as int), msg@)[j]);
                    assert(r@[j] == before[j]);
                }
            }
            assert(plan_view(r@) =~= fan_out(targets@.take(i + 1), msg@));
            i = i + 1;
        }
        assert(targets@.take(i as int) =~= targets@);
        r
    }
}

/// Taking identities commutes with leaving out the entries of `x`.
proof fn lemma_identities_without<H>(es: Seq<OnlineUser<H>>, x: Address)
    ensures
        identities(entries_without(es, x)) == others(identities(es), x),
{
    lemma_filter_map_commute(es, |e: OnlineUser<H>| e.identity, not_entry::<H>(x), not_addr(x));
}

/// Leaving out one identity keeps a sequence free of duplicates.
proof fn lemma_others_no_duplicates(ids: Seq<Address>, x: Address)
    requires
        ids.no_duplicates(),
    ensures
        others(ids, x).no_duplicates(),
{
    lemma_filter_facts(ids, not_addr(x));
}

/// Removing the one entry of `x` is leaving out the entries of `x`.
proof fn lemma_remove_unique<H>(es: Seq<OnlineUser<H>>, i: int, x: Address)
    requires
        identities(es).no_duplicates(),
        0 <= i < es.len(),
        es[i].identity == x,
    ensures
        es.remove(i) == entries_without(es, x),
    decreases es.len(),
{
    let init = es.drop_last();
    assert(init.push(es.last()) =~= es);
    init.lemma_filter_push(es.last(), not_entry::<H>(x));
    if i == es.len() - 1 {
        assert forall|j: int| 0 <= j < init.len() implies init[j].identity != x by {
            assert(identities(es)[j] == init[j].identity);
            assert(identities(es)[i] == x);
        }
        lemma_filter_keeps_all(init, not_entry::<H>(x));
        assert(es.remove(i) =~= init);
    } else {
        assert(identities(es)[i] == x);
        assert(identities(es)[es.len() - 1] == es.last().identity);
        assert(es.last().identity != x);
        assert(identities(init) =~= identities(es).drop_last());
        lemma_remove_unique(init, i, x);
        assert(es.remove(i) =~= init.remove(i).push(es.last()));
    }
}

} // verus!
