use vstd::prelude::*;

verus! {

broadcast use vstd::seq_lib::group_seq_properties;

/// A sequence whose elements all meet `p` is its own filter.
pub proof fn lemma_filter_keeps_all<A>(s: Seq<A>, p: spec_fn(A) -> bool)
    requires
        forall|j: int| 0 <= j < s.len() ==> p(s[j]),
    ensures
        s.filter(p) == s,
    decreases s.len(),
{
    if s.len() > 0 {
        lemma_filter_keeps_all(s.drop_last(), p);
        assert(s.drop_last().push(s.last()) =~= s);
        s.drop_last().lemma_filter_push(s.last(), p);
    } else {
        reveal(Seq::filter);
    }
}

/// A filter holds exactly the elements that meet the predicate, and keeps a
/// sequence free of duplicates.
pub proof fn lemma_filter_facts<A>(s: Seq<A>, p: spec_fn(A) -> bool)
    ensures
        forall|a: A| #[trigger] s.filter(p).contains(a) <==> s.contains(a) && p(a),
        s.no_duplicates() ==> s.filter(p).no_duplicates(),
    decreases s.len(),
{
    if s.len() > 0 {
        let init = s.drop_last();
        let x = s.last();
        assert(init.push(x) =~= s);
        lemma_filter_facts(init, p);
        init.lemma_filter_push(x, p);
        assert forall|a: A| #[trigger] s.filter(p).contains(a) <==> s.contains(a) && p(a) by {
            if s.filter(p).contains(a) && a != x {
                let k = choose|k: int| 0 <= k < s.filter(p).len() && s.filter(p)[k] == a;
                assert(init.filter(p)[k] == a);
                assert(init.filter(p).contains(a));
            }
            if s.contains(a) && p(a) && a != x {
                let k = choose|k: int| 0 <= k < s.len() && s[k] == a;
                assert(init[k] == a);
                assert(init.contains(a));
                assert(init.filter(p).contains(a));
                let m = choose|m: int| 0 <= m < init.filter(p).len() && init.filter(p)[m] == a;
                assert(s.filter(p)[m] == a);
            }
            if a == x && p(a) {
                assert(s.filter(p)[s.filter(p).len() - 1] == a);
            }
        }
        if s.no_duplicates() {
            assert(init.no_duplicates());
            assert(!init.contains(x));
            if p(x) {
                let f = init.filter(p);
                assert(!f.contains(x));
                assert forall|i: int, j: int|
                    0 <= i < f.push(x).len() && 0 <= j < f.push(x).len() && i != j implies f.push(
                    x,
                )[i] != f.push(x)[j] by {
                    if i == f.len() {
                        assert(f.contains(f[j]));
                    }
                    if j == f.len() {
                        assert(f.contains(f[i]));
                    }
                }
            }
        }
    } else {
        reveal(Seq::filter);
    }
}

/// Filtering commutes with a map that carries the predicate along.
pub proof fn lemma_filter_map_commute<A, B>(
    s: Seq<A>,
    f: spec_fn(A) -> B,
    p: spec_fn(A) -> bool,
    q: spec_fn(B) -> bool,
)
    requires
        forall|a: A| #[trigger] q(f(a)) == p(a),
    ensures
        s.filter(p).map_values(f) == s.map_values(f).filter(q),
    decreases s.len(),
{
    if s.len() > 0 {
        let init = s.drop_last();
        let x = s.last();
        assert(init.push(x) =~= s);
        lemma_filter_map_commute(init, f, p, q);
        init.lemma_filter_push(x, p);
        assert(init.map_values(f).push(f(x)) =~= s.map_values(f));
        init.map_values(f).lemma_filter_push(f(x), q);
        assert(init.filter(p).push(x).map_values(f) =~= init.filter(p).map_values(f).push(f(x)));
    } else {
        reveal(Seq::filter);
        assert(s.filter(p).map_values(f) =~= s.map_values(f).filter(q));
    }
}

} // verus!
