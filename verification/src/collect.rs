//! Gathering items from a list of nodes where each node yields an item, is
//! skipped, or makes the whole extraction fail.
use vstd::prelude::*;

verus! {

/// Folds `f` over `xs` in order: `f(x)` is `None` when `x` makes the
/// extraction fail, `Some(None)` when `x` is skipped and `Some(Some(item))`
/// when it yields an item. The result is `None` when some element fails,
/// otherwise the items in order.
pub open spec fn collect_opt<T>(xs: Seq<usize>, f: spec_fn(usize) -> Option<Option<T>>) -> Option<
    Seq<T>,
>
    decreases xs.len(),
{
    if xs.len() == 0 {
        Some(Seq::empty())
    } else {
        match collect_opt(xs.drop_last(), f) {
            None => None,
            Some(acc) => match f(xs.last()) {
                None => None,
                Some(None) => Some(acc),
                Some(Some(x)) => Some(acc.push(x)),
            },
        }
    }
}

/// One more element of `xs` folded in.
pub proof fn lemma_collect_step<T>(xs: Seq<usize>, k: int, f: spec_fn(usize) -> Option<Option<T>>)
    requires
        0 <= k < xs.len(),
    ensures
        collect_opt(xs.take(k + 1), f) == match collect_opt(xs.take(k), f) {
            None => None,
            Some(acc) => match f(xs[k]) {
                None => None,
                Some(None) => Some(acc),
                Some(Some(x)) => Some(acc.push(x)),
            },
        },
{
    assert(xs.take(k + 1).drop_last() =~= xs.take(k));
}

/// A failure in a prefix makes the whole fold fail.
pub proof fn lemma_collect_fail<T>(xs: Seq<usize>, k: int, f: spec_fn(usize) -> Option<Option<T>>)
    requires
        0 <= k <= xs.len(),
        collect_opt(xs.take(k), f) is None,
    ensures
        collect_opt(xs, f) is None,
    decreases xs.len() - k,
{
    if k == xs.len() {
        assert(xs.take(k) =~= xs);
    } else {
        lemma_collect_step(xs, k, f);
        lemma_collect_fail(xs, k + 1, f);
    }
}

/// The whole list as its longest prefix.
pub proof fn lemma_take_all<T>(xs: Seq<T>)
    ensures
        xs.take(xs.len() as int) == xs,
{
    assert(xs.take(xs.len() as int) =~= xs);
}

/// Appending to a sequence commutes with mapping it.
pub proof fn lemma_map_push<A, B>(s: Seq<A>, x: A, f: spec_fn(A) -> B)
    ensures
        s.push(x).map_values(f) == s.map_values(f).push(f(x)),
{
    assert(s.push(x).map_values(f) =~= s.map_values(f).push(f(x)));
}


/// Folds `f` over `xs` in order, concatenating the lists the elements give:
/// `None` when some element fails (`f(x)` is `None`).
pub open spec fn collect_flat<T>(xs: Seq<usize>, f: spec_fn(usize) -> Option<Seq<T>>) -> Option<
    Seq<T>,
>
    decreases xs.len(),
{
    if xs.len() == 0 {
        Some(Seq::empty())
    } else {
        match collect_flat(xs.drop_last(), f) {
            None => None,
            Some(acc) => match f(xs.last()) {
                None => None,
                Some(items) => Some(acc + items),
            },
        }
    }
}

/// One more element of `xs` folded in.
pub proof fn lemma_flat_step<T>(xs: Seq<usize>, k: int, f: spec_fn(usize) -> Option<Seq<T>>)
    requires
        0 <= k < xs.len(),
    ensures
        collect_flat(xs.take(k + 1), f) == match collect_flat(xs.take(k), f) {
            None => None,
            Some(acc) => match f(xs[k]) {
                None => None,
                Some(items) => Some(acc + items),
            },
        },
{
    assert(xs.take(k + 1).drop_last() =~= xs.take(k));
}

/// A failure in a prefix makes the whole fold fail.
pub proof fn lemma_flat_fail<T>(xs: Seq<usize>, k: int, f: spec_fn(usize) -> Option<Seq<T>>)
    requires
        0 <= k <= xs.len(),
        collect_flat(xs.take(k), f) is None,
    ensures
        collect_flat(xs, f) is None,
    decreases xs.len() - k,
{
    if k == xs.len() {
        assert(xs.take(k) =~= xs);
    } else {
        lemma_flat_step(xs, k, f);
        lemma_flat_fail(xs, k + 1, f);
    }
}

/// Appending a list commutes with mapping.
pub proof fn lemma_map_append<A, B>(s: Seq<A>, t: Seq<A>, f: spec_fn(A) -> B)
    ensures
        (s + t).map_values(f) == s.map_values(f) + t.map_values(f),
{
    assert((s + t).map_values(f) =~= s.map_values(f) + t.map_values(f));
}

/// When no element is skipped, a successful fold yields one item per
/// element, in order: item `k` is what element `k` gives.
pub proof fn lemma_collect_each<T>(xs: Seq<usize>, f: spec_fn(usize) -> Option<Option<T>>)
    requires
        collect_opt(xs, f) is Some,
        forall|i: int| 0 <= i < xs.len() ==> !(#[trigger] f(xs[i]) matches Some(None)),
    ensures
        collect_opt(xs, f).unwrap().len() == xs.len(),
        forall|k: int|
            0 <= k < xs.len() ==> #[trigger] f(xs[k]) == Some(Some(collect_opt(xs, f).unwrap()[k])),
    decreases xs.len(),
{
    if xs.len() > 0 {
        let init = xs.drop_last();
        assert forall|i: int| 0 <= i < init.len() implies !(#[trigger] f(init[i]) matches Some(None)) by {
            assert(init[i] == xs[i]);
        }
        lemma_collect_each(init, f);
        assert(f(xs[xs.len() - 1]) == f(xs.last()));
        assert forall|k: int| 0 <= k < xs.len() implies #[trigger] f(xs[k]) == Some(
            Some(collect_opt(xs, f).unwrap()[k]),
        ) by {
            if k < xs.len() - 1 {
                assert(init[k] == xs[k]);
            }
        }
    }
}

/// Every item of a successful fold is what some element of the list gives.
pub proof fn lemma_collect_member<T>(xs: Seq<usize>, f: spec_fn(usize) -> Option<Option<T>>)
    requires
        collect_opt(xs, f) is Some,
    ensures
        forall|k: int|
            #![trigger collect_opt(xs, f).unwrap()[k]]
            0 <= k < collect_opt(xs, f).unwrap().len() ==> exists|i: int|
                0 <= i < xs.len() && #[trigger] f(xs[i]) == Some(Some(collect_opt(xs, f).unwrap()[k])),
    decreases xs.len(),
{
    if xs.len() > 0 {
        let init = xs.drop_last();
        lemma_collect_member(init, f);
        let ys = collect_opt(xs, f).unwrap();
        let acc = collect_opt(init, f).unwrap();
        assert forall|k: int| #![trigger ys[k]] 0 <= k < ys.len() implies exists|i: int|
            0 <= i < xs.len() && #[trigger] f(xs[i]) == Some(Some(ys[k])) by {
            if k < acc.len() {
                let i = choose|i: int| 0 <= i < init.len() && #[trigger] f(init[i]) == Some(Some(acc[k]));
                assert(init[i] == xs[i]);
                assert(f(xs[i]) == Some(Some(ys[k])));
            } else {
                assert(f(xs[xs.len() - 1]) == Some(Some(ys[k])));
            }
        }
    }
}

/// When the elements that `f` skips are exactly those failing `keep`, a
/// successful fold yields one item per kept element, in order: item `k` is
/// what the `k`-th kept element gives.
pub proof fn lemma_collect_kept<T>(xs: Seq<usize>, f: spec_fn(usize) -> Option<Option<T>>, keep: spec_fn(usize) -> bool)
    requires
        collect_opt(xs, f) is Some,
        forall|i: int| 0 <= i < xs.len() ==> ((#[trigger] f(xs[i]) matches Some(None)) <==> !keep(xs[i])),
    ensures
        collect_opt(xs, f).unwrap().len() == xs.filter(keep).len(),
        forall|k: int|
            0 <= k < xs.filter(keep).len() ==> #[trigger] f(xs.filter(keep)[k]) == Some(
                Some(collect_opt(xs, f).unwrap()[k]),
            ),
    decreases xs.len(),
{
    if xs.len() > 0 {
        let init = xs.drop_last();
        assert forall|i: int| 0 <= i < init.len() implies ((#[trigger] f(init[i]) matches Some(None)) <==> !keep(init[i])) by {
            assert(init[i] == xs[i]);
        }
        lemma_collect_kept(init, f, keep);
        assert(f(xs[xs.len() - 1]) == f(xs.last()));
        let fk = xs.filter(keep);
        let fi = init.filter(keep);
        let ys = collect_opt(xs, f).unwrap();
        let acc = collect_opt(init, f).unwrap();
        assert(fk == (if keep(xs.last()) { fi.push(xs.last()) } else { fi })) by {
            reveal(Seq::filter);
        }
        if keep(xs.last()) {
            assert(ys == acc.push(f(xs.last()).unwrap().unwrap()));
        } else {
            assert(ys == acc);
        }
        assert forall|k: int| 0 <= k < fk.len() implies #[trigger] f(fk[k]) == Some(Some(ys[k])) by {
            if k < fi.len() {
                assert(fk[k] == fi[k]);
                assert(ys[k] == acc[k]);
            }
        }
    }
}

/// A successful concatenating fold reads every element, and gives the
/// lists of the elements joined in order.
pub proof fn lemma_collect_flat_joined<T>(xs: Seq<usize>, f: spec_fn(usize) -> Option<Seq<T>>)
    requires
        collect_flat(xs, f) is Some,
    ensures
        forall|i: int| 0 <= i < xs.len() ==> #[trigger] f(xs[i]) is Some,
        collect_flat(xs, f).unwrap() == xs.map_values(|x: usize| f(x).unwrap()).flatten(),
    decreases xs.len(),
{
    let g = |x: usize| f(x).unwrap();
    let m = xs.map_values(g);
    m.lemma_flatten_and_flatten_alt_are_equivalent();
    if xs.len() > 0 {
        let init = xs.drop_last();
        lemma_collect_flat_joined(init, f);
        init.map_values(g).lemma_flatten_and_flatten_alt_are_equivalent();
        assert(m.drop_last() =~= init.map_values(g));
        assert(m.last() == g(xs.last()));
        assert forall|i: int| 0 <= i < xs.len() implies #[trigger] f(xs[i]) is Some by {
            if i < init.len() {
                assert(init[i] == xs[i]);
            }
        }
    } else {
        assert(m =~= Seq::<Seq<T>>::empty());
    }
}

} // verus!
