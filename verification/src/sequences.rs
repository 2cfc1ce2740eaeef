//! Facts about sequences that loops over collections rest on.

use vstd::prelude::*;

verus! {

/// Filtering one more element either keeps it at the end or leaves the result alone.
pub proof fn lemma_filter_step<A>(s: Seq<A>, i: int, keep: spec_fn(A) -> bool)
    requires
        0 <= i < s.len(),
    ensures
        s.take(i + 1).filter(keep) == (if keep(s[i]) {
            s.take(i).filter(keep).push(s[i])
        } else {
            s.take(i).filter(keep)
        }),
{
    reveal(Seq::filter);
    assert(s.take(i + 1).drop_last() =~= s.take(i));
    assert(s.take(i + 1).last() == s[i]);
}

/// Filtering nothing gives nothing, and filtering a whole prefix is filtering everything.
pub proof fn lemma_filter_ends<A>(s: Seq<A>, keep: spec_fn(A) -> bool)
    ensures
        s.take(0).filter(keep) == Seq::<A>::empty(),
        s.take(s.len() as int).filter(keep) == s.filter(keep),
{
    reveal(Seq::filter);
    assert(s.take(s.len() as int) =~= s);
    assert(s.take(0) =~= Seq::<A>::empty());
}

/// The last `n` elements of a sequence, or all of it if there are fewer.
pub open spec fn newest<A>(s: Seq<A>, n: int) -> Seq<A> {
    if s.len() <= n {
        s
    } else {
        s.subrange(s.len() - n, s.len() as int)
    }
}

/// A filter that keeps no more than another leaves no more elements.
pub proof fn lemma_filter_weaker<A>(s: Seq<A>, p: spec_fn(A) -> bool, q: spec_fn(A) -> bool)
    requires
        forall|i: int| 0 <= i < s.len() && p(#[trigger] s[i]) ==> q(s[i]),
    ensures
        s.filter(p).len() <= s.filter(q).len(),
    decreases s.len(),
{
    reveal(Seq::filter);
    if s.len() > 0 {
        let rest = s.drop_last();
        assert forall|i: int| 0 <= i < rest.len() && p(#[trigger] rest[i]) implies q(rest[i]) by {
            assert(rest[i] == s[i]);
        }
        lemma_filter_weaker(rest, p, q);
        assert(s.last() == s[s.len() - 1]);
    }
}

/// Filtering what a weaker filter left is filtering the whole.
pub proof fn lemma_filter_twice<A>(s: Seq<A>, p: spec_fn(A) -> bool, q: spec_fn(A) -> bool)
    requires
        forall|i: int| 0 <= i < s.len() && q(#[trigger] s[i]) ==> p(s[i]),
    ensures
        s.filter(p).filter(q) == s.filter(q),
    decreases s.len(),
{
    reveal(Seq::filter);
    if s.len() > 0 {
        let rest = s.drop_last();
        assert forall|i: int| 0 <= i < rest.len() && q(#[trigger] rest[i]) implies p(rest[i]) by {
            assert(rest[i] == s[i]);
        }
        lemma_filter_twice(rest, p, q);
        assert(s.last() == s[s.len() - 1]);
        if p(s.last()) {
            assert(s.filter(p).drop_last() =~= rest.filter(p));
            assert(s.filter(p).last() == s.last());
        }
    }
}

/// A filter that keeps nothing leaves nothing.
pub proof fn lemma_filter_none<A>(s: Seq<A>, p: spec_fn(A) -> bool)
    requires
        forall|i: int| 0 <= i < s.len() ==> !p(#[trigger] s[i]),
    ensures
        s.filter(p) == Seq::<A>::empty(),
    decreases s.len(),
{
    reveal(Seq::filter);
    if s.len() > 0 {
        let rest = s.drop_last();
        assert forall|i: int| 0 <= i < rest.len() implies !p(#[trigger] rest[i]) by {
            assert(rest[i] == s[i]);
        }
        lemma_filter_none(rest, p);
        assert(s.last() == s[s.len() - 1]);
    }
}

/// Every element left by a filter satisfies it and was there before.
pub proof fn lemma_filter_element<A>(s: Seq<A>, p: spec_fn(A) -> bool, i: int)
    requires
        0 <= i < s.filter(p).len(),
    ensures
        p(s.filter(p)[i]),
        s.contains(s.filter(p)[i]),
    decreases s.len(),
{
    reveal(Seq::filter);
    if s.len() > 0 {
        let rest = s.drop_last();
        if i < rest.filter(p).len() {
            lemma_filter_element(rest, p, i);
            let j = choose|j: int| 0 <= j < rest.len() && rest[j] == rest.filter(p)[i];
            assert(s[j] == rest[j]);
        } else {
            assert(s[s.len() - 1] == s.last());
        }
    }
}

/// The places below a count that are wanted, in order.
pub open spec fn places_where(count: nat, wanted: spec_fn(int) -> bool) -> Seq<int>
    decreases count,
{
    if count == 0 {
        Seq::empty()
    } else {
        let last = count - 1;
        let rest = places_where(last as nat, wanted);
        if wanted(last) {
            rest.push(last)
        } else {
            rest
        }
    }
}

/// What a list of places denotes.
pub open spec fn as_places(places: Seq<usize>) -> Seq<int> {
    places.map_values(|place: usize| place as int)
}

/// One place more.
pub proof fn lemma_place_pushed(places: Seq<usize>, place: usize)
    ensures
        as_places(places.push(place)) == as_places(places).push(place as int),
{
    assert(as_places(places.push(place)) =~= as_places(places).push(place as int));
}

/// Every listed place is below the count and wanted.
pub proof fn lemma_places_where(count: nat, wanted: spec_fn(int) -> bool)
    ensures
        places_where(count, wanted).len() <= count,
        forall|i: int|
            0 <= i < places_where(count, wanted).len() ==> 0 <= #[trigger] places_where(
                count,
                wanted,
            )[i] < count && wanted(places_where(count, wanted)[i]),
        forall|at: int|
            0 <= at < count && #[trigger] wanted(at) ==> places_where(count, wanted).contains(at),
    decreases count,
{
    if count > 0 {
        let last = count - 1;
        let rest = places_where(last as nat, wanted);
        let all = places_where(count, wanted);
        lemma_places_where(last as nat, wanted);
        assert forall|at: int| 0 <= at < count && #[trigger] wanted(at) implies all.contains(at) by {
            if at == last {
                assert(all[all.len() - 1] == at);
            } else {
                assert(rest.contains(at));
                let i = choose|i: int| 0 <= i < rest.len() && rest[i] == at;
                assert(all[i] == at);
            }
        }
    }
}

/// The newest elements are the last ones, as many as asked for or all there are, in their order.
pub proof fn the_newest_are_the_last<A>(s: Seq<A>, n: int, i: int)
    requires
        n >= 0,
    ensures
        s.len() <= n ==> newest(s, n).len() == s.len(),
        s.len() > n ==> newest(s, n).len() == n,
        0 <= i < newest(s, n).len() ==> newest(s, n)[newest(s, n).len() - 1 - i] == s[s.len() - 1
            - i],
{
}

/// Places are listed in increasing order, each below the count and wanted, and every wanted one is
/// among them.
pub proof fn wanted_places_are_listed_in_order(
    count: nat,
    wanted: spec_fn(int) -> bool,
    i: int,
    j: int,
)
    ensures
        0 <= i < j < places_where(count, wanted).len() ==> places_where(count, wanted)[i]
            < places_where(count, wanted)[j],
        0 <= i < places_where(count, wanted).len() ==> wanted(places_where(count, wanted)[i]),
        0 <= i < count && wanted(i) ==> places_where(count, wanted).contains(i),
    decreases count,
{
    lemma_places_where(count, wanted);
    if count > 0 {
        let last = (count - 1) as nat;
        lemma_places_where(last, wanted);
        wanted_places_are_listed_in_order(last, wanted, i, j);
    }
}

} // verus!
