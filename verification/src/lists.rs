//! Searching and filtering sequences: the first element that satisfies a
//! predicate, and the elements that satisfy it, in order.

use vstd::prelude::*;

verus! {

/// The first element of `s` that satisfies `p`, if any.
pub open spec fn first_where<T>(s: Seq<T>, p: spec_fn(T) -> bool) -> Option<T>
    decreases s.len(),
{
    if s.len() == 0 {
        None
    } else {
        match first_where(s.drop_last(), p) {
            Some(x) => Some(x),
            None => if p(s.last()) {
                Some(s.last())
            } else {
                None
            },
        }
    }
}

/// The elements of `s` that satisfy `p`, in their order in `s`.
pub open spec fn keep_where<T>(s: Seq<T>, p: spec_fn(T) -> bool) -> Seq<T>
    decreases s.len(),
{
    if s.len() == 0 {
        Seq::empty()
    } else if p(s.last()) {
        keep_where(s.drop_last(), p).push(s.last())
    } else {
        keep_where(s.drop_last(), p)
    }
}

/// Where no element satisfies `p`, `first_where` finds nothing; where an
/// element does and none before it does, `first_where` finds that element.
pub proof fn lemma_first_where_step<T>(s: Seq<T>, p: spec_fn(T) -> bool, i: int)
    requires
        0 <= i < s.len(),
        first_where(s.take(i), p) is None,
    ensures
        first_where(s.take(i + 1), p) == (if p(s[i]) {
            Some(s[i])
        } else {
            None::<T>
        }),
{
    assert(s.take(i + 1).drop_last() =~= s.take(i));
}

/// What `first_where` finds in a prefix it also finds in the whole sequence.
pub proof fn lemma_first_where_prefix<T>(s: Seq<T>, p: spec_fn(T) -> bool, k: int)
    requires
        0 <= k <= s.len(),
        first_where(s.take(k), p) is Some,
    ensures
        first_where(s, p) == first_where(s.take(k), p),
    decreases s.len() - k,
{
    if k == s.len() {
        assert(s.take(k) =~= s);
    } else {
        assert(s.take(k + 1).drop_last() =~= s.take(k));
        lemma_first_where_prefix(s, p, k + 1);
    }
}

/// The element `first_where` finds satisfies `p`, occurs in the sequence,
/// and no element before it satisfies `p`.
pub proof fn lemma_first_where_found<T>(s: Seq<T>, p: spec_fn(T) -> bool)
    ensures
        first_where(s, p) matches Some(x) ==> (p(x) && s.contains(x)),
        first_where(s, p) is None ==> forall|i: int| 0 <= i < s.len() ==> !p(#[trigger] s[i]),
    decreases s.len(),
{
    if s.len() > 0 {
        lemma_first_where_found(s.drop_last(), p);
        if first_where(s.drop_last(), p) is Some {
            let x = first_where(s.drop_last(), p)->0;
            let j = choose|j: int| 0 <= j < s.drop_last().len() && s.drop_last()[j] == x;
            assert(s[j] == x);
        } else if p(s.last()) {
            assert(s[s.len() - 1] == s.last());
        } else {
            assert forall|i: int| 0 <= i < s.len() implies !p(#[trigger] s[i]) by {
                if i < s.len() - 1 {
                    assert(s[i] == s.drop_last()[i]);
                }
            }
        }
    }
}

/// Extending a prefix by one element extends what `keep_where` keeps.
pub proof fn lemma_keep_where_step<T>(s: Seq<T>, p: spec_fn(T) -> bool, i: int)
    requires
        0 <= i < s.len(),
    ensures
        keep_where(s.take(i + 1), p) == (if p(s[i]) {
            keep_where(s.take(i), p).push(s[i])
        } else {
            keep_where(s.take(i), p)
        }),
{
    assert(s.take(i + 1).drop_last() =~= s.take(i));
}

/// Every kept element satisfies `p` and occurs in the sequence.
pub proof fn lemma_keep_where_sound<T>(s: Seq<T>, p: spec_fn(T) -> bool)
    ensures
        forall|i: int|
            0 <= i < keep_where(s, p).len() ==> p(#[trigger] keep_where(s, p)[i]) && s.contains(
                keep_where(s, p)[i],
            ),
        keep_where(s, p).len() <= s.len(),
    decreases s.len(),
{
    if s.len() > 0 {
        lemma_keep_where_sound(s.drop_last(), p);
        let k = keep_where(s, p);
        let k0 = keep_where(s.drop_last(), p);
        assert forall|i: int| 0 <= i < k.len() implies p(#[trigger] k[i]) && s.contains(k[i]) by {
            if i < k0.len() {
                assert(k[i] == k0[i]);
                let j = choose|j: int| 0 <= j < s.drop_last().len() && s.drop_last()[j] == k0[i];
                assert(s[j] == k0[i]);
            } else {
                assert(k[i] == s.last());
                assert(s[s.len() - 1] == s.last());
            }
        }
    }
}

/// No element of the first `i` satisfies `p`: `first_where` finds nothing
/// among them.
pub proof fn lemma_first_where_none_prefix<T>(s: Seq<T>, p: spec_fn(T) -> bool, i: int)
    requires
        0 <= i <= s.len(),
        forall|j: int| 0 <= j < i ==> !p(#[trigger] s[j]),
    ensures
        first_where(s.take(i), p) is None,
    decreases i,
{
    if i == 0 {
        assert(s.take(0).len() == 0);
    } else {
        lemma_first_where_none_prefix(s, p, i - 1);
        lemma_first_where_step(s, p, i - 1);
    }
}

/// The element at `f` satisfies `p` and none before it does: `first_where`
/// finds it.
pub proof fn lemma_first_where_at<T>(s: Seq<T>, p: spec_fn(T) -> bool, f: int)
    requires
        0 <= f < s.len(),
        p(s[f]),
        forall|j: int| 0 <= j < f ==> !p(#[trigger] s[j]),
    ensures
        first_where(s, p) == Some(s[f]),
{
    lemma_first_where_none_prefix(s, p, f);
    lemma_first_where_step(s, p, f);
    lemma_first_where_prefix(s, p, f + 1);
}

/// Where no element satisfies `p`, nothing is kept.
pub proof fn lemma_keep_where_none<T>(s: Seq<T>, p: spec_fn(T) -> bool)
    requires
        forall|j: int| 0 <= j < s.len() ==> !p(#[trigger] s[j]),
    ensures
        keep_where(s, p) == Seq::<T>::empty(),
    decreases s.len(),
{
    if s.len() > 0 {
        assert(!p(s[s.len() - 1]));
        lemma_keep_where_none(s.drop_last(), p);
    }
}

/// Where exactly the element at `k` satisfies `p`, it alone is kept.
pub proof fn lemma_keep_where_single<T>(s: Seq<T>, p: spec_fn(T) -> bool, k: int)
    requires
        0 <= k < s.len(),
        p(s[k]),
        forall|j: int| 0 <= j < s.len() && j != k ==> !p(#[trigger] s[j]),
    ensures
        keep_where(s, p) == seq![s[k]],
    decreases s.len(),
{
    let r = s.drop_last();
    if k == s.len() - 1 {
        assert forall|j: int| 0 <= j < r.len() implies !p(#[trigger] r[j]) by {
            assert(r[j] == s[j]);
        }
        lemma_keep_where_none(r, p);
        assert(Seq::<T>::empty().push(s[k]) =~= seq![s[k]]);
    } else {
        assert(!p(s[s.len() - 1]));
        assert forall|j: int| 0 <= j < r.len() && j != k implies !p(#[trigger] r[j]) by {
            assert(r[j] == s[j]);
        }
        assert(r[k] == s[k]);
        lemma_keep_where_single(r, p, k);
    }
}

/// Keeping by `p` and then by `q` keeps what satisfies both.
pub proof fn lemma_keep_where_twice<T>(s: Seq<T>, p: spec_fn(T) -> bool, q: spec_fn(T) -> bool)
    ensures
        keep_where(keep_where(s, p), q) == keep_where(s, |x: T| p(x) && q(x)),
    decreases s.len(),
{
    if s.len() > 0 {
        let r = s.drop_last();
        lemma_keep_where_twice(r, p, q);
        let k = keep_where(r, p);
        if p(s.last()) {
            assert(k.push(s.last()).drop_last() =~= k);
            assert(k.push(s.last()).last() == s.last());
        }
    }
}

} // verus!
