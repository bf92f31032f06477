//! Finding the first element of a sequence that satisfies a predicate.
use vstd::prelude::*;

verus! {

/// Index of the first element of `s` that satisfies `p`, or -1 when none does.
pub open spec fn first_match<T>(s: Seq<T>, p: spec_fn(T) -> bool) -> int
    decreases s.len(),
{
    if s.len() == 0 {
        -1
    } else if p(s[0]) {
        0
    } else {
        let r = first_match(s.drop_first(), p);
        if r < 0 {
            -1
        } else {
            r + 1
        }
    }
}

/// `first_match` is the first index that satisfies `p`, and -1 exactly when
/// no element does.
pub proof fn lemma_first_match<T>(s: Seq<T>, p: spec_fn(T) -> bool, i: int)
    requires
        0 <= i <= s.len(),
        forall|k: int| 0 <= k < i ==> !p(#[trigger] s[k]),
        i < s.len() ==> p(s[i]),
    ensures
        first_match(s, p) == if i < s.len() {
            i
        } else {
            -1
        },
    decreases s.len(),
{
    if s.len() > 0 && i > 0 {
        assert forall|k: int| 0 <= k < i - 1 implies !p(#[trigger] s.drop_first()[k]) by {
            assert(s.drop_first()[k] == s[k + 1]);
        }
        if i < s.len() {
            assert(s.drop_first()[i - 1] == s[i]);
        }
        lemma_first_match(s.drop_first(), p, i - 1);
    }
}

/// What `first_match` gives: an in-range index whose element satisfies `p`
/// and no earlier element does, or -1 when no element does.
pub proof fn lemma_first_match_spec<T>(s: Seq<T>, p: spec_fn(T) -> bool)
    ensures
        -1 <= first_match(s, p) < s.len(),
        first_match(s, p) >= 0 ==> p(s[first_match(s, p)]),
        forall|k: int| 0 <= k < first_match(s, p) ==> !p(#[trigger] s[k]),
        first_match(s, p) < 0 ==> forall|k: int| 0 <= k < s.len() ==> !p(#[trigger] s[k]),
    decreases s.len(),
{
    if s.len() > 0 && !p(s[0]) {
        let t = s.drop_first();
        lemma_first_match_spec(t, p);
        assert forall|k: int| 0 <= k < first_match(s, p) implies !p(#[trigger] s[k]) by {
            if k > 0 {
                assert(s[k] == t[k - 1]);
            }
        }
        if first_match(s, p) < 0 {
            assert forall|k: int| 0 <= k < s.len() implies !p(#[trigger] s[k]) by {
                if k > 0 {
                    assert(s[k] == t[k - 1]);
                }
            }
        } else {
            assert(s[first_match(s, p)] == t[first_match(t, p)]);
        }
    }
}

/// The elements of the first `n` of `s` that satisfy `p`, in order.
pub open spec fn keep<T>(s: Seq<T>, p: spec_fn(T) -> bool, n: int) -> Seq<T>
    decreases n,
{
    if n <= 0 {
        Seq::empty()
    } else {
        let k = keep(s, p, n - 1);
        if p(s[n - 1]) {
            k.push(s[n - 1])
        } else {
            k
        }
    }
}

/// The elements of `s` that satisfy `p`, in order.
pub open spec fn keep_all<T>(s: Seq<T>, p: spec_fn(T) -> bool) -> Seq<T> {
    keep(s, p, s.len() as int)
}

/// Number of elements of the first `n` of `s` that satisfy `p`.
pub open spec fn count_matching<T>(s: Seq<T>, p: spec_fn(T) -> bool, n: int) -> nat
    decreases n,
{
    if n <= 0 {
        0
    } else {
        count_matching(s, p, n - 1) + if p(s[n - 1]) {
            1nat
        } else {
            0nat
        }
    }
}

/// Kept elements satisfy the predicate, and there are no more of them than
/// elements looked at.
pub proof fn lemma_keep<T>(s: Seq<T>, p: spec_fn(T) -> bool, n: int)
    requires
        0 <= n <= s.len(),
    ensures
        keep(s, p, n).len() <= n,
        forall|i: int| 0 <= i < keep(s, p, n).len() ==> p(#[trigger] keep(s, p, n)[i]),
    decreases n,
{
    if n > 0 {
        lemma_keep(s, p, n - 1);
    }
}

proof fn lemma_keep_prefix_filter<T>(s: Seq<T>, p: spec_fn(T) -> bool, n: int)
    requires
        0 <= n <= s.len(),
    ensures
        keep(s, p, n) == s.subrange(0, n).filter(p),
        count_matching(s, p, n) == s.subrange(0, n).filter(p).len(),
    decreases n,
{
    reveal(Seq::filter);
    if n > 0 {
        lemma_keep_prefix_filter(s, p, n - 1);
        assert(s.subrange(0, n).drop_last() =~= s.subrange(0, n - 1));
    } else {
        assert(s.subrange(0, 0) =~= Seq::<T>::empty());
    }
}

/// Keeping the elements that satisfy `p` takes exactly those elements, in
/// order, and counting them counts exactly those: both agree with
/// `Seq::filter`.
pub proof fn law_keep_is_filter<T>(s: Seq<T>, p: spec_fn(T) -> bool, n: int)
    requires
        0 <= n <= s.len(),
    ensures
        keep(s, p, n) == s.subrange(0, n).filter(p),
        count_matching(s, p, n) == s.subrange(0, n).filter(p).len(),
        keep_all(s, p) == s.filter(p),
{
    lemma_keep_prefix_filter(s, p, n);
    lemma_keep_prefix_filter(s, p, s.len() as int);
    assert(s.subrange(0, s.len() as int) =~= s);
}

} // verus!
