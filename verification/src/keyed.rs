//! Records looked up by a string key (an id or a name).
use vstd::prelude::*;
use crate::search::{first_match, lemma_first_match, lemma_first_match_spec};

verus! {

/// A value with a string key, seen through its view.
pub trait Keyed: View + Sized {
    /// The key of a viewed value.
    spec fn key_of(v: Self::V) -> Seq<char>;

    /// The key, as a string.
    fn key_str(&self) -> (r: &str)
        ensures
            r@ == Self::key_of(self@);
}

/// The views of a sequence of values.
pub open spec fn views<T: View>(s: Seq<T>) -> Seq<T::V> {
    s.map_values(|x: T| x@)
}

/// The viewed value has key `id`.
pub open spec fn key_is<T: Keyed>(id: Seq<char>) -> spec_fn(T::V) -> bool {
    |v: T::V| T::key_of(v) == id
}

/// Index of the first value whose key is `id`, or -1.
pub open spec fn key_index<T: Keyed>(s: Seq<T>, id: Seq<char>) -> int {
    first_match(views(s), key_is::<T>(id))
}

/// Index of the first value of `v` whose key is `id`.
pub fn find_key<T: Keyed>(v: &Vec<T>, id: &str) -> (r: Option<usize>)
    ensures
        match r {
            Some(k) => k as int == key_index(v@, id@),
            None => key_index(v@, id@) < 0,
        },
{
    let ghost vs = views(v@);
    let mut k: usize = 0;
    while k < v.len()
        invariant
            vs == views(v@),
            k <= v@.len(),
            forall|j: int| 0 <= j < k ==> !key_is::<T>(id@)(#[trigger] vs[j]),
        decreases v@.len() - k,
    {
        if crate::text::str_eq(v[k].key_str(), id) {
            proof {
                lemma_first_match(vs, key_is::<T>(id@), k as int);
            }
            return Some(k);
        }
        k = k + 1;
    }
    proof {
        lemma_first_match(vs, key_is::<T>(id@), k as int);
    }
    None
}

/// Pushing a value pushes its view.
pub proof fn lemma_views_push<T: View>(s: Seq<T>, x: T)
    ensures
        views(s.push(x)) == views(s).push(x@),
{
    assert(views(s.push(x)) =~= views(s).push(x@));
}

/// Removing a value removes its view.
pub proof fn lemma_views_remove<T: View>(s: Seq<T>, i: int)
    requires
        0 <= i < s.len(),
    ensures
        views(s.remove(i)) == views(s).remove(i),
{
    assert(views(s.remove(i)) =~= views(s).remove(i));
}

/// Replacing a value replaces its view.
pub broadcast proof fn lemma_views_update<T: View>(s: Seq<T>, i: int, x: T)
    requires
        0 <= i < s.len(),
    ensures
        #[trigger] views(s.update(i, x)) == views(s).update(i, x@),
{
    assert(views(s.update(i, x)) =~= views(s).update(i, x@));
}

/// Appending a value under a key no earlier value has makes it the first
/// value with that key, and removing it there gives the sequence back.
pub proof fn lemma_push_fresh_key<T: Keyed>(s: Seq<T::V>, x: T::V)
    requires
        first_match(s, key_is::<T>(T::key_of(x))) < 0,
    ensures
        first_match(s.push(x), key_is::<T>(T::key_of(x))) == s.len(),
        s.push(x).remove(s.len() as int) == s,
{
    let p = key_is::<T>(T::key_of(x));
    lemma_first_match_spec(s, p);
    assert forall|k: int| 0 <= k < s.len() implies !p(#[trigger] s.push(x)[k]) by {
        assert(s.push(x)[k] == s[k]);
    }
    lemma_first_match(s.push(x), p, s.len() as int);
    assert(s.push(x).remove(s.len() as int) =~= s);
}

} // verus!
