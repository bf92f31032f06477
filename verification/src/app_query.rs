//! The query behind the start menu's app list: name matching and the
//! pinned-first, then alphabetical ordering.
use vstd::prelude::*;
use std::collections::VecDeque;
use crate::text::{bytes_lt, bytes_less, has_infix, lower_bytes, contains_bytes, lower_ascii};
use crate::text::{lemma_bytes_lt_total, lemma_bytes_lt_transitive, lemma_bytes_lt_irreflexive};
use crate::text::is_valid_utf8;
use crate::search::{first_match, lemma_first_match};
use vstd::utf8::valid_utf8;
use vstd::string::StringSliceAdditionalSpecFns;

verus! {

broadcast use vstd::seq_lib::group_to_multiset_ensures, vstd::seq_lib::to_multiset_insert;

/// The lowered query that a raw search buffer stands for: its ASCII lowercase
/// when it is valid UTF-8, and the empty query otherwise.
pub open spec fn query_of(search: Seq<u8>) -> Seq<u8> {
    if valid_utf8(search) {
        lower_bytes(search)
    } else {
        Seq::empty()
    }
}

/// A name matches a lowered query when the query is empty or occurs in the
/// ASCII lowercase of the name's bytes.
pub open spec fn name_matches(name: Seq<u8>, query: Seq<u8>) -> bool {
    query.len() == 0 || has_infix(lower_bytes(name), query)
}

/// App `a` sorts strictly before app `b` by key: pinned first, then by name bytes.
pub open spec fn key_less(pinned: Seq<bool>, names: Seq<&str>, a: usize, b: usize) -> bool {
    ||| (pinned[a as int] && !pinned[b as int])
    ||| (pinned[a as int] == pinned[b as int] && bytes_lt(
        names[a as int].spec_bytes(),
        names[b as int].spec_bytes(),
    ))
}

/// The order of the app list: by key, and by id between equal keys (the
/// order a stable sort keeps for ids that come in ascending order).
pub open spec fn precedes(pinned: Seq<bool>, names: Seq<&str>, a: usize, b: usize) -> bool {
    key_less(pinned, names, a, b) || (!key_less(pinned, names, b, a) && a < b)
}

/// Every earlier id precedes every later one.
pub open spec fn sorted_ids(pinned: Seq<bool>, names: Seq<&str>, s: Seq<usize>) -> bool {
    forall|i: int, j: int| 0 <= i < j < s.len() ==> precedes(pinned, names, #[trigger] s[i], #[trigger] s[j])
}

/// The ids of `s` all index into `pinned` and `names`.
pub open spec fn ids_in_range(pinned: Seq<bool>, names: Seq<&str>, s: Seq<usize>) -> bool {
    forall|i: int| 0 <= i < s.len() ==> #[trigger] s[i] < pinned.len() && s[i] < names.len()
}

proof fn lemma_key_less_then_le(pinned: Seq<bool>, names: Seq<&str>, x: usize, a: usize, b: usize)
    requires
        x < pinned.len() && x < names.len(),
        a < pinned.len() && a < names.len(),
        b < pinned.len() && b < names.len(),
        key_less(pinned, names, x, a),
        !key_less(pinned, names, b, a),
    ensures
        key_less(pinned, names, x, b),
{
    let nx = names[x as int].spec_bytes();
    let na = names[a as int].spec_bytes();
    let nb = names[b as int].spec_bytes();
    lemma_bytes_lt_total(na, nb);
    if bytes_lt(nx, na) && bytes_lt(na, nb) {
        lemma_bytes_lt_transitive(nx, na, nb);
    }
}

proof fn lemma_key_less_trans(pinned: Seq<bool>, names: Seq<&str>, x: usize, a: usize, b: usize)
    requires
        x < pinned.len() && x < names.len(),
        a < pinned.len() && a < names.len(),
        b < pinned.len() && b < names.len(),
        key_less(pinned, names, x, a),
        key_less(pinned, names, a, b),
    ensures
        key_less(pinned, names, x, b),
{
    let nx = names[x as int].spec_bytes();
    let na = names[a as int].spec_bytes();
    let nb = names[b as int].spec_bytes();
    if bytes_lt(nx, na) && bytes_lt(na, nb) {
        lemma_bytes_lt_transitive(nx, na, nb);
    }
}

/// Whether app `a` sorts strictly before app `b` by key.
fn key_less_exec(pinned: &Vec<bool>, names: &Vec<&str>, a: usize, b: usize) -> (r: bool)
    requires
        a < pinned@.len() && a < names@.len(),
        b < pinned@.len() && b < names@.len(),
    ensures
        r == key_less(pinned@, names@, a, b),
{
    let pa = pinned[a];
    let pb = pinned[b];
    if pa && !pb {
        true
    } else if pa == pb {
        bytes_less(names[a].as_bytes(), names[b].as_bytes())
    } else {
        false
    }
}

/// Where a stable insertion puts `x` into `r`: before the first id whose key
/// `x` sorts strictly before, or at the end when there is none.
pub open spec fn insert_pos(pinned: Seq<bool>, names: Seq<&str>, r: Seq<usize>, x: usize) -> int {
    let f = first_match(r, |y: usize| key_less(pinned, names, x, y));
    if f < 0 {
        r.len() as int
    } else {
        f
    }
}

/// `s` stably sorted by key (pinned first, then by name): each id, taken in
/// order, goes after every id already placed whose key it does not sort
/// strictly before, so ids with equal keys keep the order they came in.
pub open spec fn stable_by_key(pinned: Seq<bool>, names: Seq<&str>, s: Seq<usize>) -> Seq<usize>
    decreases s.len(),
{
    if s.len() == 0 {
        Seq::empty()
    } else {
        let r = stable_by_key(pinned, names, s.drop_last());
        r.insert(insert_pos(pinned, names, r, s.last()), s.last())
    }
}

/// No later id sorts strictly before an earlier one by key.
pub open spec fn key_sorted(pinned: Seq<bool>, names: Seq<&str>, s: Seq<usize>) -> bool {
    forall|i: int, j: int|
        0 <= i < j < s.len() ==> !key_less(pinned, names, #[trigger] s[j], #[trigger] s[i])
}

/// Stable sort: pinned apps first, then by name; ids with equal keys keep
/// their order. For ascending ids, ties come out in ascending id order.
pub fn sort_by_pin_then_name(ids: &Vec<usize>, pinned: &Vec<bool>, names: &Vec<&str>) -> (r: Vec<usize>)
    requires
        ids_in_range(pinned@, names@, ids@),
    ensures
        r@ == stable_by_key(pinned@, names@, ids@),
        r@.len() == ids@.len(),
        r@.to_multiset() == ids@.to_multiset(),
        ids_in_range(pinned@, names@, r@),
        key_sorted(pinned@, names@, r@),
        (forall|i: int, j: int| 0 <= i < j < ids@.len() ==> ids@[i] < ids@[j]) ==> sorted_ids(
            pinned@,
            names@,
            r@,
        ),
{
    let ghost inc = forall|i: int, j: int| 0 <= i < j < ids@.len() ==> ids@[i] < ids@[j];
    let mut r: Vec<usize> = Vec::new();
    let mut i: usize = 0;
    while i < ids.len()
        invariant
            i <= ids@.len(),
            ids_in_range(pinned@, names@, ids@),
            inc == forall|a: int, b: int| 0 <= a < b < ids@.len() ==> ids@[a] < ids@[b],
            r@ == stable_by_key(pinned@, names@, ids@.subrange(0, i as int)),
            r@.len() == i,
            r@.to_multiset() == ids@.subrange(0, i as int).to_multiset(),
            ids_in_range(pinned@, names@, r@),
            key_sorted(pinned@, names@, r@),
            inc ==> sorted_ids(pinned@, names@, r@),
            inc && i > 0 ==> forall|k: int| 0 <= k < r@.len() ==> #[trigger] r@[k] <= ids@[i - 1],
        decreases ids@.len() - i,
    {
        let x = ids[i];
        assert(x < pinned@.len() && x < names@.len());
        let mut pos: usize = 0;
        while pos < r.len() && !key_less_exec(pinned, names, x, r[pos])
            invariant
                pos <= r@.len(),
                x < pinned@.len() && x < names@.len(),
                ids_in_range(pinned@, names@, r@),
                forall|k: int| 0 <= k < pos ==> !key_less(pinned@, names@, x, #[trigger] r@[k]),
            decreases r@.len() - pos,
        {
            pos = pos + 1;
        }
        let ghost old_r = r@;
        proof {
            let p = |y: usize| key_less(pinned@, names@, x, y);
            assert forall|k: int| 0 <= k < pos implies !p(#[trigger] old_r[k]) by {}
            if pos < old_r.len() {
                assert(p(old_r[pos as int]));
            }
            lemma_first_match(old_r, p, pos as int);
            assert(insert_pos(pinned@, names@, old_r, x) == pos);
            let pre = ids@.subrange(0, i + 1);
            assert(pre.drop_last() =~= ids@.subrange(0, i as int));
            assert(pre.last() == x);
        }
        assert(inc ==> forall|k: int| 0 <= k < old_r.len() ==> #[trigger] old_r[k] < x) by {
            if inc && i > 0 {
                assert(ids@[i - 1] < ids@[i as int]);
            }
        }
        r.insert(pos, x);
        assert(r@ == old_r.insert(pos as int, x));
        assert(ids@.subrange(0, i + 1) =~= ids@.subrange(0, i as int).push(x));
        assert forall|a: int, b: int| 0 <= a < b < r@.len() implies !key_less(
            pinned@,
            names@,
            #[trigger] r@[b],
            #[trigger] r@[a],
        ) by {
            if a < pos && b < pos {
                assert(!key_less(pinned@, names@, old_r[b], old_r[a]));
            } else if a < pos && b == pos {
                assert(!key_less(pinned@, names@, x, old_r[a]));
            } else if a < pos && b > pos {
                assert(!key_less(pinned@, names@, old_r[b - 1], old_r[a]));
            } else if a == pos {
                let y = old_r[pos as int];
                let z = old_r[b - 1];
                assert(key_less(pinned@, names@, x, y));
                if b - 1 > pos {
                    assert(!key_less(pinned@, names@, z, y));
                }
                if key_less(pinned@, names@, z, x) {
                    lemma_key_less_trans(pinned@, names@, z, x, y);
                    lemma_bytes_lt_irreflexive(names@[y as int].spec_bytes());
                }
            } else {
                assert(!key_less(pinned@, names@, old_r[b - 1], old_r[a - 1]));
            }
        }
        assert(inc ==> sorted_ids(pinned@, names@, r@)) by {
            if inc {
            assert forall|a: int, b: int| 0 <= a < b < r@.len() implies precedes(
                pinned@,
                names@,
                #[trigger] r@[a],
                #[trigger] r@[b],
            ) by {
                if a < pos && b < pos {
                    assert(precedes(pinned@, names@, old_r[a], old_r[b]));
                } else if a < pos && b == pos {
                    assert(!key_less(pinned@, names@, x, old_r[a]));
                    assert(old_r[a] < x);
                } else if a < pos && b > pos {
                    assert(precedes(pinned@, names@, old_r[a], old_r[b - 1]));
                } else if a == pos {
                    assert(key_less(pinned@, names@, x, old_r[pos as int]));
                    if b - 1 > pos {
                        let y = old_r[pos as int];
                        let z = old_r[b - 1];
                        assert(precedes(pinned@, names@, y, z));
                        if key_less(pinned@, names@, y, z) {
                            lemma_key_less_trans(pinned@, names@, x, y, z);
                        } else {
                            lemma_key_less_then_le(pinned@, names@, x, y, z);
                        }
                    }
                } else {
                    assert(precedes(pinned@, names@, old_r[a - 1], old_r[b - 1]));
                }
            }
            }
        }
        i = i + 1;
    }
    assert(ids@.subrange(0, ids@.len() as int) =~= ids@);
    r
}

/// The lowered query for a raw search buffer, as `str::from_utf8` and
/// `u8::to_ascii_lowercase` give it.
pub fn lowered_query(search: &[u8]) -> (q: Vec<u8>)
    ensures
        q@ == query_of(search@),
{
    if is_valid_utf8(search) {
        lower_ascii(search)
    } else {
        Vec::new()
    }
}

/// Whether an app name matches a lowered query.
pub fn name_matches_query(name: &str, query: &Vec<u8>) -> (r: bool)
    ensures
        r == name_matches(name.spec_bytes(), query@),
{
    if query.len() == 0 {
        return true;
    }
    let lowered = lower_ascii(name.as_bytes());
    contains_bytes(&lowered, query)
}

/// `s` with every occurrence of `x` taken out, the rest in order.
pub open spec fn without(s: Seq<usize>, x: usize) -> Seq<usize>
    decreases s.len(),
{
    if s.len() == 0 {
        s
    } else {
        let w = without(s.drop_last(), x);
        if s.last() == x {
            w
        } else {
            w.push(s.last())
        }
    }
}

/// The recent-apps queue after launching `x`: `x` moves to the front, and
/// the oldest entry drops off when the queue grows past its cap of ten.
pub open spec fn after_launch(recent: Seq<usize>, x: usize) -> Seq<usize> {
    let t = seq![x] + without(recent, x);
    if t.len() > 10 {
        t.drop_last()
    } else {
        t
    }
}

/// No index occurs twice.
pub open spec fn no_dups(s: Seq<usize>) -> bool {
    forall|i: int, j: int| 0 <= i < j < s.len() ==> s[i] != s[j]
}

proof fn lemma_without(s: Seq<usize>, x: usize)
    ensures
        without(s, x).len() <= s.len(),
        !without(s, x).contains(x),
        forall|y: usize| y != x ==> (without(s, x).contains(y) <==> s.contains(y)),
        no_dups(s) ==> no_dups(without(s, x)),
    decreases s.len(),
{
    if s.len() > 0 {
        lemma_without(s.drop_last(), x);
        let w = without(s.drop_last(), x);
        assert forall|y: usize| y != x implies (without(s, x).contains(y) <==> s.contains(y)) by {
            if s.contains(y) {
                let k = choose|k: int| 0 <= k < s.len() && s[k] == y;
                if k < s.len() - 1 {
                    assert(s.drop_last()[k] == y);
                    assert(s.drop_last().contains(y));
                    assert(w.contains(y));
                    let k3 = choose|k3: int| 0 <= k3 < w.len() && w[k3] == y;
                    if s.last() != x {
                        assert(w.push(s.last())[k3] == y);
                    }
                    assert(without(s, x)[k3] == y);
                } else {
                    assert(without(s, x).last() == y);
                }
            }
            if y == s.last() {
                assert(s[s.len() - 1] == y);
            }
            if without(s, x).contains(y) && y != s.last() {
                let ws = without(s, x);
                let k = choose|k: int| 0 <= k < ws.len() && ws[k] == y;
                assert(k < w.len() && w[k] == y);
                assert(w.contains(y));
                assert(s.drop_last().contains(y));
                let k2 = choose|k2: int| 0 <= k2 < s.drop_last().len() && s.drop_last()[k2] == y;
                assert(s[k2] == y);
            }
        }
        if no_dups(s) {
            assert(no_dups(s.drop_last()));
            if s.last() != x {
                assert(!s.drop_last().contains(s.last()));
                assert(!w.contains(s.last()));
                assert forall|i: int, j: int| 0 <= i < j < w.push(s.last()).len() implies w.push(s.last())[i]
                    != w.push(s.last())[j] by {
                    if j == w.len() {
                        assert(w[i] == w.push(s.last())[i]);
                    }
                }
            }
        }
    }
}

/// Launching an app puts it at the front of the recent queue, keeps each
/// app at most once in the queue, and keeps the queue at ten entries or fewer.
pub proof fn law_launch_moves_to_front(recent: Seq<usize>, x: usize)
    requires
        no_dups(recent),
        recent.len() <= 10,
    ensures
        after_launch(recent, x)[0] == x,
        no_dups(after_launch(recent, x)),
        after_launch(recent, x).len() <= 10,
        after_launch(recent, x).contains(x),
{
    lemma_without(recent, x);
    let w = without(recent, x);
    let t = seq![x] + w;
    assert(t[0] == x);
    assert forall|i: int, j: int| 0 <= i < j < t.len() implies t[i] != t[j] by {
        if i == 0 {
            assert(t[j] == w[j - 1]);
            assert(w.contains(w[j - 1]));
        } else {
            assert(t[i] == w[i - 1] && t[j] == w[j - 1]);
        }
    }
    let r = after_launch(recent, x);
    assert(r[0] == x);
}

/// The id is not `x`.
pub open spec fn other_id(x: usize) -> spec_fn(usize) -> bool {
    |y: usize| y != x
}

proof fn lemma_without_filters(s: Seq<usize>, x: usize)
    ensures
        without(s, x) == s.filter(other_id(x)),
    decreases s.len(),
{
    reveal(Seq::filter);
    if s.len() > 0 {
        lemma_without_filters(s.drop_last(), x);
    }
}

/// Launching `x` keeps every other app of the queue, in its old order:
/// after `x` at the front come exactly the other entries of the old queue,
/// less the oldest of them when the queue would grow past ten.
pub proof fn law_launch_keeps_others(recent: Seq<usize>, x: usize)
    ensures
        ({
            let others = recent.filter(other_id(x));
            let a = after_launch(recent, x);
            &&& a[0] == x
            &&& a.len() == if others.len() + 1 > 10 {
                others.len()
            } else {
                others.len() + 1
            }
            &&& forall|i: int| 1 <= i < a.len() ==> #[trigger] a[i] == others[i - 1]
        }),
{
    lemma_without_filters(recent, x);
    let w = without(recent, x);
    let u = seq![x] + w;
    assert forall|i: int| 1 <= i < u.len() implies #[trigger] u[i] == w[i - 1] by {}
    if u.len() > 10 {
        assert forall|i: int| 1 <= i < u.drop_last().len() implies #[trigger] u.drop_last()[i] == w[i
            - 1] by {
            assert(u.drop_last()[i] == u[i]);
        }
    }
}

/// Record a launch of `x` in a recent-apps queue.
pub fn record_in_recent(recent: &mut VecDeque<usize>, x: usize)
    ensures
        final(recent)@ == after_launch(old(recent)@, x),
{
    let mut kept: VecDeque<usize> = VecDeque::new();
    let n = recent.len();
    let mut i: usize = 0;
    while i < n
        invariant
            n == recent@.len(),
            i <= n,
            kept@ == without(recent@.subrange(0, i as int), x),
        decreases n - i,
    {
        let y = recent[i];
        let ghost pre = recent@.subrange(0, i as int);
        assert(recent@.subrange(0, i + 1).drop_last() =~= pre);
        if y != x {
            kept.push_back(y);
        }
        i = i + 1;
    }
    assert(recent@.subrange(0, n as int) =~= recent@);
    kept.push_front(x);
    if kept.len() > 10 {
        kept.pop_back();
    }
    *recent = kept;
}

} // verus!
