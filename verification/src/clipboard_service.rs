//! Clipboard service: buffer, history, pinned entries.
use vstd::prelude::*;
use std::collections::VecDeque;
use vstd::string::StringSliceAdditionalSpecFns;
use vstd::utf8::valid_utf8;
use crate::text::{copy_str, str_from_utf8, string_eq_str, lemma_same_bytes_same_chars, lemma_str_bytes_valid};

verus! {

pub struct ClipboardEntry {
    pub text: String,
    pub pinned: bool,
}

/// An entry as its text and pin flag.
pub open spec fn entry_view(e: ClipboardEntry) -> (Seq<char>, bool) {
    (e.text@, e.pinned)
}

/// A history as texts and pin flags, newest first.
pub open spec fn history_view(h: Seq<ClipboardEntry>) -> Seq<(Seq<char>, bool)> {
    h.map_values(|e: ClipboardEntry| entry_view(e))
}

/// `h` with every entry whose text is `t` taken out, the rest in order.
pub open spec fn without_text(h: Seq<(Seq<char>, bool)>, t: Seq<char>) -> Seq<(Seq<char>, bool)>
    decreases h.len(),
{
    if h.len() == 0 {
        h
    } else {
        let w = without_text(h.drop_last(), t);
        if h.last().0 == t {
            w
        } else {
            w.push(h.last())
        }
    }
}

/// The history after copying `t`: `t` moves to the front, unpinned, and the
/// oldest entry drops off when the history grows past twenty entries.
pub open spec fn after_copy(h: Seq<(Seq<char>, bool)>, t: Seq<char>) -> Seq<(Seq<char>, bool)> {
    let u = seq![(t, false)] + without_text(h, t);
    if u.len() > 20 {
        u.drop_last()
    } else {
        u
    }
}

pub struct ClipboardService {
    pub buf: Vec<u8>,
    pub history: VecDeque<ClipboardEntry>,
    pub panel_open: bool,
}

impl ClipboardService {
    pub fn new() -> (c: Self)
        ensures
            c.buf@ == Seq::<u8>::empty(),
            history_view(c.history@) == seq![(Seq::<char>::empty(), false)],
            !c.panel_open,
    {
        let mut history: VecDeque<ClipboardEntry> = VecDeque::new();
        history.push_back(ClipboardEntry { text: String::new(), pinned: false });
        assert(history_view(history@) =~= seq![(Seq::<char>::empty(), false)]);
        ClipboardService { buf: Vec::new(), history, panel_open: false }
    }

    /// Put `text` in the buffer and at the front of the history.
    pub fn copy(&mut self, text: &str)
        ensures
            final(self).buf@ == text.spec_bytes(),
            history_view(final(self).history@) == after_copy(history_view(old(self).history@), text@),
            final(self).panel_open == old(self).panel_open,
    {
        self.buf = vstd::slice::slice_to_vec(text.as_bytes());
        let ghost h0 = history_view(self.history@);
        let mut kept: VecDeque<ClipboardEntry> = VecDeque::new();
        let ghost mut taken: int = 0;
        while self.history.len() > 0
            invariant
                self.buf@ == text.spec_bytes(),
                self.panel_open == old(self).panel_open,
                0 <= taken <= h0.len(),
                history_view(self.history@) == h0.subrange(taken, h0.len() as int),
                history_view(kept@) == without_text(h0.subrange(0, taken), text@),
            decreases self.history@.len(),
        {
            let ghost before = self.history@;
            assert(history_view(before).len() == before.len());
            assert(taken < h0.len());
            let e = self.history.pop_front().unwrap();
            assert(history_view(before)[0] == entry_view(before[0]));
            assert(h0.subrange(taken, h0.len() as int)[0] == h0[taken]);
            assert(entry_view(e) == h0[taken]);
            assert(h0.subrange(0, taken + 1).drop_last() =~= h0.subrange(0, taken));
            if !string_eq_str(&e.text, text) {
                let ghost k0 = kept@;
                kept.push_back(e);
                assert(history_view(kept@) =~= history_view(k0).push(entry_view(e)));
            }
            proof {
                taken = taken + 1;
            }
            assert forall|k: int| 0 <= k < self.history@.len() implies #[trigger] history_view(
                self.history@,
            )[k] == h0.subrange(taken, h0.len() as int)[k] by {
                assert(self.history@[k] == before[k + 1]);
                assert(history_view(before)[k + 1] == h0.subrange(taken - 1, h0.len() as int)[k + 1]);
            }
            assert(history_view(self.history@) =~= h0.subrange(taken, h0.len() as int));
        }
        assert(h0.subrange(0, taken) =~= h0);
        let ghost k1 = kept@;
        kept.push_front(ClipboardEntry { text: copy_str(text), pinned: false });
        assert(history_view(kept@) =~= seq![(text@, false)] + history_view(k1));
        if kept.len() > 20 {
            let ghost k2 = kept@;
            kept.pop_back();
            assert(history_view(kept@) =~= history_view(k2).drop_last());
        }
        self.history = kept;
    }

    /// The buffer as text: none when it is empty or not valid UTF-8.
    pub fn paste(&self) -> (r: Option<&str>)
        ensures
            self.buf@.len() == 0 ==> r is None,
            self.buf@.len() > 0 ==> (r is Some <==> valid_utf8(self.buf@)),
            r matches Some(s) ==> s.spec_bytes() == self.buf@,
    {
        if self.buf.len() == 0 {
            None
        } else {
            str_from_utf8(self.buf.as_slice())
        }
    }

    pub fn is_empty(&self) -> (r: bool)
        ensures
            r == (self.buf@.len() == 0),
    {
        self.buf.len() == 0
    }

    /// Flip the pin flag of history entry `idx`; an index past the end
    /// changes nothing.
    pub fn toggle_pin(&mut self, idx: usize)
        ensures
            idx < old(self).history@.len() ==> history_view(final(self).history@) == history_view(
                old(self).history@,
            ).update(idx as int, (old(self).history@[idx as int].text@, !old(self).history@[idx as int].pinned)),
            idx >= old(self).history@.len() ==> history_view(final(self).history@) == history_view(
                old(self).history@,
            ),
            final(self).buf@ == old(self).buf@,
            final(self).panel_open == old(self).panel_open,
    {
        if idx < self.history.len() {
            let ghost h = self.history@;
            let e = self.history.remove(idx).unwrap();
            let flipped = ClipboardEntry { text: e.text, pinned: !e.pinned };
            self.history.insert(idx, flipped);
            assert(history_view(self.history@) =~= history_view(h).update(
                idx as int,
                (h[idx as int].text@, !h[idx as int].pinned),
            ));
        }
    }
}

/// What `without_text` keeps: no entry with text `t`, and no more entries
/// than it was given.
pub proof fn lemma_without_text(h: Seq<(Seq<char>, bool)>, t: Seq<char>)
    ensures
        without_text(h, t).len() <= h.len(),
        forall|k: int| 0 <= k < without_text(h, t).len() ==> #[trigger] without_text(h, t)[k].0 != t,
    decreases h.len(),
{
    if h.len() > 0 {
        lemma_without_text(h.drop_last(), t);
    }
}

/// Copying keeps the history at no more than twenty entries, puts the copied
/// text first and unpinned, and leaves no other entry with that text.
pub proof fn law_copy_history(h: Seq<(Seq<char>, bool)>, t: Seq<char>)
    requires
        h.len() <= 20,
    ensures
        after_copy(h, t).len() <= 20,
        after_copy(h, t)[0] == (t, false),
        forall|k: int| 1 <= k < after_copy(h, t).len() ==> #[trigger] after_copy(h, t)[k].0 != t,
{
    lemma_without_text(h, t);
    let w = without_text(h, t);
    let u = seq![(t, false)] + w;
    assert forall|k: int| 1 <= k < u.len() implies #[trigger] u[k].0 != t by {
        assert(u[k] == w[k - 1]);
    }
}

/// Copying `t` leaves every other entry as it was: after the copied text at
/// the front, unpinned, come exactly the entries of the old history whose
/// text is not `t`, each with its text and pin flag unchanged and in their
/// old order, less the last of them when the history would grow past
/// twenty.
pub proof fn law_copy_keeps_others(h: Seq<(Seq<char>, bool)>, t: Seq<char>)
    ensures
        ({
            let others = h.filter(other_text(t));
            let a = after_copy(h, t);
            &&& a[0] == (t, false)
            &&& a.len() == if others.len() + 1 > 20 {
                others.len()
            } else {
                others.len() + 1
            }
            &&& forall|i: int| 1 <= i < a.len() ==> #[trigger] a[i] == others[i - 1]
        }),
{
    lemma_without_text_filters(h, t);
    let w = without_text(h, t);
    let u = seq![(t, false)] + w;
    assert forall|i: int| 1 <= i < u.len() implies #[trigger] u[i] == w[i - 1] by {}
    if u.len() > 20 {
        assert forall|i: int| 1 <= i < u.drop_last().len() implies #[trigger] u.drop_last()[i] == w[i
            - 1] by {
            assert(u.drop_last()[i] == u[i]);
        }
    }
}

/// The entry's text is not `t`.
pub open spec fn other_text(t: Seq<char>) -> spec_fn((Seq<char>, bool)) -> bool {
    |e: (Seq<char>, bool)| e.0 != t
}

/// `without_text` keeps, in order, the entries whose text is not `t`.
proof fn lemma_without_text_filters(h: Seq<(Seq<char>, bool)>, t: Seq<char>)
    ensures
        without_text(h, t) == h.filter(other_text(t)),
    decreases h.len(),
{
    reveal(Seq::filter);
    if h.len() > 0 {
        lemma_without_text_filters(h.drop_last(), t);
        assert(h.filter(other_text(t)) == if other_text(t)(h.last()) {
            h.drop_last().filter(other_text(t)).push(h.last())
        } else {
            h.drop_last().filter(other_text(t))
        });
    }
}

/// Copying non-empty text and then pasting gives that text back; copying
/// empty text leaves nothing to paste.
pub proof fn law_paste_returns_copied(c: ClipboardService, text: &str, s: &str)
    requires
        c.buf@ == text.spec_bytes(),
        s.spec_bytes() == c.buf@,
    ensures
        s@ == text@,
        valid_utf8(c.buf@),
        text@.len() == 0 <==> c.buf@.len() == 0,
{
    lemma_same_bytes_same_chars(s, text);
    lemma_str_bytes_valid(text);
    vstd::utf8::encode_utf8_decode_utf8(text@);
    if text@.len() > 0 {
        assert(vstd::utf8::encode_utf8(text@).len() > 0) by {
            vstd::utf8::encode_utf8_first_scalar(text@);
        }
    } else {
        assert(text@ =~= Seq::<char>::empty());
        assert(vstd::utf8::encode_utf8(text@) =~= Seq::<u8>::empty()) by {
            reveal_with_fuel(vstd::utf8::encode_utf8, 1);
        }
    }
}

} // verus!
