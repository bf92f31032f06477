//! Virtual filesystem integration: well-known folders and the directory
//! listing read from a directory stream.
use vstd::prelude::*;
use vstd::utf8::{valid_utf8, decode_utf8};
use crate::search::{first_match, lemma_first_match, lemma_first_match_spec};
use crate::text::{chars_of, copy_str, str_eq, str_from_utf8};

verus! {

pub struct VfsEntry {
    pub name: String,
    pub path: String,
    pub is_dir: bool,
    pub size: u64,
}

pub struct VfsRecord {
    pub name: Seq<char>,
    pub path: Seq<char>,
    pub is_dir: bool,
    pub size: u64,
}

impl View for VfsEntry {
    type V = VfsRecord;

    open spec fn view(&self) -> VfsRecord {
        VfsRecord { name: self.name@, path: self.path@, is_dir: self.is_dir, size: self.size }
    }
}

pub open spec fn entry_views(s: Seq<VfsEntry>) -> Seq<VfsRecord> {
    s.map_values(|e: VfsEntry| e@)
}

/// One raw record of a directory stream: the name bytes and the type byte.
pub struct DirRecord {
    pub name: Seq<u8>,
    pub kind: u8,
}

pub open spec fn is_zero() -> spec_fn(u8) -> bool {
    |b: u8| b == 0
}

/// The eight inode bytes at `off` are all zero (the inode number is zero
/// whatever the byte order).
pub open spec fn inode_is_zero(buf: Seq<u8>, off: int) -> bool {
    forall|i: int| 0 <= i < 8 ==> #[trigger] buf[off + i] == 0
}

/// Where the name starting at `start` ends: at the first zero byte of the
/// buffer from `start` on, or at `start` itself when there is none.
pub open spec fn name_end(buf: Seq<u8>, start: int) -> int {
    let rel = first_match(buf.subrange(start, buf.len() as int), is_zero());
    if rel >= 0 {
        start + rel
    } else {
        start
    }
}

/// The raw records of the first `n` bytes of a directory stream, from offset
/// `off`: each record is an 8-byte inode number (zero ends the stream), an
/// 8-byte record length, a type byte and a zero-terminated name; a record
/// needs at least 19 bytes left to be read.
pub open spec fn raw_records(buf: Seq<u8>, n: int, off: int) -> Seq<DirRecord>
    decreases n - off,
{
    if off < 0 || off + 19 > n || n > buf.len() || inode_is_zero(buf, off) {
        Seq::empty()
    } else {
        let start = off + 17;
        let end = name_end(buf, start);
        let rec = DirRecord { name: buf.subrange(start, end), kind: buf[off + 16] };
        if end + 1 > n {
            seq![rec]
        } else {
            seq![rec] + raw_records(buf, n, end + 1)
        }
    }
}

/// The name that name bytes stand for: their text when valid UTF-8, and the
/// empty name otherwise.
pub open spec fn entry_name(bytes: Seq<u8>) -> Seq<char> {
    if valid_utf8(bytes) {
        decode_utf8(bytes)
    } else {
        Seq::empty()
    }
}

/// The path of `name` inside directory `dir`.
pub open spec fn join_path(dir: Seq<char>, name: Seq<char>) -> Seq<char> {
    if dir.len() > 0 && dir.last() == '/' {
        dir + name
    } else {
        dir + "/"@ + name
    }
}

/// The entries that raw records list: every record except those named "."
/// or with an empty name; type 1 marks a directory.
pub open spec fn listing(dir: Seq<char>, recs: Seq<DirRecord>) -> Seq<VfsRecord>
    decreases recs.len(),
{
    if recs.len() == 0 {
        Seq::empty()
    } else {
        let rest = listing(dir, recs.drop_first());
        let name = entry_name(recs[0].name);
        if name != "."@ && name.len() > 0 {
            seq![VfsRecord { name, path: join_path(dir, name), is_dir: recs[0].kind == 1, size: 0 }]
                + rest
        } else {
            rest
        }
    }
}

/// The entry a raw record stands for when it is listed.
pub open spec fn record_entry(dir: Seq<char>, rec: DirRecord) -> VfsRecord {
    let name = decode_utf8(rec.name);
    VfsRecord { name, path: join_path(dir, name), is_dir: rec.kind == 1, size: 0 }
}

/// Whether a raw record names a real entry: its name is valid UTF-8, not
/// empty, and not ".".
pub open spec fn names_entry(rec: DirRecord) -> bool {
    valid_utf8(rec.name) && decode_utf8(rec.name).len() > 0 && decode_utf8(rec.name) != "."@
}

/// The record names a real entry.
pub open spec fn is_named_entry() -> spec_fn(DirRecord) -> bool {
    |rec: DirRecord| names_entry(rec)
}

/// The entry of a record, for directory `dir`.
pub open spec fn entry_in(dir: Seq<char>) -> spec_fn(DirRecord) -> VfsRecord {
    |rec: DirRecord| record_entry(dir, rec)
}

/// A listing is, in stream order, one entry for each record whose name is
/// valid UTF-8, not empty and not "." (hidden names starting with a dot
/// included), with that name, its path inside `dir`, and type 1 as a
/// directory; so every such record is listed, and nothing else is.
pub proof fn law_listing_entries(dir: Seq<char>, recs: Seq<DirRecord>)
    ensures
        listing(dir, recs) == recs.filter(is_named_entry()).map_values(entry_in(dir)),
        forall|i: int|
            0 <= i < recs.len() && names_entry(#[trigger] recs[i]) ==> listing(dir, recs).contains(
                record_entry(dir, recs[i]),
            ),
    decreases recs.len(),
{
    if recs.len() > 0 {
        let rest = recs.drop_first();
        law_listing_entries(dir, rest);
        let l = listing(dir, recs);
        let lr = listing(dir, rest);
        let name = entry_name(recs[0].name);
        let kept = name != "."@ && name.len() > 0;
        assert(kept <==> names_entry(recs[0]));
        let head = seq![recs[0]];
        assert(recs == head + rest);
        Seq::filter_distributes_over_add(head, rest, is_named_entry());
        assert(head.filter(is_named_entry()) == if kept {
            head
        } else {
            Seq::<DirRecord>::empty()
        }) by {
            reveal_with_fuel(Seq::filter, 2);
            assert(head.drop_last() =~= Seq::<DirRecord>::empty());
        }
        let fh = head.filter(is_named_entry());
        let fr = rest.filter(is_named_entry());
        assert((fh + fr).map_values(entry_in(dir)) =~= fh.map_values(entry_in(dir)) + fr.map_values(
            entry_in(dir),
        ));
        if kept {
            assert(l == seq![record_entry(dir, recs[0])] + lr);
            assert(fh.map_values(entry_in(dir)) =~= seq![record_entry(dir, recs[0])]);
        } else {
            assert(l == lr);
            assert(fh.map_values(entry_in(dir)) =~= Seq::<VfsRecord>::empty());
        }
        assert forall|i: int|
            0 <= i < recs.len() && names_entry(#[trigger] recs[i]) implies l.contains(
                record_entry(dir, recs[i]),
            ) by {
            if i == 0 {
                assert(l[0] == record_entry(dir, recs[0]));
            } else {
                assert(rest[i - 1] == recs[i]);
                assert(lr.contains(record_entry(dir, rest[i - 1])));
                let j = choose|j: int| 0 <= j < lr.len() && lr[j] == record_entry(dir, rest[i - 1]);
                if kept {
                    assert(l[j + 1] == lr[j]);
                } else {
                    assert(l[j] == lr[j]);
                }
            }
        }
    } else {
        reveal_with_fuel(Seq::filter, 1);
        assert(recs.filter(is_named_entry()).map_values(entry_in(dir)) =~= Seq::<VfsRecord>::empty());
    }
}

/// Position of the first zero byte of `buf` from `from` on, relative to `from`.
fn first_zero(buf: &[u8], from: usize) -> (r: Option<usize>)
    requires
        from <= buf@.len(),
    ensures
        match r {
            Some(k) => k as int == first_match(buf@.subrange(from as int, buf@.len() as int), is_zero()),
            None => first_match(buf@.subrange(from as int, buf@.len() as int), is_zero()) < 0,
        },
{
    let ghost tail = buf@.subrange(from as int, buf@.len() as int);
    let mut i = from;
    while i < buf.len()
        invariant
            from <= i <= buf@.len(),
            tail == buf@.subrange(from as int, buf@.len() as int),
            forall|j: int| 0 <= j < i - from ==> !is_zero()(#[trigger] tail[j]),
        decreases buf@.len() - i,
    {
        if buf[i] == 0 {
            assert(tail[i - from] == buf@[i as int]);
            proof {
                lemma_first_match(tail, is_zero(), i - from);
            }
            return Some(i - from);
        }
        assert(tail[i - from] == buf@[i as int]);
        i = i + 1;
    }
    proof {
        lemma_first_match(tail, is_zero(), i - from);
    }
    None
}

/// Whether the eight bytes at `off` are all zero.
fn inode_zero(buf: &[u8], off: usize) -> (r: bool)
    requires
        off + 8 <= buf@.len(),
    ensures
        r == inode_is_zero(buf@, off as int),
{
    let bl = buf.len();
    let mut i: usize = 0;
    while i < 8
        invariant
            bl == buf@.len(),
            off + 8 <= buf@.len(),
            i <= 8,
            forall|j: int| 0 <= j < i ==> #[trigger] buf@[off + j] == 0,
        decreases 8 - i,
    {
        if buf[off + i] != 0 {
            return false;
        }
        i = i + 1;
    }
    true
}

/// The path of `name` inside directory `dir`.
fn join(dir: &str, name: &str) -> (r: String)
    ensures
        r@ == join_path(dir@, name@),
{
    let cs = chars_of(dir);
    let mut full = copy_str(dir);
    if cs.len() > 0 && cs[cs.len() - 1] == '/' {
        full.append(name);
    } else {
        full.append("/");
        full.append(name);
    }
    full
}

/// The directory entries in the first `n` bytes of a directory stream read
/// from `dir` (see `raw_records` and `listing`).
pub fn parse_dir_entries(dir: &str, buf: &[u8], n: usize) -> (r: Vec<VfsEntry>)
    requires
        n <= buf@.len(),
    ensures
        entry_views(r@) == listing(dir@, raw_records(buf@, n as int, 0)),
{
    let ghost whole = listing(dir@, raw_records(buf@, n as int, 0));
    let mut entries: Vec<VfsEntry> = Vec::new();
    let mut off: usize = 0;
    let bl = buf.len();
    loop
        invariant_except_break
            whole == entry_views(entries@) + listing(dir@, raw_records(buf@, n as int, off as int)),
        invariant
            bl == buf@.len(),
            n <= buf@.len(),
            off <= n,
            whole == listing(dir@, raw_records(buf@, n as int, 0)),
        ensures
            whole == entry_views(entries@),
        decreases n - off,
    {
        if n < 19 || off > n - 19 {
            assert(entry_views(entries@) + Seq::<VfsRecord>::empty() =~= entry_views(entries@));
            break;
        }
        if inode_zero(buf, off) {
            assert(entry_views(entries@) + Seq::<VfsRecord>::empty() =~= entry_views(entries@));
            break;
        }
        let kind = buf[off + 16];
        let start = off + 17;
        proof {
            lemma_first_match_spec(buf@.subrange(start as int, buf@.len() as int), is_zero());
        }
        let end = match first_zero(buf, start) {
            Some(k) => start + k,
            None => start,
        };
        let ghost rec = DirRecord { name: buf@.subrange(start as int, end as int), kind };
        let ghost recs = raw_records(buf@, n as int, off as int);
        let ghost rest = if end + 1 > n {
            Seq::<DirRecord>::empty()
        } else {
            raw_records(buf@, n as int, end + 1)
        };
        assert(recs == seq![rec] + rest);
        assert(recs.drop_first() =~= rest);
        let bytes = &buf[start..end];
        let name: &str = match str_from_utf8(bytes) {
            Some(s) => s,
            None => {
                proof {
                    reveal_strlit("");
                }
                ""
            },
        };
        proof {
            if valid_utf8(bytes@) {
                vstd::utf8::encode_utf8_decode_utf8(name@);
            }
        }
        assert(name@ == entry_name(rec.name));
        let ghost before = entries@;
        if !str_eq(name, ".") && !name.is_empty() {
            let e = VfsEntry { name: copy_str(name), path: join(dir, name), is_dir: kind == 1, size: 0 };
            entries.push(e);
            assert(entry_views(entries@) =~= entry_views(before).push(e@));
            assert(listing(dir@, recs) == seq![e@] + listing(dir@, rest));
            assert(entry_views(before) + (seq![e@] + listing(dir@, rest)) =~= entry_views(entries@)
                + listing(dir@, rest));
        } else {
            assert(listing(dir@, recs) == listing(dir@, rest));
        }
        if end + 1 > n {
            assert(entry_views(entries@) + Seq::<VfsRecord>::empty() =~= entry_views(entries@));
            break;
        }
        off = end + 1;
    }
    entries
}

pub struct VfsContext {
    pub home: String,
    pub desktop: String,
    pub tmp: String,
    pub bin: String,
    pub etc: String,
    pub mnt: String,
}

impl VfsContext {
    pub fn new() -> (c: Self)
        ensures
            c.home@ == "/home"@,
            c.desktop@ == "/home/desktop"@,
            c.tmp@ == "/tmp"@,
            c.bin@ == "/bin"@,
            c.etc@ == "/etc"@,
            c.mnt@ == "/mnt"@,
    {
        VfsContext {
            home: copy_str("/home"),
            desktop: copy_str("/home/desktop"),
            tmp: copy_str("/tmp"),
            bin: copy_str("/bin"),
            etc: copy_str("/etc"),
            mnt: copy_str("/mnt"),
        }
    }
}

} // verus!
