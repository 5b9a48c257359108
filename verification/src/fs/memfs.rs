//! A RAM-backed file system: files hold bytes, directories hold named
//! entries kept in name order, and every node is reachable by its
//! normalized absolute path.

use std::collections::BTreeMap;
use vstd::prelude::*;
use vstd::string::*;
use super::path::{chars_of, spec_filename, spec_normalize, spec_parent, PathResolver};
use super::vfs::{DirEntry, FileSystem, FsError, VNode, VNodeAttr, VNodeType};

verus! {

broadcast use vstd::laws_cmp::group_laws_cmp;

/// Directory entries: names with the node each names.
pub type EntriesView = Seq<(Seq<char>, u64)>;

/// A node: whether it is a directory, a file's bytes, a directory's entries.
pub type NodeView = (bool, Seq<u8>, EntriesView);

/// A vnode: identifier, kind and path.
pub type VNodeView = (u64, VNodeType, Seq<char>);

/// The file system: nodes by identifier, vnodes by identifier, the path
/// table, and the next identifier to hand out.
pub type FsView = (Map<u64, NodeView>, Map<u64, VNodeView>, EntriesView, u64);

/// The view of a vnode.
pub open spec fn spec_vnode_view(v: VNode) -> VNodeView {
    (v.id, v.vtype, v.path@)
}

/// The order of strings: character by character, a proper prefix first.
pub open spec fn spec_str_lt(a: Seq<char>, b: Seq<char>) -> bool
    decreases a.len(),
{
    if b.len() == 0 {
        false
    } else if a.len() == 0 {
        true
    } else if a[0] != b[0] {
        (a[0] as u32) < (b[0] as u32)
    } else {
        spec_str_lt(a.drop_first(), b.drop_first())
    }
}

/// No string comes before itself.
pub proof fn lemma_str_lt_irreflexive(a: Seq<char>)
    ensures
        !spec_str_lt(a, a),
    decreases a.len(),
{
    if a.len() > 0 {
        lemma_str_lt_irreflexive(a.drop_first());
    }
}

/// Two strings are not each before the other.
pub proof fn lemma_str_lt_asymmetric(a: Seq<char>, b: Seq<char>)
    ensures
        spec_str_lt(a, b) ==> !spec_str_lt(b, a),
    decreases a.len(),
{
    if a.len() > 0 && b.len() > 0 && a[0] == b[0] {
        lemma_str_lt_asymmetric(a.drop_first(), b.drop_first());
    }
}

/// The order of strings is transitive.
pub proof fn lemma_str_lt_transitive(a: Seq<char>, b: Seq<char>, c: Seq<char>)
    requires
        spec_str_lt(a, b),
        spec_str_lt(b, c),
    ensures
        spec_str_lt(a, c),
    decreases a.len(),
{
    if a.len() > 0 && b.len() > 0 && c.len() > 0 && a[0] == b[0] && b[0] == c[0] {
        lemma_str_lt_transitive(a.drop_first(), b.drop_first(), c.drop_first());
    }
}

/// Of two different strings one comes first.
pub proof fn lemma_str_lt_total(a: Seq<char>, b: Seq<char>)
    ensures
        a == b || spec_str_lt(a, b) || spec_str_lt(b, a),
    decreases a.len(),
{
    if a.len() == 0 && b.len() == 0 {
        assert(a =~= b);
    } else if a.len() > 0 && b.len() > 0 && a[0] != b[0] {
        vstd::utf8::char_u32_cast(a[0], a[0] as u32);
        vstd::utf8::char_u32_cast(b[0], b[0] as u32);
    } else if a.len() > 0 && b.len() > 0 && a[0] == b[0] {
        let a1 = a.drop_first();
        let b1 = b.drop_first();
        lemma_str_lt_total(a1, b1);
        if a1 == b1 {
            assert(a.len() == b.len());
            assert forall|i: int| 0 <= i < a.len() implies a[i] == b[i] by {
                if i > 0 {
                    assert(a[i] == a1[i - 1]);
                    assert(b[i] == b1[i - 1]);
                }
            }
            assert(a =~= b);
        }
    }
}

/// Entries in strictly increasing name order.
pub open spec fn spec_sorted(s: EntriesView) -> bool {
    forall|i: int, j: int| 0 <= i < j < s.len() ==> spec_str_lt(#[trigger] s[i].0, #[trigger] s[j].0)
}

/// No name occurs twice.
pub open spec fn spec_unique(s: EntriesView) -> bool {
    forall|i: int, j: int| 0 <= i < s.len() && 0 <= j < s.len() && #[trigger] s[i].0 == #[trigger] s[j].0 ==> i == j
}

/// Some entry has the name.
pub open spec fn spec_has_name(s: EntriesView, name: Seq<char>) -> bool {
    exists|i: int| 0 <= i < s.len() && #[trigger] s[i].0 == name
}

/// The position of the entry with the name.
pub open spec fn spec_index_of(s: EntriesView, name: Seq<char>) -> int {
    choose|i: int| 0 <= i < s.len() && #[trigger] s[i].0 == name
}

/// The node the name stands for.
pub open spec fn spec_lookup(s: EntriesView, name: Seq<char>) -> Option<u64> {
    if spec_has_name(s, name) {
        Some(s[spec_index_of(s, name)].1)
    } else {
        None
    }
}

/// The number of entries whose name comes before `name`.
pub open spec fn spec_count_before(s: EntriesView, name: Seq<char>) -> nat
    decreases s.len(),
{
    if s.len() == 0 {
        0
    } else {
        spec_count_before(s.drop_last(), name) + if spec_str_lt(s.last().0, name) { 1nat } else { 0nat }
    }
}

/// The entries with `(name, id)` put in name order.
pub open spec fn spec_insert_sorted(s: EntriesView, name: Seq<char>, id: u64) -> EntriesView {
    s.insert(spec_count_before(s, name) as int, (name, id))
}

/// Sorted entries have distinct names.
pub proof fn lemma_sorted_unique(s: EntriesView)
    requires
        spec_sorted(s),
    ensures
        spec_unique(s),
{
    assert forall|i: int, j: int| 0 <= i < s.len() && 0 <= j < s.len() && #[trigger] s[i].0 == #[trigger] s[j].0 implies i
        == j by {
        if i < j {
            lemma_str_lt_irreflexive(s[i].0);
        } else if j < i {
            lemma_str_lt_irreflexive(s[j].0);
        }
    }
}

/// In entries whose first `p` names come before `name` and whose other
/// names do not, `p` names come before `name`.
proof fn lemma_count_before(s: EntriesView, name: Seq<char>, p: int)
    requires
        0 <= p <= s.len(),
        forall|k: int| 0 <= k < p ==> spec_str_lt(#[trigger] s[k].0, name),
        forall|k: int| p <= k < s.len() ==> !spec_str_lt(#[trigger] s[k].0, name),
    ensures
        spec_count_before(s, name) == p,
    decreases s.len(),
{
    if s.len() > 0 {
        let t = s.drop_last();
        if p == s.len() {
            assert forall|k: int| 0 <= k < p - 1 implies spec_str_lt(#[trigger] t[k].0, name) by {
                assert(t[k] == s[k]);
            }
            lemma_count_before(t, name, p - 1);
        } else {
            assert forall|k: int| 0 <= k < p implies spec_str_lt(#[trigger] t[k].0, name) by {
                assert(t[k] == s[k]);
            }
            assert forall|k: int| p <= k < t.len() implies !spec_str_lt(#[trigger] t[k].0, name) by {
                assert(t[k] == s[k]);
            }
            lemma_count_before(t, name, p);
        }
    }
}

/// Inserting a new name in order keeps entries sorted.
pub proof fn lemma_insert_sorted(s: EntriesView, name: Seq<char>, id: u64)
    requires
        spec_sorted(s),
        !spec_has_name(s, name),
    ensures
        spec_sorted(spec_insert_sorted(s, name, id)),
        spec_insert_sorted(s, name, id).len() == s.len() + 1,
{
    let p = first_not_before(s, name, 0);
    lemma_first_not_before(s, name);
    lemma_count_before(s, name, p);
    let r = spec_insert_sorted(s, name, id);
    assert forall|i: int, j: int| 0 <= i < j < r.len() implies spec_str_lt(#[trigger] r[i].0, #[trigger] r[j].0) by {
        if j < p {
            assert(r[i] == s[i] && r[j] == s[j]);
        } else if j == p {
            assert(r[i] == s[i]);
        } else if i < p {
            assert(r[i] == s[i] && r[j] == s[j - 1]);
        } else if i == p {
            assert(r[j] == s[j - 1]);
        } else {
            assert(r[i] == s[i - 1] && r[j] == s[j - 1]);
        }
    }
}

/// The first position at or after `from` whose name does not come before
/// `name`.
spec fn first_not_before(s: EntriesView, name: Seq<char>, from: int) -> int
    decreases s.len() - from,
{
    if from >= s.len() || from < 0 {
        s.len() as int
    } else if !spec_str_lt(s[from].0, name) {
        from
    } else {
        first_not_before(s, name, from + 1)
    }
}

proof fn lemma_first_not_before_from(s: EntriesView, name: Seq<char>, from: int)
    requires
        0 <= from <= s.len(),
        forall|k: int| 0 <= k < from ==> spec_str_lt(#[trigger] s[k].0, name),
    ensures
        ({
            let p = first_not_before(s, name, from);
            &&& from <= p <= s.len()
            &&& forall|k: int| 0 <= k < p ==> spec_str_lt(#[trigger] s[k].0, name)
            &&& p < s.len() ==> !spec_str_lt(s[p].0, name)
        }),
    decreases s.len() - from,
{
    if from < s.len() && spec_str_lt(s[from].0, name) {
        lemma_first_not_before_from(s, name, from + 1);
    }
}

/// In sorted entries without `name`, the names before the first one not
/// before `name` all come before it, and the rest all come after it.
proof fn lemma_first_not_before(s: EntriesView, name: Seq<char>)
    requires
        spec_sorted(s),
        !spec_has_name(s, name),
    ensures
        ({
            let p = first_not_before(s, name, 0);
            &&& 0 <= p <= s.len()
            &&& forall|k: int| 0 <= k < p ==> spec_str_lt(#[trigger] s[k].0, name)
            &&& forall|k: int| p <= k < s.len() ==> spec_str_lt(name, #[trigger] s[k].0)
            &&& forall|k: int| p <= k < s.len() ==> !spec_str_lt(#[trigger] s[k].0, name)
        }),
{
    lemma_first_not_before_from(s, name, 0);
    let p = first_not_before(s, name, 0);
    if p < s.len() {
        assert(s[p].0 != name);
        lemma_str_lt_total(s[p].0, name);
        assert forall|k: int| p <= k < s.len() implies spec_str_lt(name, #[trigger] s[k].0) by {
            if k > p {
                lemma_str_lt_transitive(name, s[p].0, s[k].0);
            }
        }
        assert forall|k: int| p <= k < s.len() implies !spec_str_lt(#[trigger] s[k].0, name) by {
            assert(spec_str_lt(name, s[k].0));
            lemma_str_lt_asymmetric(name, s[k].0);
        }
    }
}

/// Whether `a` comes before `b`.
fn str_lt(a: &Vec<char>, b: &Vec<char>) -> (r: bool)
    ensures
        r == spec_str_lt(a@, b@),
{
    let mut i: usize = 0;
    assert(a@.skip(0) =~= a@);
    assert(b@.skip(0) =~= b@);
    while i < a.len() && i < b.len()
        invariant
            0 <= i <= a@.len(),
            i <= b@.len(),
            spec_str_lt(a@, b@) == spec_str_lt(a@.skip(i as int), b@.skip(i as int)),
        decreases a@.len() - i,
    {
        assert(a@.skip(i as int)[0] == a@[i as int]);
        assert(b@.skip(i as int)[0] == b@[i as int]);
        if a[i] != b[i] {
            return (a[i] as u32) < (b[i] as u32);
        }
        assert(a@.skip(i as int).drop_first() =~= a@.skip(i as int + 1));
        assert(b@.skip(i as int).drop_first() =~= b@.skip(i as int + 1));
        i = i + 1;
    }
    i < b.len()
}

/// The bytes `read` copies: none from at or past the end, else as many as
/// fit in the buffer and remain in the file.
pub open spec fn spec_read_len(len: nat, offset: nat, n: nat) -> nat {
    if offset >= len {
        0
    } else if n < len - offset {
        n
    } else {
        (len - offset) as nat
    }
}

/// The contents after writing `b` at `offset`: extended with zero bytes
/// when the write goes past the end.
pub open spec fn spec_write(d: Seq<u8>, offset: nat, b: Seq<u8>) -> Seq<u8> {
    let n = if offset + b.len() > d.len() { offset + b.len() } else { d.len() };
    Seq::new(
        n as nat,
        |i: int|
            if offset <= i < offset + b.len() {
                b[i - offset]
            } else if i < d.len() {
                d[i]
            } else {
                0u8
            },
    )
}

/// The contents cut or zero-extended to `size` bytes.
pub open spec fn spec_resize(d: Seq<u8>, size: nat) -> Seq<u8> {
    Seq::new(size, |i: int| if i < d.len() { d[i] } else { 0u8 })
}

/// Reading back what was just written gives it back.
pub proof fn lemma_read_after_write(d: Seq<u8>, offset: nat, b: Seq<u8>)
    ensures
        spec_read_len(spec_write(d, offset, b).len(), offset, b.len()) == b.len(),
        spec_write(d, offset, b).subrange(offset as int, (offset + b.len()) as int) == b,
{
    let w = spec_write(d, offset, b);
    assert(w.subrange(offset as int, (offset + b.len()) as int) =~= b);
}

/// A write never shortens a file: writing `b` at `offset` into contents
/// `d` leaves `max(|d|, offset + |b|)` bytes, with `b` at `offset`, the
/// bytes of `d` outside the written range unchanged, and zeros in any gap
/// between the old end and `offset`.
pub proof fn lemma_write_law(d: Seq<u8>, offset: nat, b: Seq<u8>)
    ensures
        ({
            let w = spec_write(d, offset, b);
            &&& w.len() >= d.len()
            &&& w.len() >= offset + b.len()
            &&& w.len() == d.len() || w.len() == offset + b.len()
            &&& forall|i: int| 0 <= i < b.len() ==> #[trigger] w[offset + i] == b[i]
            &&& forall|i: int| 0 <= i < d.len() && !(offset <= i < offset + b.len()) ==> #[trigger] w[i] == d[i]
            &&& forall|i: int| d.len() <= i < offset ==> #[trigger] w[i] == 0u8
        }),
{
}

/// What a write does to the file system: the file keeps every byte the
/// write does not cover, grows only as far as the write reaches, and its
/// size as `stat` reports it is the larger of its old size and the end of
/// the write. The write reports the number of bytes written.
pub proof fn lemma_fs_write_law(fs: FsView, id: u64, offset: nat, b: Seq<u8>)
    requires
        spec_is_file(fs, id),
    ensures
        ({
            let d = fs.0[id].1;
            let (after, r) = spec_fs_write(fs, id, offset, b);
            let w = after.0[id].1;
            &&& r == Ok::<usize, FsError>(b.len() as usize)
            &&& spec_is_file(after, id)
            &&& spec_fs_stat(after, id) == Ok::<(nat, VNodeType), FsError>((w.len(), VNodeType::File))
            &&& w.len() >= d.len() && w.len() >= offset + b.len()
            &&& (w.len() == d.len() || w.len() == offset + b.len())
            &&& forall|i: int| 0 <= i < b.len() ==> #[trigger] w[offset + i] == b[i]
            &&& forall|i: int| 0 <= i < d.len() && !(offset <= i < offset + b.len()) ==> #[trigger] w[i] == d[i]
            &&& forall|k: u64| k != id ==> #[trigger] after.0.contains_key(k) == fs.0.contains_key(k) && (fs.0.contains_key(k)
                ==> after.0[k] == fs.0[k])
        }),
{
    lemma_write_law(fs.0[id].1, offset, b);
}

/// A read copies as many bytes as both the buffer and the rest of the file
/// hold, starting at `offset`, into the front of the buffer and leaves the
/// rest of the buffer alone; at or past the end it copies nothing.
pub proof fn lemma_read_law(d: Seq<u8>, offset: nat, buf: Seq<u8>)
    ensures
        ({
            let r = spec_read_len(d.len(), offset, buf.len());
            let out = spec_after_read(d, offset, buf);
            &&& r <= buf.len()
            &&& offset + r <= d.len() || r == 0
            &&& (r == buf.len() || offset + r == d.len() || offset >= d.len())
            &&& offset >= d.len() ==> r == 0
            &&& out.len() == buf.len()
            &&& forall|i: int| 0 <= i < r ==> #[trigger] out[i] == d[offset + i]
            &&& forall|i: int| r <= i < buf.len() ==> #[trigger] out[i] == buf[i]
        }),
{
}

/// Truncating to `size` keeps the first `size` bytes (as many as there
/// are) and pads with zeros.
pub proof fn lemma_resize_law(d: Seq<u8>, size: nat)
    ensures
        spec_resize(d, size).len() == size,
        forall|i: int| 0 <= i < size && i < d.len() ==> #[trigger] spec_resize(d, size)[i] == d[i],
        forall|i: int| d.len() <= i < size ==> #[trigger] spec_resize(d, size)[i] == 0u8,
{
}

/// The buffer after a read: the bytes read, then what the buffer held
/// past them.
pub open spec fn spec_after_read(d: Seq<u8>, offset: nat, buf: Seq<u8>) -> Seq<u8> {
    if offset < d.len() {
        let r = spec_read_len(d.len(), offset, buf.len());
        d.subrange(offset as int, (offset + r) as int) + buf.skip(r as int)
    } else {
        buf
    }
}

/// The bytes of a file.
struct MemFile {
    data: Vec<u8>,
}

impl MemFile {
    fn new() -> (r: Self)
        ensures
            r.data@ == Seq::<u8>::empty(),
    {
        MemFile { data: Vec::new() }
    }

    fn read(&self, offset: usize, buffer: &mut [u8]) -> (r: usize)
        ensures
            r == spec_read_len(self.data@.len(), offset as nat, old(buffer)@.len()),
            final(buffer)@ == spec_after_read(self.data@, offset as nat, old(buffer)@),
    {
        if offset >= self.data.len() {
            return 0;
        }
        let available = self.data.len() - offset;
        let to_read = if buffer.len() < available { buffer.len() } else { available };
        let ghost ob = buffer@;
        assert(offset + to_read <= self.data.len());
        let mut i: usize = 0;
        while i < to_read
            invariant
                0 <= i <= to_read,
                to_read <= ob.len(),
                offset + to_read <= self.data.len(),
                buffer@.len() == ob.len(),
                buffer@ == self.data@.subrange(offset as int, offset + i) + ob.skip(i as int),
            decreases to_read - i,
        {
            buffer[i] = self.data[offset + i];
            assert(buffer@ =~= self.data@.subrange(offset as int, offset + i + 1) + ob.skip(i as int + 1));
            i = i + 1;
        }
        to_read
    }

    fn write(&mut self, offset: usize, buffer: &[u8]) -> (r: usize)
        requires
            offset + buffer@.len() <= usize::MAX,
        ensures
            r == buffer@.len(),
            final(self).data@ == spec_write(old(self).data@, offset as nat, buffer@),
    {
        let end = offset + buffer.len();
        let ghost d = self.data@;
        while self.data.len() < end
            invariant
                self.data@.len() <= (if end > d.len() { end as int } else { d.len() as int }),
                self.data@.len() >= d.len(),
                forall|i: int| 0 <= i < self.data@.len() ==> #[trigger] self.data@[i] == if i < d.len() {
                    d[i]
                } else {
                    0u8
                },
            decreases end - self.data@.len(),
        {
            self.data.push(0);
        }
        let mut i: usize = 0;
        while i < buffer.len()
            invariant
                end == offset + buffer@.len(),
                self.data@.len() == (if end > d.len() { end as int } else { d.len() as int }),
                0 <= i <= buffer@.len(),
                forall|k: int| 0 <= k < self.data@.len() ==> #[trigger] self.data@[k] == if offset <= k < offset + i {
                    buffer@[k - offset]
                } else if k < d.len() {
                    d[k]
                } else {
                    0u8
                },
            decreases buffer@.len() - i,
        {
            self.data.set(offset + i, buffer[i]);
            i = i + 1;
        }
        assert(self.data@ =~= spec_write(d, offset as nat, buffer@));
        buffer.len()
    }

    fn size(&self) -> (r: usize)
        ensures
            r == self.data@.len(),
    {
        self.data.len()
    }

    fn truncate(&mut self, size: usize)
        ensures
            final(self).data@ == spec_resize(old(self).data@, size as nat),
    {
        let ghost d = self.data@;
        if size <= self.data.len() {
            self.data.truncate(size);
        } else {
            while self.data.len() < size
                invariant
                    d.len() <= self.data@.len() <= size,
                    forall|i: int| 0 <= i < self.data@.len() ==> #[trigger] self.data@[i] == if i < d.len() {
                        d[i]
                    } else {
                        0u8
                    },
                decreases size - self.data@.len(),
            {
                self.data.push(0);
            }
        }
        assert(self.data@ =~= spec_resize(d, size as nat));
    }
}

/// The view of a list of entries.
spec fn entries_view(v: Seq<(String, u64)>) -> EntriesView {
    v.map_values(|e: (String, u64)| (e.0@, e.1))
}

/// Position of the entry named `name`, if any.
fn find_entry(entries: &Vec<(String, u64)>, name: &String) -> (r: Option<usize>)
    requires
        spec_unique(entries_view(entries@)),
    ensures
        match r {
            Some(i) => {
                let v = entries_view(entries@);
                &&& i < v.len()
                &&& v[i as int].0 == name@
                &&& spec_has_name(v, name@)
                &&& spec_index_of(v, name@) == i
                &&& spec_lookup(v, name@) == Some(v[i as int].1)
            },
            None => !spec_has_name(entries_view(entries@), name@),
        },
{
    let mut i: usize = 0;
    while i < entries.len()
        invariant
            0 <= i <= entries@.len(),
            spec_unique(entries_view(entries@)),
            forall|k: int| 0 <= k < i ==> #[trigger] entries_view(entries@)[k].0 != name@,
        decreases entries@.len() - i,
    {
        if entries[i].0 == *name {
            proof {
                let v = entries_view(entries@);
                assert(v[i as int] == (entries@[i as int].0@, entries@[i as int].1));
                assert(v[i as int].0 == name@);
                assert(spec_has_name(v, name@));
                let j = spec_index_of(v, name@);
                assert(v[j].0 == v[i as int].0);
            }
            return Some(i);
        }
        i = i + 1;
    }
    None
}

/// The entries of a directory, in name order.
struct MemDir {
    entries: Vec<(String, u64)>,
}

impl MemDir {
    spec fn view(&self) -> EntriesView {
        entries_view(self.entries@)
    }

    fn new() -> (r: Self)
        ensures
            r.view() == Seq::<(Seq<char>, u64)>::empty(),
    {
        let r = MemDir { entries: Vec::new() };
        assert(r.view() =~= Seq::<(Seq<char>, u64)>::empty());
        r
    }

    fn add_entry(&mut self, name: String, vnode_id: u64) -> (r: Result<(), FsError>)
        requires
            spec_sorted(old(self).view()),
        ensures
            spec_sorted(final(self).view()),
            spec_has_name(old(self).view(), name@) ==> r == Err::<(), FsError>(FsError::AlreadyExists),
            spec_has_name(old(self).view(), name@) ==> final(self).view() == old(self).view(),
            !spec_has_name(old(self).view(), name@) ==> r is Ok,
            !spec_has_name(old(self).view(), name@) ==> final(self).view() == spec_insert_sorted(old(self).view(), name@, vnode_id),
    {
        proof {
            lemma_sorted_unique(self.view());
        }
        if find_entry(&self.entries, &name).is_some() {
            return Err(FsError::AlreadyExists);
        }
        let ghost s = self.view();
        let key = chars_of(name.as_str());
        let mut p: usize = 0;
        let mut done = false;
        while !done && p < self.entries.len()
            invariant
                s == self.view(),
                0 <= p <= s.len(),
                key@ == name@,
                forall|k: int| 0 <= k < p ==> spec_str_lt(#[trigger] s[k].0, name@),
                done ==> p < s.len() && !spec_str_lt(s[p as int].0, name@),
            decreases s.len() - p + (if done { 0int } else { 1int }),
        {
            let other = chars_of(self.entries[p].0.as_str());
            if !str_lt(&other, &key) {
                done = true;
            } else {
                p = p + 1;
            }
        }
        proof {
            lemma_first_not_before(s, name@);
            let q = first_not_before(s, name@, 0);
            if p < q {
                assert(spec_str_lt(s[p as int].0, name@));
            }
            if q < p {
                assert(spec_str_lt(s[q].0, name@));
            }
            assert(p == q);
            lemma_count_before(s, name@, p as int);
            lemma_insert_sorted(s, name@, vnode_id);
        }
        self.entries.insert(p, (name, vnode_id));
        assert(self.view() =~= spec_insert_sorted(s, name@, vnode_id));
        Ok(())
    }

    fn remove_entry(&mut self, name: &str) -> (r: Result<u64, FsError>)
        requires
            spec_sorted(old(self).view()),
        ensures
            spec_sorted(final(self).view()),
            spec_has_name(old(self).view(), name@) ==> r == Ok::<u64, FsError>(old(self).view()[spec_index_of(old(self).view(), name@)].1),
            spec_has_name(old(self).view(), name@) ==> final(self).view() == old(self).view().remove(spec_index_of(old(self).view(), name@)),
            !spec_has_name(old(self).view(), name@) ==> r == Err::<u64, FsError>(FsError::NotFound),
            !spec_has_name(old(self).view(), name@) ==> final(self).view() == old(self).view(),
    {
        proof {
            lemma_sorted_unique(self.view());
        }
        let key = String::from_str(name);
        match find_entry(&self.entries, &key) {
            Some(i) => {
                let ghost s = self.view();
                let (_, id) = self.entries.remove(i);
                assert(self.view() =~= s.remove(i as int));
                assert forall|a: int, b: int| 0 <= a < b < self.view().len() implies spec_str_lt(
                    #[trigger] self.view()[a].0,
                    #[trigger] self.view()[b].0,
                ) by {
                    let a2 = if a < i { a } else { a + 1 };
                    let b2 = if b < i { b } else { b + 1 };
                    assert(self.view()[a] == s[a2] && self.view()[b] == s[b2]);
                }
                Ok(id)
            },
            None => Err(FsError::NotFound),
        }
    }

    fn get_entry(&self, name: &String) -> (r: Option<u64>)
        requires
            spec_sorted(self.view()),
        ensures
            r == spec_lookup(self.view(), name@),
    {
        proof {
            lemma_sorted_unique(self.view());
        }
        match find_entry(&self.entries, name) {
            Some(i) => Some(self.entries[i].1),
            None => None,
        }
    }

    fn is_empty(&self) -> (r: bool)
        ensures
            r == (self.view().len() == 0),
    {
        self.entries.len() == 0
    }
}

/// A node of the file system.
enum MemNode {
    File(MemFile),
    Directory(MemDir),
}

impl MemNode {
    spec fn view(&self) -> NodeView {
        match self {
            MemNode::File(f) => (false, f.data@, Seq::empty()),
            MemNode::Directory(d) => (true, Seq::empty(), d.view()),
        }
    }
}

/// Whether a path starts at the root.
pub open spec fn spec_is_absolute(p: Seq<char>) -> bool {
    p.len() > 0 && p[0] == '/'
}

/// The identifier after `id`, wrapping at the top of the range.
pub open spec fn spec_next_id(id: u64) -> u64 {
    if id == u64::MAX {
        0
    } else {
        (id + 1) as u64
    }
}

/// A fresh node of the given kind.
pub open spec fn spec_new_node(vtype: VNodeType) -> NodeView {
    match vtype {
        VNodeType::File => (false, Seq::empty(), Seq::empty()),
        VNodeType::Directory => (true, Seq::empty(), Seq::empty()),
    }
}

/// Whether the node is a directory.
pub open spec fn spec_is_dir(fs: FsView, id: u64) -> bool {
    fs.0.contains_key(id) && fs.0[id].0
}

/// Whether the node is a file.
pub open spec fn spec_is_file(fs: FsView, id: u64) -> bool {
    fs.0.contains_key(id) && !fs.0[id].0
}

/// Directory entries in name order and no path listed twice.
pub open spec fn spec_fs_wf(fs: FsView) -> bool {
    &&& forall|id: u64| #[trigger] fs.0.contains_key(id) && fs.0[id].0 ==> spec_sorted(fs.0[id].2)
    &&& spec_unique(fs.2)
}

/// A new file system: the root directory `/` with identifier 0.
pub open spec fn spec_fs_initial() -> FsView {
    (
        Map::empty().insert(0u64, (true, Seq::empty(), Seq::empty())),
        Map::empty().insert(0u64, (0u64, VNodeType::Directory, seq!['/'])),
        seq![(seq!['/'], 0u64)],
        1u64,
    )
}

/// The vnode of the root directory.
pub open spec fn spec_fs_root(fs: FsView) -> Result<VNodeView, FsError> {
    if fs.1.contains_key(0) {
        Ok(fs.1[0])
    } else {
        Err(FsError::NotFound)
    }
}

/// The vnode a path names: its normal form looked up in the path table.
pub open spec fn spec_fs_lookup(fs: FsView, path: Seq<char>) -> Result<VNodeView, FsError> {
    if !spec_is_absolute(path) {
        Err(FsError::InvalidPath)
    } else {
        match spec_lookup(fs.2, spec_normalize(path)) {
            None => Err(FsError::NotFound),
            Some(id) => if fs.1.contains_key(id) {
                Ok(fs.1[id])
            } else {
                Err(FsError::NotFound)
            },
        }
    }
}

/// Creating a node at a path: the resulting file system and vnode, or the
/// error, checked in order (an identifier is used up once the parent is
/// found to be a directory).
pub open spec fn spec_fs_create(fs: FsView, path: Seq<char>, vtype: VNodeType) -> (FsView, Result<VNodeView, FsError>) {
    if !spec_is_absolute(path) {
        (fs, Err(FsError::InvalidPath))
    } else {
        let n = spec_normalize(path);
        if spec_has_name(fs.2, n) {
            (fs, Err(FsError::AlreadyExists))
        } else {
            match spec_parent(n) {
                None => (fs, Err(FsError::InvalidPath)),
                Some(pp) => match spec_lookup(fs.2, pp) {
                    None => (fs, Err(FsError::NotFound)),
                    Some(pid) => if !spec_is_dir(fs, pid) {
                        (fs, Err(FsError::NotADirectory))
                    } else {
                        let id = fs.3;
                        let bumped = (fs.0, fs.1, fs.2, spec_next_id(fs.3));
                        match spec_filename(n) {
                            None => (bumped, Err(FsError::InvalidPath)),
                            Some(name) => {
                                let ents = fs.0[pid].2;
                                if spec_has_name(ents, name) {
                                    (bumped, Err(FsError::AlreadyExists))
                                } else {
                                    let nodes = fs.0.insert(pid, (true, Seq::empty(), spec_insert_sorted(ents, name, id))).insert(
                                        id,
                                        spec_new_node(vtype),
                                    );
                                    (
                                        (nodes, fs.1.insert(id, (id, vtype, n)), fs.2.push((n, id)), spec_next_id(fs.3)),
                                        Ok((id, vtype, n)),
                                    )
                                }
                            },
                        }
                    },
                },
            }
        }
    }
}

/// Removing the node at a path: the resulting file system, or the error,
/// checked in order.
pub open spec fn spec_fs_remove(fs: FsView, path: Seq<char>) -> (FsView, Result<(), FsError>) {
    if !spec_is_absolute(path) {
        (fs, Err(FsError::InvalidPath))
    } else {
        let n = spec_normalize(path);
        if n == seq!['/'] {
            (fs, Err(FsError::InvalidArgument))
        } else {
            match spec_lookup(fs.2, n) {
                None => (fs, Err(FsError::NotFound)),
                Some(vid) => if spec_is_dir(fs, vid) && fs.0[vid].2.len() > 0 {
                    (fs, Err(FsError::DirectoryNotEmpty))
                } else {
                    match spec_parent(n) {
                        None => (fs, Err(FsError::InvalidPath)),
                        Some(pp) => match spec_lookup(fs.2, pp) {
                            None => (fs, Err(FsError::NotFound)),
                            Some(pid) => match spec_filename(n) {
                                None => (fs, Err(FsError::InvalidPath)),
                                Some(name) => if !spec_is_dir(fs, pid) {
                                    (fs, Err(FsError::NotADirectory))
                                } else {
                                    let ents = fs.0[pid].2;
                                    if !spec_has_name(ents, name) {
                                        (fs, Err(FsError::NotFound))
                                    } else {
                                        let nodes = fs.0.insert(
                                            pid,
                                            (true, Seq::empty(), ents.remove(spec_index_of(ents, name))),
                                        ).remove(vid);
                                        ((nodes, fs.1.remove(vid), fs.2.remove(spec_index_of(fs.2, n)), fs.3), Ok(()))
                                    }
                                },
                            },
                        },
                    }
                },
            }
        }
    }
}

/// The result of reading a node.
pub open spec fn spec_fs_read(fs: FsView, id: u64, offset: nat, buf: Seq<u8>) -> Result<usize, FsError> {
    if !fs.0.contains_key(id) {
        Err(FsError::NotFound)
    } else if fs.0[id].0 {
        Err(FsError::IsADirectory)
    } else {
        Ok(spec_read_len(fs.0[id].1.len(), offset, buf.len()) as usize)
    }
}

/// Writing to a node: the resulting file system and result.
pub open spec fn spec_fs_write(fs: FsView, id: u64, offset: nat, b: Seq<u8>) -> (FsView, Result<usize, FsError>) {
    if !fs.0.contains_key(id) {
        (fs, Err(FsError::NotFound))
    } else if fs.0[id].0 {
        (fs, Err(FsError::IsADirectory))
    } else {
        (
            (fs.0.insert(id, (false, spec_write(fs.0[id].1, offset, b), Seq::empty())), fs.1, fs.2, fs.3),
            Ok(b.len() as usize),
        )
    }
}

/// Truncating or extending a node: the resulting file system and result.
pub open spec fn spec_fs_truncate(fs: FsView, id: u64, size: nat) -> (FsView, Result<(), FsError>) {
    if !fs.0.contains_key(id) {
        (fs, Err(FsError::NotFound))
    } else if fs.0[id].0 {
        (fs, Err(FsError::IsADirectory))
    } else {
        ((fs.0.insert(id, (false, spec_resize(fs.0[id].1, size), Seq::empty())), fs.1, fs.2, fs.3), Ok(()))
    }
}

/// The attributes of a node: size and kind.
pub open spec fn spec_fs_stat(fs: FsView, id: u64) -> Result<(nat, VNodeType), FsError> {
    if !fs.0.contains_key(id) {
        Err(FsError::NotFound)
    } else if fs.0[id].0 {
        Ok((0, VNodeType::Directory))
    } else {
        Ok((fs.0[id].1.len(), VNodeType::File))
    }
}

/// The listing of a directory: each entry whose node has a vnode, with
/// the vnode's kind, in entry order.
pub open spec fn spec_listing(ents: EntriesView, vn: Map<u64, VNodeView>) -> Seq<(Seq<char>, VNodeType)>
    decreases ents.len(),
{
    if ents.len() == 0 {
        Seq::empty()
    } else {
        let prev = spec_listing(ents.drop_last(), vn);
        let e = ents.last();
        if vn.contains_key(e.1) {
            prev.push((e.0, vn[e.1].1))
        } else {
            prev
        }
    }
}

/// The entries of a directory node.
pub open spec fn spec_fs_readdir(fs: FsView, id: u64) -> Result<Seq<(Seq<char>, VNodeType)>, FsError> {
    if !fs.0.contains_key(id) {
        Err(FsError::NotFound)
    } else if !fs.0[id].0 {
        Err(FsError::NotADirectory)
    } else {
        Ok(spec_listing(fs.0[id].2, fs.1))
    }
}

/// The view of a directory listing.
pub open spec fn spec_listing_view(v: Seq<DirEntry>) -> Seq<(Seq<char>, VNodeType)> {
    v.map_values(|d: DirEntry| (d.name@, d.vtype))
}

/// Adding a fresh name keeps names distinct.
proof fn lemma_push_unique(s: EntriesView, name: Seq<char>, id: u64)
    requires
        spec_unique(s),
        !spec_has_name(s, name),
    ensures
        spec_unique(s.push((name, id))),
{
    let t = s.push((name, id));
    assert forall|i: int, j: int| 0 <= i < t.len() && 0 <= j < t.len() && #[trigger] t[i].0 == #[trigger] t[j].0 implies i == j by {
        if i < s.len() && j < s.len() {
            assert(t[i] == s[i] && t[j] == s[j]);
        } else if i < s.len() {
            assert(t[i] == s[i]);
        } else if j < s.len() {
            assert(t[j] == s[j]);
        }
    }
}

/// Dropping an entry keeps names distinct.
proof fn lemma_remove_unique(s: EntriesView, k: int)
    requires
        spec_unique(s),
        0 <= k < s.len(),
    ensures
        spec_unique(s.remove(k)),
{
    let t = s.remove(k);
    assert forall|i: int, j: int| 0 <= i < t.len() && 0 <= j < t.len() && #[trigger] t[i].0 == #[trigger] t[j].0 implies i == j by {
        let i2 = if i < k { i } else { i + 1 };
        let j2 = if j < k { j } else { j + 1 };
        assert(t[i] == s[i2] && t[j] == s[j2]);
    }
}

/// The state of a file system.
struct FsState {
    nodes: BTreeMap<u64, MemNode>,
    vnodes: BTreeMap<u64, VNode>,
    paths: Vec<(String, u64)>,
    next_id: u64,
}

impl FsState {
    spec fn view(&self) -> FsView {
        (
            self.nodes@.map_values(|n: MemNode| n.view()),
            self.vnodes@.map_values(|v: VNode| spec_vnode_view(v)),
            entries_view(self.paths@),
            self.next_id,
        )
    }

    spec fn wf(&self) -> bool {
        spec_fs_wf(self.view())
    }

    fn empty() -> (r: Self)
        ensures
            r.wf(),
    {
        let r = FsState { nodes: BTreeMap::new(), vnodes: BTreeMap::new(), paths: Vec::new(), next_id: 0 };
        assert(entries_view(r.paths@) =~= Seq::<(Seq<char>, u64)>::empty());
        r
    }

    fn new_root() -> (r: Self)
        ensures
            r.wf(),
            r.view() == spec_fs_initial(),
    {
        let mut nodes: BTreeMap<u64, MemNode> = BTreeMap::new();
        let mut vnodes: BTreeMap<u64, VNode> = BTreeMap::new();
        let mut paths: Vec<(String, u64)> = Vec::new();
        let root_name = String::from_str("/");
        let root_path = String::from_str("/");
        proof {
            reveal_strlit("/");
        }
        nodes.insert(0, MemNode::Directory(MemDir::new()));
        vnodes.insert(0, VNode::new(0, VNodeType::Directory, root_name));
        paths.push((root_path, 0));
        let r = FsState { nodes, vnodes, paths, next_id: 1 };
        assert(root_path@ =~= seq!['/']);
        assert(r.paths@[0].0@ =~= seq!['/']);
        assert(r.vnodes@[0].path@ =~= seq!['/']);
        assert(r.view().0 =~= spec_fs_initial().0);
        assert(r.view().1 =~= spec_fs_initial().1);
        assert(r.view().2 =~= spec_fs_initial().2);
        r
    }

    fn alloc_id(&mut self) -> (r: u64)
        ensures
            r == old(self).next_id,
            final(self).next_id == spec_next_id(old(self).next_id),
            final(self).nodes == old(self).nodes,
            final(self).vnodes == old(self).vnodes,
            final(self).paths == old(self).paths,
    {
        let id = self.next_id;
        self.next_id = if self.next_id == u64::MAX { 0 } else { self.next_id + 1 };
        id
    }

    fn get_vnode_by_id(&self, id: u64) -> (r: Option<VNode>)
        ensures
            match r {
                Some(v) => self.view().1.contains_key(id) && spec_vnode_view(v) == self.view().1[id],
                None => !self.view().1.contains_key(id),
            },
    {
        match self.vnodes.get(&id) {
            Some(v) => Some(VNode::new(v.id, v.vtype, v.path.clone())),
            None => None,
        }
    }

    fn path_index(&self, p: &String) -> (r: Option<usize>)
        requires
            self.wf(),
        ensures
            match r {
                Some(i) => {
                    &&& i < self.view().2.len()
                    &&& spec_has_name(self.view().2, p@)
                    &&& spec_index_of(self.view().2, p@) == i
                    &&& spec_lookup(self.view().2, p@) == Some(self.paths@[i as int].1)
                },
                None => !spec_has_name(self.view().2, p@) && spec_lookup(self.view().2, p@) is None,
            },
    {
        let r = find_entry(&self.paths, p);
        proof {
            if let Some(i) = r {
                assert(entries_view(self.paths@)[i as int].1 == self.paths@[i as int].1);
            }
        }
        r
    }

    fn path_id(&self, p: &String) -> (r: Option<u64>)
        requires
            self.wf(),
        ensures
            r == spec_lookup(self.view().2, p@),
    {
        match self.path_index(p) {
            Some(i) => Some(self.paths[i].1),
            None => None,
        }
    }

    fn lookup(&self, path: &str) -> (r: Result<VNode, FsError>)
        requires
            self.wf(),
        ensures
            match spec_fs_lookup(self.view(), path@) {
                Ok(v) => r matches Ok(n) && spec_vnode_view(n) == v,
                Err(e) => r == Err::<VNode, FsError>(e),
            },
    {
        let path = match PathResolver::normalize(path) {
            Ok(p) => p,
            Err(_) => return Err(FsError::InvalidPath),
        };
        let id = match self.path_id(&path) {
            Some(id) => id,
            None => return Err(FsError::NotFound),
        };
        match self.get_vnode_by_id(id) {
            Some(v) => Ok(v),
            None => Err(FsError::NotFound),
        }
    }

    fn create(&mut self, path: &str, vtype: VNodeType) -> (r: Result<VNode, FsError>)
        requires
            old(self).wf(),
        ensures
            final(self).wf(),
            final(self).view() == spec_fs_create(old(self).view(), path@, vtype).0,
            match spec_fs_create(old(self).view(), path@, vtype).1 {
                Ok(v) => r matches Ok(n) && spec_vnode_view(n) == v,
                Err(e) => r == Err::<VNode, FsError>(e),
            },
    {
        let ghost fs = self.view();
        let norm = match PathResolver::normalize(path) {
            Ok(p) => p,
            Err(_) => return Err(FsError::InvalidPath),
        };
        if self.path_index(&norm).is_some() {
            return Err(FsError::AlreadyExists);
        }
        let parent_path = match PathResolver::parent(norm.as_str()) {
            Some(p) => p,
            None => return Err(FsError::InvalidPath),
        };
        let parent_id = match self.path_id(&parent_path) {
            Some(id) => id,
            None => return Err(FsError::NotFound),
        };
        match self.nodes.get(&parent_id) {
            Some(MemNode::Directory(_)) => {},
            _ => return Err(FsError::NotADirectory),
        }
        let id = self.alloc_id();
        assert(self.view().0 == fs.0 && self.view().1 == fs.1 && self.view().2 == fs.2);
        let name = match PathResolver::filename(norm.as_str()) {
            Some(f) => String::from_str(f),
            None => return Err(FsError::InvalidPath),
        };
        let node = match vtype {
            VNodeType::File => MemNode::File(MemFile::new()),
            VNodeType::Directory => MemNode::Directory(MemDir::new()),
        };
        let vnode = VNode::new(id, vtype, norm.clone());
        let result = VNode::new(id, vtype, norm.clone());
        let ghost old_nodes = self.nodes@;
        match self.nodes.remove(&parent_id) {
            Some(MemNode::Directory(mut dir)) => {
                let ghost ents = dir.view();
                assert(old_nodes[parent_id].view() == fs.0[parent_id]);
                let added = dir.add_entry(name, id);
                self.nodes.insert(parent_id, MemNode::Directory(dir));
                match added {
                    Ok(()) => {},
                    Err(e) => {
                        assert(self.view().0 =~= fs.0);
                        return Err(e);
                    },
                }
                proof {
                    lemma_insert_sorted(ents, name@, id);
                }
            },
            Some(other) => {
                self.nodes.insert(parent_id, other);
                assert(self.view().0 =~= fs.0);
                return Err(FsError::NotADirectory);
            },
            None => return Err(FsError::NotADirectory),
        }
        let ghost mid_nodes = self.nodes@;
        let ghost old_vnodes = self.vnodes@;
        assert(node.view() == spec_new_node(vtype));
        assert(spec_vnode_view(vnode) == (id, vtype, norm@));
        self.nodes.insert(id, node);
        self.vnodes.insert(id, vnode);
        assert(self.nodes@ == mid_nodes.insert(id, node));
        assert(self.vnodes@ == old_vnodes.insert(id, vnode));
        let ghost old_paths = entries_view(self.paths@);
        self.paths.push((norm, id));
        proof {
            assert(entries_view(self.paths@) =~= old_paths.push((norm@, id)));
            lemma_push_unique(old_paths, norm@, id);
            let want = spec_fs_create(fs, path@, vtype).0;
            assert(self.view().0 =~= want.0);
            assert(self.view().1 =~= want.1);
            assert forall|k: u64| #[trigger] self.view().0.contains_key(k) && self.view().0[k].0 implies spec_sorted(
                self.view().0[k].2,
            ) by {
                if k != id && k != parent_id {
                    assert(fs.0.contains_key(k));
                }
            }
        }
        Ok(result)
    }

    fn is_root_path(p: &String) -> (r: bool)
        ensures
            r == (p@ == seq!['/']),
    {
        let c = chars_of(p.as_str());
        let r = c.len() == 1 && c[0] == '/';
        proof {
            if r {
                assert(p@ =~= seq!['/']);
            }
        }
        r
    }

    fn remove(&mut self, path: &str) -> (r: Result<(), FsError>)
        requires
            old(self).wf(),
        ensures
            final(self).wf(),
            final(self).view() == spec_fs_remove(old(self).view(), path@).0,
            r == spec_fs_remove(old(self).view(), path@).1,
    {
        let ghost fs = self.view();
        let norm = match PathResolver::normalize(path) {
            Ok(p) => p,
            Err(_) => return Err(FsError::InvalidPath),
        };
        if Self::is_root_path(&norm) {
            return Err(FsError::InvalidArgument);
        }
        let path_pos = match self.path_index(&norm) {
            Some(i) => i,
            None => return Err(FsError::NotFound),
        };
        let vnode_id = self.paths[path_pos].1;
        match self.nodes.get(&vnode_id) {
            Some(MemNode::Directory(dir)) => {
                if !dir.is_empty() {
                    return Err(FsError::DirectoryNotEmpty);
                }
            },
            _ => {},
        }
        let parent_path = match PathResolver::parent(norm.as_str()) {
            Some(p) => p,
            None => return Err(FsError::InvalidPath),
        };
        let parent_id = match self.path_id(&parent_path) {
            Some(id) => id,
            None => return Err(FsError::NotFound),
        };
        let ghost old_nodes = self.nodes@;
        match PathResolver::filename(norm.as_str()) {
            Some(name) => {
                match self.nodes.remove(&parent_id) {
                    Some(MemNode::Directory(mut dir)) => {
                        let ghost ents = dir.view();
                        let removed = dir.remove_entry(name);
                        self.nodes.insert(parent_id, MemNode::Directory(dir));
                        match removed {
                            Ok(_) => {},
                            Err(e) => {
                                assert(self.view().0 =~= fs.0);
                                return Err(e);
                            },
                        }
                    },
                    Some(other) => {
                        self.nodes.insert(parent_id, other);
                        assert(self.view().0 =~= fs.0);
                        return Err(FsError::NotADirectory);
                    },
                    None => {
                        assert(self.view().0 =~= fs.0);
                        return Err(FsError::NotADirectory);
                    },
                }
            },
            None => return Err(FsError::InvalidPath),
        }
        let ghost mid_nodes = self.nodes@;
        self.nodes.remove(&vnode_id);
        self.vnodes.remove(&vnode_id);
        let ghost old_paths = entries_view(self.paths@);
        self.paths.remove(path_pos);
        proof {
            assert(entries_view(self.paths@) =~= old_paths.remove(path_pos as int));
            lemma_remove_unique(old_paths, path_pos as int);
            let want = spec_fs_remove(fs, path@).0;
            assert(self.nodes@ == mid_nodes.remove(vnode_id));
            assert(self.view().0 =~= want.0);
            assert(self.view().1 =~= want.1);
            assert forall|k: u64| #[trigger] self.view().0.contains_key(k) && self.view().0[k].0 implies spec_sorted(
                self.view().0[k].2,
            ) by {
                if k != parent_id {
                    assert(fs.0.contains_key(k));
                }
            }
        }
        Ok(())
    }

    fn root(&self) -> (r: Result<VNode, FsError>)
        ensures
            match spec_fs_root(self.view()) {
                Ok(v) => r matches Ok(n) && spec_vnode_view(n) == v,
                Err(e) => r == Err::<VNode, FsError>(e),
            },
    {
        match self.get_vnode_by_id(0) {
            Some(v) => Ok(v),
            None => Err(FsError::NotFound),
        }
    }

    fn read(&self, vnode: &VNode, offset: usize, buffer: &mut [u8]) -> (r: Result<usize, FsError>)
        ensures
            r == spec_fs_read(self.view(), vnode.id, offset as nat, old(buffer)@),
            r is Ok ==> final(buffer)@ == spec_after_read(self.view().0[vnode.id].1, offset as nat, old(buffer)@),
            r is Err ==> final(buffer)@ == old(buffer)@,
    {
        match self.nodes.get(&vnode.id) {
            Some(MemNode::File(file)) => Ok(file.read(offset, buffer)),
            Some(MemNode::Directory(_)) => Err(FsError::IsADirectory),
            None => Err(FsError::NotFound),
        }
    }

    fn write(&mut self, vnode: &VNode, offset: usize, buffer: &[u8]) -> (r: Result<usize, FsError>)
        requires
            old(self).wf(),
            offset + buffer@.len() <= usize::MAX,
        ensures
            final(self).wf(),
            final(self).view() == spec_fs_write(old(self).view(), vnode.id, offset as nat, buffer@).0,
            r == spec_fs_write(old(self).view(), vnode.id, offset as nat, buffer@).1,
    {
        let ghost fs = self.view();
        match self.nodes.remove(&vnode.id) {
            Some(MemNode::File(mut file)) => {
                let n = file.write(offset, buffer);
                self.nodes.insert(vnode.id, MemNode::File(file));
                proof {
                    assert(self.view().0 =~= spec_fs_write(fs, vnode.id, offset as nat, buffer@).0.0);
                    assert forall|k: u64| #[trigger] self.view().0.contains_key(k) && self.view().0[k].0 implies spec_sorted(
                        self.view().0[k].2,
                    ) by {
                        assert(fs.0.contains_key(k));
                    }
                }
                Ok(n)
            },
            Some(other) => {
                self.nodes.insert(vnode.id, other);
                assert(self.view().0 =~= fs.0);
                Err(FsError::IsADirectory)
            },
            None => {
                assert(self.view().0 =~= fs.0);
                Err(FsError::NotFound)
            },
        }
    }

    fn truncate(&mut self, vnode: &VNode, size: usize) -> (r: Result<(), FsError>)
        requires
            old(self).wf(),
        ensures
            final(self).wf(),
            final(self).view() == spec_fs_truncate(old(self).view(), vnode.id, size as nat).0,
            r == spec_fs_truncate(old(self).view(), vnode.id, size as nat).1,
    {
        let ghost fs = self.view();
        match self.nodes.remove(&vnode.id) {
            Some(MemNode::File(mut file)) => {
                file.truncate(size);
                self.nodes.insert(vnode.id, MemNode::File(file));
                proof {
                    assert(self.view().0 =~= spec_fs_truncate(fs, vnode.id, size as nat).0.0);
                    assert forall|k: u64| #[trigger] self.view().0.contains_key(k) && self.view().0[k].0 implies spec_sorted(
                        self.view().0[k].2,
                    ) by {
                        assert(fs.0.contains_key(k));
                    }
                }
                Ok(())
            },
            Some(other) => {
                self.nodes.insert(vnode.id, other);
                assert(self.view().0 =~= fs.0);
                Err(FsError::IsADirectory)
            },
            None => {
                assert(self.view().0 =~= fs.0);
                Err(FsError::NotFound)
            },
        }
    }

    fn stat(&self, vnode: &VNode) -> (r: Result<VNodeAttr, FsError>)
        ensures
            match spec_fs_stat(self.view(), vnode.id) {
                Ok((size, vtype)) => r matches Ok(a) && a.size == size && a.vtype == vtype,
                Err(e) => r matches Err(x) && x == e,
            },
    {
        match self.nodes.get(&vnode.id) {
            Some(MemNode::File(file)) => Ok(VNodeAttr { size: file.size(), vtype: VNodeType::File }),
            Some(MemNode::Directory(_)) => Ok(VNodeAttr { size: 0, vtype: VNodeType::Directory }),
            None => Err(FsError::NotFound),
        }
    }

    fn readdir(&self, vnode: &VNode) -> (r: Result<Vec<DirEntry>, FsError>)
        ensures
            match spec_fs_readdir(self.view(), vnode.id) {
                Ok(l) => r matches Ok(v) && spec_listing_view(v@) == l,
                Err(e) => r matches Err(x) && x == e,
            },
    {
        match self.nodes.get(&vnode.id) {
            Some(MemNode::Directory(dir)) => {
                let ghost ents = dir.view();
                let ghost vn = self.view().1;
                let mut entries: Vec<DirEntry> = Vec::new();
                let mut i: usize = 0;
                assert(ents.take(0) =~= Seq::<(Seq<char>, u64)>::empty());
                assert(spec_listing_view(entries@) =~= Seq::<(Seq<char>, VNodeType)>::empty());
                while i < dir.entries.len()
                    invariant
                        ents == dir.view(),
                        vn == self.view().1,
                        0 <= i <= ents.len(),
                        spec_listing_view(entries@) == spec_listing(ents.take(i as int), vn),
                    decreases ents.len() - i,
                {
                    let entry_id = dir.entries[i].1;
                    assert(ents[i as int] == (dir.entries@[i as int].0@, entry_id));
                    assert(ents.take(i as int + 1).drop_last() =~= ents.take(i as int));
                    assert(ents.take(i as int + 1).last() == ents[i as int]);
                    match self.vnodes.get(&entry_id) {
                        Some(entry_vnode) => {
                            let ghost before = spec_listing_view(entries@);
                            entries.push(DirEntry::new(dir.entries[i].0.clone(), entry_vnode.vtype));
                            assert(spec_listing_view(entries@) =~= before.push((ents[i as int].0, vn[entry_id].1)));
                        },
                        None => {},
                    }
                    i = i + 1;
                }
                assert(ents.take(ents.len() as int) =~= ents);
                Ok(entries)
            },
            Some(MemNode::File(_)) => Err(FsError::NotADirectory),
            None => Err(FsError::NotFound),
        }
    }
}

/// A file system held in memory.
pub struct MemoryFileSystem {
    state: FsState,
}

impl View for MemoryFileSystem {
    type V = FsView;

    closed spec fn view(&self) -> FsView {
        self.state.view()
    }
}

impl MemoryFileSystem {
    #[verifier::type_invariant]
    spec fn inv(self) -> bool {
        self.state.wf()
    }

    /// A file system holding only the root directory `/`.
    pub fn new() -> (r: Self)
        ensures
            r@ == spec_fs_initial(),
    {
        MemoryFileSystem { state: FsState::new_root() }
    }

    /// Moves the state out, leaving an empty one in its place.
    fn take_state(&mut self) -> (st: FsState)
        ensures
            st.wf(),
            st.view() == old(self)@,
    {
        proof {
            use_type_invariant(&*self);
        }
        let mut st = FsState::empty();
        std::mem::swap(&mut st, &mut self.state);
        st
    }
}

impl Default for MemoryFileSystem {
    fn default() -> (r: Self)
        ensures
            r@ == spec_fs_initial(),
    {
        Self::new()
    }
}

impl FileSystem for MemoryFileSystem {
    fn root(&self) -> (r: Result<VNode, FsError>)
        ensures
            match spec_fs_root(self@) {
                Ok(v) => r matches Ok(n) && spec_vnode_view(n) == v,
                Err(e) => r == Err::<VNode, FsError>(e),
            },
    {
        self.state.root()
    }

    fn lookup(&self, path: &str) -> (r: Result<VNode, FsError>)
        ensures
            match spec_fs_lookup(self@, path@) {
                Ok(v) => r matches Ok(n) && spec_vnode_view(n) == v,
                Err(e) => r == Err::<VNode, FsError>(e),
            },
    {
        proof {
            use_type_invariant(self);
        }
        self.state.lookup(path)
    }

    fn create(&mut self, path: &str, vtype: VNodeType) -> (r: Result<VNode, FsError>)
        ensures
            final(self)@ == spec_fs_create(old(self)@, path@, vtype).0,
            match spec_fs_create(old(self)@, path@, vtype).1 {
                Ok(v) => r matches Ok(n) && spec_vnode_view(n) == v,
                Err(e) => r == Err::<VNode, FsError>(e),
            },
    {
        let mut st = self.take_state();
        let r = st.create(path, vtype);
        self.state = st;
        r
    }

    fn remove(&mut self, path: &str) -> (r: Result<(), FsError>)
        ensures
            final(self)@ == spec_fs_remove(old(self)@, path@).0,
            r == spec_fs_remove(old(self)@, path@).1,
    {
        let mut st = self.take_state();
        let r = st.remove(path);
        self.state = st;
        r
    }

    fn read(&self, vnode: &VNode, offset: usize, buffer: &mut [u8]) -> (r: Result<usize, FsError>)
        ensures
            r == spec_fs_read(self@, vnode.id, offset as nat, old(buffer)@),
            r is Ok ==> final(buffer)@ == spec_after_read(self@.0[vnode.id].1, offset as nat, old(buffer)@),
            r is Err ==> final(buffer)@ == old(buffer)@,
    {
        self.state.read(vnode, offset, buffer)
    }

    fn write(&mut self, vnode: &VNode, offset: usize, buffer: &[u8]) -> (r: Result<usize, FsError>)
        ensures
            final(self)@ == spec_fs_write(old(self)@, vnode.id, offset as nat, buffer@).0,
            r == spec_fs_write(old(self)@, vnode.id, offset as nat, buffer@).1,
    {
        let mut st = self.take_state();
        let r = st.write(vnode, offset, buffer);
        self.state = st;
        r
    }

    fn stat(&self, vnode: &VNode) -> (r: Result<VNodeAttr, FsError>)
        ensures
            match spec_fs_stat(self@, vnode.id) {
                Ok((size, vtype)) => r matches Ok(a) && a.size == size && a.vtype == vtype,
                Err(e) => r matches Err(x) && x == e,
            },
    {
        self.state.stat(vnode)
    }

    fn readdir(&self, vnode: &VNode) -> (r: Result<Vec<DirEntry>, FsError>)
        ensures
            match spec_fs_readdir(self@, vnode.id) {
                Ok(l) => r matches Ok(v) && spec_listing_view(v@) == l,
                Err(e) => r matches Err(x) && x == e,
            },
    {
        self.state.readdir(vnode)
    }

    fn truncate(&mut self, vnode: &VNode, size: usize) -> (r: Result<(), FsError>)
        ensures
            final(self)@ == spec_fs_truncate(old(self)@, vnode.id, size as nat).0,
            r == spec_fs_truncate(old(self)@, vnode.id, size as nat).1,
    {
        let mut st = self.take_state();
        let r = st.truncate(vnode, size);
        self.state = st;
        r
    }
}

/// A new file system keeps its directories in name order and lists no
/// path twice.
pub proof fn lemma_initial_wf()
    ensures
        spec_fs_wf(spec_fs_initial()),
{
    let fs = spec_fs_initial();
    assert forall|id: u64| #[trigger] fs.0.contains_key(id) && fs.0[id].0 implies spec_sorted(fs.0[id].2) by {
    }
}

/// After a successful create, looking the same path up gives the created
/// vnode.
pub proof fn lemma_create_then_lookup(fs: FsView, path: Seq<char>, vtype: VNodeType)
    requires
        spec_fs_wf(fs),
        spec_fs_create(fs, path, vtype).1 is Ok,
    ensures
        spec_fs_lookup(spec_fs_create(fs, path, vtype).0, path) == spec_fs_create(fs, path, vtype).1,
{
    let n = spec_normalize(path);
    let id = fs.3;
    let after = spec_fs_create(fs, path, vtype).0;
    lemma_push_unique(fs.2, n, id);
    let t = after.2;
    assert(t[t.len() - 1].0 == n);
    assert(spec_has_name(t, n));
    let j = spec_index_of(t, n);
    assert(t[j].0 == t[t.len() - 1].0);
}

/// After a successful remove, the path is no longer found.
pub proof fn lemma_remove_then_lookup(fs: FsView, path: Seq<char>)
    requires
        spec_fs_wf(fs),
        spec_fs_remove(fs, path).1 is Ok,
    ensures
        spec_fs_lookup(spec_fs_remove(fs, path).0, path) == Err::<VNodeView, FsError>(FsError::NotFound),
{
    let n = spec_normalize(path);
    let k = spec_index_of(fs.2, n);
    let t = spec_fs_remove(fs, path).0.2;
    assert(t == fs.2.remove(k));
    if spec_has_name(t, n) {
        let i = choose|i: int| 0 <= i < t.len() && #[trigger] t[i].0 == n;
        let i2 = if i < k { i } else { i + 1 };
        assert(t[i] == fs.2[i2]);
        assert(fs.2[k].0 == n);
    }
}

/// Reading back, at the same offset and with a buffer of the same length,
/// what a successful write wrote gives exactly those bytes.
pub proof fn lemma_write_then_read(fs: FsView, id: u64, offset: nat, data: Seq<u8>, buf: Seq<u8>)
    requires
        spec_fs_write(fs, id, offset, data).1 is Ok,
        buf.len() == data.len(),
        data.len() <= usize::MAX,
    ensures
        ({
            let after = spec_fs_write(fs, id, offset, data).0;
            &&& spec_fs_read(after, id, offset, buf) == Ok::<usize, FsError>(data.len() as usize)
            &&& spec_after_read(after.0[id].1, offset, buf) == data
        }),
{
    let d = fs.0[id].1;
    lemma_read_after_write(d, offset, data);
    let w = spec_write(d, offset, data);
    if offset < w.len() {
        assert(buf.skip(data.len() as int) =~= Seq::<u8>::empty());
        assert(w.subrange(offset as int, (offset + data.len()) as int) + buf.skip(data.len() as int) =~= data);
    } else {
        assert(data.len() == 0);
        assert(buf =~= data);
    }
}

/// After a successful truncate, the file has exactly the requested size.
pub proof fn lemma_truncate_then_stat(fs: FsView, id: u64, size: nat)
    requires
        spec_fs_truncate(fs, id, size).1 is Ok,
    ensures
        spec_fs_stat(spec_fs_truncate(fs, id, size).0, id) == Ok::<(nat, VNodeType), FsError>((size, VNodeType::File)),
{
}

} // verus!
