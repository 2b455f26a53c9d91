//! A trie of class-path segments, as the TSRG reader builds it.
use crate::text::{is_prefix, occurs, occurs_at, push_char, split_first, starts_with, str_eq, str_split_once};
use vstd::prelude::*;
use vstd::string::{StrSliceExecFns, StringExecFns};

verus! {

/// A node of the trie: its key and its children, in the order they were added.
pub struct TsrgTrie {
    pub children: Vec<TsrgTrie>,
    pub key: String,
}

/// The keys of a node's children, in order.
pub open spec fn child_keys(t: &TsrgTrie) -> Seq<Seq<char>> {
    t.children@.map_values(|c: TsrgTrie| c.key@)
}

impl TsrgTrie {
    /// An empty trie, with the empty key.
    pub fn new() -> (r: TsrgTrie)
        ensures
            r.children@.len() == 0,
            r.key@ == Seq::<char>::empty(),
    {
        TsrgTrie { children: Vec::new(), key: String::new() }
    }

    /// Adds `child` as the last child.
    pub fn add_child(&mut self, child: TsrgTrie)
        ensures
            final(self).children@ == old(self).children@.push(child),
            final(self).key == old(self).key,
    {
        self.children.push(child);
    }

    /// Makes sure there is a child with key `child_key`: adds an empty one as
    /// the last child when there is none.
    pub fn ensure_child(&mut self, child_key: &str)
        ensures
            child_keys(old(self)).contains(child_key@) ==> final(self).children@ == old(self).children@,
            !child_keys(old(self)).contains(child_key@) ==> {
                &&& final(self).children@.len() == old(self).children@.len() + 1
                &&& final(self).children@.subrange(0, old(self).children@.len() as int) == old(self).children@
                &&& final(self).children@.last().key@ == child_key@
                &&& final(self).children@.last().children@.len() == 0
            },
            final(self).key == old(self).key,
    {
        let mut i: usize = 0;
        while i < self.children.len()
            invariant
                i <= self.children@.len(),
                forall|j: int| 0 <= j < i ==> self.children@[j].key@ != child_key@,
            decreases self.children@.len() - i,
        {
            if str_eq(self.children[i].key.as_str(), child_key) {
                assert(child_keys(self)[i as int] == child_key@);
                return;
            }
            i = i + 1;
        }
        assert(!child_keys(self).contains(child_key@));
        self.create_child(child_key);
    }

    /// Adds an empty child with key `child_key` as the last child.
    pub fn create_child(&mut self, child_key: &str)
        ensures
            final(self).children@.len() == old(self).children@.len() + 1,
            final(self).children@.subrange(0, old(self).children@.len() as int) == old(self).children@,
            final(self).children@.last().key@ == child_key@,
            final(self).children@.last().children@.len() == 0,
            final(self).key == old(self).key,
    {
        let node = TsrgTrie { children: Vec::new(), key: String::from_str(child_key) };
        self.children.push(node);
        assert(self.children@.subrange(0, old(self).children@.len() as int) =~= old(self).children@);
    }
}

/// The `/`-separated parts of a class path, empty ones included.
pub open spec fn slash_parts(s: Seq<char>) -> Seq<Seq<char>>
    decreases s.len(),
{
    if s.len() == 0 {
        seq![Seq::empty()]
    } else {
        let p = slash_parts(s.drop_last());
        if s.last() == '/' {
            p.push(Seq::empty())
        } else {
            p.update(p.len() - 1, p.last().push(s.last()))
        }
    }
}

/// `keys` with each of `parts` that it lacks added at the end, in order.
pub open spec fn keys_after(keys: Seq<Seq<char>>, parts: Seq<Seq<char>>) -> Seq<Seq<char>>
    decreases parts.len(),
{
    if parts.len() == 0 {
        keys
    } else {
        let k = keys_after(keys, parts.drop_last());
        if k.contains(parts.last()) {
            k
        } else {
            k.push(parts.last())
        }
    }
}

/// Whether a line of a TSRG file names a class: it is not indented and holds a `/`.
pub open spec fn class_line(line: Seq<char>) -> bool {
    !is_prefix(seq!['\t'], line) && line.contains('/')
}

/// The keys under the root after reading `lines`: each part of the path that a
/// class line gives after its first space, in the order first seen.
pub open spec fn tsrg_keys(lines: Seq<Seq<char>>) -> Seq<Seq<char>>
    decreases lines.len(),
{
    if lines.len() == 0 {
        Seq::empty()
    } else {
        let k = tsrg_keys(lines.drop_last());
        let line = lines.last();
        if class_line(line) {
            keys_after(k, slash_parts(split_first(line, seq![' ']).unwrap().1))
        } else {
            k
        }
    }
}

/// Whether `c` is one of the characters of `s`.
fn has_char(s: &str, c: char) -> (r: bool)
    ensures
        r == s@.contains(c),
{
    let n = s.unicode_len();
    let mut i: usize = 0;
    while i < n
        invariant
            i <= n,
            n == s@.len(),
            forall|j: int| 0 <= j < i ==> s@[j] != c,
        decreases n - i,
    {
        if s.get_char(i) == c {
            return true;
        }
        i = i + 1;
    }
    false
}

/// Whether every child of a node is a leaf.
pub open spec fn leaf_children(t: &TsrgTrie) -> bool {
    forall|j: int| 0 <= j < t.children@.len() ==> (#[trigger] t.children@[j]).children@.len() == 0
}

proof fn lemma_ensured_keys(before: Seq<TsrgTrie>, after: Seq<TsrgTrie>, k: Seq<char>)
    requires
        before.len() + 1 == after.len(),
        after.subrange(0, before.len() as int) == before,
        after.last().key@ == k,
    ensures
        after.map_values(|c: TsrgTrie| c.key@) == before.map_values(|c: TsrgTrie| c.key@).push(k),
{
    assert forall|j: int| 0 <= j < before.len() implies after[j] == before[j] by {
        assert(after.subrange(0, before.len() as int)[j] == after[j]);
    }
    assert(after.map_values(|c: TsrgTrie| c.key@) =~= before.map_values(|c: TsrgTrie| c.key@).push(k));
}

impl TsrgTrie {
    /// Adds each part of the `/`-separated `path` that the root lacks as a leaf child.
    fn ensure_path(&mut self, path: &str)
        requires
            leaf_children(old(self)),
        ensures
            leaf_children(final(self)),
            final(self).key == old(self).key,
            child_keys(final(self)) == keys_after(child_keys(old(self)), slash_parts(path@)),
    {
        let ghost k0 = child_keys(self);
        let n = path.unicode_len();
        let mut cur = String::new();
        let mut i: usize = 0;
        proof {
            assert(path@.take(0) =~= Seq::<char>::empty());
            assert(slash_parts(path@.take(0)).drop_last() =~= Seq::<Seq<char>>::empty());
        }
        while i < n
            invariant
                i <= n,
                n == path@.len(),
                slash_parts(path@.take(i as int)).len() >= 1,
                cur@ == slash_parts(path@.take(i as int)).last(),
                child_keys(self) == keys_after(k0, slash_parts(path@.take(i as int)).drop_last()),
                leaf_children(self),
                self.key == old(self).key,
            decreases n - i,
        {
            let c = path.get_char(i);
            let ghost ps = slash_parts(path@.take(i as int));
            assert(path@.take(i + 1).drop_last() =~= path@.take(i as int));
            assert(path@.take(i + 1).last() == c);
            if c == '/' {
                self.ensure_leaf_child(cur.as_str());
                cur = String::new();
                assert(slash_parts(path@.take(i + 1)) == ps.push(Seq::empty()));
                assert(ps.push(Seq::<char>::empty()).drop_last() =~= ps);
            } else {
                push_char(&mut cur, c);
                let ghost ps2 = ps.update(ps.len() - 1, ps.last().push(c));
                assert(slash_parts(path@.take(i + 1)) == ps2);
                assert(ps2.drop_last() =~= ps.drop_last());
            }
            i = i + 1;
        }
        assert(path@.take(n as int) =~= path@);
        self.ensure_leaf_child(cur.as_str());
    }

    /// [`TsrgTrie::ensure_child`] on a root whose children are leaves.
    fn ensure_leaf_child(&mut self, key: &str)
        requires
            leaf_children(old(self)),
        ensures
            leaf_children(final(self)),
            final(self).key == old(self).key,
            child_keys(final(self)) == if child_keys(old(self)).contains(key@) {
                child_keys(old(self))
            } else {
                child_keys(old(self)).push(key@)
            },
    {
        let ghost before = self.children@;
        let ghost kb = child_keys(self);
        self.ensure_child(key);
        proof {
            if !kb.contains(key@) {
                lemma_ensured_keys(before, self.children@, key@);
                assert forall|j: int| 0 <= j < self.children@.len() implies (#[trigger] self.children@[j]).children@.len()
                    == 0 by {
                    if j < before.len() {
                        assert(self.children@.subrange(0, before.len() as int)[j] == self.children@[j]);
                    }
                }
            }
        }
    }
}

/// The texts of lines.
pub open spec fn line_views(lines: Seq<String>) -> Seq<Seq<char>> {
    lines.map_values(|l: String| l@)
}

/// The trie that reading a TSRG file's lines builds: under the root, one leaf
/// for each class-path part named by a class line, in the order first seen.
/// Every class line must have a space in it.
pub fn read_tsrg_lines(lines: &Vec<String>) -> (r: TsrgTrie)
    requires
        forall|j: int| 0 <= j < lines@.len() && class_line(#[trigger] lines@[j]@) ==> occurs(lines@[j]@, seq![' ']),
    ensures
        r.key@ == Seq::<char>::empty(),
        leaf_children(&r),
        child_keys(&r) == tsrg_keys(line_views(lines@)),
{
    proof {
        reveal_strlit(" ");
        reveal_strlit("\t");
    }
    let mut trie = TsrgTrie::new();
    let mut i: usize = 0;
    assert(line_views(lines@).take(0) =~= Seq::<Seq<char>>::empty());
    assert(child_keys(&trie) =~= Seq::<Seq<char>>::empty());
    while i < lines.len()
        invariant
            i <= lines@.len(),
            forall|j: int| 0 <= j < lines@.len() && class_line(#[trigger] lines@[j]@) ==> occurs(lines@[j]@, seq![' ']),
            trie.key@ == Seq::<char>::empty(),
            leaf_children(&trie),
            child_keys(&trie) == tsrg_keys(line_views(lines@).take(i as int)),
            " "@ == seq![' '],
            "\t"@ == seq!['\t'],
        decreases lines@.len() - i,
    {
        let line = lines[i].as_str();
        let ghost lv = line_views(lines@);
        assert(lv.take(i + 1).drop_last() =~= lv.take(i as int));
        assert(lv.take(i + 1).last() == line@);
        if !starts_with(line, "\t") && has_char(line, '/') {
            assert(class_line(lines@[i as int]@));
            match str_split_once(line, " ") {
                Some((_, class_path)) => {
                    trie.ensure_path(class_path);
                },
                None => {},
            }
        }
        i = i + 1;
    }
    assert(line_views(lines@).take(lines@.len() as int) =~= line_views(lines@));
    trie
}

/// Whether a line meets what [`read_tsrg_lines`] asks of each line: a class
/// line has a space in it.
pub fn class_line_has_space(line: &str) -> (r: bool)
    ensures
        r == (class_line(line@) ==> occurs(line@, seq![' '])),
{
    proof {
        reveal_strlit("\t");
    }
    assert("\t"@ == seq!['\t']);
    let tab = starts_with(line, "\t");
    let slash = has_char(line, '/');
    assert(class_line(line@) == (!tab && slash));
    if tab || !slash {
        return true;
    }
    let found = has_char(line, ' ');
    proof {
        if found {
            let i = choose|i: int| 0 <= i < line@.len() && line@[i] == ' ';
            assert(line@.subrange(i, i + 1) =~= seq![' ']);
            assert(occurs_at(line@, seq![' '], i));
        } else {
            if occurs(line@, seq![' ']) {
                let i = choose|i: int| occurs_at(line@, seq![' '], i);
                assert(line@.subrange(i, i + 1)[0] == ' ');
                assert(line@[i] == ' ');
            }
        }
    }
    found
}

} // verus!
