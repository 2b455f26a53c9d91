//! What the tool keeps between runs: the hash of the versions list, which
//! mapping files a version needs, and the order in which versions are listed.
use crate::order::{sorted_by, text_order, texts};
use crate::text::{joined_path, join_path, push_char};
use vstd::prelude::*;
use vstd::string::{StrSliceExecFns, StringExecFns};

verus! {

/// What is remembered between runs: the hash of the last versions list.
#[derive(Clone, Debug)]
pub struct RebornCache {
    pub versions_json_hash: String,
}

impl RebornCache {
    /// The cache of a first run, before any versions list was fetched.
    pub fn empty() -> (r: Self)
        ensures
            r.versions_json_hash@ == Seq::<char>::empty(),
    {
        RebornCache { versions_json_hash: String::new() }
    }
}

/// The directory under the cache directory `store` that holds the mapping
/// tables of one game version, channel and mappings version.
pub open spec fn version_dir(store: Seq<char>, mc_version: Seq<char>, channel: Seq<char>, version: Seq<char>) -> Seq<
    char,
> {
    joined_path(joined_path(joined_path(joined_path(store, "mappings"@), mc_version), channel), version)
}

/// The files that must be in the cache for a game version's mappings to be
/// there: the method, parameter and field tables of the mappings version, and
/// the game version's `joined.tsrg`.
pub fn required_mapping_files(store_dir: &str, mc_version: &str, channel: &str, mappings_version: &str) -> (r: Vec<
    String,
>)
    ensures
        r@.len() == 4,
        r@[0]@ == joined_path(version_dir(store_dir@, mc_version@, channel@, mappings_version@), "methods.csv"@),
        r@[1]@ == joined_path(version_dir(store_dir@, mc_version@, channel@, mappings_version@), "params.csv"@),
        r@[2]@ == joined_path(version_dir(store_dir@, mc_version@, channel@, mappings_version@), "fields.csv"@),
        r@[3]@ == joined_path(joined_path(joined_path(store_dir@, "mappings"@), mc_version@), "joined.tsrg"@),
{
    let mappings_dir = join_path(store_dir, "mappings");
    let tsrg_dir = join_path(mappings_dir.as_str(), mc_version);
    let channel_dir = join_path(tsrg_dir.as_str(), channel);
    let save_dir = join_path(channel_dir.as_str(), mappings_version);
    let mut r: Vec<String> = Vec::new();
    r.push(join_path(save_dir.as_str(), "methods.csv"));
    r.push(join_path(save_dir.as_str(), "params.csv"));
    r.push(join_path(save_dir.as_str(), "fields.csv"));
    r.push(join_path(tsrg_dir.as_str(), "joined.tsrg"));
    r
}

/// The dot-separated parts of a version, empty ones included.
pub open spec fn dot_parts(s: Seq<char>) -> Seq<Seq<char>>
    decreases s.len(),
{
    if s.len() == 0 {
        seq![Seq::empty()]
    } else {
        let p = dot_parts(s.drop_last());
        if s.last() == '.' {
            p.push(Seq::empty())
        } else {
            p.update(p.len() - 1, p.last().push(s.last()))
        }
    }
}

/// A part at least two characters wide, left-filled with `0`.
pub open spec fn pad_part(p: Seq<char>) -> Seq<char> {
    if p.len() == 0 {
        seq!['0', '0']
    } else if p.len() == 1 {
        seq!['0'] + p
    } else {
        p
    }
}

/// A part without the `0`s it starts with.
pub open spec fn strip_zeros(p: Seq<char>) -> Seq<char>
    decreases p.len(),
{
    if p.len() > 0 && p[0] == '0' {
        strip_zeros(p.drop_first())
    } else {
        p
    }
}

/// One part, padded or stripped.
pub open spec fn part_map(p: Seq<char>, pad: bool) -> Seq<char> {
    if pad {
        pad_part(p)
    } else {
        strip_zeros(p)
    }
}

/// All parts but the last, each mapped and followed by a dot.
spec fn mapped_front(ps: Seq<Seq<char>>, pad: bool) -> Seq<char>
    decreases ps.len(),
{
    if ps.len() <= 1 {
        Seq::empty()
    } else {
        mapped_front(ps.drop_last(), pad) + part_map(ps[ps.len() - 2], pad) + seq!['.']
    }
}

/// Parts joined with dots.
pub open spec fn join_dots(ps: Seq<Seq<char>>) -> Seq<char>
    decreases ps.len(),
{
    if ps.len() == 0 {
        Seq::empty()
    } else if ps.len() == 1 {
        ps[0]
    } else {
        join_dots(ps.drop_last()) + seq!['.'] + ps.last()
    }
}

/// Each part mapped.
pub open spec fn map_parts(ps: Seq<Seq<char>>, pad: bool) -> Seq<Seq<char>> {
    ps.map_values(|p: Seq<char>| part_map(p, pad))
}

/// A version with each of its parts mapped, joined again with dots.
pub open spec fn mapped_version(s: Seq<char>, pad: bool) -> Seq<char> {
    join_dots(map_parts(dot_parts(s), pad))
}

proof fn lemma_mapped_front(ps: Seq<Seq<char>>, pad: bool)
    requires
        ps.len() >= 1,
    ensures
        mapped_front(ps, pad) + part_map(ps.last(), pad) == join_dots(map_parts(ps, pad)),
    decreases ps.len(),
{
    if ps.len() > 1 {
        let dl = ps.drop_last();
        lemma_mapped_front(dl, pad);
        assert(map_parts(ps, pad).drop_last() =~= map_parts(dl, pad));
        assert(dl.last() == ps[ps.len() - 2]);
    } else {
        assert(mapped_front(ps, pad) =~= Seq::<char>::empty());
    }
}

proof fn lemma_dot_parts_nonempty(s: Seq<char>)
    ensures
        dot_parts(s).len() >= 1,
    decreases s.len(),
{
    if s.len() > 0 {
        lemma_dot_parts_nonempty(s.drop_last());
    }
}

fn map_part(p: &String, pad: bool) -> (r: String)
    ensures
        r@ == part_map(p@, pad),
{
    let n = p.unicode_len();
    if pad {
        if n == 0 {
            let mut r = String::new();
            push_char(&mut r, '0');
            push_char(&mut r, '0');
            assert(r@ =~= seq!['0', '0']);
            r
        } else if n == 1 {
            let mut r = String::new();
            push_char(&mut r, '0');
            r.append(p.as_str());
            assert(r@ =~= seq!['0'] + p@);
            r
        } else {
            p.clone()
        }
    } else {
        let mut k: usize = 0;
        assert(p@.skip(0) =~= p@);
        while k < n && p.as_str().get_char(k) == '0'
            invariant
                k <= n,
                n == p@.len(),
                strip_zeros(p@.skip(k as int)) == strip_zeros(p@),
            decreases n - k,
        {
            assert(p@.skip(k as int).drop_first() =~= p@.skip(k + 1));
            k = k + 1;
        }
        assert(p@.skip(k as int) =~= p@.subrange(k as int, n as int));
        String::from_str(p.as_str().substring_char(k, n))
    }
}

/// `s` with each dot-separated part mapped.
fn map_version(s: &str, pad: bool) -> (r: String)
    ensures
        r@ == mapped_version(s@, pad),
{
    let n = s.unicode_len();
    let mut out = String::new();
    let mut cur = String::new();
    let mut i: usize = 0;
    proof {
        assert(s@.take(0) =~= Seq::<char>::empty());
    }
    while i < n
        invariant
            i <= n,
            n == s@.len(),
            dot_parts(s@.take(i as int)).len() >= 1,
            out@ == mapped_front(dot_parts(s@.take(i as int)), pad),
            cur@ == dot_parts(s@.take(i as int)).last(),
        decreases n - i,
    {
        let c = s.get_char(i);
        let ghost ps = dot_parts(s@.take(i as int));
        assert(s@.take(i + 1).drop_last() =~= s@.take(i as int));
        assert(s@.take(i + 1).last() == c);
        if c == '.' {
            let part = map_part(&cur, pad);
            out.append(part.as_str());
            push_char(&mut out, '.');
            cur = String::new();
            assert(dot_parts(s@.take(i + 1)) == ps.push(Seq::empty()));
            assert(ps.push(Seq::<char>::empty()).drop_last() =~= ps);
            assert(out@ =~= mapped_front(ps, pad) + part_map(ps.last(), pad) + seq!['.']);
            assert(cur@ =~= Seq::<char>::empty());
        } else {
            push_char(&mut cur, c);
            let ghost ps2 = ps.update(ps.len() - 1, ps.last().push(c));
            assert(dot_parts(s@.take(i + 1)) == ps2);
            proof {
                if ps.len() >= 2 {
                    assert(ps2.drop_last() =~= ps.drop_last());
                    assert(ps2[ps2.len() - 2] == ps[ps.len() - 2]);
                }
            }
            assert(mapped_front(ps2, pad) == mapped_front(ps, pad));
        }
        i = i + 1;
    }
    assert(s@.take(n as int) =~= s@);
    let last = map_part(&cur, pad);
    out.append(last.as_str());
    proof {
        lemma_mapped_front(dot_parts(s@), pad);
    }
    out
}

/// Whether a text has no dot in it.
pub open spec fn dotless(p: Seq<char>) -> bool {
    forall|j: int| 0 <= j < p.len() ==> p[j] != '.'
}

/// Whether a version part is shown as it is written: it is not empty and does
/// not start with `0`.
pub open spec fn plain_part(p: Seq<char>) -> bool {
    p.len() > 0 && p[0] != '0'
}

proof fn lemma_parts_dotless(s: Seq<char>)
    ensures
        dot_parts(s).len() >= 1,
        forall|j: int| 0 <= j < dot_parts(s).len() ==> dotless(#[trigger] dot_parts(s)[j]),
    decreases s.len(),
{
    if s.len() > 0 {
        lemma_parts_dotless(s.drop_last());
        let p = dot_parts(s.drop_last());
        if s.last() != '.' {
            assert(dotless(p.last().push(s.last())));
        }
    }
}

proof fn lemma_join_parts(s: Seq<char>)
    ensures
        join_dots(dot_parts(s)) == s,
    decreases s.len(),
{
    if s.len() > 0 {
        let t = s.drop_last();
        lemma_join_parts(t);
        lemma_parts_dotless(t);
        let p = dot_parts(t);
        if s.last() == '.' {
            assert(p.push(Seq::empty()).drop_last() =~= p);
            assert(s =~= t + seq!['.'] + Seq::<char>::empty());
        } else {
            let q = p.update(p.len() - 1, p.last().push(s.last()));
            if p.len() > 1 {
                assert(q.drop_last() =~= p.drop_last());
                assert(t == join_dots(p.drop_last()) + seq!['.'] + p.last());
                assert(q.last() == p.last().push(s.last()));
                assert(s =~= t.push(s.last()));
                assert(s =~= join_dots(p.drop_last()) + seq!['.'] + q.last());
            } else {
                assert(s =~= q[0]);
            }
        }
    }
}

proof fn lemma_parts_append(s: Seq<char>, t: Seq<char>)
    requires
        dotless(t),
    ensures
        dot_parts(s + t) == dot_parts(s).update(dot_parts(s).len() - 1, dot_parts(s).last() + t),
    decreases t.len(),
{
    lemma_parts_dotless(s);
    let p = dot_parts(s);
    if t.len() == 0 {
        assert(s + t =~= s);
        assert(p.last() + t =~= p.last());
        assert(p.update(p.len() - 1, p.last()) =~= p);
    } else {
        let u = t.drop_last();
        assert(dotless(u)) by {
            assert forall|j: int| 0 <= j < u.len() implies u[j] != '.' by {
                assert(u[j] == t[j]);
            }
        }
        assert(t.last() != '.') by {
            assert(t[t.len() - 1] != '.');
        }
        lemma_parts_append(s, u);
        let pu = p.update(p.len() - 1, p.last() + u);
        assert(dot_parts(s + u) == pu);
        assert(pu.len() == p.len());
        assert(pu.last() == p.last() + u);
        assert((s + t).drop_last() =~= s + u);
        assert((s + t).last() == t.last());
        assert(dot_parts(s + t) == pu.update(pu.len() - 1, pu.last().push(t.last())));
        assert(pu.last().push(t.last()) =~= p.last() + t);
        assert(pu.update(pu.len() - 1, p.last() + t) =~= p.update(p.len() - 1, p.last() + t));
    }
}

proof fn lemma_parts_of_join(qs: Seq<Seq<char>>)
    requires
        qs.len() >= 1,
        forall|j: int| 0 <= j < qs.len() ==> dotless(#[trigger] qs[j]),
    ensures
        dot_parts(join_dots(qs)) == qs,
    decreases qs.len(),
{
    if qs.len() == 1 {
        lemma_parts_append(Seq::empty(), qs[0]);
        assert(Seq::<char>::empty() + qs[0] =~= qs[0]);
        assert(dot_parts(Seq::<char>::empty()) =~= seq![Seq::<char>::empty()]);
        assert(Seq::<char>::empty() + qs[0] =~= qs[0]);
        assert(seq![Seq::<char>::empty()].update(0, Seq::<char>::empty() + qs[0]) =~= qs);
    } else {
        let dl = qs.drop_last();
        lemma_parts_of_join(dl);
        let front = join_dots(dl) + seq!['.'];
        assert(front.drop_last() =~= join_dots(dl));
        assert(dot_parts(front) == dl.push(Seq::empty()));
        lemma_parts_append(front, qs.last());
        assert(Seq::<char>::empty() + qs.last() =~= qs.last());
        assert(dl.push(Seq::empty()).update(dl.len() as int, qs.last()) =~= qs);
    }
}

/// Taking the padding off a padded key gives the key back, when each of its
/// parts is written without leading zeros (a part `0`, or an empty part, does
/// not come back: `1.0` is shown as `1.`).
pub proof fn lemma_unpad_pad(k: Seq<char>)
    requires
        forall|j: int| 0 <= j < dot_parts(k).len() ==> plain_part(#[trigger] dot_parts(k)[j]),
    ensures
        mapped_version(mapped_version(k, true), false) == k,
{
    let ps = dot_parts(k);
    lemma_parts_dotless(k);
    let qs = map_parts(ps, true);
    assert forall|j: int| 0 <= j < qs.len() implies dotless(#[trigger] qs[j]) by {
        assert(dotless(ps[j]));
        assert(plain_part(ps[j]));
    }
    lemma_parts_of_join(qs);
    assert forall|j: int| 0 <= j < ps.len() implies #[trigger] map_parts(qs, false)[j] == ps[j] by {
        let p = ps[j];
        assert(plain_part(p));
        assert(qs[j] == pad_part(p));
        assert(map_parts(qs, false)[j] == strip_zeros(qs[j]));
        assert(strip_zeros(p) == p);
        if p.len() == 1 {
            assert((seq!['0'] + p).drop_first() =~= p);
            assert(strip_zeros(seq!['0'] + p) == strip_zeros(p));
        }
    }
    assert(map_parts(qs, false) =~= ps);
    lemma_join_parts(k);
}

/// A version key with every part at least two characters wide, so that
/// keys order by their text as versions do.
pub fn pad_version_key(k: &str) -> (r: String)
    ensures
        r@ == mapped_version(k@, true),
{
    map_version(k, true)
}

/// A version key with the `0`s that each part starts with taken off.
pub fn unpad_version_key(k: &str) -> (r: String)
    ensures
        r@ == mapped_version(k@, false),
{
    map_version(k, false)
}

/// The padded keys of versions.
pub open spec fn padded_keys(keys: Seq<String>) -> Seq<Seq<char>> {
    Seq::new(keys.len(), |j: int| mapped_version(keys[j]@, true))
}

/// The versions in the order in which they are listed: by their keys with each
/// part padded to two characters (so `1.9` comes before `1.12`), each shown
/// under its key with the padding taken off again. Each entry holds the shown
/// key and the position of the version in `keys`; every position comes once,
/// and versions whose padded keys are equal keep their order.
pub fn order_versions(keys: &Vec<String>) -> (r: Vec<(String, usize)>)
    ensures
        r@.len() == keys@.len(),
        sorted_by(padded_keys(keys@), r@.map_values(|e: (String, usize)| e.1)),
        forall|j: int|
            0 <= j < r@.len() ==> (#[trigger] r@[j]).0@ == mapped_version(padded_keys(keys@)[r@[j].1 as int], false),
{
    let n = keys.len();
    let ghost pk = padded_keys(keys@);
    let mut padded: Vec<String> = Vec::new();
    let mut i: usize = 0;
    while i < n
        invariant
            i <= n,
            n == keys@.len(),
            pk == padded_keys(keys@),
            padded@.len() == i,
            forall|j: int| 0 <= j < i ==> (#[trigger] padded@[j])@ == pk[j],
        decreases n - i,
    {
        let p = pad_version_key(keys[i].as_str());
        padded.push(p);
        i = i + 1;
    }
    assert(texts(padded@) =~= pk);
    let order = text_order(&padded);
    let mut r: Vec<(String, usize)> = Vec::new();
    let mut j: usize = 0;
    while j < n
        invariant
            j <= n,
            n == keys@.len(),
            padded@.len() == n,
            pk == padded_keys(keys@),
            texts(padded@) == pk,
            order@.len() == n,
            sorted_by(pk, order@),
            r@.len() == j,
            forall|q: int| 0 <= q < j ==> (#[trigger] r@[q]).1 == order@[q],
            forall|q: int| 0 <= q < j ==> (#[trigger] r@[q]).0@ == mapped_version(pk[r@[q].1 as int], false),
        decreases n - j,
    {
        let at = order[j];
        assert(padded@[at as int]@ == texts(padded@)[at as int]);
        let shown = unpad_version_key(padded[at].as_str());
        r.push((shown, at));
        j = j + 1;
    }
    assert(r@.map_values(|e: (String, usize)| e.1) =~= order@);
    r
}

/// Whether the cached versions list can be used as it is: it exists, and its
/// hash is known and equals the hash remembered in the cache.
pub fn versions_json_fresh(exists: bool, cached_hash: &Option<String>, current_hash: &Option<String>) -> (r: bool)
    ensures
        r == (exists && cached_hash is Some && current_hash is Some && cached_hash.unwrap()@
            == current_hash.unwrap()@),
{
    match (cached_hash, current_hash) {
        (Some(a), Some(b)) => exists && crate::text::str_eq(a.as_str(), b.as_str()),
        _ => false,
    }
}

/// The prefixes of a game version's line in the versions tree and of the lines
/// under it: the first version opens the tree (or stands alone when nothing
/// follows), the version at the last position of the whole list closes it,
/// and the others continue it.
pub fn game_version_prefixes(i: usize, has_next: bool, total: usize) -> (r: (&'static str, &'static str))
    ensures
        r.0@ == if i == 0 {
            if has_next { "┌─┬─"@ } else { "──┬─"@ }
        } else if i + 1 == total {
            "└─┬─"@
        } else {
            "├─┬─"@
        },
        r.1@ == if i == 0 {
            if has_next { "│ "@ } else { "  "@ }
        } else if i + 1 == total {
            "  "@
        } else {
            "│ "@
        },
{
    if i == 0 {
        if has_next {
            ("┌─┬─", "│ ")
        } else {
            ("──┬─", "  ")
        }
    } else if total > 0 && i == total - 1 {
        ("└─┬─", "  ")
    } else {
        ("├─┬─", "│ ")
    }
}

/// The prefixes of the line of the `i`-th of `len` mapping types, and of the lines under it.
pub fn mapping_type_prefixes(i: usize, len: usize) -> (r: (&'static str, &'static str))
    ensures
        r.0@ == if i + 1 == len { "└─┬─"@ } else { "├─┬─"@ },
        r.1@ == if i + 1 == len { "  "@ } else { "│ "@ },
{
    if len > 0 && i == len - 1 {
        ("└─┬─", "  ")
    } else {
        ("├─┬─", "│ ")
    }
}

/// The prefix of the line of the `i`-th of `len` mapping versions.
pub fn mapping_version_prefix(i: usize, len: usize) -> (r: &'static str)
    ensures
        r@ == if i + 1 == len { "└──"@ } else { "├──"@ },
{
    if len > 0 && i == len - 1 {
        "└──"
    } else {
        "├──"
    }
}

} // verus!
