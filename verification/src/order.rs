//! Text order, the order in which Rust compares strings, and a stable sort by it.
use vstd::prelude::*;
use vstd::string::StrSliceExecFns;

verus! {

/// Text order from character `i` on: character by character, a text before
/// any longer text that it starts.
pub open spec fn lex_le_from(a: Seq<char>, b: Seq<char>, i: int) -> bool
    decreases a.len() - i,
{
    if i >= a.len() {
        true
    } else if i >= b.len() {
        false
    } else if (a[i] as int) < (b[i] as int) {
        true
    } else if a[i] == b[i] {
        lex_le_from(a, b, i + 1)
    } else {
        false
    }
}

/// Whether `a` comes no later than `b` in text order, the order in which
/// Rust compares strings.
pub open spec fn lex_le(a: Seq<char>, b: Seq<char>) -> bool {
    lex_le_from(a, b, 0)
}

proof fn lemma_lex_refl(a: Seq<char>, i: int)
    requires
        0 <= i,
    ensures
        lex_le_from(a, a, i),
    decreases a.len() - i,
{
    if i < a.len() {
        lemma_lex_refl(a, i + 1);
    }
}

proof fn lemma_lex_trans(a: Seq<char>, b: Seq<char>, c: Seq<char>, i: int)
    requires
        0 <= i,
        lex_le_from(a, b, i),
        lex_le_from(b, c, i),
    ensures
        lex_le_from(a, c, i),
    decreases a.len() - i,
{
    if i < a.len() && a[i] == b[i] && b[i] == c[i] {
        lemma_lex_trans(a, b, c, i + 1);
    }
}

proof fn lemma_lex_total(a: Seq<char>, b: Seq<char>, i: int)
    requires
        0 <= i,
    ensures
        lex_le_from(a, b, i) || lex_le_from(b, a, i),
    decreases a.len() - i,
{
    if i < a.len() && i < b.len() {
        if a[i] == b[i] {
            lemma_lex_total(a, b, i + 1);
        }
    }
}

/// Whether `a` comes no later than `b` in text order.
fn text_le(a: &str, b: &str) -> (r: bool)
    ensures
        r == lex_le(a@, b@),
{
    let na = a.unicode_len();
    let nb = b.unicode_len();
    let mut i: usize = 0;
    while i < na
        invariant
            i <= na,
            na == a@.len(),
            nb == b@.len(),
            lex_le_from(a@, b@, i as int) == lex_le(a@, b@),
        decreases na - i,
    {
        if i >= nb {
            return false;
        }
        let x = a.get_char(i);
        let y = b.get_char(i);
        if x < y {
            return true;
        }
        if x != y {
            return false;
        }
        i = i + 1;
    }
    true
}

/// The texts of strings.
pub open spec fn texts(v: Seq<String>) -> Seq<Seq<char>> {
    v.map_values(|s: String| s@)
}

/// `order` lists distinct positions of `keys` so that their keys come in text
/// order, positions with equal keys in increasing order.
pub open spec fn sorted_by(keys: Seq<Seq<char>>, order: Seq<usize>) -> bool {
    &&& forall|j: int| 0 <= j < order.len() ==> #[trigger] order[j] < keys.len()
    &&& forall|j: int, k: int| 0 <= j < k < order.len() ==> #[trigger] order[j] != #[trigger] order[k]
    &&& forall|j: int, k: int|
        0 <= j < k < order.len() ==> lex_le(keys[#[trigger] order[j] as int], keys[#[trigger] order[k] as int])
    &&& forall|j: int, k: int|
        0 <= j < k < order.len() && keys[#[trigger] order[j] as int] == keys[#[trigger] order[k] as int] ==> order[j]
            < order[k]
}

/// Whether `order` sorts the keys below `n`: like [`sorted_by`], over those positions only.
spec fn sorted_below(keys: Seq<Seq<char>>, order: Seq<usize>, n: int) -> bool {
    &&& forall|j: int| 0 <= j < order.len() ==> #[trigger] order[j] < n
    &&& forall|j: int, k: int| 0 <= j < k < order.len() ==> #[trigger] order[j] != #[trigger] order[k]
    &&& forall|j: int, k: int|
        0 <= j < k < order.len() ==> lex_le(keys[#[trigger] order[j] as int], keys[#[trigger] order[k] as int])
    &&& forall|j: int, k: int|
        0 <= j < k < order.len() && keys[#[trigger] order[j] as int] == keys[#[trigger] order[k] as int] ==> order[j]
            < order[k]
}

/// The positions of `keys` in text order of the keys, equal keys in the order
/// they come: what a stable sort by key does to them. Every position comes once.
pub fn text_order(keys: &Vec<String>) -> (r: Vec<usize>)
    ensures
        r@.len() == keys@.len(),
        sorted_by(texts(keys@), r@),
{
    let ghost kt = texts(keys@);
    let n = keys.len();
    let mut order: Vec<usize> = Vec::new();
    let mut i: usize = 0;
    while i < n
        invariant
            i <= n,
            n == keys@.len(),
            kt == texts(keys@),
            order@.len() == i,
            sorted_below(kt, order@, i as int),
        decreases n - i,
    {
        let ghost pk = kt[i as int];
        assert(keys@[i as int]@ == pk);
        let mut p: usize = i;
        while p > 0 && !text_le(keys[order[p - 1]].as_str(), keys[i].as_str())
            invariant
                p <= i,
                i < n,
                n == keys@.len(),
                kt == texts(keys@),
                order@.len() == i,
                sorted_below(kt, order@, i as int),
                pk == kt[i as int],
                forall|q: int| p <= q < i ==> !lex_le(kt[#[trigger] order@[q] as int], pk),
            decreases p,
        {
            assert(keys@[order@[p - 1] as int]@ == kt[order@[p - 1] as int]);
            p = p - 1;
        }
        let ghost old_order = order@;
        proof {
            assert forall|q: int| 0 <= q < p implies lex_le(kt[#[trigger] old_order[q] as int], pk) by {
                assert(keys@[old_order[p - 1] as int]@ == kt[old_order[p - 1] as int]);
                let last = kt[old_order[p - 1] as int];
                if q < p - 1 {
                    lemma_lex_trans(kt[old_order[q] as int], last, pk, 0);
                }
            }
            assert forall|q: int| p <= q < i implies lex_le(pk, kt[#[trigger] old_order[q] as int]) && pk != kt[old_order[q] as int] by {
                lemma_lex_total(pk, kt[old_order[q] as int], 0);
                lemma_lex_refl(pk, 0);
            }
        }
        order.insert(p, i);
        proof {
            let o = order@;
            assert(o == old_order.insert(p as int, i));
            assert forall|j: int, k: int| 0 <= j < k < o.len() implies lex_le(
                kt[#[trigger] o[j] as int],
                kt[#[trigger] o[k] as int],
            ) by {
                if j < p && k == p {
                    assert(o[j] == old_order[j]);
                } else if j == p {
                    assert(o[k] == old_order[k - 1]);
                } else if j < p && k < p {
                    assert(o[j] == old_order[j] && o[k] == old_order[k]);
                } else if j < p {
                    assert(o[j] == old_order[j] && o[k] == old_order[k - 1]);
                } else {
                    assert(o[j] == old_order[j - 1] && o[k] == old_order[k - 1]);
                }
            }
            assert forall|j: int, k: int|
                0 <= j < k < o.len() && kt[#[trigger] o[j] as int] == kt[#[trigger] o[k] as int] implies o[j] < o[k] by {
                if j < p && k == p {
                    assert(o[j] == old_order[j]);
                } else if j == p {
                    assert(o[k] == old_order[k - 1]);
                } else if j < p && k < p {
                    assert(o[j] == old_order[j] && o[k] == old_order[k]);
                } else if j < p {
                    assert(o[j] == old_order[j] && o[k] == old_order[k - 1]);
                } else {
                    assert(o[j] == old_order[j - 1] && o[k] == old_order[k - 1]);
                }
            }
            assert forall|j: int, k: int| 0 <= j < k < o.len() implies #[trigger] o[j] != #[trigger] o[k] by {
                if j < p && k == p {
                    assert(o[j] == old_order[j]);
                } else if j == p {
                    assert(o[k] == old_order[k - 1]);
                } else if j < p && k < p {
                    assert(o[j] == old_order[j] && o[k] == old_order[k]);
                } else if j < p {
                    assert(o[j] == old_order[j] && o[k] == old_order[k - 1]);
                } else {
                    assert(o[j] == old_order[j - 1] && o[k] == old_order[k - 1]);
                }
            }
            assert forall|j: int| 0 <= j < o.len() implies #[trigger] o[j] < i + 1 by {
                if j < p {
                    assert(o[j] == old_order[j]);
                } else if j > p {
                    assert(o[j] == old_order[j - 1]);
                }
            }
        }
        i = i + 1;
    }
    order
}

/// The first texts of pairs.
pub open spec fn pair_keys(pairs: Seq<(String, String)>) -> Seq<Seq<char>> {
    pairs.map_values(|p: (String, String)| p.0@)
}

/// The pairs sorted by their first texts, stably: as `sort_by_key` on the key
/// leaves them. Each pair comes once, from the position that the order gives.
pub fn sorted_by_key(pairs: &Vec<(String, String)>) -> (r: Vec<(String, String)>)
    ensures
        r@.len() == pairs@.len(),
        exists|order: Seq<usize>|
            #![trigger sorted_by(pair_keys(pairs@), order)]
            order.len() == pairs@.len() && sorted_by(pair_keys(pairs@), order) && forall|j: int|
                0 <= j < r@.len() ==> (#[trigger] r@[j]).0@ == pairs@[order[j] as int].0@ && r@[j].1@
                    == pairs@[order[j] as int].1@,
{
    let n = pairs.len();
    let mut keys: Vec<String> = Vec::new();
    let mut i: usize = 0;
    while i < n
        invariant
            i <= n,
            n == pairs@.len(),
            keys@.len() == i,
            forall|j: int| 0 <= j < i ==> (#[trigger] keys@[j])@ == pairs@[j].0@,
        decreases n - i,
    {
        keys.push(pairs[i].0.clone());
        i = i + 1;
    }
    assert(texts(keys@) =~= pair_keys(pairs@));
    let order = text_order(&keys);
    let mut r: Vec<(String, String)> = Vec::new();
    let mut j: usize = 0;
    while j < n
        invariant
            j <= n,
            n == pairs@.len(),
            order@.len() == n,
            sorted_by(texts(keys@), order@),
            texts(keys@) == pair_keys(pairs@),
            r@.len() == j,
            forall|q: int|
                0 <= q < j ==> (#[trigger] r@[q]).0@ == pairs@[order@[q] as int].0@ && r@[q].1@
                    == pairs@[order@[q] as int].1@,
        decreases n - j,
    {
        let at = order[j];
        r.push((pairs[at].0.clone(), pairs[at].1.clone()));
        j = j + 1;
    }
    r
}

} // verus!
