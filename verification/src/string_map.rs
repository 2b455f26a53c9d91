//! String-to-string maps that remember insertion order, as the renaming tables
//! of the remapper are kept.
use linked_hash_map::LinkedHashMap;
use vstd::prelude::*;

verus! {

#[verifier::external_type_specification]
#[verifier::external_body]
#[verifier::reject_recursive_types(K)]
#[verifier::reject_recursive_types(V)]
#[verifier::reject_recursive_types(S)]
pub struct ExLinkedHashMap<K, V, S>(LinkedHashMap<K, V, S>);

/// The entries of a string map, as (key, value) pairs in the map's order.
pub uninterp spec fn entries(m: LinkedHashMap<String, String>) -> Seq<(Seq<char>, Seq<char>)>;

/// The value stored under `k` among `es`.
pub open spec fn lookup(es: Seq<(Seq<char>, Seq<char>)>, k: Seq<char>) -> Option<Seq<char>>
    decreases es.len(),
{
    if es.len() == 0 {
        None
    } else if es[0].0 == k {
        Some(es[0].1)
    } else {
        lookup(es.drop_first(), k)
    }
}

/// `es` without the entry for `k`.
pub open spec fn remove_key(es: Seq<(Seq<char>, Seq<char>)>, k: Seq<char>) -> Seq<(Seq<char>, Seq<char>)>
    decreases es.len(),
{
    if es.len() == 0 {
        es
    } else if es[0].0 == k {
        remove_key(es.drop_first(), k)
    } else {
        seq![es[0]] + remove_key(es.drop_first(), k)
    }
}

/// The entries after inserting `v` under `k`: an entry already there for `k`
/// leaves its place, and the new entry comes last.
pub open spec fn insert_entry(es: Seq<(Seq<char>, Seq<char>)>, k: Seq<char>, v: Seq<char>) -> Seq<(Seq<char>, Seq<char>)> {
    remove_key(es, k).push((k, v))
}

/// `LinkedHashMap::new`: a map with no entries.
#[verifier::external_body]
pub(crate) fn string_map_new() -> (r: LinkedHashMap<String, String>)
    ensures
        entries(r) == Seq::<(Seq<char>, Seq<char>)>::empty(),
{
    LinkedHashMap::new()
}

/// `LinkedHashMap::get`, cloning the value found: the value stored under `k`.
#[verifier::external_body]
pub(crate) fn string_map_get(m: &LinkedHashMap<String, String>, k: &String) -> (r: Option<String>)
    ensures
        r is Some <==> lookup(entries(*m), k@) is Some,
        r matches Some(v) ==> v@ == lookup(entries(*m), k@).unwrap(),
{
    m.get(k).cloned()
}

/// `LinkedHashMap::iter`, each pair cloned: the entries in the map's order.
#[verifier::external_body]
pub(crate) fn string_map_pairs(m: &LinkedHashMap<String, String>) -> (r: Vec<(String, String)>)
    ensures
        r@.map_values(|p: (String, String)| (p.0@, p.1@)) == entries(*m),
{
    m.iter().map(|(k, v)| (k.clone(), v.clone())).collect()
}

/// `LinkedHashMap::insert`: stores `v` under `k`; an entry for `k` already there
/// is replaced and moves to the end of the order.
#[verifier::external_body]
pub(crate) fn string_map_insert(m: &mut LinkedHashMap<String, String>, k: String, v: String)
    ensures
        entries(*final(m)) == insert_entry(entries(*old(m)), k@, v@),
{
    m.insert(k, v);
}

/// Without its key, an entry list finds nothing under that key.
pub proof fn lemma_remove_key_lookup(es: Seq<(Seq<char>, Seq<char>)>, k: Seq<char>, k2: Seq<char>)
    ensures
        lookup(remove_key(es, k), k2) == if k2 == k { None } else { lookup(es, k2) },
    decreases es.len(),
{
    if es.len() > 0 {
        lemma_remove_key_lookup(es.drop_first(), k, k2);
        if es[0].0 != k {
            assert((seq![es[0]] + remove_key(es.drop_first(), k)).drop_first() =~= remove_key(es.drop_first(), k));
        }
    }
}

/// Looking up in a list with one more entry at the end finds what the list
/// held, else the new entry when its key matches.
pub proof fn lemma_lookup_push(es: Seq<(Seq<char>, Seq<char>)>, e: (Seq<char>, Seq<char>), k: Seq<char>)
    ensures
        lookup(es.push(e), k) == match lookup(es, k) {
            Some(v) => Some(v),
            None => if e.0 == k { Some(e.1) } else { None },
        },
    decreases es.len(),
{
    if es.len() > 0 {
        lemma_lookup_push(es.drop_first(), e, k);
        assert(es.push(e).drop_first() =~= es.drop_first().push(e));
        assert(es.push(e)[0] == es[0]);
    } else {
        assert(es.push(e).drop_first() =~= Seq::<(Seq<char>, Seq<char>)>::empty());
        assert(es.push(e)[0] == e);
        assert(lookup(Seq::<(Seq<char>, Seq<char>)>::empty(), k) is None);
        assert(lookup(es, k) is None);
    }
}

/// What a map gives back under a key is what was last stored under it, and
/// storing under one key leaves every other key as it was.
pub proof fn lemma_insert_lookup(es: Seq<(Seq<char>, Seq<char>)>, k: Seq<char>, v: Seq<char>, k2: Seq<char>)
    ensures
        lookup(insert_entry(es, k, v), k2) == if k2 == k { Some(v) } else { lookup(es, k2) },
{
    lemma_remove_key_lookup(es, k, k2);
    lemma_lookup_push(remove_key(es, k), (k, v), k2);
}

} // verus!
