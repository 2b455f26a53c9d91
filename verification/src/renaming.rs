//! What renaming does to a class: it changes the `Utf8` entries of the
//! constant pool whose text the table holds, and nothing else, as long as the
//! table neither renames the name of an attribute kind nor renames to one.
use crate::attribute_reader::{
    attribute_name, is_annotation_name, is_fixed_name, is_list_name, parse_attribute, parse_attributes,
    parse_code_body, parse_components, parse_fixed_body, parse_record_body,
};
use crate::class_reader::{lemma_pool_renamed, parse_class, parse_members, parse_member, parse_pool_from, remaining, renamed, resume};
use crate::attribute_info::attributes_bytes;
use crate::bytes::{u16_bytes, u16s_bytes, u32_at, u32_bytes};
use crate::classfile::{class_bytes, members_bytes, pool_bytes, SpecClassFile, CLASS_HEADER};
use crate::roundtrip::{class_whole, lemma_class_roundtrip};
use crate::constant_pool::CpEntry;
use crate::reader::{get_u16, get_u32, lemma_table_bounds};
use crate::attributes::ExceptionTableEntry;
use crate::string_map::lookup;
use vstd::prelude::*;

verus! {

/// Whether a name is the name of an attribute kind that the reader knows.
pub open spec fn known_name(n: Seq<char>) -> bool {
    is_list_name(n) || is_annotation_name(n) || n == "Module"@ || n == "Code"@ || n == "Record"@ || is_fixed_name(n)
}

/// Whether a renaming table keeps clear of attribute names: no text it renames,
/// and no text it renames to, names an attribute kind that the reader knows.
pub open spec fn keeps_attribute_names(es: Seq<(Seq<char>, Seq<char>)>) -> bool {
    forall|i: int| #![trigger es[i]] 0 <= i < es.len() ==> !known_name(es[i].0) && !known_name(es[i].1)
}

/// Whether two attribute names are read alike: the same name, or two names the
/// reader does not know.
pub open spec fn read_alike(a: Option<Seq<char>>, b: Option<Seq<char>>) -> bool {
    match (a, b) {
        (None, None) => true,
        (Some(x), Some(y)) => x == y || (!known_name(x) && !known_name(y)),
        _ => false,
    }
}

/// Whether two constant pools give every attribute name index names read alike.
pub open spec fn pools_read_alike(cp1: Seq<CpEntry>, cp2: Seq<CpEntry>) -> bool {
    forall|j: u16| #[trigger] read_alike(attribute_name(cp1, j), attribute_name(cp2, j))
}

proof fn lemma_lookup_found(es: Seq<(Seq<char>, Seq<char>)>, k: Seq<char>)
    requires
        lookup(es, k) is Some,
    ensures
        exists|i: int| 0 <= i < es.len() && #[trigger] es[i] == (k, lookup(es, k).unwrap()),
    decreases es.len(),
{
    if es[0].0 == k {
        assert(es[0] == (k, lookup(es, k).unwrap()));
    } else {
        lemma_lookup_found(es.drop_first(), k);
        let i = choose|i: int| 0 <= i < es.drop_first().len() && #[trigger] es.drop_first()[i] == (k, lookup(es, k).unwrap());
        assert(es[i + 1] == es.drop_first()[i]);
    }
}

/// A pool and the same pool renamed by a table that keeps clear of attribute
/// names give every attribute name index names read alike.
pub proof fn lemma_renamed_pool_reads_alike(cp: Seq<CpEntry>, es: Seq<(Seq<char>, Seq<char>)>)
    requires
        keeps_attribute_names(es),
    ensures
        pools_read_alike(cp, cp.map_values(|e: CpEntry| renamed(e, es))),
{
    let cp2 = cp.map_values(|e: CpEntry| renamed(e, es));
    assert forall|j: u16| #[trigger] read_alike(attribute_name(cp, j), attribute_name(cp2, j)) by {
        if j < cp.len() {
            assert(cp2[j as int] == renamed(cp[j as int], es));
            match cp[j as int] {
                CpEntry::Utf8 { value, .. } => {
                    if lookup(es, value) is Some {
                        lemma_lookup_found(es, value);
                        let i = choose|i: int| 0 <= i < es.len() && #[trigger] es[i] == (value, lookup(es, value).unwrap());
                        assert(!known_name(es[i].0) && !known_name(es[i].1));
                    }
                },
                _ => {},
            }
        }
    }
}

proof fn lemma_fixed_alike(d: Seq<u8>, p: int, n1: Seq<char>, n2: Seq<char>, ni: u16, len: u32)
    requires
        !known_name(n1),
        !known_name(n2),
    ensures
        parse_fixed_body(d, p, n1, ni, len) == parse_fixed_body(d, p, n2, ni, len),
{
}

/// Reading an attribute with either of two pools that read names alike gives the same.
pub proof fn lemma_attribute_alike(cp1: Seq<CpEntry>, cp2: Seq<CpEntry>, d: Seq<u8>, p: int)
    requires
        pools_read_alike(cp1, cp2),
    ensures
        parse_attribute(cp1, d, p) == parse_attribute(cp2, d, p),
    decreases remaining(d, p), 0nat,
{
    match get_u16(d, p) {
        (None, _) => {},
        (Some(ni), q) => match get_u32(d, q) {
            (None, _) => {},
            (Some(len), q2) => {
                assert(read_alike(attribute_name(cp1, ni), attribute_name(cp2, ni)));
                match (attribute_name(cp1, ni), attribute_name(cp2, ni)) {
                    (Some(n1), Some(n2)) => {
                        if n1 == n2 {
                            if n1 == "Code"@ {
                                lemma_code_alike(cp1, cp2, d, q2, ni, len);
                            } else if n1 == "Record"@ {
                                lemma_record_alike(cp1, cp2, d, q2, ni, len);
                            }
                        } else {
                            lemma_fixed_alike(d, q2, n1, n2, ni, len);
                        }
                    },
                    _ => {},
                }
            },
        },
    }
}

proof fn lemma_code_alike(cp1: Seq<CpEntry>, cp2: Seq<CpEntry>, d: Seq<u8>, p: int, ni: u16, len: u32)
    requires
        pools_read_alike(cp1, cp2),
    ensures
        parse_code_body(cp1, d, p, ni, len) == parse_code_body(cp2, d, p, ni, len),
    decreases remaining(d, p), 0nat,
{
    if get_u16(d, p).0 is Some && get_u16(d, p + 2).0 is Some && get_u32(d, p + 4).0 is Some {
        let cl = get_u32(d, p + 4).0.unwrap();
        let q4 = p + 8 + cl;
        if q4 <= d.len() && get_u16(d, q4).0 is Some {
            let el = get_u16(d, q4).0.unwrap();
            lemma_table_bounds::<ExceptionTableEntry>(d, q4 + 2, el as nat);
            let q6 = crate::reader::get_table::<ExceptionTableEntry>(d, q4 + 2, el as nat).1;
            if get_u16(d, q6).0 is Some {
                lemma_attributes_alike(cp1, cp2, d, q6 + 2, get_u16(d, q6).0.unwrap() as nat);
            }
        }
    }
}

proof fn lemma_record_alike(cp1: Seq<CpEntry>, cp2: Seq<CpEntry>, d: Seq<u8>, p: int, ni: u16, len: u32)
    requires
        pools_read_alike(cp1, cp2),
    ensures
        parse_record_body(cp1, d, p, ni, len) == parse_record_body(cp2, d, p, ni, len),
    decreases remaining(d, p), 0nat,
{
    if get_u16(d, p).0 is Some {
        lemma_components_alike(cp1, cp2, d, p + 2, get_u16(d, p).0.unwrap() as nat);
    }
}

proof fn lemma_components_alike(cp1: Seq<CpEntry>, cp2: Seq<CpEntry>, d: Seq<u8>, p: int, n: nat)
    requires
        pools_read_alike(cp1, cp2),
    ensures
        parse_components(cp1, d, p, n) == parse_components(cp2, d, p, n),
    decreases remaining(d, p), n,
{
    if n > 0 {
        lemma_components_alike(cp1, cp2, d, p, (n - 1) as nat);
        let (r, q) = parse_components(cp1, d, p, (n - 1) as nat);
        let x = resume(p, q);
        if r is Some && get_u16(d, x).0 is Some && get_u16(d, x + 2).0 is Some && get_u16(d, x + 4).0 is Some {
            lemma_attributes_alike(cp1, cp2, d, x + 6, get_u16(d, x + 4).0.unwrap() as nat);
        }
    }
}

/// Reading attributes with either of two pools that read names alike gives the same.
pub proof fn lemma_attributes_alike(cp1: Seq<CpEntry>, cp2: Seq<CpEntry>, d: Seq<u8>, p: int, n: nat)
    requires
        pools_read_alike(cp1, cp2),
    ensures
        parse_attributes(cp1, d, p, n) == parse_attributes(cp2, d, p, n),
    decreases remaining(d, p), n,
{
    if n > 0 {
        lemma_attributes_alike(cp1, cp2, d, p, (n - 1) as nat);
        let q = parse_attributes(cp1, d, p, (n - 1) as nat).1;
        lemma_attribute_alike(cp1, cp2, d, resume(p, q));
    }
}

/// Reading fields or methods with either of two pools that read names alike gives the same.
pub proof fn lemma_members_alike(cp1: Seq<CpEntry>, cp2: Seq<CpEntry>, d: Seq<u8>, p: int, n: nat)
    requires
        pools_read_alike(cp1, cp2),
    ensures
        parse_members(cp1, d, p, n) == parse_members(cp2, d, p, n),
    decreases n,
{
    if n > 0 {
        lemma_members_alike(cp1, cp2, d, p, (n - 1) as nat);
        let q = parse_members(cp1, d, p, (n - 1) as nat).1;
        if get_u16(d, q + 6).0 is Some {
            lemma_attributes_alike(cp1, cp2, d, q + 8, get_u16(d, q + 6).0.unwrap() as nat);
        }
        assert(parse_member(cp1, d, q) == parse_member(cp2, d, q));
    }
}

/// The class that reading with the table `es` gives: the class read without
/// it, with its constant pool renamed.
pub open spec fn with_renamed_pool(c: SpecClassFile, es: Seq<(Seq<char>, Seq<char>)>) -> SpecClassFile {
    SpecClassFile { constant_pool: c.constant_pool.map_values(|e: CpEntry| renamed(e, es)), ..c }
}

/// Reading a class with a renaming table that keeps clear of attribute names
/// reads the same class as reading it without the table, but for the constant
/// pool, whose `Utf8` entries with a text the table holds are renamed; it fails
/// exactly when reading without the table fails.
#[verifier::rlimit(100)]
#[verifier::spinoff_prover]
pub proof fn lemma_renaming_changes_only_pool(d: Seq<u8>, es: Seq<(Seq<char>, Seq<char>)>)
    requires
        keeps_attribute_names(es),
    ensures
        parse_class(d, Some(es)) == match parse_class(d, None) {
            None => None,
            Some(c) => Some(with_renamed_pool(c, es)),
        },
{
    if get_u16(d, 8).0 is Some && get_u32(d, 0).0 is Some {
        let count = get_u16(d, 8).0.unwrap();
        lemma_pool_renamed(d, 10, 1, count as int, es);
        let (rest, q5) = parse_pool_from(d, 10, 1, count as int, None);
        let cont = CpEntry::ContinuationTag { tag: 0 };
        let pool = seq![cont] + rest;
        let pool_r = seq![cont] + parse_pool_from(d, 10, 1, count as int, Some(es)).0;
        assert(pool_r =~= pool.map_values(|e: CpEntry| renamed(e, es)));
        lemma_renamed_pool_reads_alike(pool, es);
        let ic = get_u16(d, q5 + 6).0;
        if ic is Some {
            let q11 = q5 + 10 + 2 * ic.unwrap();
            let fc = get_u16(d, q11 - 2).0;
            if fc is Some {
                lemma_members_alike(pool, pool_r, d, q11, fc.unwrap() as nat);
                let q12 = parse_members(pool, d, q11, fc.unwrap() as nat).1;
                let mc = get_u16(d, q12).0;
                if mc is Some {
                    lemma_members_alike(pool, pool_r, d, q12 + 2, mc.unwrap() as nat);
                    let q14 = parse_members(pool, d, q12 + 2, mc.unwrap() as nat).1;
                    let ac = get_u16(d, q14).0;
                    if ac is Some {
                        lemma_attributes_alike(pool, pool_r, d, q14 + 2, ac.unwrap() as nat);
                    }
                }
            }
        }
    }
}

/// The bytes of a class before its constant pool.
spec fn class_head(c: SpecClassFile) -> Seq<u8> {
    u32_bytes(CLASS_HEADER) + u16_bytes(c.minor_version) + u16_bytes(c.major_version) + u16_bytes(c.constant_pool_count)
}

/// The bytes of a class after its constant pool.
spec fn class_tail(c: SpecClassFile) -> Seq<u8> {
    u16_bytes(c.access_flags.value) + u16_bytes(c.this_class) + u16_bytes(c.super_class) + u16_bytes(
        c.interfaces_count,
    ) + u16s_bytes(c.interfaces) + u16_bytes(c.fields_count) + members_bytes(c.fields) + u16_bytes(c.methods_count)
        + members_bytes(c.methods) + u16_bytes(c.attributes_count) + attributes_bytes(c.attributes)
}

proof fn lemma_class_bytes_parts(c: SpecClassFile)
    ensures
        class_bytes(c) == class_head(c) + pool_bytes(c.constant_pool) + class_tail(c),
        class_head(c).len() == 10,
{
    assert(class_bytes(c) =~= class_head(c) + pool_bytes(c.constant_pool) + class_tail(c));
}

/// Remapping a class and writing it gives the bytes it was read from with the
/// bytes of its constant pool replaced by those of the renamed pool, when the
/// table keeps clear of attribute names and reading the class without the
/// table keeps every byte ([`class_whole`]).
pub proof fn lemma_remapped_bytes(d: Seq<u8>, es: Seq<(Seq<char>, Seq<char>)>)
    requires
        d.len() <= u64::MAX,
        parse_class(d, None) is Some,
        u32_at(d, 0) == CLASS_HEADER,
        class_whole(d),
        keeps_attribute_names(es),
    ensures
        parse_class(d, Some(es)) is Some,
        class_bytes(parse_class(d, Some(es)).unwrap()) == d.subrange(0, 10) + pool_bytes(
            parse_class(d, Some(es)).unwrap().constant_pool,
        ) + d.subrange(
            10 + pool_bytes(parse_class(d, None).unwrap().constant_pool).len() as int,
            parse_class(d, None).unwrap().len as int,
        ),
{
    lemma_renaming_changes_only_pool(d, es);
    lemma_class_roundtrip(d);
    let c = parse_class(d, None).unwrap();
    let r = parse_class(d, Some(es)).unwrap();
    lemma_class_bytes_parts(c);
    lemma_class_bytes_parts(r);
    assert(class_head(r) == class_head(c));
    assert(class_tail(r) == class_tail(c));
    let h = class_head(c);
    let pb = pool_bytes(c.constant_pool);
    let t = class_tail(c);
    let whole = d.subrange(0, c.len as int);
    assert(whole == h + pb + t);
    assert(d.subrange(0, 10) =~= whole.subrange(0, 10));
    assert((h + pb + t).subrange(0, 10) =~= h);
    assert(d.subrange(10 + pb.len() as int, c.len as int) =~= whole.subrange(10 + pb.len() as int, c.len as int));
    assert((h + pb + t).subrange(10 + pb.len() as int, (h + pb + t).len() as int) =~= t);
}

} // verus!
