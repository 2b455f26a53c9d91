//! Writing back what was read: where the readers keep every byte they take,
//! the writers give those bytes back.
//!
//! Some readers are lenient: a list of element values, annotations or
//! attributes leaves out an element that fails to read and goes on after it.
//! The bytes such an element took are not written back, so the laws here ask
//! that every element be read whole, or start where the data has ended (it then
//! takes no bytes).
use crate::attribute_info::{attribute_bytes, attributes_bytes, component_bytes, components_bytes, SpecAttribute, SpecRecordComponentInfo};
use crate::attribute_reader::{
    attribute_name, is_annotation_name, is_list_name, parse_attribute, parse_attributes,
    parse_code_body, parse_components, parse_record_body, parse_annotation_body, parse_module_body,
    lemma_fixed_body_roundtrip, lemma_list_body_roundtrip, parse_parameter_annotations, parse_target_info, parse_type_annotation,
    parse_type_annotations,
};
use crate::attributes::{
    encoded_all, annotation_bytes, annotations_bytes, element_value_bytes, element_values_bytes, frame_bytes, pair_bytes,
    pairs_bytes, parameter_annotation_bytes, target_info_bytes, type_annotation_bytes, type_path_bytes, value_bytes,
    ExceptionTableEntry, ExportsEntry, LocalvarTargetTableEntry, OpensEntry, PathEntry, ProvidesEntry, RequiresEntry, SpecAnnotation, SpecElementValue, SpecElementValuePair,
    SpecParameterAnnotation, SpecStackMapFrame, SpecTypeAnnotation, SpecValue,
};
use crate::bytes::{
    avail, concat_map, lemma_u16_bytes_at, lemma_u32_bytes_at, u16_at, u16_bytes, u16s_at, u16s_bytes, u32_at, u32_bytes,
};
use crate::class_reader::{
    lemma_tag_roundtrip, parse_class, parse_member, parse_members, parse_pool_from, parse_tag, is_const_tag, parse_annotation, parse_annotations, parse_element_value, parse_element_values, parse_pairs,
    remaining, resume,
};
use crate::classfile::{class_bytes, member_bytes, members_bytes, pool_bytes, SpecMember, CLASS_HEADER};
use crate::constant_pool::{entry_bytes, CpEntry};
use crate::mutf8::mutf8_decode;
use crate::reader::{get_bytes, get_table, get_u16, get_u32, get_u8, lemma_table_bounds, lemma_table_roundtrip, lemma_u16s_roundtrip, lemma_frame_roundtrip, lemma_vtypes_roundtrip, parse_frame, parse_frames, parse_vtypes};
use vstd::prelude::*;
use vstd::utf8::encode_utf8;

verus! {

/// Whether every list inside the element value at `p` is read whole.
pub open spec fn ev_whole(d: Seq<u8>, p: int) -> bool
    decreases remaining(d, p), 0nat,
{
    match get_u8(d, p) {
        (None, _) => true,
        (Some(tag), q) => if tag == 64 {
            annotation_whole(d, q)
        } else if tag == 91 {
            match get_u16(d, q) {
                (None, _) => true,
                (Some(n), q2) => evs_whole(d, q2, n as nat),
            }
        } else {
            true
        },
    }
}

/// Whether each of `n` element values from `p` is read whole, or starts where
/// the data has ended.
pub open spec fn evs_whole(d: Seq<u8>, p: int, n: nat) -> bool
    decreases remaining(d, p), n,
{
    if n == 0 {
        true
    } else {
        let q = parse_element_values(d, p, (n - 1) as nat).1;
        let x = resume(p, q);
        &&& evs_whole(d, p, (n - 1) as nat)
        &&& (parse_element_value(d, x).0 is Some && ev_whole(d, x)) || x >= d.len()
    }
}

/// Whether the values of `n` element-value pairs from `p` are read whole.
pub open spec fn pairs_whole(d: Seq<u8>, p: int, n: nat) -> bool
    decreases remaining(d, p), n,
{
    if n == 0 {
        true
    } else {
        match parse_pairs(d, p, (n - 1) as nat) {
            (None, _) => true,
            (Some(_), q) => pairs_whole(d, p, (n - 1) as nat) && match get_u16(d, resume(p, q)) {
                (None, _) => true,
                (Some(_), q2) => ev_whole(d, q2),
            },
        }
    }
}

/// Whether the values of the annotation at `p` are read whole.
pub open spec fn annotation_whole(d: Seq<u8>, p: int) -> bool
    decreases remaining(d, p), 0nat,
{
    match get_u16(d, p) {
        (None, _) => true,
        (Some(_), q) => match get_u16(d, q) {
            (None, _) => true,
            (Some(n), q2) => pairs_whole(d, q2, n as nat),
        },
    }
}

proof fn lemma_ev_bounds(d: Seq<u8>, p: int)
    requires
        0 <= p <= d.len(),
    ensures
        p <= parse_element_value(d, p).1 <= d.len(),
    decreases remaining(d, p), 0nat,
{
    if avail(d, p, 1) {
        let tag = d[p];
        let q = p + 1;
        if tag == 64 {
            lemma_annotation_bounds(d, q);
        } else if tag == 91 && avail(d, q, 2) {
            lemma_evs_bounds(d, q + 2, u16_at(d, q) as nat);
        }
    }
}

proof fn lemma_evs_bounds(d: Seq<u8>, p: int, n: nat)
    requires
        0 <= p <= d.len(),
    ensures
        p <= parse_element_values(d, p, n).1 <= d.len(),
    decreases remaining(d, p), n,
{
    if n > 0 {
        lemma_evs_bounds(d, p, (n - 1) as nat);
        let q = parse_element_values(d, p, (n - 1) as nat).1;
        lemma_ev_bounds(d, resume(p, q));
    }
}

proof fn lemma_pairs_bounds(d: Seq<u8>, p: int, n: nat)
    requires
        0 <= p <= d.len(),
    ensures
        p <= parse_pairs(d, p, n).1 <= d.len(),
    decreases remaining(d, p), n,
{
    if n > 0 {
        lemma_pairs_bounds(d, p, (n - 1) as nat);
        let (r, q) = parse_pairs(d, p, (n - 1) as nat);
        if r is Some && avail(d, resume(p, q), 2) {
            lemma_ev_bounds(d, resume(p, q) + 2);
        }
    }
}

proof fn lemma_annotation_bounds(d: Seq<u8>, p: int)
    requires
        0 <= p <= d.len(),
    ensures
        p <= parse_annotation(d, p).1 <= d.len(),
    decreases remaining(d, p), 0nat,
{
    if avail(d, p, 4) {
        lemma_pairs_bounds(d, p + 4, u16_at(d, p + 2) as nat);
    }
}

/// Writing an element value that was read gives back the bytes it was read
/// from, when the lists inside it were read whole.
pub proof fn lemma_ev_roundtrip(d: Seq<u8>, p: int)
    requires
        0 <= p <= d.len(),
        parse_element_value(d, p).0 is Some,
        ev_whole(d, p),
    ensures
        element_value_bytes(parse_element_value(d, p).0.unwrap()) == d.subrange(p, parse_element_value(d, p).1),
    decreases remaining(d, p), 0nat,
{
    let tag = d[p];
    if tag == 64 {
        lemma_annotation_roundtrip(d, p + 1);
        lemma_ev_annotation(d, p);
    } else if tag == 91 {
        lemma_evs_roundtrip(d, p + 3, u16_at(d, p + 1) as nat);
        lemma_ev_array(d, p);
    } else {
        lemma_ev_flat(d, p);
    }
}

proof fn lemma_ev_flat(d: Seq<u8>, p: int)
    requires
        0 <= p <= d.len(),
        parse_element_value(d, p).0 is Some,
        d[p] != 64 && d[p] != 91,
    ensures
        element_value_bytes(parse_element_value(d, p).0.unwrap()) == d.subrange(p, parse_element_value(d, p).1),
{
    let (v, q) = parse_element_value(d, p);
    let tag = d[p];
    lemma_u16_bytes_at(d, p + 1);
    if tag == 101 {
        lemma_u16_bytes_at(d, p + 3);
        assert(value_bytes(v.unwrap().value) =~= d.subrange(p + 1, p + 5));
    } else {
        assert(value_bytes(v.unwrap().value) =~= d.subrange(p + 1, p + 3));
    }
    assert(element_value_bytes(v.unwrap()) =~= d.subrange(p, q));
}

proof fn lemma_ev_annotation(d: Seq<u8>, p: int)
    requires
        0 <= p <= d.len(),
        parse_element_value(d, p).0 is Some,
        d[p] == 64,
        annotation_bytes(parse_annotation(d, p + 1).0.unwrap()) == d.subrange(p + 1, parse_annotation(d, p + 1).1),
    ensures
        element_value_bytes(parse_element_value(d, p).0.unwrap()) == d.subrange(p, parse_element_value(d, p).1),
{
    let (v, q) = parse_element_value(d, p);
    let (a, qa) = parse_annotation(d, p + 1);
    assert(!is_const_tag(64));
    assert(v == Some(SpecElementValue { tag: 64, value: SpecValue::AnnotationValue { annotation_value: a.unwrap() } }));
    assert(q == qa);
    lemma_annotation_bounds(d, p + 1);
    assert(value_bytes(v.unwrap().value) == annotation_bytes(a.unwrap()));
    assert(d.subrange(p, q) =~= seq![d[p]] + d.subrange(p + 1, q));
    assert(element_value_bytes(v.unwrap()) =~= d.subrange(p, q));
}

proof fn lemma_ev_array(d: Seq<u8>, p: int)
    requires
        0 <= p <= d.len(),
        parse_element_value(d, p).0 is Some,
        d[p] == 91,
        element_values_bytes(parse_element_values(d, p + 3, u16_at(d, p + 1) as nat).0) == d.subrange(
            p + 3,
            parse_element_values(d, p + 3, u16_at(d, p + 1) as nat).1,
        ),
    ensures
        element_value_bytes(parse_element_value(d, p).0.unwrap()) == d.subrange(p, parse_element_value(d, p).1),
{
    let (v, q) = parse_element_value(d, p);
    assert(!is_const_tag(91));
    lemma_u16_bytes_at(d, p + 1);
    let n = u16_at(d, p + 1);
    let (vs, qv) = parse_element_values(d, p + 3, n as nat);
    assert(v == Some(SpecElementValue { tag: 91, value: SpecValue::ArrayValue { num_values: n, values: vs } }));
    assert(q == qv);
    lemma_evs_bounds(d, p + 3, n as nat);
    assert(value_bytes(v.unwrap().value) == u16_bytes(n) + element_values_bytes(vs));
    assert(d.subrange(p, q) =~= seq![d[p]] + d.subrange(p + 1, p + 3) + d.subrange(p + 3, q));
    assert(element_value_bytes(v.unwrap()) =~= d.subrange(p, q));
}

/// Writing element values that were read gives back the bytes they were read
/// from, when each was read whole or started where the data had ended.
pub proof fn lemma_evs_roundtrip(d: Seq<u8>, p: int, n: nat)
    requires
        0 <= p <= d.len(),
        evs_whole(d, p, n),
    ensures
        p <= parse_element_values(d, p, n).1 <= d.len(),
        element_values_bytes(parse_element_values(d, p, n).0) == d.subrange(p, parse_element_values(d, p, n).1),
    decreases remaining(d, p), n,
{
    if n == 0 {
        assert(element_values_bytes(Seq::<SpecElementValue>::empty()) =~= d.subrange(p, p));
    } else {
        let (s0, q0) = parse_element_values(d, p, (n - 1) as nat);
        lemma_evs_roundtrip(d, p, (n - 1) as nat);
        lemma_ev_bounds(d, q0);
        let (v, q2) = parse_element_value(d, q0);
        if v is Some && ev_whole(d, q0) {
            lemma_ev_roundtrip(d, q0);
            let s = s0.push(v.unwrap());
            assert(s.subrange(0, s.len() - 1) =~= s0);
            assert(d.subrange(p, q2) =~= d.subrange(p, q0) + d.subrange(q0, q2));
        }
    }
}

/// Writing element-value pairs that were read gives back the bytes they were
/// read from, when their values were read whole.
pub proof fn lemma_pairs_roundtrip(d: Seq<u8>, p: int, n: nat)
    requires
        0 <= p <= d.len(),
        parse_pairs(d, p, n).0 is Some,
        pairs_whole(d, p, n),
    ensures
        p <= parse_pairs(d, p, n).1 <= d.len(),
        pairs_bytes(parse_pairs(d, p, n).0.unwrap()) == d.subrange(p, parse_pairs(d, p, n).1),
    decreases remaining(d, p), n,
{
    if n == 0 {
        assert(pairs_bytes(Seq::<SpecElementValuePair>::empty()) =~= d.subrange(p, p));
    } else {
        let (r0, q0) = parse_pairs(d, p, (n - 1) as nat);
        lemma_pairs_roundtrip(d, p, (n - 1) as nat);
        let s0 = r0.unwrap();
        lemma_u16_bytes_at(d, q0);
        lemma_ev_bounds(d, q0 + 2);
        lemma_ev_roundtrip(d, q0 + 2);
        let (v, q3) = parse_element_value(d, q0 + 2);
        let pair = SpecElementValuePair { element_name_index: u16_at(d, q0), value: v.unwrap() };
        let s = s0.push(pair);
        assert(s.subrange(0, s.len() - 1) =~= s0);
        assert(pair_bytes(pair) =~= d.subrange(q0, q3));
        assert(d.subrange(p, q3) =~= d.subrange(p, q0) + d.subrange(q0, q3));
    }
}

/// Writing an annotation that was read gives back the bytes it was read from,
/// when its values were read whole.
pub proof fn lemma_annotation_roundtrip(d: Seq<u8>, p: int)
    requires
        0 <= p <= d.len(),
        parse_annotation(d, p).0 is Some,
        annotation_whole(d, p),
    ensures
        p <= parse_annotation(d, p).1 <= d.len(),
        annotation_bytes(parse_annotation(d, p).0.unwrap()) == d.subrange(p, parse_annotation(d, p).1),
    decreases remaining(d, p), 0nat,
{
    let (a, q) = parse_annotation(d, p);
    lemma_u16_bytes_at(d, p);
    lemma_u16_bytes_at(d, p + 2);
    lemma_pairs_roundtrip(d, p + 4, u16_at(d, p + 2) as nat);
    assert(annotation_bytes(a.unwrap()) =~= d.subrange(p, q));
}

/// Whether each of `n` annotations from `p` is read whole, or starts where the
/// data has ended.
pub open spec fn annotations_whole(d: Seq<u8>, p: int, n: nat) -> bool
    decreases n,
{
    if n == 0 {
        true
    } else {
        let x = resume(p, parse_annotations(d, p, (n - 1) as nat).1);
        &&& annotations_whole(d, p, (n - 1) as nat)
        &&& (parse_annotation(d, x).0 is Some && annotation_whole(d, x)) || x >= d.len()
    }
}

/// Writing annotations that were read gives back the bytes they were read
/// from, when each was read whole or started where the data had ended.
#[verifier::rlimit(100)]
#[verifier::spinoff_prover]
pub proof fn lemma_annotations_roundtrip(d: Seq<u8>, p: int, n: nat)
    requires
        0 <= p <= d.len(),
        annotations_whole(d, p, n),
    ensures
        p <= parse_annotations(d, p, n).1 <= d.len(),
        annotations_bytes(parse_annotations(d, p, n).0) == d.subrange(p, parse_annotations(d, p, n).1),
    decreases n,
{
    if n == 0 {
        assert(annotations_bytes(Seq::<SpecAnnotation>::empty()) =~= d.subrange(p, p));
    } else {
        let (s0, q0) = parse_annotations(d, p, (n - 1) as nat);
        lemma_annotations_roundtrip(d, p, (n - 1) as nat);
        lemma_annotation_bounds(d, q0);
        let (a, q2) = parse_annotation(d, q0);
        if a is Some && annotation_whole(d, q0) {
            lemma_annotation_roundtrip(d, q0);
            let s = s0.push(a.unwrap());
            assert(s.drop_last() =~= s0);
            assert(d.subrange(p, q2) =~= d.subrange(p, q0) + d.subrange(q0, q2));
        }
    }
}

/// Where a stack map frame that was read ends.
proof fn lemma_frame_bounds(d: Seq<u8>, p: int)
    requires
        0 <= p <= d.len(),
        parse_frame(d, p).0 is Some,
    ensures
        p <= parse_frame(d, p).1 <= d.len(),
{
    let ft = d[p];
    if 252 <= ft <= 254 {
        lemma_vtypes_roundtrip(d, p + 3, (ft - 251) as nat);
    } else if ft == 255 {
        let nl = u16_at(d, p + 3);
        lemma_vtypes_roundtrip(d, p + 5, nl as nat);
        let q4 = parse_vtypes(d, p + 5, nl as nat).1;
        lemma_vtypes_roundtrip(d, q4 + 2, u16_at(d, q4) as nat);
    }
}

/// Whether each of `n` frames from `p` is read, or starts where the data has ended.
pub open spec fn frames_whole(d: Seq<u8>, p: int, n: nat) -> bool
    decreases n,
{
    if n == 0 {
        true
    } else {
        let x = parse_frames(d, p, (n - 1) as nat).1;
        frames_whole(d, p, (n - 1) as nat) && (parse_frame(d, x).0 is Some || x >= d.len())
    }
}

/// Writing stack map frames that were read gives back the bytes they were read
/// from, when each was read or started where the data had ended.
#[verifier::rlimit(100)]
#[verifier::spinoff_prover]
pub proof fn lemma_frames_roundtrip(d: Seq<u8>, p: int, n: nat)
    requires
        0 <= p <= d.len(),
        frames_whole(d, p, n),
    ensures
        p <= parse_frames(d, p, n).1 <= d.len(),
        concat_map(parse_frames(d, p, n).0, |x: SpecStackMapFrame| frame_bytes(x)) == d.subrange(
            p,
            parse_frames(d, p, n).1,
        ),
    decreases n,
{
    if n == 0 {
        assert(concat_map(Seq::<SpecStackMapFrame>::empty(), |x: SpecStackMapFrame| frame_bytes(x)) =~= d.subrange(p, p));
    } else {
        let (s0, q0) = parse_frames(d, p, (n - 1) as nat);
        lemma_frames_roundtrip(d, p, (n - 1) as nat);
        let (f, q2) = parse_frame(d, q0);
        if f is Some {
            lemma_frame_roundtrip(d, q0);
            lemma_frame_bounds(d, q0);
            let s = s0.push(f.unwrap());
            assert(s.drop_last() =~= s0);
            assert(d.subrange(p, q2) =~= d.subrange(p, q0) + d.subrange(q0, q2));
        }
    }
}

/// Whether the annotations of each of `n` parameters from `p` are read whole.
pub open spec fn params_whole(d: Seq<u8>, p: int, n: nat) -> bool
    decreases n,
{
    if n == 0 {
        true
    } else {
        match parse_parameter_annotations(d, p, (n - 1) as nat) {
            (None, _) => true,
            (Some(_), q) => params_whole(d, p, (n - 1) as nat) && match get_u16(d, q) {
                (None, _) => true,
                (Some(k), q2) => annotations_whole(d, q2, k as nat),
            },
        }
    }
}

/// Writing the parameter annotations that were read gives back the bytes they
/// were read from, when their annotations were read whole.
#[verifier::rlimit(100)]
#[verifier::spinoff_prover]
pub proof fn lemma_params_roundtrip(d: Seq<u8>, p: int, n: nat)
    requires
        0 <= p <= d.len(),
        parse_parameter_annotations(d, p, n).0 is Some,
        params_whole(d, p, n),
    ensures
        p <= parse_parameter_annotations(d, p, n).1 <= d.len(),
        concat_map(
            parse_parameter_annotations(d, p, n).0.unwrap(),
            |x: SpecParameterAnnotation| parameter_annotation_bytes(x),
        ) == d.subrange(p, parse_parameter_annotations(d, p, n).1),
    decreases n,
{
    if n == 0 {
        assert(concat_map(Seq::<SpecParameterAnnotation>::empty(), |x: SpecParameterAnnotation| parameter_annotation_bytes(x))
            =~= d.subrange(p, p));
    } else {
        let (r0, q0) = parse_parameter_annotations(d, p, (n - 1) as nat);
        lemma_params_roundtrip(d, p, (n - 1) as nat);
        let s0 = r0.unwrap();
        lemma_u16_bytes_at(d, q0);
        let k = u16_at(d, q0);
        lemma_annotations_roundtrip(d, q0 + 2, k as nat);
        let (anns, q3) = parse_annotations(d, q0 + 2, k as nat);
        let e = SpecParameterAnnotation { num_annotations: k, annotations: anns };
        let s = s0.push(e);
        assert(s.drop_last() =~= s0);
        assert(parameter_annotation_bytes(e) =~= d.subrange(q0, q3));
        assert(d.subrange(p, q3) =~= d.subrange(p, q0) + d.subrange(q0, q3));
    }
}

/// Writing a type-annotation target that was read gives back the bytes it was read from.
#[verifier::rlimit(40)]
pub proof fn lemma_target_roundtrip(d: Seq<u8>, p: int, tt: u8)
    requires
        0 <= p <= d.len(),
        parse_target_info(d, p, tt).0 matches Some(Some(_)),
    ensures
        p <= parse_target_info(d, p, tt).1 <= d.len(),
        target_info_bytes(parse_target_info(d, p, tt).0.unwrap().unwrap()) == d.subrange(
            p,
            parse_target_info(d, p, tt).1,
        ),
{
    let (t, q) = parse_target_info(d, p, tt);
    if avail(d, p, 2) {
        lemma_u16_bytes_at(d, p);
    }
    if tt == 64 || tt == 65 {
        lemma_table_roundtrip::<LocalvarTargetTableEntry>(d, p + 2, u16_at(d, p) as nat);
        assert(d.subrange(p, q) =~= d.subrange(p, p + 2) + d.subrange(p + 2, q));
    }
    assert(target_info_bytes(t.unwrap().unwrap()) =~= d.subrange(p, q));
}

/// Whether the type annotation at `p` is read, with a known target type, and
/// its values read whole.
pub open spec fn type_annotation_whole(d: Seq<u8>, p: int) -> bool {
    match parse_type_annotation(d, p).0 {
        Some(Some(_)) => {
            let q2 = parse_target_info(d, p + 1, d[p]).1;
            let q4 = get_table::<PathEntry>(d, q2 + 1, d[q2] as nat).1;
            pairs_whole(d, q4 + 4, u16_at(d, q4 + 2) as nat)
        },
        _ => false,
    }
}

/// Writing a type annotation that was read gives back the bytes it was read
/// from, when it has a known target type and its values were read whole.
#[verifier::rlimit(40)]
pub proof fn lemma_type_annotation_roundtrip(d: Seq<u8>, p: int)
    requires
        0 <= p <= d.len(),
        type_annotation_whole(d, p),
    ensures
        p <= parse_type_annotation(d, p).1 <= d.len(),
        type_annotation_bytes(parse_type_annotation(d, p).0.unwrap().unwrap()) == d.subrange(
            p,
            parse_type_annotation(d, p).1,
        ),
{
    let (t, q) = parse_type_annotation(d, p);
    let tt = d[p];
    lemma_target_roundtrip(d, p + 1, tt);
    let q2 = parse_target_info(d, p + 1, tt).1;
    let pl = d[q2];
    lemma_table_roundtrip::<PathEntry>(d, q2 + 1, pl as nat);
    let q4 = get_table::<PathEntry>(d, q2 + 1, pl as nat).1;
    lemma_u16_bytes_at(d, q4);
    lemma_u16_bytes_at(d, q4 + 2);
    lemma_pairs_roundtrip(d, q4 + 4, u16_at(d, q4 + 2) as nat);
    let tv = t.unwrap().unwrap();
    assert(type_path_bytes(tv.target_path) =~= d.subrange(q2, q4));
    assert(d.subrange(p, q) =~= seq![d[p]] + d.subrange(p + 1, q2) + d.subrange(q2, q4) + d.subrange(q4, q4 + 2)
        + d.subrange(q4 + 2, q4 + 4) + d.subrange(q4 + 4, q));
    assert(type_annotation_bytes(tv) =~= d.subrange(p, q));
}

/// Whether each of `n` type annotations from `p` is read, with a known target
/// type, and its values read whole.
pub open spec fn type_annotations_whole(d: Seq<u8>, p: int, n: nat) -> bool
    decreases n,
{
    if n == 0 {
        true
    } else {
        type_annotations_whole(d, p, (n - 1) as nat) && match parse_type_annotations(d, p, (n - 1) as nat) {
            (None, _) => true,
            (Some(_), q) => type_annotation_whole(d, q),
        }
    }
}

/// Writing type annotations that were read gives back the bytes they were read
/// from, when each has a known target type and its values were read whole.
pub proof fn lemma_type_annotations_roundtrip(d: Seq<u8>, p: int, n: nat)
    requires
        0 <= p <= d.len(),
        parse_type_annotations(d, p, n).0 is Some,
        type_annotations_whole(d, p, n),
    ensures
        p <= parse_type_annotations(d, p, n).1 <= d.len(),
        concat_map(parse_type_annotations(d, p, n).0.unwrap(), |x: SpecTypeAnnotation| type_annotation_bytes(x))
            == d.subrange(p, parse_type_annotations(d, p, n).1),
    decreases n,
{
    if n == 0 {
        assert(concat_map(Seq::<SpecTypeAnnotation>::empty(), |x: SpecTypeAnnotation| type_annotation_bytes(x))
            =~= d.subrange(p, p));
    } else {
        let (r0, q0) = parse_type_annotations(d, p, (n - 1) as nat);
        lemma_type_annotations_roundtrip(d, p, (n - 1) as nat);
        let s0 = r0.unwrap();
        lemma_type_annotation_roundtrip(d, q0);
        let (t, q2) = parse_type_annotation(d, q0);
        let s = s0.push(t.unwrap().unwrap());
        assert(s.drop_last() =~= s0);
        assert(d.subrange(p, q2) =~= d.subrange(p, q0) + d.subrange(q0, q2));
    }
}

/// Whether the lists in the body at `p` of an attribute made of frames or
/// annotations are read whole.
pub open spec fn annotation_body_whole(d: Seq<u8>, p: int, name: Seq<char>) -> bool {
    if name == "StackMapTable"@ {
        frames_whole(d, p + 2, u16_at(d, p) as nat)
    } else if name == "RuntimeVisibleAnnotations"@ || name == "RuntimeInvisibleAnnotations"@ {
        annotations_whole(d, p + 2, u16_at(d, p) as nat)
    } else if name == "RuntimeVisibleParameterAnnotations"@ || name == "RuntimeInvisibleParameterAnnotations"@ {
        params_whole(d, p + 1, d[p] as nat)
    } else if name == "RuntimeVisibleTypeAnnotations"@ || name == "RuntimeInvisibleTypeAnnotations"@ {
        type_annotations_whole(d, p + 2, u16_at(d, p) as nat)
    } else {
        ev_whole(d, p)
    }
}

/// The lengths of the names of the attributes made of frames or annotations,
/// which tell them apart.
proof fn lemma_annotation_names()
    ensures
        "StackMapTable"@.len() == 13,
        "RuntimeVisibleAnnotations"@.len() == 25,
        "RuntimeInvisibleAnnotations"@.len() == 27,
        "RuntimeVisibleParameterAnnotations"@.len() == 34,
        "RuntimeInvisibleParameterAnnotations"@.len() == 36,
        "RuntimeVisibleTypeAnnotations"@.len() == 29,
        "RuntimeInvisibleTypeAnnotations"@.len() == 31,
        "AnnotationDefault"@.len() == 17,
{
    reveal_strlit("StackMapTable");
    reveal_strlit("RuntimeVisibleAnnotations");
    reveal_strlit("RuntimeInvisibleAnnotations");
    reveal_strlit("RuntimeVisibleParameterAnnotations");
    reveal_strlit("RuntimeInvisibleParameterAnnotations");
    reveal_strlit("RuntimeVisibleTypeAnnotations");
    reveal_strlit("RuntimeInvisibleTypeAnnotations");
    reveal_strlit("AnnotationDefault");
}

/// Writing an attribute made of frames or annotations, as it was read, gives
/// back its six header bytes and the bytes its body was read from, when the
/// lists in it were read whole.
pub proof fn lemma_annotation_body_roundtrip(d: Seq<u8>, p: int, name: Seq<char>, ni: u16, len: u32)
    requires
        0 <= p <= d.len(),
        parse_annotation_body(d, p, name, ni, len).0 is Some,
        annotation_body_whole(d, p, name),
    ensures
        p <= parse_annotation_body(d, p, name, ni, len).1 <= d.len(),
        attribute_bytes(parse_annotation_body(d, p, name, ni, len).0.unwrap()) == u16_bytes(ni) + u32_bytes(len)
            + d.subrange(p, parse_annotation_body(d, p, name, ni, len).1),
{
    lemma_annotation_names();
    if name == "StackMapTable"@ {
        lemma_frames_body(d, p, name, ni, len);
    } else if name == "RuntimeVisibleAnnotations"@ || name == "RuntimeInvisibleAnnotations"@ {
        lemma_annotations_body(d, p, name, ni, len);
    } else if name == "RuntimeVisibleParameterAnnotations"@ || name == "RuntimeInvisibleParameterAnnotations"@ {
        lemma_params_body(d, p, name, ni, len);
    } else if name == "RuntimeVisibleTypeAnnotations"@ || name == "RuntimeInvisibleTypeAnnotations"@ {
        lemma_type_annotations_body(d, p, name, ni, len);
    } else {
        lemma_default_body(d, p, name, ni, len);
    }
}

#[verifier::rlimit(100)]
#[verifier::spinoff_prover]
proof fn lemma_frames_body(d: Seq<u8>, p: int, name: Seq<char>, ni: u16, len: u32)
    requires
        0 <= p <= d.len(),
        parse_annotation_body(d, p, name, ni, len).0 is Some,
        name == "StackMapTable"@,
        frames_whole(d, p + 2, u16_at(d, p) as nat),
    ensures
        p <= parse_annotation_body(d, p, name, ni, len).1 <= d.len(),
        attribute_bytes(parse_annotation_body(d, p, name, ni, len).0.unwrap()) == u16_bytes(ni) + u32_bytes(len)
            + d.subrange(p, parse_annotation_body(d, p, name, ni, len).1),
{
    let (a, q) = parse_annotation_body(d, p, name, ni, len);
    lemma_u16_bytes_at(d, p);
    lemma_frames_roundtrip(d, p + 2, u16_at(d, p) as nat);
    assert(d.subrange(p, q) =~= d.subrange(p, p + 2) + d.subrange(p + 2, q));
    assert(attribute_bytes(a.unwrap()) =~= u16_bytes(ni) + u32_bytes(len) + d.subrange(p, q));
}

#[verifier::rlimit(100)]
#[verifier::spinoff_prover]
proof fn lemma_annotations_body(d: Seq<u8>, p: int, name: Seq<char>, ni: u16, len: u32)
    requires
        0 <= p <= d.len(),
        parse_annotation_body(d, p, name, ni, len).0 is Some,
        name != "StackMapTable"@,
        name == "RuntimeVisibleAnnotations"@ || name == "RuntimeInvisibleAnnotations"@,
        annotations_whole(d, p + 2, u16_at(d, p) as nat),
    ensures
        p <= parse_annotation_body(d, p, name, ni, len).1 <= d.len(),
        attribute_bytes(parse_annotation_body(d, p, name, ni, len).0.unwrap()) == u16_bytes(ni) + u32_bytes(len)
            + d.subrange(p, parse_annotation_body(d, p, name, ni, len).1),
{
    let (a, q) = parse_annotation_body(d, p, name, ni, len);
    lemma_u16_bytes_at(d, p);
    lemma_annotations_roundtrip(d, p + 2, u16_at(d, p) as nat);
    assert(d.subrange(p, q) =~= d.subrange(p, p + 2) + d.subrange(p + 2, q));
    assert(attribute_bytes(a.unwrap()) =~= u16_bytes(ni) + u32_bytes(len) + d.subrange(p, q));
}

#[verifier::rlimit(100)]
#[verifier::spinoff_prover]
proof fn lemma_params_body(d: Seq<u8>, p: int, name: Seq<char>, ni: u16, len: u32)
    requires
        0 <= p <= d.len(),
        parse_annotation_body(d, p, name, ni, len).0 is Some,
        name != "StackMapTable"@ && name != "RuntimeVisibleAnnotations"@ && name != "RuntimeInvisibleAnnotations"@,
        name == "RuntimeVisibleParameterAnnotations"@ || name == "RuntimeInvisibleParameterAnnotations"@,
        params_whole(d, p + 1, d[p] as nat),
    ensures
        p <= parse_annotation_body(d, p, name, ni, len).1 <= d.len(),
        attribute_bytes(parse_annotation_body(d, p, name, ni, len).0.unwrap()) == u16_bytes(ni) + u32_bytes(len)
            + d.subrange(p, parse_annotation_body(d, p, name, ni, len).1),
{
    let (a, q) = parse_annotation_body(d, p, name, ni, len);
    lemma_params_roundtrip(d, p + 1, d[p] as nat);
    assert(d.subrange(p, q) =~= seq![d[p]] + d.subrange(p + 1, q));
    assert(attribute_bytes(a.unwrap()) =~= u16_bytes(ni) + u32_bytes(len) + d.subrange(p, q));
}

#[verifier::rlimit(100)]
#[verifier::spinoff_prover]
proof fn lemma_type_annotations_body(d: Seq<u8>, p: int, name: Seq<char>, ni: u16, len: u32)
    requires
        0 <= p <= d.len(),
        parse_annotation_body(d, p, name, ni, len).0 is Some,
        name != "StackMapTable"@ && name != "RuntimeVisibleAnnotations"@ && name != "RuntimeInvisibleAnnotations"@,
        name != "RuntimeVisibleParameterAnnotations"@ && name != "RuntimeInvisibleParameterAnnotations"@,
        name == "RuntimeVisibleTypeAnnotations"@ || name == "RuntimeInvisibleTypeAnnotations"@,
        type_annotations_whole(d, p + 2, u16_at(d, p) as nat),
    ensures
        p <= parse_annotation_body(d, p, name, ni, len).1 <= d.len(),
        attribute_bytes(parse_annotation_body(d, p, name, ni, len).0.unwrap()) == u16_bytes(ni) + u32_bytes(len)
            + d.subrange(p, parse_annotation_body(d, p, name, ni, len).1),
{
    let (a, q) = parse_annotation_body(d, p, name, ni, len);
    lemma_u16_bytes_at(d, p);
    lemma_type_annotations_roundtrip(d, p + 2, u16_at(d, p) as nat);
    assert(d.subrange(p, q) =~= d.subrange(p, p + 2) + d.subrange(p + 2, q));
    assert(attribute_bytes(a.unwrap()) =~= u16_bytes(ni) + u32_bytes(len) + d.subrange(p, q));
}

#[verifier::rlimit(100)]
#[verifier::spinoff_prover]
proof fn lemma_default_body(d: Seq<u8>, p: int, name: Seq<char>, ni: u16, len: u32)
    requires
        0 <= p <= d.len(),
        parse_annotation_body(d, p, name, ni, len).0 is Some,
        name != "StackMapTable"@ && name != "RuntimeVisibleAnnotations"@ && name != "RuntimeInvisibleAnnotations"@,
        name != "RuntimeVisibleParameterAnnotations"@ && name != "RuntimeInvisibleParameterAnnotations"@,
        name != "RuntimeVisibleTypeAnnotations"@ && name != "RuntimeInvisibleTypeAnnotations"@,
        ev_whole(d, p),
    ensures
        p <= parse_annotation_body(d, p, name, ni, len).1 <= d.len(),
        attribute_bytes(parse_annotation_body(d, p, name, ni, len).0.unwrap()) == u16_bytes(ni) + u32_bytes(len)
            + d.subrange(p, parse_annotation_body(d, p, name, ni, len).1),
{
    let (a, q) = parse_annotation_body(d, p, name, ni, len);
    lemma_ev_bounds(d, p);
    lemma_ev_roundtrip(d, p);
    assert(attribute_bytes(a.unwrap()) =~= u16_bytes(ni) + u32_bytes(len) + d.subrange(p, q));
}

/// Writing a `Module` attribute, as it was read, gives back its six header
/// bytes and the bytes its body was read from.
#[verifier::rlimit(100)]
#[verifier::spinoff_prover]
pub proof fn lemma_module_body_roundtrip(d: Seq<u8>, p: int, ni: u16, len: u32)
    requires
        0 <= p <= d.len(),
        parse_module_body(d, p, ni, len).0 is Some,
    ensures
        p <= parse_module_body(d, p, ni, len).1 <= d.len(),
        attribute_bytes(parse_module_body(d, p, ni, len).0.unwrap()) == u16_bytes(ni) + u32_bytes(len) + d.subrange(
            p,
            parse_module_body(d, p, ni, len).1,
        ),
{
    let (a, q) = parse_module_body(d, p, ni, len);
    lemma_u16_bytes_at(d, p);
    lemma_u16_bytes_at(d, p + 2);
    lemma_u16_bytes_at(d, p + 4);
    lemma_u16_bytes_at(d, p + 6);
    let q4 = p + 8;
    let rc = u16_at(d, p + 6);
    lemma_table_roundtrip::<RequiresEntry>(d, q4, rc as nat);
    let q5 = get_table::<RequiresEntry>(d, q4, rc as nat).1;
    lemma_u16_bytes_at(d, q5);
    let ec = u16_at(d, q5);
    lemma_table_roundtrip::<ExportsEntry>(d, q5 + 2, ec as nat);
    let q7 = get_table::<ExportsEntry>(d, q5 + 2, ec as nat).1;
    lemma_u16_bytes_at(d, q7);
    let oc = u16_at(d, q7);
    lemma_table_roundtrip::<OpensEntry>(d, q7 + 2, oc as nat);
    let q9 = get_table::<OpensEntry>(d, q7 + 2, oc as nat).1;
    lemma_u16_bytes_at(d, q9);
    let uc = u16_at(d, q9);
    lemma_u16s_roundtrip(d, q9 + 2, uc as nat);
    let q11 = q9 + 2 + 2 * uc;
    lemma_u16_bytes_at(d, q11);
    let pc = u16_at(d, q11);
    lemma_table_roundtrip::<ProvidesEntry>(d, q11 + 2, pc as nat);
    assert(d.subrange(p, q) =~= d.subrange(p, p + 2) + d.subrange(p + 2, p + 4) + d.subrange(p + 4, p + 6)
        + d.subrange(p + 6, p + 8) + d.subrange(q4, q5) + d.subrange(q5, q5 + 2) + d.subrange(q5 + 2, q7)
        + d.subrange(q7, q7 + 2) + d.subrange(q7 + 2, q9) + d.subrange(q9, q9 + 2) + d.subrange(q9 + 2, q11)
        + d.subrange(q11, q11 + 2) + d.subrange(q11 + 2, q));
    assert(attribute_bytes(a.unwrap()) =~= u16_bytes(ni) + u32_bytes(len) + d.subrange(p, q));
}

/// Whether an attribute of fixed layout, with body at `p`, keeps its whole
/// body: a `SourceDebugExtension` must hold bytes that are the UTF-8 of their
/// decoding.
pub open spec fn fixed_whole(d: Seq<u8>, p: int, name: Seq<char>, len: u32) -> bool {
    &&& name == "SourceDebugExtension"@ && avail(d, p, len as int) ==> encode_utf8(mutf8_decode(d.subrange(p, p + len)))
        == d.subrange(p, p + len)
}

/// Whether the attribute at `p` keeps every byte it is read from: the lists
/// inside it are read whole, and a body of fixed layout is kept whole.
pub open spec fn attr_whole(cp: Seq<CpEntry>, d: Seq<u8>, p: int) -> bool
    decreases remaining(d, p), 0nat,
{
    match get_u16(d, p) {
        (None, _) => true,
        (Some(ni), q) => match get_u32(d, q) {
            (None, _) => true,
            (Some(len), q2) => match attribute_name(cp, ni) {
                None => true,
                Some(name) => if is_list_name(name) {
                    true
                } else if is_annotation_name(name) {
                    annotation_body_whole(d, q2, name)
                } else if name == "Module"@ {
                    true
                } else if name == "Code"@ {
                    code_whole(cp, d, q2)
                } else if name == "Record"@ {
                    record_whole(cp, d, q2)
                } else {
                    fixed_whole(d, q2, name, len)
                },
            },
        },
    }
}

/// Whether the attributes of the code attribute whose body is at `p` keep every byte.
pub open spec fn code_whole(cp: Seq<CpEntry>, d: Seq<u8>, p: int) -> bool
    decreases remaining(d, p), 0nat,
{
    match get_u16(d, p) {
        (None, _) => true,
        (Some(_), q) => match get_u16(d, q) {
            (None, _) => true,
            (Some(_), q2) => match get_u32(d, q2) {
                (None, _) => true,
                (Some(cl), q3) => match get_bytes(d, q3, cl as int) {
                    (None, _) => true,
                    (Some(_), q4) => match get_u16(d, q4) {
                        (None, _) => true,
                        (Some(el), q5) => match get_table::<ExceptionTableEntry>(d, q5, el as nat) {
                            (None, _) => true,
                            (Some(_), q6) => match get_u16(d, q6) {
                                (None, _) => true,
                                (Some(ac), q7) => {
                                    proof {
                                        lemma_table_bounds::<ExceptionTableEntry>(d, q5, el as nat);
                                    }
                                    attrs_whole(cp, d, q7, ac as nat)
                                },
                            },
                        },
                    },
                },
            },
        },
    }
}

/// Whether the components of the record attribute whose body is at `p` keep every byte.
pub open spec fn record_whole(cp: Seq<CpEntry>, d: Seq<u8>, p: int) -> bool
    decreases remaining(d, p), 0nat,
{
    match get_u16(d, p) {
        (None, _) => true,
        (Some(k), q) => components_whole(cp, d, q, k as nat),
    }
}

/// Whether the attributes of each of `n` record components from `p` keep every byte.
pub open spec fn components_whole(cp: Seq<CpEntry>, d: Seq<u8>, p: int, n: nat) -> bool
    decreases remaining(d, p), n,
{
    if n == 0 {
        true
    } else {
        match parse_components(cp, d, p, (n - 1) as nat) {
            (None, _) => true,
            (Some(_), q) => components_whole(cp, d, p, (n - 1) as nat) && match get_u16(d, resume(p, q)) {
                (None, _) => true,
                (Some(_), q2) => match get_u16(d, q2) {
                    (None, _) => true,
                    (Some(_), q3) => match get_u16(d, q3) {
                        (None, _) => true,
                        (Some(c), q4) => attrs_whole(cp, d, q4, c as nat),
                    },
                },
            },
        }
    }
}

/// Whether each of `n` attributes from `p` is read and keeps every byte, or
/// starts where the data has ended.
pub open spec fn attrs_whole(cp: Seq<CpEntry>, d: Seq<u8>, p: int, n: nat) -> bool
    decreases remaining(d, p), n,
{
    if n == 0 {
        true
    } else {
        let x = resume(p, parse_attributes(cp, d, p, (n - 1) as nat).1);
        &&& attrs_whole(cp, d, p, (n - 1) as nat)
        &&& (parse_attribute(cp, d, x).0 is Some && attr_whole(cp, d, x)) || x >= d.len()
    }
}

/// Writing an attribute that was read gives back the bytes it was read from,
/// when it keeps every byte it is read from ([`attr_whole`]).
#[verifier::rlimit(100)]
#[verifier::spinoff_prover]
pub proof fn lemma_attribute_roundtrip(cp: Seq<CpEntry>, d: Seq<u8>, p: int)
    requires
        0 <= p <= d.len(),
        parse_attribute(cp, d, p).0 is Some,
        attr_whole(cp, d, p),
    ensures
        p <= parse_attribute(cp, d, p).1 <= d.len(),
        attribute_bytes(parse_attribute(cp, d, p).0.unwrap()) == d.subrange(p, parse_attribute(cp, d, p).1),
    decreases remaining(d, p), 0nat,
{
    lemma_u16_bytes_at(d, p);
    lemma_u32_bytes_at(d, p + 2);
    let ni = u16_at(d, p);
    let len = u32_at(d, p + 2);
    let name = attribute_name(cp, ni).unwrap();
    let q = parse_attribute(cp, d, p).1;
    if is_list_name(name) {
        lemma_list_body_roundtrip(d, p + 6, name, ni, len);
    } else if is_annotation_name(name) {
        lemma_annotation_body_roundtrip(d, p + 6, name, ni, len);
    } else if name == "Module"@ {
        lemma_module_body_roundtrip(d, p + 6, ni, len);
    } else if name == "Code"@ {
        lemma_code_roundtrip(cp, d, p + 6, ni, len);
    } else if name == "Record"@ {
        lemma_record_roundtrip(cp, d, p + 6, ni, len);
    } else {
        lemma_fixed_body_roundtrip(d, p + 6, name, ni, len);
    }
    assert(d.subrange(p, q) =~= d.subrange(p, p + 2) + d.subrange(p + 2, p + 6) + d.subrange(p + 6, q));
}

/// Writing a `Code` attribute, as it was read, gives back its six header bytes
/// and the bytes its body was read from, when its attributes keep every byte.
#[verifier::rlimit(100)]
#[verifier::spinoff_prover]
pub proof fn lemma_code_roundtrip(cp: Seq<CpEntry>, d: Seq<u8>, p: int, ni: u16, len: u32)
    requires
        0 <= p <= d.len(),
        parse_code_body(cp, d, p, ni, len).0 is Some,
        code_whole(cp, d, p),
    ensures
        p <= parse_code_body(cp, d, p, ni, len).1 <= d.len(),
        attribute_bytes(parse_code_body(cp, d, p, ni, len).0.unwrap()) == u16_bytes(ni) + u32_bytes(len) + d.subrange(
            p,
            parse_code_body(cp, d, p, ni, len).1,
        ),
    decreases remaining(d, p), 0nat,
{
    lemma_u32_bytes_at(d, p + 4);
    let cl = u32_at(d, p + 4);
    let q4 = p + 8 + cl;
    let el = u16_at(d, q4);
    lemma_table_roundtrip::<ExceptionTableEntry>(d, q4 + 2, el as nat);
    let q6 = get_table::<ExceptionTableEntry>(d, q4 + 2, el as nat).1;
    let ac = u16_at(d, q6);
    lemma_attributes_roundtrip(cp, d, q6 + 2, ac as nat);
    lemma_code_assemble(cp, d, p, ni, len);
}

#[verifier::rlimit(100)]
#[verifier::spinoff_prover]
proof fn lemma_code_assemble(cp: Seq<CpEntry>, d: Seq<u8>, p: int, ni: u16, len: u32)
    requires
        0 <= p <= d.len(),
        parse_code_body(cp, d, p, ni, len).0 is Some,
        ({
            let q4 = p + 8 + u32_at(d, p + 4);
            let (t, q6) = get_table::<ExceptionTableEntry>(d, q4 + 2, u16_at(d, q4) as nat);
            let (attrs, q8) = parse_attributes(cp, d, q6 + 2, u16_at(d, q6) as nat);
            &&& q4 + 2 <= q6 <= d.len()
            &&& encoded_all(t.unwrap()) == d.subrange(q4 + 2, q6)
            &&& q6 + 2 <= q8 <= d.len()
            &&& attributes_bytes(attrs) == d.subrange(q6 + 2, q8)
        }),
    ensures
        p <= parse_code_body(cp, d, p, ni, len).1 <= d.len(),
        attribute_bytes(parse_code_body(cp, d, p, ni, len).0.unwrap()) == u16_bytes(ni) + u32_bytes(len) + d.subrange(
            p,
            parse_code_body(cp, d, p, ni, len).1,
        ),
{
    let (a, q) = parse_code_body(cp, d, p, ni, len);
    lemma_u16_bytes_at(d, p);
    lemma_u16_bytes_at(d, p + 2);
    lemma_u32_bytes_at(d, p + 4);
    let q4 = p + 8 + u32_at(d, p + 4);
    lemma_u16_bytes_at(d, q4);
    let q6 = get_table::<ExceptionTableEntry>(d, q4 + 2, u16_at(d, q4) as nat).1;
    lemma_u16_bytes_at(d, q6);
    assert(d.subrange(p, q) =~= d.subrange(p, p + 2) + d.subrange(p + 2, p + 4) + d.subrange(p + 4, p + 8)
        + d.subrange(p + 8, q4) + d.subrange(q4, q4 + 2) + d.subrange(q4 + 2, q6) + d.subrange(q6, q6 + 2)
        + d.subrange(q6 + 2, q));
    assert(attribute_bytes(a.unwrap()) =~= u16_bytes(ni) + u32_bytes(len) + d.subrange(p, q));
}

/// Writing a `Record` attribute, as it was read, gives back its six header
/// bytes and the bytes its body was read from, when the attributes of its
/// components keep every byte.
#[verifier::rlimit(100)]
#[verifier::spinoff_prover]
pub proof fn lemma_record_roundtrip(cp: Seq<CpEntry>, d: Seq<u8>, p: int, ni: u16, len: u32)
    requires
        0 <= p <= d.len(),
        parse_record_body(cp, d, p, ni, len).0 is Some,
        record_whole(cp, d, p),
    ensures
        p <= parse_record_body(cp, d, p, ni, len).1 <= d.len(),
        attribute_bytes(parse_record_body(cp, d, p, ni, len).0.unwrap()) == u16_bytes(ni) + u32_bytes(len)
            + d.subrange(p, parse_record_body(cp, d, p, ni, len).1),
    decreases remaining(d, p), 0nat,
{
    let (a, q) = parse_record_body(cp, d, p, ni, len);
    lemma_u16_bytes_at(d, p);
    lemma_components_roundtrip(cp, d, p + 2, u16_at(d, p) as nat);
    assert(d.subrange(p, q) =~= d.subrange(p, p + 2) + d.subrange(p + 2, q));
    assert(attribute_bytes(a.unwrap()) =~= u16_bytes(ni) + u32_bytes(len) + d.subrange(p, q));
}

/// Writing record components that were read gives back the bytes they were
/// read from, when their attributes keep every byte.
#[verifier::rlimit(100)]
#[verifier::spinoff_prover]
pub proof fn lemma_components_roundtrip(cp: Seq<CpEntry>, d: Seq<u8>, p: int, n: nat)
    requires
        0 <= p <= d.len(),
        parse_components(cp, d, p, n).0 is Some,
        components_whole(cp, d, p, n),
    ensures
        p <= parse_components(cp, d, p, n).1 <= d.len(),
        components_bytes(parse_components(cp, d, p, n).0.unwrap()) == d.subrange(p, parse_components(cp, d, p, n).1),
    decreases remaining(d, p), n,
{
    if n == 0 {
        assert(components_bytes(Seq::<SpecRecordComponentInfo>::empty()) =~= d.subrange(p, p));
    } else {
        let (r0, q0) = parse_components(cp, d, p, (n - 1) as nat);
        lemma_components_roundtrip(cp, d, p, (n - 1) as nat);
        let s0 = r0.unwrap();
        lemma_u16_bytes_at(d, q0);
        lemma_u16_bytes_at(d, q0 + 2);
        lemma_u16_bytes_at(d, q0 + 4);
        let c = u16_at(d, q0 + 4);
        lemma_attributes_roundtrip(cp, d, q0 + 6, c as nat);
        let (attrs, q5) = parse_attributes(cp, d, q0 + 6, c as nat);
        let e = SpecRecordComponentInfo {
            name_index: u16_at(d, q0),
            descriptor_index: u16_at(d, q0 + 2),
            attributes_count: c,
            attributes: attrs,
        };
        let s = s0.push(e);
        assert(s.subrange(0, s.len() - 1) =~= s0);
        assert(d.subrange(q0, q5) =~= d.subrange(q0, q0 + 2) + d.subrange(q0 + 2, q0 + 4) + d.subrange(q0 + 4, q0 + 6)
            + d.subrange(q0 + 6, q5));
        assert(component_bytes(e) =~= d.subrange(q0, q5));
        assert(d.subrange(p, q5) =~= d.subrange(p, q0) + d.subrange(q0, q5));
    }
}

/// Writing attributes that were read gives back the bytes they were read
/// from, when each was read and keeps every byte, or started where the data
/// had ended.
#[verifier::rlimit(100)]
#[verifier::spinoff_prover]
pub proof fn lemma_attributes_roundtrip(cp: Seq<CpEntry>, d: Seq<u8>, p: int, n: nat)
    requires
        0 <= p <= d.len(),
        attrs_whole(cp, d, p, n),
    ensures
        p <= parse_attributes(cp, d, p, n).1 <= d.len(),
        attributes_bytes(parse_attributes(cp, d, p, n).0) == d.subrange(p, parse_attributes(cp, d, p, n).1),
    decreases remaining(d, p), n,
{
    if n == 0 {
        assert(attributes_bytes(Seq::<SpecAttribute>::empty()) =~= d.subrange(p, p));
    } else {
        let (s0, q0) = parse_attributes(cp, d, p, (n - 1) as nat);
        lemma_attributes_roundtrip(cp, d, p, (n - 1) as nat);
        let (a, q2) = parse_attribute(cp, d, q0);
        if a is Some && attr_whole(cp, d, q0) {
            lemma_attribute_roundtrip(cp, d, q0);
            let s = s0.push(a.unwrap());
            assert(s.subrange(0, s.len() - 1) =~= s0);
            assert(d.subrange(p, q2) =~= d.subrange(p, q0) + d.subrange(q0, q2));
        }
    }
}

/// Where a constant-pool entry read at `p` ends.
proof fn lemma_tag_bounds(d: Seq<u8>, p: int)
    requires
        0 <= p <= d.len(),
    ensures
        p <= parse_tag(d, p, None).1 <= d.len(),
{
    reveal(parse_tag);
}

/// Whether every entry of the constant pool from slot `i` on, read at `p`,
/// has a tag the reader knows, or starts where the data has ended.
pub open spec fn pool_whole(d: Seq<u8>, p: int, i: int, count: int) -> bool
    decreases if i < count { (count - i) as nat } else { 0nat },
{
    if i >= count {
        true
    } else {
        match parse_tag(d, p, None) {
            (None, q) => p >= d.len() && pool_whole(d, q, i + 1, count),
            (Some(e), q) => if e is Long || e is Double {
                pool_whole(d, q, i + 2, count)
            } else {
                pool_whole(d, q, i + 1, count)
            },
        }
    }
}

proof fn lemma_pool_bytes_prefix(a: Seq<CpEntry>, b: Seq<CpEntry>)
    ensures
        pool_bytes(a + b) == pool_bytes(a) + pool_bytes(b),
    decreases b.len(),
{
    if b.len() == 0 {
        assert(a + b =~= a);
        assert(pool_bytes(a) + pool_bytes(b) =~= pool_bytes(a));
    } else {
        lemma_pool_bytes_prefix(a, b.drop_last());
        assert((a + b).drop_last() =~= a + b.drop_last());
        assert((a + b).last() == b.last());
    }
}

/// Writing constant-pool entries that were read without renaming gives back
/// the bytes they were read from, when every entry has a tag the reader knows
/// or starts where the data has ended.
pub proof fn lemma_pool_roundtrip(d: Seq<u8>, p: int, i: int, count: int)
    requires
        0 <= p <= d.len(),
        pool_whole(d, p, i, count),
    ensures
        p <= parse_pool_from(d, p, i, count, None).1 <= d.len(),
        pool_bytes(parse_pool_from(d, p, i, count, None).0) == d.subrange(p, parse_pool_from(d, p, i, count, None).1),
    decreases if i < count { (count - i) as nat } else { 0nat },
{
    if i >= count {
        assert(pool_bytes(Seq::<CpEntry>::empty()) =~= d.subrange(p, p));
    } else {
        lemma_tag_bounds(d, p);
        let (e, q) = parse_tag(d, p, None);
        let cont = CpEntry::ContinuationTag { tag: 0 };
        assert(pool_bytes(Seq::<CpEntry>::empty()) =~= Seq::<u8>::empty());
        assert(pool_bytes(seq![cont]) =~= Seq::<u8>::empty()) by {
            assert(seq![cont].drop_last() =~= Seq::<CpEntry>::empty());
            assert(seq![cont].last() == cont);
        }
        match e {
            None => {
                lemma_pool_roundtrip(d, q, i + 1, count);
                let (rest, q2) = parse_pool_from(d, q, i + 1, count, None);
                lemma_pool_bytes_prefix(seq![cont], rest);
                assert(d.subrange(p, q2) =~= d.subrange(q, q2));
            },
            Some(x) => {
                lemma_tag_roundtrip(d, p);
                if x is Long || x is Double {
                    lemma_pool_roundtrip(d, q, i + 2, count);
                    let (rest, q2) = parse_pool_from(d, q, i + 2, count, None);
                    lemma_pool_bytes_prefix(seq![x, cont], rest);
                    assert(pool_bytes(seq![x, cont]) =~= entry_bytes(x)) by {
                        assert(seq![x, cont].drop_last() =~= seq![x]);
                        assert(seq![x].drop_last() =~= Seq::<CpEntry>::empty());
                        assert(seq![x].last() == x);
                        assert(seq![x, cont].last() == cont);
                        assert(pool_bytes(seq![x]) =~= entry_bytes(x));
                    }
                    assert(d.subrange(p, q2) =~= d.subrange(p, q) + d.subrange(q, q2));
                } else {
                    lemma_pool_roundtrip(d, q, i + 1, count);
                    let (rest, q2) = parse_pool_from(d, q, i + 1, count, None);
                    lemma_pool_bytes_prefix(seq![x], rest);
                    assert(pool_bytes(seq![x]) =~= entry_bytes(x)) by {
                        assert(seq![x].drop_last() =~= Seq::<CpEntry>::empty());
                        assert(seq![x].last() == x);
                    }
                    assert(d.subrange(p, q2) =~= d.subrange(p, q) + d.subrange(q, q2));
                }
            },
        }
    }
}

/// Whether the attributes of each of `n` fields or methods from `p` keep every byte.
pub open spec fn members_whole(cp: Seq<CpEntry>, d: Seq<u8>, p: int, n: nat) -> bool
    decreases n,
{
    if n == 0 {
        true
    } else {
        members_whole(cp, d, p, (n - 1) as nat) && match parse_members(cp, d, p, (n - 1) as nat) {
            (None, _) => true,
            (Some(_), q) => attrs_whole(cp, d, q + 8, u16_at(d, q + 6) as nat),
        }
    }
}

/// Writing a field or a method that was read gives back the bytes it was read
/// from, when its attributes keep every byte.
#[verifier::rlimit(100)]
#[verifier::spinoff_prover]
pub proof fn lemma_member_roundtrip(cp: Seq<CpEntry>, d: Seq<u8>, p: int)
    requires
        0 <= p <= d.len(),
        parse_member(cp, d, p).0 is Some,
        attrs_whole(cp, d, p + 8, u16_at(d, p + 6) as nat),
    ensures
        p <= parse_member(cp, d, p).1 <= d.len(),
        member_bytes(parse_member(cp, d, p).0.unwrap()) == d.subrange(p, parse_member(cp, d, p).1),
{
    lemma_u16_bytes_at(d, p);
    lemma_u16_bytes_at(d, p + 2);
    lemma_u16_bytes_at(d, p + 4);
    lemma_u16_bytes_at(d, p + 6);
    let ac = u16_at(d, p + 6);
    lemma_attributes_roundtrip(cp, d, p + 8, ac as nat);
    let (m, q5) = parse_member(cp, d, p);
    assert(d.subrange(p, q5) =~= d.subrange(p, p + 2) + d.subrange(p + 2, p + 4) + d.subrange(p + 4, p + 6)
        + d.subrange(p + 6, p + 8) + d.subrange(p + 8, q5));
    assert(member_bytes(m.unwrap()) =~= d.subrange(p, q5));
}

/// Writing fields or methods that were read gives back the bytes they were
/// read from, when their attributes keep every byte.
#[verifier::rlimit(100)]
#[verifier::spinoff_prover]
pub proof fn lemma_members_roundtrip(cp: Seq<CpEntry>, d: Seq<u8>, p: int, n: nat)
    requires
        0 <= p <= d.len(),
        parse_members(cp, d, p, n).0 is Some,
        members_whole(cp, d, p, n),
    ensures
        p <= parse_members(cp, d, p, n).1 <= d.len(),
        members_bytes(parse_members(cp, d, p, n).0.unwrap()) == d.subrange(p, parse_members(cp, d, p, n).1),
    decreases n,
{
    if n == 0 {
        assert(members_bytes(Seq::<SpecMember>::empty()) =~= d.subrange(p, p));
    } else {
        let (r0, q0) = parse_members(cp, d, p, (n - 1) as nat);
        lemma_members_roundtrip(cp, d, p, (n - 1) as nat);
        let s0 = r0.unwrap();
        lemma_member_roundtrip(cp, d, q0);
        let (m, q5) = parse_member(cp, d, q0);
        let s = s0.push(m.unwrap());
        assert(s.drop_last() =~= s0);
        assert(d.subrange(p, q5) =~= d.subrange(p, q0) + d.subrange(q0, q5));
    }
}

/// Whether reading the class in `d` without renaming keeps every byte it
/// reads: every constant-pool entry has a tag the reader knows, and every
/// attribute of the fields, the methods and the class keeps every byte.
pub open spec fn class_whole(d: Seq<u8>) -> bool {
    let count = u16_at(d, 8);
    let (rest, q5) = parse_pool_from(d, 10, 1, count as int, None);
    let pool = seq![CpEntry::ContinuationTag { tag: 0 }] + rest;
    let q11 = q5 + 10 + 2 * u16_at(d, q5 + 6);
    let q12 = parse_members(pool, d, q11, u16_at(d, q11 - 2) as nat).1;
    let q14 = parse_members(pool, d, q12 + 2, u16_at(d, q12) as nat).1;
    &&& pool_whole(d, 10, 1, count as int)
    &&& members_whole(pool, d, q11, u16_at(d, q11 - 2) as nat)
    &&& members_whole(pool, d, q12 + 2, u16_at(d, q12) as nat)
    &&& attrs_whole(pool, d, q14 + 2, u16_at(d, q14) as nat)
}

/// Reading a class without renaming and writing it back gives the bytes it
/// was read from, when the data starts with the class-file magic number and the
/// reader keeps every byte it reads ([`class_whole`]).
#[verifier::rlimit(100)]
#[verifier::spinoff_prover]
pub proof fn lemma_class_roundtrip(d: Seq<u8>)
    requires
        d.len() <= u64::MAX,
        parse_class(d, None) is Some,
        u32_at(d, 0) == CLASS_HEADER,
        class_whole(d),
    ensures
        parse_class(d, None).unwrap().len <= d.len(),
        class_bytes(parse_class(d, None).unwrap()) == d.subrange(0, parse_class(d, None).unwrap().len as int),
{
    let count = u16_at(d, 8);
    lemma_pool_roundtrip(d, 10, 1, count as int);
    let (rest, q5) = parse_pool_from(d, 10, 1, count as int, None);
    let cont = CpEntry::ContinuationTag { tag: 0 };
    let pool = seq![cont] + rest;
    lemma_pool_bytes_prefix(seq![cont], rest);
    assert(pool_bytes(Seq::<CpEntry>::empty()) =~= Seq::<u8>::empty());
    assert(pool_bytes(seq![cont]) =~= Seq::<u8>::empty()) by {
        assert(seq![cont].drop_last() =~= Seq::<CpEntry>::empty());
        assert(seq![cont].last() == cont);
    }
    let ic = u16_at(d, q5 + 6);
    lemma_u16s_roundtrip(d, q5 + 8, ic as nat);
    let q11 = q5 + 10 + 2 * ic;
    let fc = u16_at(d, q11 - 2);
    lemma_members_roundtrip(pool, d, q11, fc as nat);
    let q12 = parse_members(pool, d, q11, fc as nat).1;
    let mc = u16_at(d, q12);
    lemma_members_roundtrip(pool, d, q12 + 2, mc as nat);
    let q14 = parse_members(pool, d, q12 + 2, mc as nat).1;
    let ac = u16_at(d, q14);
    lemma_attributes_roundtrip(pool, d, q14 + 2, ac as nat);
    lemma_class_assemble(d);
}

#[verifier::rlimit(100)]
#[verifier::spinoff_prover]
proof fn lemma_class_assemble(d: Seq<u8>)
    requires
        d.len() <= u64::MAX,
        parse_class(d, None) is Some,
        u32_at(d, 0) == CLASS_HEADER,
        ({
            let count = u16_at(d, 8);
            let (rest, q5) = parse_pool_from(d, 10, 1, count as int, None);
            let pool = seq![CpEntry::ContinuationTag { tag: 0 }] + rest;
            let ic = u16_at(d, q5 + 6);
            let q11 = q5 + 10 + 2 * ic;
            let (fields, q12) = parse_members(pool, d, q11, u16_at(d, q11 - 2) as nat);
            let (methods, q14) = parse_members(pool, d, q12 + 2, u16_at(d, q12) as nat);
            let (attrs, q16) = parse_attributes(pool, d, q14 + 2, u16_at(d, q14) as nat);
            &&& 10 <= q5 <= d.len()
            &&& pool_bytes(pool) == d.subrange(10, q5)
            &&& q5 + 8 + 2 * ic <= d.len()
            &&& u16s_bytes(u16s_at(d, q5 + 8, ic as nat)) == d.subrange(q5 + 8, q5 + 8 + 2 * ic)
            &&& q11 <= q12 <= d.len()
            &&& members_bytes(fields.unwrap()) == d.subrange(q11, q12)
            &&& q12 + 2 <= q14 <= d.len()
            &&& members_bytes(methods.unwrap()) == d.subrange(q12 + 2, q14)
            &&& q14 + 2 <= q16 <= d.len()
            &&& attributes_bytes(attrs) == d.subrange(q14 + 2, q16)
        }),
    ensures
        parse_class(d, None).unwrap().len <= d.len(),
        class_bytes(parse_class(d, None).unwrap()) == d.subrange(0, parse_class(d, None).unwrap().len as int),
{
    let c = parse_class(d, None).unwrap();
    let count = u16_at(d, 8);
    let q5 = parse_pool_from(d, 10, 1, count as int, None).1;
    let ic = u16_at(d, q5 + 6);
    let q10 = q5 + 8 + 2 * ic;
    let q11 = q10 + 2;
    let pool = c.constant_pool;
    let q12 = parse_members(pool, d, q11, u16_at(d, q10) as nat).1;
    let q14 = parse_members(pool, d, q12 + 2, u16_at(d, q12) as nat).1;
    let q16 = c.len as int;
    lemma_u32_bytes_at(d, 0);
    lemma_u16_bytes_at(d, 4);
    lemma_u16_bytes_at(d, 6);
    lemma_u16_bytes_at(d, 8);
    lemma_u16_bytes_at(d, q5);
    lemma_u16_bytes_at(d, q5 + 2);
    lemma_u16_bytes_at(d, q5 + 4);
    lemma_u16_bytes_at(d, q5 + 6);
    lemma_u16_bytes_at(d, q10);
    lemma_u16_bytes_at(d, q12);
    lemma_u16_bytes_at(d, q14);
    assert(d.subrange(0, q16) =~= d.subrange(0, 4) + d.subrange(4, 6) + d.subrange(6, 8) + d.subrange(8, 10)
        + d.subrange(10, q5) + d.subrange(q5, q5 + 2) + d.subrange(q5 + 2, q5 + 4) + d.subrange(q5 + 4, q5 + 6)
        + d.subrange(q5 + 6, q5 + 8) + d.subrange(q5 + 8, q10) + d.subrange(q10, q11) + d.subrange(q11, q12)
        + d.subrange(q12, q12 + 2) + d.subrange(q12 + 2, q14) + d.subrange(q14, q14 + 2) + d.subrange(q14 + 2, q16));
    assert(class_bytes(c) =~= d.subrange(0, q16));
}

} // verus!
