//! Reading a class file: its constant-pool entries, its members, and the
//! frames and annotations that attributes are made of.
use crate::attributes::{
    annotation_views, element_value_views, pair_views, Annotation, ElementValue, ElementValuePair,
    SpecAnnotation, SpecElementValue, SpecElementValuePair, SpecStackMapFrame, SpecValue, StackMapFrame,
    Value,
};
use crate::access_flags::{AccessFlagContext, AccessFlags};
use crate::attribute_reader::parse_attributes;
use crate::bytes::{avail, lemma_u16_bytes_at, lemma_u32_bytes_at, take_u16, take_u32, take_u8, u16_at, u16_bytes, u32_at};
use crate::classfile::{ClassFile, Field, Method, SpecClassFile, SpecMember, CLASS_HEADER};
use crate::constant_pool::{continuation_tag, cp_view, entry_bytes, jvm_tag_of, ConstantPoolJvmTag, ConstantPoolTags, CpEntry};
use crate::mutf8::{mutf8_decode, read_modified_utf8};
use crate::reader::{frame_error, vtype_failure, FrameReadError, get_bytes, get_u16, get_u16s, get_u32, get_u8, parse_frame, parse_frames, parse_vtypes, read_bytes, read_u16s, read_vtypes};
use crate::string_map::{entries, lookup, string_map_get};
use linked_hash_map::LinkedHashMap;
use vstd::string::StrSliceExecFns;
use vstd::utf8::encode_utf8;
use crate::attributes::VerificationTypeInfo;
use vstd::prelude::*;

verus! {

/// A reader never moves back; where a position earlier than `start` is given,
/// reading goes on from `start`.
pub open spec fn resume(start: int, q: int) -> int {
    if q < start {
        start
    } else {
        q
    }
}

/// The number of bytes left after `p`; none once `p` is past the end.
pub open spec fn remaining(d: Seq<u8>, p: int) -> nat {
    if p <= d.len() {
        (d.len() - p) as nat
    } else {
        0
    }
}

/// Whether `tag` names a constant-pool index value: `B C D F I J S Z s`.
pub open spec fn is_const_tag(tag: u8) -> bool {
    tag == 66 || tag == 67 || tag == 68 || tag == 70 || tag == 73 || tag == 74 || tag == 83 || tag == 90
        || tag == 115
}

/// An element value at `p`: its tag, then what the tag calls for (`e` an enum
/// constant, `c` a class, `@` an annotation, `[` an array). An unknown tag
/// fails after its byte.
pub open spec fn parse_element_value(d: Seq<u8>, p: int) -> (Option<SpecElementValue>, int)
    decreases remaining(d, p), 0nat,
{
    match get_u8(d, p) {
        (None, q) => (None, q),
        (Some(tag), q) => if is_const_tag(tag) {
            match get_u16(d, q) {
                (None, q2) => (None, q2),
                (Some(i), q2) => (
                    Some(SpecElementValue { tag, value: SpecValue::ConstValueIndex { const_value_index: i } }),
                    q2,
                ),
            }
        } else if tag == 101 {
            match get_u16(d, q) {
                (None, q2) => (None, q2),
                (Some(t), q2) => match get_u16(d, q2) {
                    (None, q3) => (None, q3),
                    (Some(c), q3) => (
                        Some(
                            SpecElementValue {
                                tag,
                                value: SpecValue::EnumConstValue { type_name_index: t, const_name_index: c },
                            },
                        ),
                        q3,
                    ),
                },
            }
        } else if tag == 99 {
            match get_u16(d, q) {
                (None, q2) => (None, q2),
                (Some(c), q2) => (
                    Some(SpecElementValue { tag, value: SpecValue::ClassInfoIndex { class_info_index: c } }),
                    q2,
                ),
            }
        } else if tag == 64 {
            match parse_annotation(d, q) {
                (None, q2) => (None, q2),
                (Some(a), q2) => (
                    Some(SpecElementValue { tag, value: SpecValue::AnnotationValue { annotation_value: a } }),
                    q2,
                ),
            }
        } else if tag == 91 {
            match get_u16(d, q) {
                (None, q2) => (None, q2),
                (Some(n), q2) => {
                    let (values, q3) = parse_element_values(d, q2, n as nat);
                    (Some(SpecElementValue { tag, value: SpecValue::ArrayValue { num_values: n, values } }), q3)
                },
            }
        } else {
            (None, q)
        },
    }
}

/// `n` element values one after another; one that fails to read is left out
/// and reading goes on from where it stopped.
pub open spec fn parse_element_values(d: Seq<u8>, p: int, n: nat) -> (Seq<SpecElementValue>, int)
    decreases remaining(d, p), n,
{
    if n == 0 {
        (Seq::empty(), p)
    } else {
        let (s, q) = parse_element_values(d, p, (n - 1) as nat);
        match parse_element_value(d, resume(p, q)) {
            (None, q2) => (s, q2),
            (Some(v), q2) => (s.push(v), q2),
        }
    }
}

/// `n` element-value pairs, each a name index and a value; the first failure ends the read.
pub open spec fn parse_pairs(d: Seq<u8>, p: int, n: nat) -> (Option<Seq<SpecElementValuePair>>, int)
    decreases remaining(d, p), n,
{
    if n == 0 {
        (Some(Seq::empty()), p)
    } else {
        match parse_pairs(d, p, (n - 1) as nat) {
            (None, q) => (None, q),
            (Some(s), q) => match get_u16(d, resume(p, q)) {
                (None, q2) => (None, q2),
                (Some(name), q2) => match parse_element_value(d, q2) {
                    (None, q3) => (None, q3),
                    (Some(v), q3) => (Some(s.push(SpecElementValuePair { element_name_index: name, value: v })), q3),
                },
            },
        }
    }
}

/// An annotation at `p`: its type index, the number of pairs, and the pairs.
pub open spec fn parse_annotation(d: Seq<u8>, p: int) -> (Option<SpecAnnotation>, int)
    decreases remaining(d, p), 0nat,
{
    match get_u16(d, p) {
        (None, q) => (None, q),
        (Some(t), q) => match get_u16(d, q) {
            (None, q2) => (None, q2),
            (Some(n), q2) => match parse_pairs(d, q2, n as nat) {
                (None, q3) => (None, q3),
                (Some(pairs), q3) => (
                    Some(SpecAnnotation { type_index: t, num_element_value_pairs: n, element_value_pairs: pairs }),
                    q3,
                ),
            },
        },
    }
}

/// Why an element value or an annotation could not be read.
#[derive(Debug, Copy, Clone, PartialEq, Eq, Structural)]
pub enum ElementValueReadError {
    /// An element value has a tag byte that names no kind of value.
    UnknownTag,
    /// The data ends inside the value.
    Malformed,
}

/// Why the element value at `p` cannot be read, when it cannot: its own tag,
/// or the annotation it holds, decides.
pub open spec fn element_value_error(d: Seq<u8>, p: int) -> ElementValueReadError
    decreases remaining(d, p), 0nat,
{
    match get_u8(d, p) {
        (None, _) => ElementValueReadError::Malformed,
        (Some(tag), q) => if tag == 64 {
            annotation_error(d, q)
        } else if is_const_tag(tag) || tag == 101 || tag == 99 || tag == 91 {
            ElementValueReadError::Malformed
        } else {
            ElementValueReadError::UnknownTag
        },
    }
}

/// Why the annotation at `p` cannot be read, when it cannot: the pair whose
/// value fails decides.
pub open spec fn annotation_error(d: Seq<u8>, p: int) -> ElementValueReadError
    decreases remaining(d, p), 0nat,
{
    match get_u16(d, p) {
        (None, _) => ElementValueReadError::Malformed,
        (Some(_), q) => match get_u16(d, q) {
            (None, _) => ElementValueReadError::Malformed,
            (Some(n), q2) => pairs_error(d, q2, n as nat),
        },
    }
}

/// Why `n` pairs at `p` cannot be read, when they cannot: the first pair that
/// fails decides.
pub open spec fn pairs_error(d: Seq<u8>, p: int, n: nat) -> ElementValueReadError
    decreases remaining(d, p), n,
{
    if n == 0 {
        ElementValueReadError::Malformed
    } else {
        match parse_pairs(d, p, (n - 1) as nat) {
            (None, _) => pairs_error(d, p, (n - 1) as nat),
            (Some(_), q) => match get_u16(d, resume(p, q)) {
                (None, _) => ElementValueReadError::Malformed,
                (Some(_), q2) => element_value_error(d, q2),
            },
        }
    }
}

/// Once a read of pairs fails, reading more pairs fails for the same reason.
pub proof fn lemma_pairs_error_after(d: Seq<u8>, p: int, k: nat, n: nat)
    requires
        k <= n,
        parse_pairs(d, p, k).0 is None,
    ensures
        pairs_error(d, p, n) == pairs_error(d, p, k),
    decreases n - k,
{
    if k < n {
        lemma_pairs_fail_after(d, p, k, (n - 1) as nat);
        lemma_pairs_error_after(d, p, k, (n - 1) as nat);
    }
}

/// `n` annotations one after another; one that fails to read is left out and
/// reading goes on from where it stopped.
pub open spec fn parse_annotations(d: Seq<u8>, p: int, n: nat) -> (Seq<SpecAnnotation>, int)
    decreases remaining(d, p), n,
{
    if n == 0 {
        (Seq::empty(), p)
    } else {
        let (s, q) = parse_annotations(d, p, (n - 1) as nat);
        match parse_annotation(d, resume(p, q)) {
            (None, q2) => (s, q2),
            (Some(a), q2) => (s.push(a), q2),
        }
    }
}

impl ClassFile {
    /// Reads a stack map frame at `pos`.
    pub fn read_stack_frame(data: &[u8], pos: usize) -> (r: (Result<StackMapFrame, FrameReadError>, usize))
        requires
            pos <= data@.len(),
        ensures
            r.1 == parse_frame(data@, pos as int).1,
            r.0 is Ok == parse_frame(data@, pos as int).0 is Some,
            r.0 matches Ok(f) ==> f@ == parse_frame(data@, pos as int).0.unwrap(),
            r.0 matches Err(e) ==> e == frame_error(data@, pos as int),
            pos <= r.1 <= data@.len(),
    {
        let (ft, q) = take_u8(data, pos);
        let frame_type = match ft {
            None => return (Err(FrameReadError::Malformed), q),
            Some(b) => b,
        };
        if frame_type <= 63 {
            (Ok(StackMapFrame::SameFrame { frame_type }), q)
        } else if frame_type <= 127 {
            match VerificationTypeInfo::read_from(data, q) {
                (None, q2) => (Err(vtype_failure(data, q)), q2),
                (Some(v), q2) => {
                    let stack = vec![v];
                    assert(stack@ =~= seq![v]);
                    (Ok(StackMapFrame::SameLocals1StackItemFrame { frame_type, stack }), q2)
                },
            }
        } else if frame_type == 247 {
            let (off, q2) = take_u16(data, q);
            let offset_delta = match off {
                None => return (Err(FrameReadError::Malformed), q2),
                Some(o) => o,
            };
            match VerificationTypeInfo::read_from(data, q2) {
                (None, q3) => (Err(vtype_failure(data, q2)), q3),
                (Some(v), q3) => {
                    let stack = vec![v];
                    assert(stack@ =~= seq![v]);
                    (Ok(StackMapFrame::SameLocals1StackItemFrameExtended { frame_type, offset_delta, stack }), q3)
                },
            }
        } else if 248 <= frame_type && frame_type <= 250 {
            match take_u16(data, q) {
                (None, q2) => (Err(FrameReadError::Malformed), q2),
                (Some(offset_delta), q2) => (Ok(StackMapFrame::ChopFrame { frame_type, offset_delta }), q2),
            }
        } else if frame_type == 251 {
            match take_u16(data, q) {
                (None, q2) => (Err(FrameReadError::Malformed), q2),
                (Some(offset_delta), q2) => (Ok(StackMapFrame::SameFrameExtended { frame_type, offset_delta }), q2),
            }
        } else if 252 <= frame_type && frame_type <= 254 {
            let (off, q2) = take_u16(data, q);
            let offset_delta = match off {
                None => return (Err(FrameReadError::Malformed), q2),
                Some(o) => o,
            };
            match read_vtypes(data, q2, (frame_type - 251) as u16) {
                (Err(e), q3) => (Err(e), q3),
                (Ok(locals), q3) => (Ok(StackMapFrame::AppendFrame { frame_type, offset_delta, locals }), q3),
            }
        } else if frame_type == 255 {
            let (off, q2) = take_u16(data, q);
            let offset_delta = match off {
                None => return (Err(FrameReadError::Malformed), q2),
                Some(o) => o,
            };
            let (nl, q3) = take_u16(data, q2);
            let number_of_locals = match nl {
                None => return (Err(FrameReadError::Malformed), q3),
                Some(n) => n,
            };
            let (ls, q4) = read_vtypes(data, q3, number_of_locals);
            let locals = match ls {
                Err(e) => return (Err(e), q4),
                Ok(l) => l,
            };
            let (ns, q5) = take_u16(data, q4);
            let number_of_stack_items = match ns {
                None => return (Err(FrameReadError::Malformed), q5),
                Some(n) => n,
            };
            let (st, q6) = read_vtypes(data, q5, number_of_stack_items);
            let stack = match st {
                Err(e) => return (Err(e), q6),
                Ok(s) => s,
            };
            (
                Ok(
                    StackMapFrame::FullFrame {
                        frame_type,
                        offset_delta,
                        number_of_locals,
                        locals,
                        number_of_stack_items,
                        stack,
                    },
                ),
                q6,
            )
        } else {
            (Err(FrameReadError::InvalidType), q)
        }
    }

    /// Reads `count` stack map frames at `pos`, leaving out those that fail to read.
    pub fn read_stack_frames_vec(count: u16, data: &[u8], pos: usize) -> (r: (Vec<StackMapFrame>, usize))
        requires
            pos <= data@.len(),
        ensures
            r.0@.map_values(|f: StackMapFrame| f@) == parse_frames(data@, pos as int, count as nat).0,
            r.1 == parse_frames(data@, pos as int, count as nat).1,
            pos <= r.1 <= data@.len(),
    {
        let mut frames: Vec<StackMapFrame> = Vec::new();
        let mut cur = pos;
        let mut i: u16 = 0;
        while i < count
            invariant
                i <= count,
                pos <= cur <= data@.len(),
                parse_frames(data@, pos as int, i as nat) == (frames@.map_values(|f: StackMapFrame| f@), cur as int),
            decreases count - i,
        {
            let (f, q) = ClassFile::read_stack_frame(data, cur);
            let ghost before = frames@;
            match f {
                Err(_) => {},
                Ok(f) => {
                    frames.push(f);
                    assert(frames@.map_values(|f: StackMapFrame| f@) =~= before.map_values(|f: StackMapFrame| f@).push(
                        f@,
                    ));
                },
            }
            cur = q;
            i = i + 1;
        }
        (frames, cur)
    }
}

impl ClassFile {
    /// Reads an element value at `pos`.
    pub fn read_annotation_element_value(data: &[u8], pos: usize) -> (r: (
        Result<ElementValue, ElementValueReadError>,
        usize,
    ))
        requires
            pos <= data@.len(),
        ensures
            r.1 == parse_element_value(data@, pos as int).1,
            r.0 is Ok == parse_element_value(data@, pos as int).0 is Some,
            r.0 matches Ok(v) ==> v@ == parse_element_value(data@, pos as int).0.unwrap(),
            r.0 matches Err(e) ==> e == element_value_error(data@, pos as int),
            pos <= r.1 <= data@.len(),
        decreases remaining(data@, pos as int), 0nat,
    {
        let (t, q) = take_u8(data, pos);
        let tag = match t {
            None => return (Err(ElementValueReadError::Malformed), q),
            Some(t) => t,
        };
        if tag == 66 || tag == 67 || tag == 68 || tag == 70 || tag == 73 || tag == 74 || tag == 83 || tag == 90
            || tag == 115 {
            match take_u16(data, q) {
                (None, q2) => (Err(ElementValueReadError::Malformed), q2),
                (Some(i), q2) => (
                    Ok(ElementValue { tag, value: Value::ConstValueIndex { const_value_index: i } }),
                    q2,
                ),
            }
        } else if tag == 101 {
            let (t1, q2) = take_u16(data, q);
            let type_name_index = match t1 {
                None => return (Err(ElementValueReadError::Malformed), q2),
                Some(x) => x,
            };
            match take_u16(data, q2) {
                (None, q3) => (Err(ElementValueReadError::Malformed), q3),
                (Some(const_name_index), q3) => (
                    Ok(ElementValue { tag, value: Value::EnumConstValue { type_name_index, const_name_index } }),
                    q3,
                ),
            }
        } else if tag == 99 {
            match take_u16(data, q) {
                (None, q2) => (Err(ElementValueReadError::Malformed), q2),
                (Some(c), q2) => (Ok(ElementValue { tag, value: Value::ClassInfoIndex { class_info_index: c } }), q2),
            }
        } else if tag == 64 {
            match ClassFile::read_annotation(data, q) {
                (Err(e), q2) => (Err(e), q2),
                (Ok(a), q2) => {
                    let ev = ElementValue { tag, value: Value::AnnotationValue { annotation_value: a } };
                    assert(ev@ == SpecElementValue { tag, value: crate::attributes::value_view(&ev.value) });
                    (Ok(ev), q2)
                },
            }
        } else if tag == 91 {
            let (n, q2) = take_u16(data, q);
            let num_values = match n {
                None => return (Err(ElementValueReadError::Malformed), q2),
                Some(n) => n,
            };
            let (values, q3) = ClassFile::read_annotation_element_values_vec(num_values, data, q2);
            assert(element_value_views(values@) =~= Seq::new(
                values@.len(),
                |j: int|
                    if 0 <= j < values@.len() {
                        crate::attributes::element_value_view(&values@[j])
                    } else {
                        arbitrary()
                    },
            ));
            let ghost vs = values@;
            let ev = ElementValue { tag, value: Value::ArrayValue { num_values, values } };
            assert(ev@ == SpecElementValue { tag, value: crate::attributes::value_view(&ev.value) });
            assert(crate::attributes::value_view(&ev.value)->ArrayValue_values =~= element_value_views(vs));
            (Ok(ev), q3)
        } else {
            (Err(ElementValueReadError::UnknownTag), q)
        }
    }

    /// Reads `num_values` element values at `pos`, leaving out those that fail to read.
    pub fn read_annotation_element_values_vec(num_values: u16, data: &[u8], pos: usize) -> (r: (
        Vec<ElementValue>,
        usize,
    ))
        requires
            pos <= data@.len(),
        ensures
            element_value_views(r.0@) == parse_element_values(data@, pos as int, num_values as nat).0,
            r.1 == parse_element_values(data@, pos as int, num_values as nat).1,
            pos <= r.1 <= data@.len(),
        decreases remaining(data@, pos as int), num_values as nat,
    {
        let mut out: Vec<ElementValue> = Vec::new();
        let mut cur = pos;
        let mut i: u16 = 0;
        assert(element_value_views(out@) =~= Seq::empty());
        while i < num_values
            invariant
                i <= num_values,
                pos <= cur <= data@.len(),
                parse_element_values(data@, pos as int, i as nat) == (element_value_views(out@), cur as int),
            decreases num_values - i,
        {
            let (v, q) = ClassFile::read_annotation_element_value(data, cur);
            let ghost before = out@;
            match v {
                Err(_) => {},
                Ok(v) => {
                    out.push(v);
                    assert(element_value_views(out@) =~= element_value_views(before).push(v@));
                },
            }
            cur = q;
            i = i + 1;
        }
        (out, cur)
    }

    /// Reads `num_element_value_pairs` element-value pairs at `pos`; the first failure ends the read.
    pub fn read_annotations_element_value_pairs_vec(num_element_value_pairs: u16, data: &[u8], pos: usize) -> (r: (
        Result<Vec<ElementValuePair>, ElementValueReadError>,
        usize,
    ))
        requires
            pos <= data@.len(),
        ensures
            r.1 == parse_pairs(data@, pos as int, num_element_value_pairs as nat).1,
            r.0 is Ok == parse_pairs(data@, pos as int, num_element_value_pairs as nat).0 is Some,
            r.0 matches Ok(v) ==> pair_views(v@) == parse_pairs(data@, pos as int, num_element_value_pairs as nat).0.unwrap(),
            r.0 matches Err(e) ==> e == pairs_error(data@, pos as int, num_element_value_pairs as nat),
            pos <= r.1 <= data@.len(),
        decreases remaining(data@, pos as int), num_element_value_pairs as nat,
    {
        let mut out: Vec<ElementValuePair> = Vec::new();
        let mut cur = pos;
        let mut i: u16 = 0;
        assert(pair_views(out@) =~= Seq::empty());
        while i < num_element_value_pairs
            invariant
                i <= num_element_value_pairs,
                pos <= cur <= data@.len(),
                parse_pairs(data@, pos as int, i as nat) == (Some(pair_views(out@)), cur as int),
            decreases num_element_value_pairs - i,
        {
            let (nm, q) = take_u16(data, cur);
            let element_name_index = match nm {
                None => {
                    proof {
                        lemma_pairs_fail_after(data@, pos as int, (i + 1) as nat, num_element_value_pairs as nat);
                        lemma_pairs_error_after(data@, pos as int, (i + 1) as nat, num_element_value_pairs as nat);
                    }
                    return (Err(ElementValueReadError::Malformed), q);
                },
                Some(x) => x,
            };
            let (v, q2) = ClassFile::read_annotation_element_value(data, q);
            let value = match v {
                Err(e) => {
                    proof {
                        lemma_pairs_fail_after(data@, pos as int, (i + 1) as nat, num_element_value_pairs as nat);
                        lemma_pairs_error_after(data@, pos as int, (i + 1) as nat, num_element_value_pairs as nat);
                    }
                    return (Err(e), q2);
                },
                Ok(v) => v,
            };
            let ghost before = out@;
            out.push(ElementValuePair { element_name_index, value });
            assert(pair_views(out@) =~= pair_views(before).push(
                SpecElementValuePair { element_name_index, value: value@ },
            ));
            cur = q2;
            i = i + 1;
        }
        (Ok(out), cur)
    }

    /// Reads an annotation at `pos`.
    pub fn read_annotation(data: &[u8], pos: usize) -> (r: (Result<Annotation, ElementValueReadError>, usize))
        requires
            pos <= data@.len(),
        ensures
            r.1 == parse_annotation(data@, pos as int).1,
            r.0 is Ok == parse_annotation(data@, pos as int).0 is Some,
            r.0 matches Ok(a) ==> a@ == parse_annotation(data@, pos as int).0.unwrap(),
            r.0 matches Err(e) ==> e == annotation_error(data@, pos as int),
            pos <= r.1 <= data@.len(),
        decreases remaining(data@, pos as int), 0nat,
    {
        let (t, q) = take_u16(data, pos);
        let type_index = match t {
            None => return (Err(ElementValueReadError::Malformed), q),
            Some(t) => t,
        };
        let (n, q2) = take_u16(data, q);
        let num_element_value_pairs = match n {
            None => return (Err(ElementValueReadError::Malformed), q2),
            Some(n) => n,
        };
        match ClassFile::read_annotations_element_value_pairs_vec(num_element_value_pairs, data, q2) {
            (Err(e), q3) => (Err(e), q3),
            (Ok(element_value_pairs), q3) => {
                let a = Annotation { type_index, num_element_value_pairs, element_value_pairs };
                assert(a@.element_value_pairs =~= pair_views(a.element_value_pairs@));
                (Ok(a), q3)
            },
        }
    }

    /// Reads `num_annotations` annotations at `pos`, leaving out those that fail to read.
    pub fn read_annotations_vec(num_annotations: u16, data: &[u8], pos: usize) -> (r: (Vec<Annotation>, usize))
        requires
            pos <= data@.len(),
        ensures
            annotation_views(r.0@) == parse_annotations(data@, pos as int, num_annotations as nat).0,
            r.1 == parse_annotations(data@, pos as int, num_annotations as nat).1,
            pos <= r.1 <= data@.len(),
    {
        let mut out: Vec<Annotation> = Vec::new();
        let mut cur = pos;
        let mut i: u16 = 0;
        assert(annotation_views(out@) =~= Seq::empty());
        while i < num_annotations
            invariant
                i <= num_annotations,
                pos <= cur <= data@.len(),
                parse_annotations(data@, pos as int, i as nat) == (annotation_views(out@), cur as int),
            decreases num_annotations - i,
        {
            let (a, q) = ClassFile::read_annotation(data, cur);
            let ghost before = out@;
            match a {
                Err(_) => {},
                Ok(a) => {
                    out.push(a);
                    assert(annotation_views(out@) =~= annotation_views(before).push(a@));
                },
            }
            cur = q;
            i = i + 1;
        }
        (out, cur)
    }
}

/// Once a read of pairs fails, reading more pairs fails at the same place.
pub proof fn lemma_pairs_fail_after(d: Seq<u8>, p: int, k: nat, n: nat)
    requires
        k <= n,
        parse_pairs(d, p, k).0 is None,
    ensures
        parse_pairs(d, p, n) == parse_pairs(d, p, k),
    decreases n - k,
{
    if k < n {
        lemma_pairs_fail_after(d, p, k, (n - 1) as nat);
    }
}

/// A constant-pool entry at `p`: its tag byte, then the fields its kind calls
/// for. A `Utf8` entry's text is its modified-UTF-8 decoding; when `maps` has
/// an entry for that text, the entry takes the mapped text instead, with its
/// UTF-8 bytes and their count (cut to 16 bits) as length. A tag byte that names
/// no kind fails after the byte. The tag a `NameAndType` entry is stored with is
/// the one of a class entry, and the field and method references are stored
/// with the tag of a field reference.
#[verifier::opaque]
pub open spec fn parse_tag(d: Seq<u8>, p: int, maps: Option<Seq<(Seq<char>, Seq<char>)>>) -> (Option<CpEntry>, int) {
    match get_u8(d, p) {
        (None, q) => (None, q),
        (Some(tb), q) => match jvm_tag_of(tb) {
            ConstantPoolJvmTag::Utf8 => match get_u16(d, q) {
                (None, q2) => (None, q2),
                (Some(length), q2) => match get_bytes(d, q2, length as int) {
                    (None, q3) => (None, q3),
                    (Some(bytes), q3) => {
                        let value = mutf8_decode(bytes);
                        match maps {
                            Some(es) => match lookup(es, value) {
                                Some(v) => (
                                    Some(CpEntry::Utf8 {
                                        tag: 1,
                                        length: encode_utf8(v).len() as u16,
                                        bytes: encode_utf8(v),
                                        value: v,
                                    }),
                                    q3,
                                ),
                                None => (Some(CpEntry::Utf8 { tag: 1, length, bytes, value }), q3),
                            },
                            None => (Some(CpEntry::Utf8 { tag: 1, length, bytes, value }), q3),
                        }
                    },
                },
            },
            ConstantPoolJvmTag::Integer => match get_u32(d, q) {
                (None, q2) => (None, q2),
                (Some(b), q2) => (Some(CpEntry::Integer { tag: 3, bytes: b, value: b as i32 }), q2),
            },
            ConstantPoolJvmTag::Float => match get_u32(d, q) {
                (None, q2) => (None, q2),
                (Some(b), q2) => (Some(CpEntry::Float { tag: 4, bytes: b }), q2),
            },
            ConstantPoolJvmTag::Long => match get_u32(d, q) {
                (None, q2) => (None, q2),
                (Some(h), q2) => match get_u32(d, q2) {
                    (None, q3) => (None, q3),
                    (Some(l), q3) => (
                        Some(CpEntry::Long { tag: 5, high_bytes: h, low_bytes: l, value: long_value(h, l) }),
                        q3,
                    ),
                },
            },
            ConstantPoolJvmTag::Double => match get_u32(d, q) {
                (None, q2) => (None, q2),
                (Some(h), q2) => match get_u32(d, q2) {
                    (None, q3) => (None, q3),
                    (Some(l), q3) => (Some(CpEntry::Double { tag: 6, high_bytes: h, low_bytes: l }), q3),
                },
            },
            ConstantPoolJvmTag::String => match get_u16(d, q) {
                (None, q2) => (None, q2),
                (Some(i), q2) => (Some(CpEntry::String { tag: 8, string_index: i }), q2),
            },
            ConstantPoolJvmTag::Class => match get_u16(d, q) {
                (None, q2) => (None, q2),
                (Some(i), q2) => (Some(CpEntry::Class { tag: 7, name_index: i }), q2),
            },
            ConstantPoolJvmTag::NameAndType => match get_u16(d, q) {
                (None, q2) => (None, q2),
                (Some(a), q2) => match get_u16(d, q2) {
                    (None, q3) => (None, q3),
                    (Some(b), q3) => (Some(CpEntry::NameAndType { tag: 7, name_index: a, descriptor_index: b }), q3),
                },
            },
            ConstantPoolJvmTag::Fieldref => match get_u16(d, q) {
                (None, q2) => (None, q2),
                (Some(a), q2) => match get_u16(d, q2) {
                    (None, q3) => (None, q3),
                    (Some(b), q3) => (Some(CpEntry::Fieldref { tag: 9, class_index: a, name_and_type_index: b }), q3),
                },
            },
            ConstantPoolJvmTag::Methodref => match get_u16(d, q) {
                (None, q2) => (None, q2),
                (Some(a), q2) => match get_u16(d, q2) {
                    (None, q3) => (None, q3),
                    (Some(b), q3) => (Some(CpEntry::Methodref { tag: 9, class_index: a, name_and_type_index: b }), q3),
                },
            },
            ConstantPoolJvmTag::InterfaceMethodref => match get_u16(d, q) {
                (None, q2) => (None, q2),
                (Some(a), q2) => match get_u16(d, q2) {
                    (None, q3) => (None, q3),
                    (Some(b), q3) => (
                        Some(CpEntry::InterfaceMethodref { tag: 9, class_index: a, name_and_type_index: b }),
                        q3,
                    ),
                },
            },
            ConstantPoolJvmTag::MethodHandle => match get_u8(d, q) {
                (None, q2) => (None, q2),
                (Some(k), q2) => match get_u16(d, q2) {
                    (None, q3) => (None, q3),
                    (Some(i), q3) => (
                        Some(CpEntry::MethodHandle { tag: 15, reference_kind: k, reference_index: i }),
                        q3,
                    ),
                },
            },
            ConstantPoolJvmTag::MethodType => match get_u16(d, q) {
                (None, q2) => (None, q2),
                (Some(i), q2) => (Some(CpEntry::MethodType { tag: 16, descriptor_index: i }), q2),
            },
            ConstantPoolJvmTag::Dynamic => match get_u16(d, q) {
                (None, q2) => (None, q2),
                (Some(a), q2) => match get_u16(d, q2) {
                    (None, q3) => (None, q3),
                    (Some(b), q3) => (
                        Some(CpEntry::Dynamic { tag: 17, bootstrap_method_attr_index: a, name_and_type_index: b }),
                        q3,
                    ),
                },
            },
            ConstantPoolJvmTag::InvokeDynamic => match get_u16(d, q) {
                (None, q2) => (None, q2),
                (Some(a), q2) => match get_u16(d, q2) {
                    (None, q3) => (None, q3),
                    (Some(b), q3) => (
                        Some(CpEntry::InvokeDynamic { tag: 18, bootstrap_method_attr_index: a, name_and_type_index: b }),
                        q3,
                    ),
                },
            },
            ConstantPoolJvmTag::Module => match get_u16(d, q) {
                (None, q2) => (None, q2),
                (Some(i), q2) => (Some(CpEntry::Module { tag: 19, name_index: i }), q2),
            },
            ConstantPoolJvmTag::Package => match get_u16(d, q) {
                (None, q2) => (None, q2),
                (Some(i), q2) => (Some(CpEntry::Package { tag: 20, name_index: i }), q2),
            },
            ConstantPoolJvmTag::INVALID => (None, q),
        },
    }
}

/// The value of a long constant: its two words, high first, as a signed 64-bit integer.
pub open spec fn long_value(high: u32, low: u32) -> i64 {
    (((high as u64) << 32u64) | (low as u64)) as i64
}

/// The entries of a string map, if there is one.
pub open spec fn map_entries(mappings: Option<&LinkedHashMap<String, String>>) -> Option<Seq<(Seq<char>, Seq<char>)>> {
    match mappings {
        Some(m) => Some(entries(*m)),
        None => None,
    }
}

/// The constant-pool slots from index `i` up to `count`, read from `p`: each
/// entry in its slot, a long or a double followed by a continuation slot, and
/// a continuation slot for each entry that fails to read.
pub open spec fn parse_pool_from(
    d: Seq<u8>,
    p: int,
    i: int,
    count: int,
    maps: Option<Seq<(Seq<char>, Seq<char>)>>,
) -> (Seq<CpEntry>, int)
    decreases if i < count { (count - i) as nat } else { 0nat },
{
    if i >= count {
        (Seq::empty(), p)
    } else {
        match parse_tag(d, p, maps) {
            (None, q) => {
                let (rest, q2) = parse_pool_from(d, q, i + 1, count, maps);
                (seq![CpEntry::ContinuationTag { tag: 0 }] + rest, q2)
            },
            (Some(e), q) => if e is Long || e is Double {
                let (rest, q2) = parse_pool_from(d, q, i + 2, count, maps);
                (seq![e, CpEntry::ContinuationTag { tag: 0 }] + rest, q2)
            } else {
                let (rest, q2) = parse_pool_from(d, q, i + 1, count, maps);
                (seq![e] + rest, q2)
            },
        }
    }
}

/// A field or a method at `p`: four words, then its attributes (of which those
/// that fail to read are left out).
pub open spec fn parse_member(cp: Seq<CpEntry>, d: Seq<u8>, p: int) -> (Option<SpecMember>, int) {
    match get_u16(d, p) {
        (None, q) => (None, q),
        (Some(af), q) => match get_u16(d, q) {
            (None, q2) => (None, q2),
            (Some(ni), q2) => match get_u16(d, q2) {
                (None, q3) => (None, q3),
                (Some(di), q3) => match get_u16(d, q3) {
                    (None, q4) => (None, q4),
                    (Some(ac), q4) => {
                        let (attrs, q5) = parse_attributes(cp, d, q4, ac as nat);
                        (
                            Some(SpecMember {
                                access_flags: af,
                                name_index: ni,
                                descriptor_index: di,
                                attributes_count: ac,
                                attributes: attrs,
                            }),
                            q5,
                        )
                    },
                },
            },
        },
    }
}

/// `n` fields or methods; the first failure ends the read.
pub open spec fn parse_members(cp: Seq<CpEntry>, d: Seq<u8>, p: int, n: nat) -> (Option<Seq<SpecMember>>, int)
    decreases n,
{
    if n == 0 {
        (Some(Seq::empty()), p)
    } else {
        match parse_members(cp, d, p, (n - 1) as nat) {
            (None, q) => (None, q),
            (Some(s), q) => match parse_member(cp, d, q) {
                (None, q2) => (None, q2),
                (Some(m), q2) => (Some(s.push(m)), q2),
            },
        }
    }
}

/// Once a read of members fails, reading more of them fails at the same place.
pub proof fn lemma_members_fail_after(cp: Seq<CpEntry>, d: Seq<u8>, p: int, k: nat, n: nat)
    requires
        k <= n,
        parse_members(cp, d, p, k).0 is None,
    ensures
        parse_members(cp, d, p, n) == parse_members(cp, d, p, k),
    decreases n - k,
{
    if k < n {
        lemma_members_fail_after(cp, d, p, k, (n - 1) as nat);
    }
}

/// The class that the bytes `d` hold, read with the renaming table `maps`:
/// the header, the constant pool (slot 0 a continuation slot), the flags and
/// the class indexes, the interfaces, the fields, the methods and the
/// attributes, each after its count; `len` is the number of bytes read. `None`
/// when the data ends before the class does.
pub open spec fn parse_class(d: Seq<u8>, maps: Option<Seq<(Seq<char>, Seq<char>)>>) -> Option<SpecClassFile> {
    match get_u32(d, 0) {
        (None, _) => None,
        (Some(magic), q) => match get_u16(d, q) {
            (None, _) => None,
            (Some(minor), q2) => match get_u16(d, q2) {
                (None, _) => None,
                (Some(major), q3) => match get_u16(d, q3) {
                    (None, _) => None,
                    (Some(count), q4) => {
                        let (rest, q5) = parse_pool_from(d, q4, 1, count as int, maps);
                        let pool = seq![CpEntry::ContinuationTag { tag: 0 }] + rest;
                        match get_u16(d, q5) {
                            (None, _) => None,
                            (Some(flags), q6) => match get_u16(d, q6) {
                                (None, _) => None,
                                (Some(this_class), q7) => match get_u16(d, q7) {
                                    (None, _) => None,
                                    (Some(super_class), q8) => match get_u16(d, q8) {
                                        (None, _) => None,
                                        (Some(ic), q9) => match get_u16s(d, q9, ic as nat) {
                                            (None, _) => None,
                                            (Some(interfaces), q10) => match get_u16(d, q10) {
                                                (None, _) => None,
                                                (Some(fc), q11) => match parse_members(pool, d, q11, fc as nat) {
                                                    (None, _) => None,
                                                    (Some(fields), q12) => match get_u16(d, q12) {
                                                        (None, _) => None,
                                                        (Some(mc), q13) => match parse_members(pool, d, q13, mc as nat) {
                                                            (None, _) => None,
                                                            (Some(methods), q14) => match get_u16(d, q14) {
                                                                (None, _) => None,
                                                                (Some(ac), q15) => {
                                                                    let (attrs, q16) = parse_attributes(pool, d, q15, ac as nat);
                                                                    Some(SpecClassFile {
                                                                        magic,
                                                                        minor_version: minor,
                                                                        major_version: major,
                                                                        constant_pool_count: count,
                                                                        constant_pool: pool,
                                                                        access_flags: AccessFlags { value: flags, context: AccessFlagContext::Class },
                                                                        this_class,
                                                                        super_class,
                                                                        interfaces_count: ic,
                                                                        interfaces,
                                                                        fields_count: fc,
                                                                        fields,
                                                                        methods_count: mc,
                                                                        methods,
                                                                        attributes_count: ac,
                                                                        attributes: attrs,
                                                                        len: q16 as u64,
                                                                    })
                                                                },
                                                            },
                                                        },
                                                    },
                                                },
                                            },
                                        },
                                    },
                                },
                            },
                        }
                    },
                },
            },
        },
    }
}

/// Why a class could not be read.
#[derive(Debug, Clone, Copy, PartialEq, Eq, Structural)]
pub enum ReadError {
    /// The data ended before the class did.
    UnexpectedEof,
}

impl ClassFile {
    /// Reads a constant-pool entry at `pos`, renaming `Utf8` texts by `mappings`.
    pub fn read_tag(data: &[u8], pos: usize, mappings: Option<&LinkedHashMap<String, String>>) -> (r: (
        Option<ConstantPoolTags>,
        usize,
    ))
        requires
            pos <= data@.len(),
        ensures
            r.1 == parse_tag(data@, pos as int, map_entries(mappings)).1,
            r.0 is Some == parse_tag(data@, pos as int, map_entries(mappings)).0 is Some,
            r.0 matches Some(t) ==> t@ == parse_tag(data@, pos as int, map_entries(mappings)).0.unwrap(),
            pos <= r.1 <= data@.len(),
    {
        reveal(parse_tag);
        let (tb, q) = take_u8(data, pos);
        let tag_byte = match tb {
            None => return (None, q),
            Some(b) => b,
        };
        match ConstantPoolJvmTag::from_u8(tag_byte) {
            ConstantPoolJvmTag::Utf8 => {
                let (l, q2) = take_u16(data, q);
                let mut length = match l {
                    None => return (None, q2),
                    Some(l) => l,
                };
                let (b, q3) = read_bytes(data, q2, length as usize);
                let mut bytes = match b {
                    None => return (None, q3),
                    Some(b) => b,
                };
                let mut value_read_correctly = true;
                let mut _value = match read_modified_utf8(bytes.as_slice()) {
                    Ok(s) => s,
                    Err(_) => {
                        value_read_correctly = false;
                        String::new()
                    },
                };
                if value_read_correctly {
                    match mappings {
                        None => {},
                        Some(m) => match string_map_get(m, &_value) {
                            None => {},
                            Some(v) => {
                                _value = v;
                                bytes = _value.as_str().as_bytes_vec();
                                length = bytes.len() as u16;
                            },
                        },
                    }
                }
                (Some(ConstantPoolTags::Utf8 { tag: 1, length, bytes, _value }), q3)
            },
            ConstantPoolJvmTag::Integer => match take_u32(data, q) {
                (None, q2) => (None, q2),
                (Some(b), q2) => (Some(ConstantPoolTags::Integer { tag: 3, bytes: b, _value: b as i32 }), q2),
            },
            ConstantPoolJvmTag::Float => match take_u32(data, q) {
                (None, q2) => (None, q2),
                (Some(b), q2) => (Some(ConstantPoolTags::Float { tag: 4, bytes: b }), q2),
            },
            ConstantPoolJvmTag::Long => {
                let (h, q2) = take_u32(data, q);
                let high_bytes = match h {
                    None => return (None, q2),
                    Some(h) => h,
                };
                match take_u32(data, q2) {
                    (None, q3) => (None, q3),
                    (Some(low_bytes), q3) => {
                        let value = (((high_bytes as u64) << 32u64) | (low_bytes as u64)) as i64;
                        (Some(ConstantPoolTags::Long { tag: 5, high_bytes, low_bytes, _value: value }), q3)
                    },
                }
            },
            ConstantPoolJvmTag::Double => {
                let (h, q2) = take_u32(data, q);
                let high_bytes = match h {
                    None => return (None, q2),
                    Some(h) => h,
                };
                match take_u32(data, q2) {
                    (None, q3) => (None, q3),
                    (Some(low_bytes), q3) => (Some(ConstantPoolTags::Double { tag: 6, high_bytes, low_bytes }), q3),
                }
            },
            ConstantPoolJvmTag::String => match take_u16(data, q) {
                (None, q2) => (None, q2),
                (Some(i), q2) => (Some(ConstantPoolTags::String { tag: 8, string_index: i }), q2),
            },
            ConstantPoolJvmTag::Class => match take_u16(data, q) {
                (None, q2) => (None, q2),
                (Some(i), q2) => (Some(ConstantPoolTags::Class { tag: 7, name_index: i }), q2),
            },
            ConstantPoolJvmTag::NameAndType => {
                let (a, q2) = take_u16(data, q);
                let name_index = match a {
                    None => return (None, q2),
                    Some(a) => a,
                };
                match take_u16(data, q2) {
                    (None, q3) => (None, q3),
                    (Some(descriptor_index), q3) => (
                        Some(ConstantPoolTags::NameAndType { tag: 7, name_index, descriptor_index }),
                        q3,
                    ),
                }
            },
            ConstantPoolJvmTag::Fieldref => {
                let (a, q2) = take_u16(data, q);
                let class_index = match a {
                    None => return (None, q2),
                    Some(a) => a,
                };
                match take_u16(data, q2) {
                    (None, q3) => (None, q3),
                    (Some(name_and_type_index), q3) => (
                        Some(ConstantPoolTags::Fieldref { tag: 9, class_index, name_and_type_index }),
                        q3,
                    ),
                }
            },
            ConstantPoolJvmTag::Methodref => {
                let (a, q2) = take_u16(data, q);
                let class_index = match a {
                    None => return (None, q2),
                    Some(a) => a,
                };
                match take_u16(data, q2) {
                    (None, q3) => (None, q3),
                    (Some(name_and_type_index), q3) => (
                        Some(ConstantPoolTags::Methodref { tag: 9, class_index, name_and_type_index }),
                        q3,
                    ),
                }
            },
            ConstantPoolJvmTag::InterfaceMethodref => {
                let (a, q2) = take_u16(data, q);
                let class_index = match a {
                    None => return (None, q2),
                    Some(a) => a,
                };
                match take_u16(data, q2) {
                    (None, q3) => (None, q3),
                    (Some(name_and_type_index), q3) => (
                        Some(ConstantPoolTags::InterfaceMethodref { tag: 9, class_index, name_and_type_index }),
                        q3,
                    ),
                }
            },
            ConstantPoolJvmTag::MethodHandle => {
                let (k, q2) = take_u8(data, q);
                let reference_kind = match k {
                    None => return (None, q2),
                    Some(k) => k,
                };
                match take_u16(data, q2) {
                    (None, q3) => (None, q3),
                    (Some(reference_index), q3) => (
                        Some(ConstantPoolTags::MethodHandle { tag: 15, reference_kind, reference_index }),
                        q3,
                    ),
                }
            },
            ConstantPoolJvmTag::MethodType => match take_u16(data, q) {
                (None, q2) => (None, q2),
                (Some(i), q2) => (Some(ConstantPoolTags::MethodType { tag: 16, descriptor_index: i }), q2),
            },
            ConstantPoolJvmTag::Dynamic => {
                let (a, q2) = take_u16(data, q);
                let bootstrap_method_attr_index = match a {
                    None => return (None, q2),
                    Some(a) => a,
                };
                match take_u16(data, q2) {
                    (None, q3) => (None, q3),
                    (Some(name_and_type_index), q3) => (
                        Some(ConstantPoolTags::Dynamic { tag: 17, bootstrap_method_attr_index, name_and_type_index }),
                        q3,
                    ),
                }
            },
            ConstantPoolJvmTag::InvokeDynamic => {
                let (a, q2) = take_u16(data, q);
                let bootstrap_method_attr_index = match a {
                    None => return (None, q2),
                    Some(a) => a,
                };
                match take_u16(data, q2) {
                    (None, q3) => (None, q3),
                    (Some(name_and_type_index), q3) => (
                        Some(ConstantPoolTags::InvokeDynamic { tag: 18, bootstrap_method_attr_index, name_and_type_index }),
                        q3,
                    ),
                }
            },
            ConstantPoolJvmTag::Module => match take_u16(data, q) {
                (None, q2) => (None, q2),
                (Some(i), q2) => (Some(ConstantPoolTags::Module { tag: 19, name_index: i }), q2),
            },
            ConstantPoolJvmTag::Package => match take_u16(data, q) {
                (None, q2) => (None, q2),
                (Some(i), q2) => (Some(ConstantPoolTags::Package { tag: 20, name_index: i }), q2),
            },
            ConstantPoolJvmTag::INVALID => (None, q),
        }
    }

    /// Reads a field at `pos`.
    pub fn read_field(constant_pool: &Vec<ConstantPoolTags>, data: &[u8], pos: usize) -> (r: (Option<Field>, usize))
        requires
            pos <= data@.len(),
        ensures
            r.1 == parse_member(cp_view(constant_pool@), data@, pos as int).1,
            r.0 is Some == parse_member(cp_view(constant_pool@), data@, pos as int).0 is Some,
            r.0 matches Some(f) ==> f@ == parse_member(cp_view(constant_pool@), data@, pos as int).0.unwrap(),
            pos <= r.1 <= data@.len(),
    {
        let (x, q) = take_u16(data, pos);
        let access_flags = match x {
            None => return (None, q),
            Some(x) => x,
        };
        let (x, q2) = take_u16(data, q);
        let name_index = match x {
            None => return (None, q2),
            Some(x) => x,
        };
        let (x, q3) = take_u16(data, q2);
        let descriptor_index = match x {
            None => return (None, q3),
            Some(x) => x,
        };
        let (x, q4) = take_u16(data, q3);
        let attributes_count = match x {
            None => return (None, q4),
            Some(x) => x,
        };
        let (attributes, q5) = ClassFile::read_attributes_vec(attributes_count, constant_pool, data, q4);
        (Some(Field { access_flags, name_index, descriptor_index, attributes_count, attributes }), q5)
    }

    /// Reads a method at `pos`.
    pub fn read_method(constant_pool: &Vec<ConstantPoolTags>, data: &[u8], pos: usize) -> (r: (Option<Method>, usize))
        requires
            pos <= data@.len(),
        ensures
            r.1 == parse_member(cp_view(constant_pool@), data@, pos as int).1,
            r.0 is Some == parse_member(cp_view(constant_pool@), data@, pos as int).0 is Some,
            r.0 matches Some(m) ==> m@ == parse_member(cp_view(constant_pool@), data@, pos as int).0.unwrap(),
            pos <= r.1 <= data@.len(),
    {
        let (x, q) = take_u16(data, pos);
        let access_flags = match x {
            None => return (None, q),
            Some(x) => x,
        };
        let (x, q2) = take_u16(data, q);
        let name_index = match x {
            None => return (None, q2),
            Some(x) => x,
        };
        let (x, q3) = take_u16(data, q2);
        let descriptor_index = match x {
            None => return (None, q3),
            Some(x) => x,
        };
        let (x, q4) = take_u16(data, q3);
        let attributes_count = match x {
            None => return (None, q4),
            Some(x) => x,
        };
        let (attributes, q5) = ClassFile::read_attributes_vec(attributes_count, constant_pool, data, q4);
        (Some(Method { access_flags, name_index, descriptor_index, attributes_count, attributes }), q5)
    }
}

impl ClassFile {
    /// Reads the constant pool's slots 1 to `count - 1` at `pos`, after a
    /// continuation slot for index 0.
    fn read_pool(data: &[u8], pos: usize, count: u16, mappings: Option<&LinkedHashMap<String, String>>) -> (r: (
        Vec<ConstantPoolTags>,
        usize,
    ))
        requires
            pos <= data@.len(),
        ensures
            cp_view(r.0@) == seq![CpEntry::ContinuationTag { tag: 0 }] + parse_pool_from(
                data@,
                pos as int,
                1,
                count as int,
                map_entries(mappings),
            ).0,
            r.1 == parse_pool_from(data@, pos as int, 1, count as int, map_entries(mappings)).1,
            pos <= r.1 <= data@.len(),
    {
        let ghost maps = map_entries(mappings);
        let ghost total = parse_pool_from(data@, pos as int, 1, count as int, maps);
        let mut constant_pool: Vec<ConstantPoolTags> = Vec::new();
        constant_pool.push(continuation_tag());
        let mut cp_index: u32 = 1;
        let mut cur = pos;
        assert(cp_view(constant_pool@) =~= seq![CpEntry::ContinuationTag { tag: 0 }]);
        while cp_index < count as u32
            invariant
                1 <= cp_index <= count as u32 + 1,
                pos <= cur <= data@.len(),
                maps == map_entries(mappings),
                total == parse_pool_from(data@, pos as int, 1, count as int, maps),
                cp_view(constant_pool@) + parse_pool_from(data@, cur as int, cp_index as int, count as int, maps).0
                    == seq![CpEntry::ContinuationTag { tag: 0 }] + total.0,
                parse_pool_from(data@, cur as int, cp_index as int, count as int, maps).1 == total.1,
            decreases count as u32 + 1 - cp_index,
        {
            let ghost before = cp_view(constant_pool@);
            let ghost here = parse_pool_from(data@, cur as int, cp_index as int, count as int, maps);
            let (t, q) = ClassFile::read_tag(data, cur, mappings);
            match t {
                Some(tag) => {
                    let wide = match &tag {
                        ConstantPoolTags::Long { .. } => true,
                        ConstantPoolTags::Double { .. } => true,
                        _ => false,
                    };
                    let ghost e = tag@;
                    constant_pool.push(tag);
                    if wide {
                        constant_pool.push(continuation_tag());
                        let ghost next = parse_pool_from(data@, q as int, cp_index + 2, count as int, maps);
                        assert(here.0 == seq![e, CpEntry::ContinuationTag { tag: 0 }] + next.0);
                        assert(cp_view(constant_pool@) =~= before + seq![e, CpEntry::ContinuationTag { tag: 0 }]);
                        assert(cp_view(constant_pool@) + next.0 =~= before + here.0);
                        cp_index = cp_index + 2;
                    } else {
                        let ghost next = parse_pool_from(data@, q as int, cp_index + 1, count as int, maps);
                        assert(here.0 == seq![e] + next.0);
                        assert(cp_view(constant_pool@) =~= before + seq![e]);
                        assert(cp_view(constant_pool@) + next.0 =~= before + here.0);
                        cp_index = cp_index + 1;
                    }
                },
                None => {
                    constant_pool.push(continuation_tag());
                    let ghost next = parse_pool_from(data@, q as int, cp_index + 1, count as int, maps);
                    assert(here.0 == seq![CpEntry::ContinuationTag { tag: 0 }] + next.0);
                    assert(cp_view(constant_pool@) =~= before + seq![CpEntry::ContinuationTag { tag: 0 }]);
                    assert(cp_view(constant_pool@) + next.0 =~= before + here.0);
                    cp_index = cp_index + 1;
                },
            }
            cur = q;
        }
        assert(cp_view(constant_pool@) =~= seq![CpEntry::ContinuationTag { tag: 0 }] + total.0);
        (constant_pool, cur)
    }

    /// Reads `n` fields at `pos`; the first failure ends the read.
    fn read_fields(n: u16, constant_pool: &Vec<ConstantPoolTags>, data: &[u8], pos: usize) -> (r: (
        Option<Vec<Field>>,
        usize,
    ))
        requires
            pos <= data@.len(),
        ensures
            r.1 == parse_members(cp_view(constant_pool@), data@, pos as int, n as nat).1,
            r.0 is Some == parse_members(cp_view(constant_pool@), data@, pos as int, n as nat).0 is Some,
            r.0 matches Some(v) ==> v@.map_values(|f: Field| f@) == parse_members(cp_view(constant_pool@), data@, pos as int, n as nat).0.unwrap(),
            pos <= r.1 <= data@.len(),
    {
        let ghost cpv = cp_view(constant_pool@);
        let mut out: Vec<Field> = Vec::new();
        let mut cur = pos;
        let mut i: u16 = 0;
        while i < n
            invariant
                i <= n,
                pos <= cur <= data@.len(),
                cpv == cp_view(constant_pool@),
                parse_members(cpv, data@, pos as int, i as nat) == (Some(out@.map_values(|f: Field| f@)), cur as int),
            decreases n - i,
        {
            let (f, q) = ClassFile::read_field(constant_pool, data, cur);
            match f {
                None => {
                    proof {
                        lemma_members_fail_after(cpv, data@, pos as int, (i + 1) as nat, n as nat);
                    }
                    return (None, q);
                },
                Some(f) => {
                    let ghost before = out@;
                    let ghost fv = f@;
                    out.push(f);
                    assert(out@.map_values(|f: Field| f@) =~= before.map_values(|f: Field| f@).push(fv));
                },
            }
            cur = q;
            i = i + 1;
        }
        (Some(out), cur)
    }

    /// Reads `n` methods at `pos`; the first failure ends the read.
    fn read_methods(n: u16, constant_pool: &Vec<ConstantPoolTags>, data: &[u8], pos: usize) -> (r: (
        Option<Vec<Method>>,
        usize,
    ))
        requires
            pos <= data@.len(),
        ensures
            r.1 == parse_members(cp_view(constant_pool@), data@, pos as int, n as nat).1,
            r.0 is Some == parse_members(cp_view(constant_pool@), data@, pos as int, n as nat).0 is Some,
            r.0 matches Some(v) ==> v@.map_values(|m: Method| m@) == parse_members(cp_view(constant_pool@), data@, pos as int, n as nat).0.unwrap(),
            pos <= r.1 <= data@.len(),
    {
        let ghost cpv = cp_view(constant_pool@);
        let mut out: Vec<Method> = Vec::new();
        let mut cur = pos;
        let mut i: u16 = 0;
        while i < n
            invariant
                i <= n,
                pos <= cur <= data@.len(),
                cpv == cp_view(constant_pool@),
                parse_members(cpv, data@, pos as int, i as nat) == (Some(out@.map_values(|m: Method| m@)), cur as int),
            decreases n - i,
        {
            let (m, q) = ClassFile::read_method(constant_pool, data, cur);
            match m {
                None => {
                    proof {
                        lemma_members_fail_after(cpv, data@, pos as int, (i + 1) as nat, n as nat);
                    }
                    return (None, q);
                },
                Some(m) => {
                    let ghost before = out@;
                    let ghost mv = m@;
                    out.push(m);
                    assert(out@.map_values(|m: Method| m@) =~= before.map_values(|m: Method| m@).push(mv));
                },
            }
            cur = q;
            i = i + 1;
        }
        (Some(out), cur)
    }

    /// Reads the class that `data` holds, renaming `Utf8` texts by `mappings`.
    /// Data that does not start with the class-file magic number is not a
    /// class file and is not to be given here.
    pub fn read(data: &[u8], mappings: Option<&LinkedHashMap<String, String>>) -> (r: Result<ClassFile, ReadError>)
        requires
            data@.len() >= 4 ==> u32_at(data@, 0) == CLASS_HEADER,
        ensures
            r is Ok == parse_class(data@, map_entries(mappings)) is Some,
            r matches Ok(c) ==> c@ == parse_class(data@, map_entries(mappings)).unwrap(),
            r matches Err(e) ==> e == ReadError::UnexpectedEof,
    {
        let (x, q) = take_u32(data, 0);
        let magic = match x {
            None => return Err(ReadError::UnexpectedEof),
            Some(x) => x,
        };
        let (x, q2) = take_u16(data, q);
        let minor_version = match x {
            None => return Err(ReadError::UnexpectedEof),
            Some(x) => x,
        };
        let (x, q3) = take_u16(data, q2);
        let major_version = match x {
            None => return Err(ReadError::UnexpectedEof),
            Some(x) => x,
        };
        let (x, q4) = take_u16(data, q3);
        let constant_pool_count = match x {
            None => return Err(ReadError::UnexpectedEof),
            Some(x) => x,
        };
        let (constant_pool, q5) = ClassFile::read_pool(data, q4, constant_pool_count, mappings);
        let (x, q6) = take_u16(data, q5);
        let flags = match x {
            None => return Err(ReadError::UnexpectedEof),
            Some(x) => x,
        };
        let access_flags = AccessFlags::from_parts(AccessFlagContext::Class, flags);
        let (x, q7) = take_u16(data, q6);
        let this_class = match x {
            None => return Err(ReadError::UnexpectedEof),
            Some(x) => x,
        };
        let (x, q8) = take_u16(data, q7);
        let super_class = match x {
            None => return Err(ReadError::UnexpectedEof),
            Some(x) => x,
        };
        let (x, q9) = take_u16(data, q8);
        let interfaces_count = match x {
            None => return Err(ReadError::UnexpectedEof),
            Some(x) => x,
        };
        let (x, q10) = read_u16s(data, q9, interfaces_count);
        let interfaces = match x {
            None => return Err(ReadError::UnexpectedEof),
            Some(x) => x,
        };
        let (x, q11) = take_u16(data, q10);
        let fields_count = match x {
            None => return Err(ReadError::UnexpectedEof),
            Some(x) => x,
        };
        let (x, q12) = ClassFile::read_fields(fields_count, &constant_pool, data, q11);
        let fields = match x {
            None => return Err(ReadError::UnexpectedEof),
            Some(x) => x,
        };
        let (x, q13) = take_u16(data, q12);
        let methods_count = match x {
            None => return Err(ReadError::UnexpectedEof),
            Some(x) => x,
        };
        let (x, q14) = ClassFile::read_methods(methods_count, &constant_pool, data, q13);
        let methods = match x {
            None => return Err(ReadError::UnexpectedEof),
            Some(x) => x,
        };
        let (x, q15) = take_u16(data, q14);
        let attributes_count = match x {
            None => return Err(ReadError::UnexpectedEof),
            Some(x) => x,
        };
        let (attributes, q16) = ClassFile::read_attributes_vec(attributes_count, &constant_pool, data, q15);
        let c = ClassFile {
            magic,
            minor_version,
            major_version,
            constant_pool_count,
            constant_pool,
            access_flags,
            this_class,
            super_class,
            interfaces_count,
            interfaces,
            fields_count,
            fields,
            methods_count,
            methods,
            attributes_count,
            attributes,
            _len: q16 as u64,
        };
        assert(c@ == parse_class(data@, map_entries(mappings)).unwrap());
        Ok(c)
    }
}

/// The text of the `Utf8` entry at `p` as the class file stores it, before any renaming.
pub open spec fn stored_text(d: Seq<u8>, p: int) -> Seq<char> {
    mutf8_decode(d.subrange(p + 3, p + 3 + u16_at(d, p + 1)))
}

/// The unsigned number that the two bytes at `i` spell, most significant first.
pub open spec fn be16(d: Seq<u8>, i: int) -> int {
    d[i] * 256 + d[i + 1]
}

/// The unsigned number that the four bytes at `i` spell, most significant first.
pub open spec fn be32(d: Seq<u8>, i: int) -> int {
    d[i] * 16777216 + d[i + 1] * 65536 + d[i + 2] * 256 + d[i + 3]
}

/// The layout of the constant-pool entries of the class-file format: after
/// the tag byte at `p`, each kind of entry holds its fields in a fixed order
/// and width, and the entry read there has exactly those field values and
/// ends after its last field. (Tag 9 is a field reference, 10 a method
/// reference, 11 an interface method reference: class index first, then
/// name-and-type index; 12 a name-and-type: name index, then descriptor
/// index; 15 a method handle: a one-byte kind, then a reference index; 17 and
/// 18: bootstrap method index, then name-and-type index.)
pub proof fn lemma_pool_entry_layout(d: Seq<u8>, p: int, maps: Option<Seq<(Seq<char>, Seq<char>)>>)
    requires
        0 <= p,
        avail(d, p, 1),
    ensures
        d[p] == 3 && avail(d, p, 5) ==> parse_tag(d, p, maps).1 == p + 5 && (parse_tag(d, p, maps).0 matches Some(
            CpEntry::Integer { bytes, .. },
        ) && bytes == be32(d, p + 1)),
        d[p] == 4 && avail(d, p, 5) ==> parse_tag(d, p, maps).1 == p + 5 && (parse_tag(d, p, maps).0 matches Some(
            CpEntry::Float { bytes, .. },
        ) && bytes == be32(d, p + 1)),
        d[p] == 5 && avail(d, p, 9) ==> parse_tag(d, p, maps).1 == p + 9 && (parse_tag(d, p, maps).0 matches Some(
            CpEntry::Long { high_bytes, low_bytes, .. },
        ) && high_bytes == be32(d, p + 1) && low_bytes == be32(d, p + 5)),
        d[p] == 6 && avail(d, p, 9) ==> parse_tag(d, p, maps).1 == p + 9 && (parse_tag(d, p, maps).0 matches Some(
            CpEntry::Double { high_bytes, low_bytes, .. },
        ) && high_bytes == be32(d, p + 1) && low_bytes == be32(d, p + 5)),
        d[p] == 7 && avail(d, p, 3) ==> parse_tag(d, p, maps).1 == p + 3 && (parse_tag(d, p, maps).0 matches Some(
            CpEntry::Class { name_index, .. },
        ) && name_index == be16(d, p + 1)),
        d[p] == 8 && avail(d, p, 3) ==> parse_tag(d, p, maps).1 == p + 3 && (parse_tag(d, p, maps).0 matches Some(
            CpEntry::String { string_index, .. },
        ) && string_index == be16(d, p + 1)),
        d[p] == 9 && avail(d, p, 5) ==> parse_tag(d, p, maps).1 == p + 5 && (parse_tag(d, p, maps).0 matches Some(
            CpEntry::Fieldref { class_index, name_and_type_index, .. },
        ) && class_index == be16(d, p + 1) && name_and_type_index == be16(d, p + 3)),
        d[p] == 10 && avail(d, p, 5) ==> parse_tag(d, p, maps).1 == p + 5 && (parse_tag(d, p, maps).0 matches Some(
            CpEntry::Methodref { class_index, name_and_type_index, .. },
        ) && class_index == be16(d, p + 1) && name_and_type_index == be16(d, p + 3)),
        d[p] == 11 && avail(d, p, 5) ==> parse_tag(d, p, maps).1 == p + 5 && (parse_tag(d, p, maps).0 matches Some(
            CpEntry::InterfaceMethodref { class_index, name_and_type_index, .. },
        ) && class_index == be16(d, p + 1) && name_and_type_index == be16(d, p + 3)),
        d[p] == 12 && avail(d, p, 5) ==> parse_tag(d, p, maps).1 == p + 5 && (parse_tag(d, p, maps).0 matches Some(
            CpEntry::NameAndType { name_index, descriptor_index, .. },
        ) && name_index == be16(d, p + 1) && descriptor_index == be16(d, p + 3)),
        d[p] == 15 && avail(d, p, 4) ==> parse_tag(d, p, maps).1 == p + 4 && (parse_tag(d, p, maps).0 matches Some(
            CpEntry::MethodHandle { reference_kind, reference_index, .. },
        ) && reference_kind == d[p + 1] && reference_index == be16(d, p + 2)),
        d[p] == 16 && avail(d, p, 3) ==> parse_tag(d, p, maps).1 == p + 3 && (parse_tag(d, p, maps).0 matches Some(
            CpEntry::MethodType { descriptor_index, .. },
        ) && descriptor_index == be16(d, p + 1)),
        d[p] == 17 && avail(d, p, 5) ==> parse_tag(d, p, maps).1 == p + 5 && (parse_tag(d, p, maps).0 matches Some(
            CpEntry::Dynamic { bootstrap_method_attr_index, name_and_type_index, .. },
        ) && bootstrap_method_attr_index == be16(d, p + 1) && name_and_type_index == be16(d, p + 3)),
        d[p] == 18 && avail(d, p, 5) ==> parse_tag(d, p, maps).1 == p + 5 && (parse_tag(d, p, maps).0 matches Some(
            CpEntry::InvokeDynamic { bootstrap_method_attr_index, name_and_type_index, .. },
        ) && bootstrap_method_attr_index == be16(d, p + 1) && name_and_type_index == be16(d, p + 3)),
        d[p] == 19 && avail(d, p, 3) ==> parse_tag(d, p, maps).1 == p + 3 && (parse_tag(d, p, maps).0 matches Some(
            CpEntry::Module { name_index, .. },
        ) && name_index == be16(d, p + 1)),
        d[p] == 20 && avail(d, p, 3) ==> parse_tag(d, p, maps).1 == p + 3 && (parse_tag(d, p, maps).0 matches Some(
            CpEntry::Package { name_index, .. },
        ) && name_index == be16(d, p + 1)),
        d[p] == 1 && avail(d, p, 3) && avail(d, p + 3, be16(d, p + 1)) && maps is None ==> parse_tag(d, p, maps).1
            == p + 3 + be16(d, p + 1) && (parse_tag(d, p, maps).0 matches Some(CpEntry::Utf8 { length, bytes, .. })
            && length == be16(d, p + 1) && bytes == d.subrange(p + 3, p + 3 + be16(d, p + 1))),
{
    reveal(parse_tag);
    if avail(d, p, 3) {
        lemma_u16_value(d, p + 1);
    }
    if avail(d, p, 4) {
        lemma_u16_value(d, p + 2);
    }
    if avail(d, p, 5) {
        lemma_u16_value(d, p + 3);
        lemma_u32_value(d, p + 1);
    }
    if avail(d, p, 9) {
        lemma_u32_value(d, p + 5);
    }
}

/// A big-endian u16 read at `i` is the number its two bytes spell.
pub(crate) proof fn lemma_u16_value(d: Seq<u8>, i: int)
    requires
        avail(d, i, 2),
    ensures
        u16_at(d, i) as int == be16(d, i),
{
    let a = d[i] as int;
    let b = d[i + 1] as int;
    assert(0 <= a * 256 + b <= 65535);
}

/// A big-endian u32 read at `i` is the number its four bytes spell.
pub(crate) proof fn lemma_u32_value(d: Seq<u8>, i: int)
    requires
        avail(d, i, 4),
    ensures
        u32_at(d, i) as int == be32(d, i),
{
    let a = d[i] as int;
    let b = d[i + 1] as int;
    let c = d[i + 2] as int;
    let e = d[i + 3] as int;
    assert(0 <= a * 16777216 + b * 65536 + c * 256 + e <= 4294967295);
}

/// The header of a class file as the format lays it out: the magic number in
/// the first four bytes, then the minor version, the major version and the
/// constant-pool count; after the pool, the access flags, this class, the
/// super class, the interface count and the interface indexes, two bytes
/// each. A class read from the bytes holds exactly those values.
pub proof fn lemma_class_header_layout(d: Seq<u8>, maps: Option<Seq<(Seq<char>, Seq<char>)>>)
    requires
        parse_class(d, maps) is Some,
    ensures
        ({
            let c = parse_class(d, maps).unwrap();
            let q = parse_pool_from(d, 10, 1, be16(d, 8), maps).1;
            &&& c.magic == be32(d, 0)
            &&& c.minor_version == be16(d, 4)
            &&& c.major_version == be16(d, 6)
            &&& c.constant_pool_count == be16(d, 8)
            &&& c.access_flags.value == be16(d, q)
            &&& c.this_class == be16(d, q + 2)
            &&& c.super_class == be16(d, q + 4)
            &&& c.interfaces_count == be16(d, q + 6)
            &&& c.interfaces.len() == be16(d, q + 6)
            &&& forall|i: int| 0 <= i < c.interfaces.len() ==> #[trigger] c.interfaces[i] == be16(d, q + 8 + 2 * i)
        }),
{
    lemma_u32_value(d, 0);
    lemma_u16_value(d, 4);
    lemma_u16_value(d, 6);
    lemma_u16_value(d, 8);
    let c = parse_class(d, maps).unwrap();
    let q = parse_pool_from(d, 10, 1, be16(d, 8), maps).1;
    assert(c.constant_pool_count as int == be16(d, 8));
    lemma_u16_value(d, q);
    lemma_u16_value(d, q + 2);
    lemma_u16_value(d, q + 4);
    lemma_u16_value(d, q + 6);
    assert forall|i: int| 0 <= i < c.interfaces.len() implies #[trigger] c.interfaces[i] == be16(d, q + 8 + 2 * i) by {
        lemma_u16_value(d, q + 8 + 2 * i);
    }
}

/// A field or method as the format lays it out: access flags, name index,
/// descriptor index and attribute count, two bytes each, then the attributes.
pub proof fn lemma_member_layout(cp: Seq<CpEntry>, d: Seq<u8>, p: int)
    requires
        0 <= p,
        parse_member(cp, d, p).0 is Some,
    ensures
        ({
            let m = parse_member(cp, d, p).0.unwrap();
            &&& m.access_flags == be16(d, p)
            &&& m.name_index == be16(d, p + 2)
            &&& m.descriptor_index == be16(d, p + 4)
            &&& m.attributes_count == be16(d, p + 6)
            &&& m.attributes == parse_attributes(cp, d, p + 8, be16(d, p + 6) as nat).0
        }),
{
    lemma_u16_value(d, p);
    lemma_u16_value(d, p + 2);
    lemma_u16_value(d, p + 4);
    lemma_u16_value(d, p + 6);
}

/// Writing a constant-pool entry that was read without renaming gives back
/// the bytes it was read from.
pub proof fn lemma_tag_roundtrip(d: Seq<u8>, p: int)
    requires
        0 <= p <= d.len(),
        parse_tag(d, p, None).0 is Some,
    ensures
        entry_bytes(parse_tag(d, p, None).0.unwrap()) == d.subrange(p, parse_tag(d, p, None).1),
{
    reveal(parse_tag);
    let q = p + 1;
    if avail(d, q, 2) {
        lemma_u16_bytes_at(d, q);
    }
    if avail(d, q + 2, 2) {
        lemma_u16_bytes_at(d, q + 2);
    }
    if avail(d, q, 4) {
        lemma_u32_bytes_at(d, q);
    }
    if avail(d, q + 4, 4) {
        lemma_u32_bytes_at(d, q + 4);
    }
    if avail(d, q + 1, 2) {
        lemma_u16_bytes_at(d, q + 1);
    }
    assert(entry_bytes(parse_tag(d, p, None).0.unwrap()) =~= d.subrange(p, parse_tag(d, p, None).1));
}

/// Renaming leaves every entry whose text the table does not hold as it would
/// be read without a table, and so does it with every entry that is not text.
pub proof fn lemma_unmapped_tag_unchanged(d: Seq<u8>, p: int, es: Seq<(Seq<char>, Seq<char>)>)
    requires
        0 <= p,
        !(avail(d, p, 3) && d[p] == 1 && avail(d, p + 3, u16_at(d, p + 1) as int) && lookup(es, stored_text(d, p)) is Some),
    ensures
        parse_tag(d, p, Some(es)) == parse_tag(d, p, None),
{
    reveal(parse_tag);
}

/// A `Utf8` entry whose text the table maps to `t` is read as `t` and written
/// as the UTF-8 bytes of `t` after their count.
pub proof fn lemma_renamed_utf8_written(d: Seq<u8>, p: int, es: Seq<(Seq<char>, Seq<char>)>)
    requires
        0 <= p,
        avail(d, p, 3),
        d[p] == 1,
        avail(d, p + 3, u16_at(d, p + 1) as int),
        lookup(es, stored_text(d, p)) is Some,
    ensures
        parse_tag(d, p, Some(es)).0 matches Some(CpEntry::Utf8 { value, .. }) && value == lookup(es, stored_text(d, p)).unwrap(),
        entry_bytes(parse_tag(d, p, Some(es)).0.unwrap()) == seq![1u8] + u16_bytes(
            encode_utf8(lookup(es, stored_text(d, p)).unwrap()).len() as u16,
        ) + encode_utf8(lookup(es, stored_text(d, p)).unwrap()),
        parse_tag(d, p, Some(es)).1 == p + 3 + u16_at(d, p + 1),
{
    reveal(parse_tag);
}

/// An entry as renaming by the table `es` leaves it: a `Utf8` entry whose text
/// the table holds takes the new text (and its UTF-8 bytes); any other entry
/// stays as it is.
pub open spec fn renamed(e: CpEntry, es: Seq<(Seq<char>, Seq<char>)>) -> CpEntry {
    match e {
        CpEntry::Utf8 { value, .. } => match lookup(es, value) {
            Some(v) => CpEntry::Utf8 { tag: 1, length: encode_utf8(v).len() as u16, bytes: encode_utf8(v), value: v },
            None => e,
        },
        _ => e,
    }
}

proof fn lemma_tag_renamed(d: Seq<u8>, p: int, es: Seq<(Seq<char>, Seq<char>)>)
    ensures
        parse_tag(d, p, Some(es)).1 == parse_tag(d, p, None).1,
        parse_tag(d, p, Some(es)).0 is Some == parse_tag(d, p, None).0 is Some,
        parse_tag(d, p, None).0 matches Some(e) ==> parse_tag(d, p, Some(es)).0 == Some(renamed(e, es)),
{
    reveal(parse_tag);
}

/// Reading the constant pool with a renaming table reads the same entries as
/// reading it without one, each renamed, and stops at the same place: renaming
/// changes exactly the `Utf8` entries whose text the table holds.
pub proof fn lemma_pool_renamed(d: Seq<u8>, p: int, i: int, count: int, es: Seq<(Seq<char>, Seq<char>)>)
    ensures
        parse_pool_from(d, p, i, count, Some(es)).1 == parse_pool_from(d, p, i, count, None).1,
        parse_pool_from(d, p, i, count, Some(es)).0 == parse_pool_from(d, p, i, count, None).0.map_values(
            |e: CpEntry| renamed(e, es),
        ),
    decreases if i < count { (count - i) as nat } else { 0nat },
{
    if i >= count {
        assert(Seq::<CpEntry>::empty().map_values(|e: CpEntry| renamed(e, es)) =~= Seq::<CpEntry>::empty());
    } else {
        lemma_tag_renamed(d, p, es);
        let (e, q) = parse_tag(d, p, None);
        let cont = CpEntry::ContinuationTag { tag: 0 };
        match e {
            None => {
                lemma_pool_renamed(d, q, i + 1, count, es);
                let rest = parse_pool_from(d, q, i + 1, count, None).0;
                assert((seq![cont] + rest).map_values(|e: CpEntry| renamed(e, es)) =~= seq![cont] + rest.map_values(
                    |e: CpEntry| renamed(e, es),
                ));
            },
            Some(x) => {
                if x is Long || x is Double {
                    lemma_pool_renamed(d, q, i + 2, count, es);
                    let rest = parse_pool_from(d, q, i + 2, count, None).0;
                    assert((seq![x, cont] + rest).map_values(|e: CpEntry| renamed(e, es)) =~= seq![renamed(x, es), cont]
                        + rest.map_values(|e: CpEntry| renamed(e, es)));
                } else {
                    lemma_pool_renamed(d, q, i + 1, count, es);
                    let rest = parse_pool_from(d, q, i + 1, count, None).0;
                    assert((seq![x] + rest).map_values(|e: CpEntry| renamed(e, es)) =~= seq![renamed(x, es)]
                        + rest.map_values(|e: CpEntry| renamed(e, es)));
                }
            },
        }
    }
}

} // verus!
