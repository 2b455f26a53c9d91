//! Reading attributes: the grammar of each kind of attribute, and the readers
//! that follow it. An attribute is read by the name its name index points at
//! in the constant pool; a name the reader does not know gives an
//! `ExternalAttribute` that keeps all `attribute_length` bytes of its body,
//! and a name index that points at no `Utf8` entry makes the read fail after
//! the header.
use crate::attribute_info::{attribute_bytes, attribute_views, component_views, Attribute, RecordComponentInfo, SpecAttribute, SpecRecordComponentInfo};
use crate::attributes::{
    annotation_views, bootstrap_bytes, BootstrapMethodEntry, ExceptionTableEntry, ExportsEntry, InnerClassEntry, LineNumberEntry,
    LocalVariableTableEntry, LocalVariableTypeTableEntry, LocalvarTargetTableEntry, OpensEntry, Parameter,
    ParameterAnnotation, PathEntry, ProvidesEntry, RequiresEntry, SpecBootstrapMethodEntry,
    SpecParameterAnnotation, SpecTargetInfo, SpecTypeAnnotation, SpecTypePath, TargetInfo, TypeAnnotation,
    TypePath, pair_views,
};
use crate::bytes::{avail, concat_map, lemma_u16_bytes_at, lemma_u32_bytes_at, take_u16, take_u32, take_u8, u16_at, u16_bytes, u16s_at, u32_at, u32_bytes};
use crate::class_reader::{parse_annotations, parse_element_value, parse_pairs, remaining, resume};
use crate::classfile::ClassFile;
use crate::constant_pool::{cp_view, ConstantPoolTags, CpEntry};
use crate::mutf8::{mutf8_decode, read_modified_utf8};
use crate::reader::{
    get_bytes, get_table, get_u16, get_u16s, get_u32, get_u8, parse_frames, read_bytes, read_table, read_u16s,
    lemma_table_bounds, lemma_table_roundtrip, lemma_u16s_roundtrip,
};
use crate::text::str_eq;
use vstd::utf8::encode_utf8;
use vstd::prelude::*;

verus! {

/// The name that an attribute's name index points at: the text of a `Utf8`
/// entry; `None` when the index is out of the pool or names another kind of entry.
pub open spec fn attribute_name(cp: Seq<CpEntry>, index: u16) -> Option<Seq<char>> {
    if index < cp.len() {
        match cp[index as int] {
            CpEntry::Utf8 { value, .. } => Some(value),
            _ => None,
        }
    } else {
        None
    }
}

/// What a read of an attribute gives: the cursor where it stopped, and the
/// attribute exactly when the grammar gives one.
pub open spec fn read_matches(r: (Option<Attribute>, usize), s: (Option<SpecAttribute>, int)) -> bool {
    &&& r.1 == s.1
    &&& r.0 is Some == s.0 is Some
    &&& r.0 matches Some(a) ==> a@ == s.0.unwrap()
}

/// The body of an attribute of fixed layout at `p` (after the six header
/// bytes); any name this reader does not know gives an `ExternalAttribute`
/// holding the `attribute_length` bytes of the body.
pub open spec fn parse_fixed_body(d: Seq<u8>, p: int, name: Seq<char>, ni: u16, len: u32) -> (Option<SpecAttribute>, int) {
    if name == "ConstantValue"@ {
        match get_u16(d, p) {
            (None, q) => (None, q),
            (Some(x), q) => (Some(SpecAttribute::ConstantValue { attribute_name_index: ni, attribute_length: len, constantvalue_index: x }), q),
        }
    } else if name == "NestHost"@ {
        match get_u16(d, p) {
            (None, q) => (None, q),
            (Some(x), q) => (Some(SpecAttribute::NestHost { attribute_name_index: ni, attribute_length: len, host_class_index: x }), q),
        }
    } else if name == "Signature"@ {
        match get_u16(d, p) {
            (None, q) => (None, q),
            (Some(x), q) => (Some(SpecAttribute::Signature { attribute_name_index: ni, attribute_length: len, signature_index: x }), q),
        }
    } else if name == "SourceFile"@ {
        match get_u16(d, p) {
            (None, q) => (None, q),
            (Some(x), q) => (Some(SpecAttribute::SourceFile { attribute_name_index: ni, attribute_length: len, sourcefile_index: x }), q),
        }
    } else if name == "ModuleMainClass"@ {
        match get_u16(d, p) {
            (None, q) => (None, q),
            (Some(x), q) => (Some(SpecAttribute::ModuleMainClass { attribute_name_index: ni, attribute_length: len, main_class_index: x }), q),
        }
    } else if name == "EnclosingMethod"@ {
        match get_u16(d, p) {
            (None, q) => (None, q),
            (Some(c), q) => match get_u16(d, q) {
                (None, q2) => (None, q2),
                (Some(m), q2) => (Some(SpecAttribute::EnclosingMethod { attribute_name_index: ni, attribute_length: len, class_index: c, method_index: m }), q2),
            },
        }
    } else if name == "Synthetic"@ {
        (Some(SpecAttribute::Synthetic { attribute_name_index: ni, attribute_length: len }), p)
    } else if name == "Deprecated"@ {
        (Some(SpecAttribute::Deprecated { attribute_name_index: ni, attribute_length: len }), p)
    } else if name == "SourceDebugExtension"@ {
        match get_bytes(d, p, len as int) {
            (None, q) => (None, q),
            (Some(b), q) => (Some(SpecAttribute::SourceDebugExtension { attribute_name_index: ni, attribute_length: len, debug_extension: mutf8_decode(b) }), q),
        }
    } else {
        match get_bytes(d, p, len as int) {
            (None, q) => (None, q),
            (Some(b), q) => (Some(SpecAttribute::ExternalAttribute { attribute_name_index: ni, attribute_length: len, info: b }), q),
        }
    }
}

/// The names of the attributes of fixed layout that this reader knows.
pub open spec fn is_fixed_name(name: Seq<char>) -> bool {
    name == "ConstantValue"@ || name == "NestHost"@ || name == "Signature"@ || name == "SourceFile"@
        || name == "ModuleMainClass"@ || name == "EnclosingMethod"@ || name == "Synthetic"@ || name
        == "Deprecated"@ || name == "SourceDebugExtension"@
}

/// Writing an attribute of fixed layout that was read gives back its six
/// header bytes and the bytes its body was read from, except where the read
/// does not keep them: a `SourceDebugExtension` keeps its
/// text decoded as modified UTF-8 and is written as UTF-8 (so its bytes must
/// be the UTF-8 of their decoding).
pub proof fn lemma_fixed_body_roundtrip(d: Seq<u8>, p: int, name: Seq<char>, ni: u16, len: u32)
    requires
        0 <= p <= d.len(),
        parse_fixed_body(d, p, name, ni, len).0 is Some,
        name == "SourceDebugExtension"@ && avail(d, p, len as int) ==> encode_utf8(mutf8_decode(d.subrange(p, p + len)))
            == d.subrange(p, p + len),
    ensures
        p <= parse_fixed_body(d, p, name, ni, len).1 <= d.len(),
        attribute_bytes(parse_fixed_body(d, p, name, ni, len).0.unwrap()) == u16_bytes(ni) + u32_bytes(len)
            + d.subrange(p, parse_fixed_body(d, p, name, ni, len).1),
{
    let (a, q) = parse_fixed_body(d, p, name, ni, len);
    if avail(d, p, 2) {
        lemma_u16_bytes_at(d, p);
    }
    if avail(d, p + 2, 2) {
        lemma_u16_bytes_at(d, p + 2);
    }
    assert(attribute_bytes(a.unwrap()) =~= u16_bytes(ni) + u32_bytes(len) + d.subrange(p, q));
}

/// Writing bootstrap method entries that were read gives back the bytes they were read from.
pub proof fn lemma_bootstrap_roundtrip(d: Seq<u8>, p: int, n: nat)
    requires
        0 <= p <= d.len(),
        parse_bootstrap_methods(d, p, n).0 is Some,
    ensures
        p <= parse_bootstrap_methods(d, p, n).1 <= d.len(),
        concat_map(parse_bootstrap_methods(d, p, n).0.unwrap(), |x: SpecBootstrapMethodEntry| bootstrap_bytes(x))
            == d.subrange(p, parse_bootstrap_methods(d, p, n).1),
    decreases n,
{
    if n == 0 {
        assert(concat_map(Seq::<SpecBootstrapMethodEntry>::empty(), |x: SpecBootstrapMethodEntry| bootstrap_bytes(x))
            =~= d.subrange(p, p));
    } else {
        let (r, q) = parse_bootstrap_methods(d, p, (n - 1) as nat);
        lemma_bootstrap_roundtrip(d, p, (n - 1) as nat);
        let prev = r.unwrap();
        lemma_u16_bytes_at(d, q);
        lemma_u16_bytes_at(d, q + 2);
        let k = u16_at(d, q + 2);
        lemma_u16s_roundtrip(d, q + 4, k as nat);
        let e = SpecBootstrapMethodEntry {
            bootstrap_method_ref: u16_at(d, q),
            num_bootstrap_arguments: k,
            bootstrap_arguments: u16s_at(d, q + 4, k as nat),
        };
        let s = prev.push(e);
        assert(s.drop_last() =~= prev);
        let q4 = q + 4 + 2 * k;
        assert(bootstrap_bytes(e) =~= d.subrange(q, q4));
        assert(d.subrange(p, q4) =~= d.subrange(p, q) + d.subrange(q, q4));
    }
}

/// Writing an attribute that is a count and a list of entries, as it was
/// read, gives back its six header bytes and the bytes its body was read from.
pub proof fn lemma_list_body_roundtrip(d: Seq<u8>, p: int, name: Seq<char>, ni: u16, len: u32)
    requires
        0 <= p <= d.len(),
        parse_list_body(d, p, name, ni, len).0 is Some,
    ensures
        p <= parse_list_body(d, p, name, ni, len).1 <= d.len(),
        attribute_bytes(parse_list_body(d, p, name, ni, len).0.unwrap()) == u16_bytes(ni) + u32_bytes(len)
            + d.subrange(p, parse_list_body(d, p, name, ni, len).1),
{
    let (a, q) = parse_list_body(d, p, name, ni, len);
    reveal_strlit("Exceptions");
    reveal_strlit("NestMembers");
    reveal_strlit("PermittedSubclasses");
    reveal_strlit("ModulePackages");
    reveal_strlit("InnerClasses");
    reveal_strlit("LineNumberTable");
    reveal_strlit("LocalVariableTable");
    reveal_strlit("LocalVariableTypeTable");
    reveal_strlit("MethodParameters");
    if name == "MethodParameters"@ {
        assert(name.len() == 16);
        assert("Exceptions"@.len() == 10);
        assert("NestMembers"@.len() == 11);
        assert("PermittedSubclasses"@.len() == 19);
        assert("ModulePackages"@.len() == 14);
        assert("InnerClasses"@.len() == 12);
        assert("LineNumberTable"@.len() == 15);
        assert("LocalVariableTable"@.len() == 18);
        assert("LocalVariableTypeTable"@.len() == 22);
        assert(avail(d, p, 1));
        let k = d[p];
        assert(get_table::<Parameter>(d, p + 1, k as nat).0 is Some);
        lemma_table_roundtrip::<Parameter>(d, p + 1, k as nat);
        assert(d.subrange(p, q) =~= seq![k] + d.subrange(p + 1, q));
    } else {
        lemma_u16_bytes_at(d, p);
        let k = u16_at(d, p);
        if name == "Exceptions"@ || name == "NestMembers"@ || name == "PermittedSubclasses"@ || name
            == "ModulePackages"@ {
            lemma_u16s_roundtrip(d, p + 2, k as nat);
        } else if name == "InnerClasses"@ {
            lemma_table_roundtrip::<InnerClassEntry>(d, p + 2, k as nat);
        } else if name == "LineNumberTable"@ {
            lemma_table_roundtrip::<LineNumberEntry>(d, p + 2, k as nat);
        } else if name == "LocalVariableTable"@ {
            lemma_table_roundtrip::<LocalVariableTableEntry>(d, p + 2, k as nat);
        } else if name == "LocalVariableTypeTable"@ {
            lemma_table_roundtrip::<LocalVariableTypeTableEntry>(d, p + 2, k as nat);
        } else {
            lemma_bootstrap_roundtrip(d, p + 2, k as nat);
        }
        assert(d.subrange(p, q) =~= d.subrange(p, p + 2) + d.subrange(p + 2, q));
    }
    assert(attribute_bytes(a.unwrap()) =~= u16_bytes(ni) + u32_bytes(len) + d.subrange(p, q));
}

/// Reads the body of an attribute of fixed layout at `pos`.
pub fn read_fixed_body(data: &[u8], pos: usize, name: &str, ni: u16, len: u32) -> (r: (Option<Attribute>, usize))
    requires
        pos <= data@.len(),
    ensures
        read_matches(r, parse_fixed_body(data@, pos as int, name@, ni, len)),
        pos <= r.1 <= data@.len(),
{
    if str_eq(name, "ConstantValue") {
        match take_u16(data, pos) {
            (None, q) => (None, q),
            (Some(x), q) => (Some(Attribute::ConstantValue { attribute_name_index: ni, attribute_length: len, constantvalue_index: x }), q),
        }
    } else if str_eq(name, "NestHost") {
        match take_u16(data, pos) {
            (None, q) => (None, q),
            (Some(x), q) => (Some(Attribute::NestHost { attribute_name_index: ni, attribute_length: len, host_class_index: x }), q),
        }
    } else if str_eq(name, "Signature") {
        match take_u16(data, pos) {
            (None, q) => (None, q),
            (Some(x), q) => (Some(Attribute::Signature { attribute_name_index: ni, attribute_length: len, signature_index: x }), q),
        }
    } else if str_eq(name, "SourceFile") {
        match take_u16(data, pos) {
            (None, q) => (None, q),
            (Some(x), q) => (Some(Attribute::SourceFile { attribute_name_index: ni, attribute_length: len, sourcefile_index: x }), q),
        }
    } else if str_eq(name, "ModuleMainClass") {
        match take_u16(data, pos) {
            (None, q) => (None, q),
            (Some(x), q) => (Some(Attribute::ModuleMainClass { attribute_name_index: ni, attribute_length: len, main_class_index: x }), q),
        }
    } else if str_eq(name, "EnclosingMethod") {
        let (c, q) = take_u16(data, pos);
        let c = match c {
            None => return (None, q),
            Some(c) => c,
        };
        match take_u16(data, q) {
            (None, q2) => (None, q2),
            (Some(m), q2) => (Some(Attribute::EnclosingMethod { attribute_name_index: ni, attribute_length: len, class_index: c, method_index: m }), q2),
        }
    } else if str_eq(name, "Synthetic") {
        (Some(Attribute::Synthetic { attribute_name_index: ni, attribute_length: len }), pos)
    } else if str_eq(name, "Deprecated") {
        (Some(Attribute::Deprecated { attribute_name_index: ni, attribute_length: len }), pos)
    } else if str_eq(name, "SourceDebugExtension") {
        match read_bytes(data, pos, len as usize) {
            (None, q) => (None, q),
            (Some(b), q) => {
                let debug_extension = match read_modified_utf8(b.as_slice()) {
                    Ok(s) => s,
                    Err(_) => return (None, q),
                };
                (Some(Attribute::SourceDebugExtension { attribute_name_index: ni, attribute_length: len, debug_extension }), q)
            },
        }
    } else {
        match read_bytes(data, pos, len as usize) {
            (None, q) => (None, q),
            (Some(info), q) => (Some(Attribute::ExternalAttribute { attribute_name_index: ni, attribute_length: len, info }), q),
        }
    }
}

/// Whether an attribute of this name is a count followed by a list of entries.
pub open spec fn is_list_name(name: Seq<char>) -> bool {
    name == "Exceptions"@
        || name == "NestMembers"@
        || name == "PermittedSubclasses"@
        || name == "ModulePackages"@
        || name == "InnerClasses"@
        || name == "LineNumberTable"@
        || name == "LocalVariableTable"@
        || name == "LocalVariableTypeTable"@
        || name == "MethodParameters"@
        || name == "BootstrapMethods"@
}

/// The body of an attribute that is a count and a list of entries, at `p`.
pub open spec fn parse_list_body(d: Seq<u8>, p: int, name: Seq<char>, ni: u16, len: u32) -> (Option<SpecAttribute>, int) {
    if name == "Exceptions"@ {
        match get_u16(d, p) {
            (None, q) => (None, q),
            (Some(k), q) => match get_u16s(d, q, k as nat) {
                (None, q2) => (None, q2),
                (Some(v), q2) => (Some(SpecAttribute::Exceptions { attribute_name_index: ni, attribute_length: len, number_of_exceptions: k, exception_index_table: v }), q2),
            },
        }
    } else if name == "NestMembers"@ {
        match get_u16(d, p) {
            (None, q) => (None, q),
            (Some(k), q) => match get_u16s(d, q, k as nat) {
                (None, q2) => (None, q2),
                (Some(v), q2) => (Some(SpecAttribute::NestMembers { attribute_name_index: ni, attribute_length: len, number_of_classes: k, classes: v }), q2),
            },
        }
    } else if name == "PermittedSubclasses"@ {
        match get_u16(d, p) {
            (None, q) => (None, q),
            (Some(k), q) => match get_u16s(d, q, k as nat) {
                (None, q2) => (None, q2),
                (Some(v), q2) => (Some(SpecAttribute::PermittedSubclasses { attribute_name_index: ni, attribute_length: len, number_of_classes: k, classes: v }), q2),
            },
        }
    } else if name == "ModulePackages"@ {
        match get_u16(d, p) {
            (None, q) => (None, q),
            (Some(k), q) => match get_u16s(d, q, k as nat) {
                (None, q2) => (None, q2),
                (Some(v), q2) => (Some(SpecAttribute::ModulePackages { attribute_name_index: ni, attribute_length: len, package_count: k, package_index: v }), q2),
            },
        }
    } else if name == "InnerClasses"@ {
        match get_u16(d, p) {
            (None, q) => (None, q),
            (Some(k), q) => match get_table::<InnerClassEntry>(d, q, k as nat) {
                (None, q2) => (None, q2),
                (Some(v), q2) => (Some(SpecAttribute::InnerClasses { attribute_name_index: ni, attribute_length: len, number_of_classes: k, classes: v }), q2),
            },
        }
    } else if name == "LineNumberTable"@ {
        match get_u16(d, p) {
            (None, q) => (None, q),
            (Some(k), q) => match get_table::<LineNumberEntry>(d, q, k as nat) {
                (None, q2) => (None, q2),
                (Some(v), q2) => (Some(SpecAttribute::LineNumberTable { attribute_name_index: ni, attribute_length: len, line_number_table_length: k, line_number_table: v }), q2),
            },
        }
    } else if name == "LocalVariableTable"@ {
        match get_u16(d, p) {
            (None, q) => (None, q),
            (Some(k), q) => match get_table::<LocalVariableTableEntry>(d, q, k as nat) {
                (None, q2) => (None, q2),
                (Some(v), q2) => (Some(SpecAttribute::LocalVariableTable { attribute_name_index: ni, attribute_length: len, local_variable_table_length: k, local_variable_table: v }), q2),
            },
        }
    } else if name == "LocalVariableTypeTable"@ {
        match get_u16(d, p) {
            (None, q) => (None, q),
            (Some(k), q) => match get_table::<LocalVariableTypeTableEntry>(d, q, k as nat) {
                (None, q2) => (None, q2),
                (Some(v), q2) => (Some(SpecAttribute::LocalVariableTypeTable { attribute_name_index: ni, attribute_length: len, local_variable_type_table_length: k, local_variable_type_table: v }), q2),
            },
        }
    } else if name == "MethodParameters"@ {
        match get_u8(d, p) {
            (None, q) => (None, q),
            (Some(k), q) => match get_table::<Parameter>(d, q, k as nat) {
                (None, q2) => (None, q2),
                (Some(v), q2) => (Some(SpecAttribute::MethodParameters { attribute_name_index: ni, attribute_length: len, parameters_count: k, parameters: v }), q2),
            },
        }
    } else if name == "BootstrapMethods"@ {
        match get_u16(d, p) {
            (None, q) => (None, q),
            (Some(k), q) => match parse_bootstrap_methods(d, q, k as nat) {
                (None, q2) => (None, q2),
                (Some(v), q2) => (Some(SpecAttribute::BootstrapMethods { attribute_name_index: ni, attribute_length: len, num_bootstrap_methods: k, bootstrap_methods: v }), q2),
            },
        }
    } else {
        (None, p)
    }
}

/// Reads the body of an attribute that is a count and a list of entries.
pub fn read_list_body(data: &[u8], pos: usize, name: &str, ni: u16, len: u32) -> (r: (Option<Attribute>, usize))
    requires
        pos <= data@.len(),
    ensures
        read_matches(r, parse_list_body(data@, pos as int, name@, ni, len)),
        pos <= r.1 <= data@.len(),
{
    if str_eq(name, "Exceptions") {
        let (k, q) = take_u16(data, pos);
        let k = match k {
            None => return (None, q),
            Some(k) => k,
        };
        match read_u16s(data, q, k) {
            (None, q2) => (None, q2),
            (Some(v), q2) => (Some(Attribute::Exceptions { attribute_name_index: ni, attribute_length: len, number_of_exceptions: k, exception_index_table: v }), q2),
        }
    } else if str_eq(name, "NestMembers") {
        let (k, q) = take_u16(data, pos);
        let k = match k {
            None => return (None, q),
            Some(k) => k,
        };
        match read_u16s(data, q, k) {
            (None, q2) => (None, q2),
            (Some(v), q2) => (Some(Attribute::NestMembers { attribute_name_index: ni, attribute_length: len, number_of_classes: k, classes: v }), q2),
        }
    } else if str_eq(name, "PermittedSubclasses") {
        let (k, q) = take_u16(data, pos);
        let k = match k {
            None => return (None, q),
            Some(k) => k,
        };
        match read_u16s(data, q, k) {
            (None, q2) => (None, q2),
            (Some(v), q2) => (Some(Attribute::PermittedSubclasses { attribute_name_index: ni, attribute_length: len, number_of_classes: k, classes: v }), q2),
        }
    } else if str_eq(name, "ModulePackages") {
        let (k, q) = take_u16(data, pos);
        let k = match k {
            None => return (None, q),
            Some(k) => k,
        };
        match read_u16s(data, q, k) {
            (None, q2) => (None, q2),
            (Some(v), q2) => (Some(Attribute::ModulePackages { attribute_name_index: ni, attribute_length: len, package_count: k, package_index: v }), q2),
        }
    } else if str_eq(name, "InnerClasses") {
        let (k, q) = take_u16(data, pos);
        let k = match k {
            None => return (None, q),
            Some(k) => k,
        };
        proof {
            lemma_table_bounds::<InnerClassEntry>(data@, q as int, k as nat);
        }
        match read_table::<InnerClassEntry>(data, q, k as usize) {
            (None, q2) => (None, q2),
            (Some(v), q2) => (Some(Attribute::InnerClasses { attribute_name_index: ni, attribute_length: len, number_of_classes: k, classes: v }), q2),
        }
    } else if str_eq(name, "LineNumberTable") {
        let (k, q) = take_u16(data, pos);
        let k = match k {
            None => return (None, q),
            Some(k) => k,
        };
        proof {
            lemma_table_bounds::<LineNumberEntry>(data@, q as int, k as nat);
        }
        match read_table::<LineNumberEntry>(data, q, k as usize) {
            (None, q2) => (None, q2),
            (Some(v), q2) => (Some(Attribute::LineNumberTable { attribute_name_index: ni, attribute_length: len, line_number_table_length: k, line_number_table: v }), q2),
        }
    } else if str_eq(name, "LocalVariableTable") {
        let (k, q) = take_u16(data, pos);
        let k = match k {
            None => return (None, q),
            Some(k) => k,
        };
        proof {
            lemma_table_bounds::<LocalVariableTableEntry>(data@, q as int, k as nat);
        }
        match read_table::<LocalVariableTableEntry>(data, q, k as usize) {
            (None, q2) => (None, q2),
            (Some(v), q2) => (Some(Attribute::LocalVariableTable { attribute_name_index: ni, attribute_length: len, local_variable_table_length: k, local_variable_table: v }), q2),
        }
    } else if str_eq(name, "LocalVariableTypeTable") {
        let (k, q) = take_u16(data, pos);
        let k = match k {
            None => return (None, q),
            Some(k) => k,
        };
        proof {
            lemma_table_bounds::<LocalVariableTypeTableEntry>(data@, q as int, k as nat);
        }
        match read_table::<LocalVariableTypeTableEntry>(data, q, k as usize) {
            (None, q2) => (None, q2),
            (Some(v), q2) => (Some(Attribute::LocalVariableTypeTable { attribute_name_index: ni, attribute_length: len, local_variable_type_table_length: k, local_variable_type_table: v }), q2),
        }
    } else if str_eq(name, "MethodParameters") {
        let (k, q) = take_u8(data, pos);
        let k = match k {
            None => return (None, q),
            Some(k) => k,
        };
        proof {
            lemma_table_bounds::<Parameter>(data@, q as int, k as nat);
        }
        match read_table::<Parameter>(data, q, k as usize) {
            (None, q2) => (None, q2),
            (Some(v), q2) => (Some(Attribute::MethodParameters { attribute_name_index: ni, attribute_length: len, parameters_count: k, parameters: v }), q2),
        }
    } else if str_eq(name, "BootstrapMethods") {
        let (k, q) = take_u16(data, pos);
        let k = match k {
            None => return (None, q),
            Some(k) => k,
        };
        match read_bootstrap_methods(data, q, k) {
            (None, q2) => (None, q2),
            (Some(v), q2) => (Some(Attribute::BootstrapMethods { attribute_name_index: ni, attribute_length: len, num_bootstrap_methods: k, bootstrap_methods: v }), q2),
        }
    } else {
        (None, pos)
    }
}

/// `n` bootstrap method entries, each a method reference, an argument count and
/// the arguments; the first failure ends the read.
pub open spec fn parse_bootstrap_methods(d: Seq<u8>, p: int, n: nat) -> (Option<Seq<SpecBootstrapMethodEntry>>, int)
    decreases n,
{
    if n == 0 {
        (Some(Seq::empty()), p)
    } else {
        match parse_bootstrap_methods(d, p, (n - 1) as nat) {
            (None, q) => (None, q),
            (Some(s), q) => match get_u16(d, q) {
                (None, q2) => (None, q2),
                (Some(m), q2) => match get_u16(d, q2) {
                    (None, q3) => (None, q3),
                    (Some(k), q3) => match get_u16s(d, q3, k as nat) {
                        (None, q4) => (None, q4),
                        (Some(args), q4) => (
                            Some(s.push(SpecBootstrapMethodEntry {
                                bootstrap_method_ref: m,
                                num_bootstrap_arguments: k,
                                bootstrap_arguments: args,
                            })),
                            q4,
                        ),
                    },
                },
            },
        }
    }
}

/// Once a read of bootstrap methods fails, reading more of them fails at the same place.
pub proof fn lemma_bootstrap_fail_after(d: Seq<u8>, p: int, k: nat, n: nat)
    requires
        k <= n,
        parse_bootstrap_methods(d, p, k).0 is None,
    ensures
        parse_bootstrap_methods(d, p, n) == parse_bootstrap_methods(d, p, k),
    decreases n - k,
{
    if k < n {
        lemma_bootstrap_fail_after(d, p, k, (n - 1) as nat);
    }
}

/// Reads `n` bootstrap method entries at `pos`.
pub fn read_bootstrap_methods(data: &[u8], pos: usize, n: u16) -> (r: (Option<Vec<BootstrapMethodEntry>>, usize))
    requires
        pos <= data@.len(),
    ensures
        r.1 == parse_bootstrap_methods(data@, pos as int, n as nat).1,
        r.0 is Some == parse_bootstrap_methods(data@, pos as int, n as nat).0 is Some,
        r.0 matches Some(v) ==> v@.map_values(|e: BootstrapMethodEntry| e@) == parse_bootstrap_methods(data@, pos as int, n as nat).0.unwrap(),
        pos <= r.1 <= data@.len(),
{
    let mut out: Vec<BootstrapMethodEntry> = Vec::new();
    let mut cur = pos;
    let mut i: u16 = 0;
    while i < n
        invariant
            i <= n,
            pos <= cur <= data@.len(),
            parse_bootstrap_methods(data@, pos as int, i as nat) == (
                Some(out@.map_values(|e: BootstrapMethodEntry| e@)),
                cur as int,
            ),
        decreases n - i,
    {
        let (m, q) = take_u16(data, cur);
        let m = match m {
            None => {
                proof {
                    lemma_bootstrap_fail_after(data@, pos as int, (i + 1) as nat, n as nat);
                }
                return (None, q);
            },
            Some(m) => m,
        };
        let (k, q2) = take_u16(data, q);
        let k = match k {
            None => {
                proof {
                    lemma_bootstrap_fail_after(data@, pos as int, (i + 1) as nat, n as nat);
                }
                return (None, q2);
            },
            Some(k) => k,
        };
        let (args, q3) = read_u16s(data, q2, k);
        let args = match args {
            None => {
                proof {
                    lemma_bootstrap_fail_after(data@, pos as int, (i + 1) as nat, n as nat);
                }
                return (None, q3);
            },
            Some(a) => a,
        };
        let ghost before = out@;
        let e = BootstrapMethodEntry { bootstrap_method_ref: m, num_bootstrap_arguments: k, bootstrap_arguments: args };
        let ghost ev = e@;
        out.push(e);
        assert(out@.map_values(|e: BootstrapMethodEntry| e@) =~= before.map_values(|e: BootstrapMethodEntry| e@).push(ev));
        cur = q3;
        i = i + 1;
    }
    (Some(out), cur)
}

/// `n` parameters' annotations, each a count and that many annotations (of
/// which those that fail to read are left out); a count cut short by the end
/// of the data ends the read.
pub open spec fn parse_parameter_annotations(d: Seq<u8>, p: int, n: nat) -> (Option<Seq<SpecParameterAnnotation>>, int)
    decreases n,
{
    if n == 0 {
        (Some(Seq::empty()), p)
    } else {
        match parse_parameter_annotations(d, p, (n - 1) as nat) {
            (None, q) => (None, q),
            (Some(s), q) => match get_u16(d, q) {
                (None, q2) => (None, q2),
                (Some(k), q2) => {
                    let (annotations, q3) = parse_annotations(d, q2, k as nat);
                    (Some(s.push(SpecParameterAnnotation { num_annotations: k, annotations })), q3)
                },
            },
        }
    }
}

/// Once a read of parameter annotations fails, reading more of them fails at the same place.
pub proof fn lemma_parameter_annotations_fail_after(d: Seq<u8>, p: int, k: nat, n: nat)
    requires
        k <= n,
        parse_parameter_annotations(d, p, k).0 is None,
    ensures
        parse_parameter_annotations(d, p, n) == parse_parameter_annotations(d, p, k),
    decreases n - k,
{
    if k < n {
        lemma_parameter_annotations_fail_after(d, p, k, (n - 1) as nat);
    }
}

/// Reads the annotations of `n` parameters at `pos`.
pub fn read_parameter_annotations(data: &[u8], pos: usize, n: u8) -> (r: (Option<Vec<ParameterAnnotation>>, usize))
    requires
        pos <= data@.len(),
    ensures
        r.1 == parse_parameter_annotations(data@, pos as int, n as nat).1,
        r.0 is Some == parse_parameter_annotations(data@, pos as int, n as nat).0 is Some,
        r.0 matches Some(v) ==> v@.map_values(|e: ParameterAnnotation| e@) == parse_parameter_annotations(data@, pos as int, n as nat).0.unwrap(),
        pos <= r.1 <= data@.len(),
{
    let mut out: Vec<ParameterAnnotation> = Vec::new();
    let mut cur = pos;
    let mut i: u8 = 0;
    while i < n
        invariant
            i <= n,
            pos <= cur <= data@.len(),
            parse_parameter_annotations(data@, pos as int, i as nat) == (
                Some(out@.map_values(|e: ParameterAnnotation| e@)),
                cur as int,
            ),
        decreases n - i,
    {
        let (k, q) = take_u16(data, cur);
        let k = match k {
            None => {
                proof {
                    lemma_parameter_annotations_fail_after(data@, pos as int, (i + 1) as nat, n as nat);
                }
                return (None, q);
            },
            Some(k) => k,
        };
        let (annotations, q2) = ClassFile::read_annotations_vec(k, data, q);
        let ghost before = out@;
        let e = ParameterAnnotation { num_annotations: k, annotations };
        let ghost ev = e@;
        out.push(e);
        assert(out@.map_values(|e: ParameterAnnotation| e@) =~= before.map_values(|e: ParameterAnnotation| e@).push(ev));
        cur = q2;
        i = i + 1;
    }
    (Some(out), cur)
}

/// The target of a type annotation of target type `tt`, at `p`. An unknown
/// target type gives `Some(None)`: the annotation is skipped right after its
/// target-type byte.
pub open spec fn parse_target_info(d: Seq<u8>, p: int, tt: u8) -> (Option<Option<SpecTargetInfo>>, int) {
    if tt == 0 || tt == 1 {
        match get_u8(d, p) {
            (None, q) => (None, q),
            (Some(x), q) => (Some(Some(SpecTargetInfo::TypeParameterTarget { type_parameter_index: x })), q),
        }
    } else if tt == 16 {
        match get_u16(d, p) {
            (None, q) => (None, q),
            (Some(x), q) => (Some(Some(SpecTargetInfo::SupertypeTarget { supertype_index: x })), q),
        }
    } else if tt == 17 || tt == 18 {
        match get_u8(d, p) {
            (None, q) => (None, q),
            (Some(x), q) => match get_u8(d, q) {
                (None, q2) => (None, q2),
                (Some(y), q2) => (
                    Some(Some(SpecTargetInfo::TypeParameterBoundTarget { type_parameter_index: x, bound_index: y })),
                    q2,
                ),
            },
        }
    } else if 19 <= tt <= 21 {
        (Some(Some(SpecTargetInfo::EmptyTarget {  })), p)
    } else if tt == 22 {
        match get_u8(d, p) {
            (None, q) => (None, q),
            (Some(x), q) => (Some(Some(SpecTargetInfo::FormalParameterTarget { formal_parameter_index: x })), q),
        }
    } else if tt == 23 {
        match get_u16(d, p) {
            (None, q) => (None, q),
            (Some(x), q) => (Some(Some(SpecTargetInfo::ThrowsTarget { throws_type_index: x })), q),
        }
    } else if tt == 64 || tt == 65 {
        match get_u16(d, p) {
            (None, q) => (None, q),
            (Some(k), q) => match get_table::<LocalvarTargetTableEntry>(d, q, k as nat) {
                (None, q2) => (None, q2),
                (Some(table), q2) => (Some(Some(SpecTargetInfo::LocalvarTarget { table_length: k, table })), q2),
            },
        }
    } else if tt == 66 {
        match get_u16(d, p) {
            (None, q) => (None, q),
            (Some(x), q) => (Some(Some(SpecTargetInfo::CatchTarget { exception_table_index: x })), q),
        }
    } else if 67 <= tt <= 70 {
        match get_u16(d, p) {
            (None, q) => (None, q),
            (Some(x), q) => (Some(Some(SpecTargetInfo::OffsetTarget { offset: x })), q),
        }
    } else if 71 <= tt <= 75 {
        match get_u16(d, p) {
            (None, q) => (None, q),
            (Some(x), q) => match get_u8(d, q) {
                (None, q2) => (None, q2),
                (Some(y), q2) => (
                    Some(Some(SpecTargetInfo::TypeArgumentTarget { offset: x, type_argument_index: y })),
                    q2,
                ),
            },
        }
    } else {
        (Some(None), p)
    }
}

/// Reads the target of a type annotation of target type `tt` at `pos`.
pub fn read_target_info(data: &[u8], pos: usize, tt: u8) -> (r: (Option<Option<TargetInfo>>, usize))
    requires
        pos <= data@.len(),
    ensures
        r.1 == parse_target_info(data@, pos as int, tt).1,
        r.0 is None == parse_target_info(data@, pos as int, tt).0 is None,
        r.0 matches Some(x) ==> (x is None == parse_target_info(data@, pos as int, tt).0.unwrap() is None),
        r.0 matches Some(Some(t)) ==> t@ == parse_target_info(data@, pos as int, tt).0.unwrap().unwrap(),
        pos <= r.1 <= data@.len(),
{
    if tt == 0 || tt == 1 {
        match take_u8(data, pos) {
            (None, q) => (None, q),
            (Some(x), q) => (Some(Some(TargetInfo::TypeParameterTarget { type_parameter_index: x })), q),
        }
    } else if tt == 16 {
        match take_u16(data, pos) {
            (None, q) => (None, q),
            (Some(x), q) => (Some(Some(TargetInfo::SupertypeTarget { supertype_index: x })), q),
        }
    } else if tt == 17 || tt == 18 {
        let (x, q) = take_u8(data, pos);
        let x = match x {
            None => return (None, q),
            Some(x) => x,
        };
        match take_u8(data, q) {
            (None, q2) => (None, q2),
            (Some(y), q2) => (
                Some(Some(TargetInfo::TypeParameterBoundTarget { type_parameter_index: x, bound_index: y })),
                q2,
            ),
        }
    } else if 19 <= tt && tt <= 21 {
        (Some(Some(TargetInfo::EmptyTarget {  })), pos)
    } else if tt == 22 {
        match take_u8(data, pos) {
            (None, q) => (None, q),
            (Some(x), q) => (Some(Some(TargetInfo::FormalParameterTarget { formal_parameter_index: x })), q),
        }
    } else if tt == 23 {
        match take_u16(data, pos) {
            (None, q) => (None, q),
            (Some(x), q) => (Some(Some(TargetInfo::ThrowsTarget { throws_type_index: x })), q),
        }
    } else if tt == 64 || tt == 65 {
        let (k, q) = take_u16(data, pos);
        let k = match k {
            None => return (None, q),
            Some(k) => k,
        };
        proof {
            lemma_table_bounds::<LocalvarTargetTableEntry>(data@, q as int, k as nat);
        }
        match read_table::<LocalvarTargetTableEntry>(data, q, k as usize) {
            (None, q2) => (None, q2),
            (Some(table), q2) => (Some(Some(TargetInfo::LocalvarTarget { table_length: k, table })), q2),
        }
    } else if tt == 66 {
        match take_u16(data, pos) {
            (None, q) => (None, q),
            (Some(x), q) => (Some(Some(TargetInfo::CatchTarget { exception_table_index: x })), q),
        }
    } else if 67 <= tt && tt <= 70 {
        match take_u16(data, pos) {
            (None, q) => (None, q),
            (Some(x), q) => (Some(Some(TargetInfo::OffsetTarget { offset: x })), q),
        }
    } else if 71 <= tt && tt <= 75 {
        let (x, q) = take_u16(data, pos);
        let x = match x {
            None => return (None, q),
            Some(x) => x,
        };
        match take_u8(data, q) {
            (None, q2) => (None, q2),
            (Some(y), q2) => (Some(Some(TargetInfo::TypeArgumentTarget { offset: x, type_argument_index: y })), q2),
        }
    } else {
        (Some(None), pos)
    }
}

/// A type annotation at `p`: target type, target, type path, type index and
/// pairs. `Some(None)` when the target type is unknown and the annotation is skipped.
pub open spec fn parse_type_annotation(d: Seq<u8>, p: int) -> (Option<Option<SpecTypeAnnotation>>, int) {
    match get_u8(d, p) {
        (None, q) => (None, q),
        (Some(tt), q) => match parse_target_info(d, q, tt) {
            (None, q2) => (None, q2),
            (Some(None), q2) => (Some(None), q2),
            (Some(Some(target_info)), q2) => match get_u8(d, q2) {
                (None, q3) => (None, q3),
                (Some(pl), q3) => match get_table::<PathEntry>(d, q3, pl as nat) {
                    (None, q4) => (None, q4),
                    (Some(path), q4) => match get_u16(d, q4) {
                        (None, q5) => (None, q5),
                        (Some(type_index), q5) => match get_u16(d, q5) {
                            (None, q6) => (None, q6),
                            (Some(np), q6) => match parse_pairs(d, q6, np as nat) {
                                (None, q7) => (None, q7),
                                (Some(pairs), q7) => (
                                    Some(Some(SpecTypeAnnotation {
                                        target_type: tt,
                                        target_info,
                                        target_path: SpecTypePath { path_length: pl, path },
                                        type_index,
                                        num_element_value_pairs: np,
                                        element_value_pairs: pairs,
                                    })),
                                    q7,
                                ),
                            },
                        },
                    },
                },
            },
        },
    }
}

/// Reads a type annotation at `pos`.
pub fn read_type_annotation(data: &[u8], pos: usize) -> (r: (Option<Option<TypeAnnotation>>, usize))
    requires
        pos <= data@.len(),
    ensures
        r.1 == parse_type_annotation(data@, pos as int).1,
        r.0 is None == parse_type_annotation(data@, pos as int).0 is None,
        r.0 matches Some(x) ==> (x is None == parse_type_annotation(data@, pos as int).0.unwrap() is None),
        r.0 matches Some(Some(t)) ==> t@ == parse_type_annotation(data@, pos as int).0.unwrap().unwrap(),
        pos <= r.1 <= data@.len(),
{
    let (tt, q) = take_u8(data, pos);
    let target_type = match tt {
        None => return (None, q),
        Some(t) => t,
    };
    let (ti, q2) = read_target_info(data, q, target_type);
    let target_info = match ti {
        None => return (None, q2),
        Some(None) => return (Some(None), q2),
        Some(Some(t)) => t,
    };
    let (pl, q3) = take_u8(data, q2);
    let path_length = match pl {
        None => return (None, q3),
        Some(l) => l,
    };
    proof {
        lemma_table_bounds::<PathEntry>(data@, q3 as int, path_length as nat);
    }
    let (path, q4) = read_table::<PathEntry>(data, q3, path_length as usize);
    let path = match path {
        None => return (None, q4),
        Some(p) => p,
    };
    let (ti2, q5) = take_u16(data, q4);
    let type_index = match ti2 {
        None => return (None, q5),
        Some(t) => t,
    };
    let (np, q6) = take_u16(data, q5);
    let num_element_value_pairs = match np {
        None => return (None, q6),
        Some(n) => n,
    };
    match ClassFile::read_annotations_element_value_pairs_vec(num_element_value_pairs, data, q6) {
        (Err(_), q7) => (None, q7),
        (Ok(element_value_pairs), q7) => {
            let ghost pv = pair_views(element_value_pairs@);
            let t = TypeAnnotation {
                target_type,
                target_info,
                target_path: TypePath { path_length, path },
                type_index,
                num_element_value_pairs,
                element_value_pairs,
            };
            assert(t@.element_value_pairs =~= pv);
            (Some(Some(t)), q7)
        },
    }
}

/// `n` type annotations one after another; those with an unknown target type
/// are skipped, and the first failure ends the read.
pub open spec fn parse_type_annotations(d: Seq<u8>, p: int, n: nat) -> (Option<Seq<SpecTypeAnnotation>>, int)
    decreases n,
{
    if n == 0 {
        (Some(Seq::empty()), p)
    } else {
        match parse_type_annotations(d, p, (n - 1) as nat) {
            (None, q) => (None, q),
            (Some(s), q) => match parse_type_annotation(d, q) {
                (None, q2) => (None, q2),
                (Some(None), q2) => (Some(s), q2),
                (Some(Some(t)), q2) => (Some(s.push(t)), q2),
            },
        }
    }
}

/// Once a read of type annotations fails, reading more of them fails at the same place.
pub proof fn lemma_type_annotations_fail_after(d: Seq<u8>, p: int, k: nat, n: nat)
    requires
        k <= n,
        parse_type_annotations(d, p, k).0 is None,
    ensures
        parse_type_annotations(d, p, n) == parse_type_annotations(d, p, k),
    decreases n - k,
{
    if k < n {
        lemma_type_annotations_fail_after(d, p, k, (n - 1) as nat);
    }
}

/// Reads `n` type annotations at `pos`.
pub fn read_type_annotations(data: &[u8], pos: usize, n: u16) -> (r: (Option<Vec<TypeAnnotation>>, usize))
    requires
        pos <= data@.len(),
    ensures
        r.1 == parse_type_annotations(data@, pos as int, n as nat).1,
        r.0 is Some == parse_type_annotations(data@, pos as int, n as nat).0 is Some,
        r.0 matches Some(v) ==> v@.map_values(|e: TypeAnnotation| e@) == parse_type_annotations(data@, pos as int, n as nat).0.unwrap(),
        pos <= r.1 <= data@.len(),
{
    let mut out: Vec<TypeAnnotation> = Vec::new();
    let mut cur = pos;
    let mut i: u16 = 0;
    while i < n
        invariant
            i <= n,
            pos <= cur <= data@.len(),
            parse_type_annotations(data@, pos as int, i as nat) == (
                Some(out@.map_values(|e: TypeAnnotation| e@)),
                cur as int,
            ),
        decreases n - i,
    {
        let (t, q) = read_type_annotation(data, cur);
        match t {
            None => {
                proof {
                    lemma_type_annotations_fail_after(data@, pos as int, (i + 1) as nat, n as nat);
                }
                return (None, q);
            },
            Some(None) => {},
            Some(Some(t)) => {
                let ghost before = out@;
                let ghost tv = t@;
                out.push(t);
                assert(out@.map_values(|e: TypeAnnotation| e@) =~= before.map_values(|e: TypeAnnotation| e@).push(tv));
            },
        }
        cur = q;
        i = i + 1;
    }
    (Some(out), cur)
}

/// Whether an attribute of this name is made of frames or annotations.
pub open spec fn is_annotation_name(name: Seq<char>) -> bool {
    name == "StackMapTable"@ || name == "RuntimeVisibleAnnotations"@ || name == "RuntimeInvisibleAnnotations"@
        || name == "RuntimeVisibleParameterAnnotations"@ || name == "RuntimeInvisibleParameterAnnotations"@
        || name == "RuntimeVisibleTypeAnnotations"@ || name == "RuntimeInvisibleTypeAnnotations"@
        || name == "AnnotationDefault"@
}

/// The body of an attribute made of frames or annotations, at `p`.
pub open spec fn parse_annotation_body(d: Seq<u8>, p: int, name: Seq<char>, ni: u16, len: u32) -> (Option<SpecAttribute>, int) {
    if name == "StackMapTable"@ {
        match get_u16(d, p) {
            (None, q) => (None, q),
            (Some(k), q) => {
                let (entries, q2) = parse_frames(d, q, k as nat);
                (Some(SpecAttribute::StackMapTable { attribute_name_index: ni, attribute_length: len, number_of_entries: k, entries }), q2)
            },
        }
    } else if name == "RuntimeVisibleAnnotations"@ {
        match get_u16(d, p) {
            (None, q) => (None, q),
            (Some(k), q) => {
                let (annotations, q2) = parse_annotations(d, q, k as nat);
                (Some(SpecAttribute::RuntimeVisibleAnnotations { attribute_name_index: ni, attribute_length: len, num_annotations: k, annotations }), q2)
            },
        }
    } else if name == "RuntimeInvisibleAnnotations"@ {
        match get_u16(d, p) {
            (None, q) => (None, q),
            (Some(k), q) => {
                let (annotations, q2) = parse_annotations(d, q, k as nat);
                (Some(SpecAttribute::RuntimeInvisibleAnnotations { attribute_name_index: ni, attribute_length: len, num_annotations: k, annotations }), q2)
            },
        }
    } else if name == "RuntimeVisibleParameterAnnotations"@ {
        match get_u8(d, p) {
            (None, q) => (None, q),
            (Some(k), q) => match parse_parameter_annotations(d, q, k as nat) {
                (None, q2) => (None, q2),
                (Some(v), q2) => (Some(SpecAttribute::RuntimeVisibleParameterAnnotations { attribute_name_index: ni, attribute_length: len, num_parameters: k, parameter_annotations: v }), q2),
            },
        }
    } else if name == "RuntimeInvisibleParameterAnnotations"@ {
        match get_u8(d, p) {
            (None, q) => (None, q),
            (Some(k), q) => match parse_parameter_annotations(d, q, k as nat) {
                (None, q2) => (None, q2),
                (Some(v), q2) => (Some(SpecAttribute::RuntimeInvisibleParameterAnnotations { attribute_name_index: ni, attribute_length: len, num_parameters: k, parameter_annotations: v }), q2),
            },
        }
    } else if name == "RuntimeVisibleTypeAnnotations"@ {
        match get_u16(d, p) {
            (None, q) => (None, q),
            (Some(k), q) => match parse_type_annotations(d, q, k as nat) {
                (None, q2) => (None, q2),
                (Some(v), q2) => (Some(SpecAttribute::RuntimeVisibleTypeAnnotations { attribute_name_index: ni, attribute_length: len, num_parameters: k, annotations: v }), q2),
            },
        }
    } else if name == "RuntimeInvisibleTypeAnnotations"@ {
        match get_u16(d, p) {
            (None, q) => (None, q),
            (Some(k), q) => match parse_type_annotations(d, q, k as nat) {
                (None, q2) => (None, q2),
                (Some(v), q2) => (Some(SpecAttribute::RuntimeInvisibleTypeAnnotations { attribute_name_index: ni, attribute_length: len, num_parameters: k, annotations: v }), q2),
            },
        }
    } else if name == "AnnotationDefault"@ {
        match parse_element_value(d, p) {
            (None, q) => (None, q),
            (Some(v), q) => (Some(SpecAttribute::AnnotationDefault { attribute_name_index: ni, attribute_length: len, default_value: v }), q),
        }
    } else {
        (None, p)
    }
}

/// Reads the body of an attribute made of frames or annotations.
#[verifier::rlimit(100)]
#[verifier::spinoff_prover]
pub fn read_annotation_body(data: &[u8], pos: usize, name: &str, ni: u16, len: u32) -> (r: (Option<Attribute>, usize))
    requires
        pos <= data@.len(),
    ensures
        read_matches(r, parse_annotation_body(data@, pos as int, name@, ni, len)),
        pos <= r.1 <= data@.len(),
{
    if str_eq(name, "StackMapTable") {
        let (k, q) = take_u16(data, pos);
        let k = match k {
            None => return (None, q),
            Some(k) => k,
        };
        let (entries, q2) = ClassFile::read_stack_frames_vec(k, data, q);
        (Some(Attribute::StackMapTable { attribute_name_index: ni, attribute_length: len, number_of_entries: k, entries }), q2)
    } else if str_eq(name, "RuntimeVisibleAnnotations") {
        let (k, q) = take_u16(data, pos);
        let k = match k {
            None => return (None, q),
            Some(k) => k,
        };
        let (annotations, q2) = ClassFile::read_annotations_vec(k, data, q);
        (Some(Attribute::RuntimeVisibleAnnotations { attribute_name_index: ni, attribute_length: len, num_annotations: k, annotations }), q2)
    } else if str_eq(name, "RuntimeInvisibleAnnotations") {
        let (k, q) = take_u16(data, pos);
        let k = match k {
            None => return (None, q),
            Some(k) => k,
        };
        let (annotations, q2) = ClassFile::read_annotations_vec(k, data, q);
        (Some(Attribute::RuntimeInvisibleAnnotations { attribute_name_index: ni, attribute_length: len, num_annotations: k, annotations }), q2)
    } else if str_eq(name, "RuntimeVisibleParameterAnnotations") {
        let (k, q) = take_u8(data, pos);
        let k = match k {
            None => return (None, q),
            Some(k) => k,
        };
        match read_parameter_annotations(data, q, k) {
            (None, q2) => (None, q2),
            (Some(v), q2) => (Some(Attribute::RuntimeVisibleParameterAnnotations { attribute_name_index: ni, attribute_length: len, num_parameters: k, parameter_annotations: v }), q2),
        }
    } else if str_eq(name, "RuntimeInvisibleParameterAnnotations") {
        let (k, q) = take_u8(data, pos);
        let k = match k {
            None => return (None, q),
            Some(k) => k,
        };
        match read_parameter_annotations(data, q, k) {
            (None, q2) => (None, q2),
            (Some(v), q2) => (Some(Attribute::RuntimeInvisibleParameterAnnotations { attribute_name_index: ni, attribute_length: len, num_parameters: k, parameter_annotations: v }), q2),
        }
    } else if str_eq(name, "RuntimeVisibleTypeAnnotations") {
        let (k, q) = take_u16(data, pos);
        let k = match k {
            None => return (None, q),
            Some(k) => k,
        };
        match read_type_annotations(data, q, k) {
            (None, q2) => (None, q2),
            (Some(v), q2) => (Some(Attribute::RuntimeVisibleTypeAnnotations { attribute_name_index: ni, attribute_length: len, num_parameters: k, annotations: v }), q2),
        }
    } else if str_eq(name, "RuntimeInvisibleTypeAnnotations") {
        let (k, q) = take_u16(data, pos);
        let k = match k {
            None => return (None, q),
            Some(k) => k,
        };
        match read_type_annotations(data, q, k) {
            (None, q2) => (None, q2),
            (Some(v), q2) => (Some(Attribute::RuntimeInvisibleTypeAnnotations { attribute_name_index: ni, attribute_length: len, num_parameters: k, annotations: v }), q2),
        }
    } else if str_eq(name, "AnnotationDefault") {
        match ClassFile::read_annotation_element_value(data, pos) {
            (Err(_), q) => (None, q),
            (Ok(v), q) => (Some(Attribute::AnnotationDefault { attribute_name_index: ni, attribute_length: len, default_value: v }), q),
        }
    } else {
        (None, pos)
    }
}

/// The body of a `Module` attribute at `p`: name, flags and version, then the
/// requires, exports, opens, uses and provides tables, each after its count.
pub open spec fn parse_module_body(d: Seq<u8>, p: int, ni: u16, len: u32) -> (Option<SpecAttribute>, int) {
    match get_u16(d, p) {
        (None, q) => (None, q),
        (Some(mn), q) => match get_u16(d, q) {
            (None, q2) => (None, q2),
            (Some(mf), q2) => match get_u16(d, q2) {
                (None, q3) => (None, q3),
                (Some(mv), q3) => match get_u16(d, q3) {
                    (None, q4) => (None, q4),
                    (Some(rc), q4) => match get_table::<RequiresEntry>(d, q4, rc as nat) {
                        (None, q5) => (None, q5),
                        (Some(req), q5) => match get_u16(d, q5) {
                            (None, q6) => (None, q6),
                            (Some(ec), q6) => match get_table::<ExportsEntry>(d, q6, ec as nat) {
                                (None, q7) => (None, q7),
                                (Some(ex), q7) => match get_u16(d, q7) {
                                    (None, q8) => (None, q8),
                                    (Some(oc), q8) => match get_table::<OpensEntry>(d, q8, oc as nat) {
                                        (None, q9) => (None, q9),
                                        (Some(op), q9) => match get_u16(d, q9) {
                                            (None, q10) => (None, q10),
                                            (Some(uc), q10) => match get_u16s(d, q10, uc as nat) {
                                                (None, q11) => (None, q11),
                                                (Some(us), q11) => match get_u16(d, q11) {
                                                    (None, q12) => (None, q12),
                                                    (Some(pc), q12) => match get_table::<ProvidesEntry>(d, q12, pc as nat) {
                                                        (None, q13) => (None, q13),
                                                        (Some(pr), q13) => (
                                                            Some(SpecAttribute::Module {
                                                                attribute_name_index: ni,
                                                                attribute_length: len,
                                                                module_name_index: mn,
                                                                module_flags: mf,
                                                                module_version_index: mv,
                                                                requires_count: rc,
                                                                requires_entries: req,
                                                                exports_count: ec,
                                                                exports: ex,
                                                                opens_count: oc,
                                                                opens: op,
                                                                uses_count: uc,
                                                                uses_index: us,
                                                                provides_count: pc,
                                                                provides: pr,
                                                            }),
                                                            q13,
                                                        ),
                                                    },
                                                },
                                            },
                                        },
                                    },
                                },
                            },
                        },
                    },
                },
            },
        },
    }
}

/// Reads the body of a `Module` attribute at `pos`.
pub fn read_module_body(data: &[u8], pos: usize, ni: u16, len: u32) -> (r: (Option<Attribute>, usize))
    requires
        pos <= data@.len(),
    ensures
        read_matches(r, parse_module_body(data@, pos as int, ni, len)),
        pos <= r.1 <= data@.len(),
{
    let (x, q) = take_u16(data, pos);
    let module_name_index = match x {
        None => return (None, q),
        Some(x) => x,
    };
    let (x, q2) = take_u16(data, q);
    let module_flags = match x {
        None => return (None, q2),
        Some(x) => x,
    };
    let (x, q3) = take_u16(data, q2);
    let module_version_index = match x {
        None => return (None, q3),
        Some(x) => x,
    };
    let (x, q4) = take_u16(data, q3);
    let requires_count = match x {
        None => return (None, q4),
        Some(x) => x,
    };
    proof {
        lemma_table_bounds::<RequiresEntry>(data@, q4 as int, requires_count as nat);
    }
    let (t, q5) = read_table::<RequiresEntry>(data, q4, requires_count as usize);
    let requires_entries = match t {
        None => return (None, q5),
        Some(t) => t,
    };
    let (x, q6) = take_u16(data, q5);
    let exports_count = match x {
        None => return (None, q6),
        Some(x) => x,
    };
    proof {
        lemma_table_bounds::<ExportsEntry>(data@, q6 as int, exports_count as nat);
    }
    let (t, q7) = read_table::<ExportsEntry>(data, q6, exports_count as usize);
    let exports = match t {
        None => return (None, q7),
        Some(t) => t,
    };
    let (x, q8) = take_u16(data, q7);
    let opens_count = match x {
        None => return (None, q8),
        Some(x) => x,
    };
    proof {
        lemma_table_bounds::<OpensEntry>(data@, q8 as int, opens_count as nat);
    }
    let (t, q9) = read_table::<OpensEntry>(data, q8, opens_count as usize);
    let opens = match t {
        None => return (None, q9),
        Some(t) => t,
    };
    let (x, q10) = take_u16(data, q9);
    let uses_count = match x {
        None => return (None, q10),
        Some(x) => x,
    };
    let (t, q11) = read_u16s(data, q10, uses_count);
    let uses_index = match t {
        None => return (None, q11),
        Some(t) => t,
    };
    let (x, q12) = take_u16(data, q11);
    let provides_count = match x {
        None => return (None, q12),
        Some(x) => x,
    };
    proof {
        lemma_table_bounds::<ProvidesEntry>(data@, q12 as int, provides_count as nat);
    }
    let (t, q13) = read_table::<ProvidesEntry>(data, q12, provides_count as usize);
    let provides = match t {
        None => return (None, q13),
        Some(t) => t,
    };
    (
        Some(
            Attribute::Module {
                attribute_name_index: ni,
                attribute_length: len,
                module_name_index,
                module_flags,
                module_version_index,
                requires_count,
                requires_entries,
                exports_count,
                exports,
                opens_count,
                opens,
                uses_count,
                uses_index,
                provides_count,
                provides,
            },
        ),
        q13,
    )
}

/// An attribute at `p`: a name index and a length, then the body that the
/// name calls for. A name index that points at no `Utf8` entry fails after
/// the six header bytes.
pub open spec fn parse_attribute(cp: Seq<CpEntry>, d: Seq<u8>, p: int) -> (Option<SpecAttribute>, int)
    decreases remaining(d, p), 0nat,
{
    match get_u16(d, p) {
        (None, q) => (None, q),
        (Some(ni), q) => match get_u32(d, q) {
            (None, q2) => (None, q2),
            (Some(len), q2) => match attribute_name(cp, ni) {
                None => (None, q2),
                Some(name) => if is_list_name(name) {
                    parse_list_body(d, q2, name, ni, len)
                } else if is_annotation_name(name) {
                    parse_annotation_body(d, q2, name, ni, len)
                } else if name == "Module"@ {
                    parse_module_body(d, q2, ni, len)
                } else if name == "Code"@ {
                    parse_code_body(cp, d, q2, ni, len)
                } else if name == "Record"@ {
                    parse_record_body(cp, d, q2, ni, len)
                } else {
                    parse_fixed_body(d, q2, name, ni, len)
                },
            },
        },
    }
}

/// The body of a `Code` attribute as the format lays it out after the six
/// header bytes: the stack and locals sizes in two bytes each, the length of
/// the code in four, then the code bytes; the attribute keeps the name index
/// and the length it was given.
#[verifier::rlimit(50)]
pub proof fn lemma_code_layout(cp: Seq<CpEntry>, d: Seq<u8>, q: int, ni: u16, len: u32)
    requires
        0 <= q,
        parse_code_body(cp, d, q, ni, len).0 is Some,
    ensures
        parse_code_body(cp, d, q, ni, len).0 matches Some(
            SpecAttribute::Code { attribute_name_index, attribute_length, max_stack, max_locals, code_length, code, .. },
        ) && attribute_name_index == ni && attribute_length == len && max_stack == crate::class_reader::be16(d, q)
            && max_locals == crate::class_reader::be16(d, q + 2) && code_length == crate::class_reader::be32(d, q + 4)
            && code == d.subrange(q + 8, q + 8 + code_length),
{
    crate::class_reader::lemma_u16_value(d, q);
    crate::class_reader::lemma_u16_value(d, q + 2);
    crate::class_reader::lemma_u32_value(d, q + 4);
}

/// Why an attribute could not be read.
#[derive(Debug, Copy, Clone, PartialEq, Eq, Structural)]
pub enum AttributeReadError {
    /// The attribute's name index points past the end of the constant pool.
    NameNotFound,
    /// The attribute's name index points at an entry that is not `Utf8`.
    NameNotUtf8,
    /// The data ends inside the attribute, or its body is not valid.
    Malformed,
}

/// Why the attribute at `p` cannot be read, when it cannot: a name index
/// outside the pool, a name entry of another kind than `Utf8`, or else a
/// header or body that does not parse.
pub open spec fn attribute_error(cp: Seq<CpEntry>, d: Seq<u8>, p: int) -> AttributeReadError {
    match get_u16(d, p) {
        (Some(ni), q) => match get_u32(d, q) {
            (Some(_), _) => if ni >= cp.len() {
                AttributeReadError::NameNotFound
            } else if attribute_name(cp, ni) is None {
                AttributeReadError::NameNotUtf8
            } else {
                AttributeReadError::Malformed
            },
            _ => AttributeReadError::Malformed,
        },
        _ => AttributeReadError::Malformed,
    }
}

/// What a read of an attribute gives: the cursor where it stopped, and the
/// attribute exactly when the grammar gives one.
pub open spec fn attribute_read_matches(
    r: (Result<Attribute, AttributeReadError>, usize),
    s: (Option<SpecAttribute>, int),
) -> bool {
    &&& r.1 == s.1
    &&& r.0 is Ok == s.0 is Some
    &&& r.0 matches Ok(a) ==> a@ == s.0.unwrap()
}

/// The body of a `Code` attribute at `p`: stack and locals sizes, the code,
/// the exception table and the attributes of the code.
pub open spec fn parse_code_body(cp: Seq<CpEntry>, d: Seq<u8>, p: int, ni: u16, len: u32) -> (Option<SpecAttribute>, int)
    decreases remaining(d, p), 0nat,
{
    match get_u16(d, p) {
        (None, q) => (None, q),
        (Some(ms), q) => match get_u16(d, q) {
            (None, q2) => (None, q2),
            (Some(ml), q2) => match get_u32(d, q2) {
                (None, q3) => (None, q3),
                (Some(cl), q3) => match get_bytes(d, q3, cl as int) {
                    (None, q4) => (None, q4),
                    (Some(code), q4) => match get_u16(d, q4) {
                        (None, q5) => (None, q5),
                        (Some(el), q5) => match get_table::<ExceptionTableEntry>(d, q5, el as nat) {
                            (None, q6) => (None, q6),
                            (Some(et), q6) => match get_u16(d, q6) {
                                (None, q7) => (None, q7),
                                (Some(ac), q7) => {
                                    proof {
                                        lemma_table_bounds::<ExceptionTableEntry>(d, q5, el as nat);
                                    }
                                    let (attrs, q8) = parse_attributes(cp, d, q7, ac as nat);
                                    (
                                        Some(SpecAttribute::Code {
                                            attribute_name_index: ni,
                                            attribute_length: len,
                                            max_stack: ms,
                                            max_locals: ml,
                                            code_length: cl,
                                            code,
                                            exception_table_length: el,
                                            exception_table: et,
                                            attributes_count: ac,
                                            attributes: attrs,
                                        }),
                                        q8,
                                    )
                                },
                            },
                        },
                    },
                },
            },
        },
    }
}

/// The body of a `Record` attribute at `p`: a count and that many components.
pub open spec fn parse_record_body(cp: Seq<CpEntry>, d: Seq<u8>, p: int, ni: u16, len: u32) -> (Option<SpecAttribute>, int)
    decreases remaining(d, p), 0nat,
{
    match get_u16(d, p) {
        (None, q) => (None, q),
        (Some(k), q) => match parse_components(cp, d, q, k as nat) {
            (None, q2) => (None, q2),
            (Some(cs), q2) => (
                Some(SpecAttribute::Record { attribute_name_index: ni, attribute_length: len, components_count: k, components: cs }),
                q2,
            ),
        },
    }
}

/// `n` record components, each three words and that many attributes (of which
/// those that fail to read are left out); a word cut short ends the read.
pub open spec fn parse_components(cp: Seq<CpEntry>, d: Seq<u8>, p: int, n: nat) -> (Option<Seq<SpecRecordComponentInfo>>, int)
    decreases remaining(d, p), n,
{
    if n == 0 {
        (Some(Seq::empty()), p)
    } else {
        match parse_components(cp, d, p, (n - 1) as nat) {
            (None, q) => (None, q),
            (Some(s), q) => match get_u16(d, resume(p, q)) {
                (None, q2) => (None, q2),
                (Some(a), q2) => match get_u16(d, q2) {
                    (None, q3) => (None, q3),
                    (Some(b), q3) => match get_u16(d, q3) {
                        (None, q4) => (None, q4),
                        (Some(c), q4) => {
                            let (attrs, q5) = parse_attributes(cp, d, q4, c as nat);
                            (
                                Some(s.push(SpecRecordComponentInfo {
                                    name_index: a,
                                    descriptor_index: b,
                                    attributes_count: c,
                                    attributes: attrs,
                                })),
                                q5,
                            )
                        },
                    },
                },
            },
        }
    }
}

/// `n` attributes one after another; one that fails to read is left out and
/// reading goes on from where it stopped.
pub open spec fn parse_attributes(cp: Seq<CpEntry>, d: Seq<u8>, p: int, n: nat) -> (Seq<SpecAttribute>, int)
    decreases remaining(d, p), n,
{
    if n == 0 {
        (Seq::empty(), p)
    } else {
        let (s, q) = parse_attributes(cp, d, p, (n - 1) as nat);
        match parse_attribute(cp, d, resume(p, q)) {
            (None, q2) => (s, q2),
            (Some(a), q2) => (s.push(a), q2),
        }
    }
}

/// Once a read of record components fails, reading more of them fails at the same place.
pub proof fn lemma_components_fail_after(cp: Seq<CpEntry>, d: Seq<u8>, p: int, k: nat, n: nat)
    requires
        k <= n,
        parse_components(cp, d, p, k).0 is None,
    ensures
        parse_components(cp, d, p, n) == parse_components(cp, d, p, k),
    decreases n - k,
{
    if k < n {
        lemma_components_fail_after(cp, d, p, k, (n - 1) as nat);
    }
}

impl ClassFile {
    /// Reads an attribute at `pos`, naming it through the constant pool. The
    /// cursor where the read stopped comes back with the attribute or with
    /// why it could not be read.
    pub fn read_attribute(constant_pool: &Vec<ConstantPoolTags>, data: &[u8], pos: usize) -> (r: (
        Result<Attribute, AttributeReadError>,
        usize,
    ))
        requires
            pos <= data@.len(),
        ensures
            attribute_read_matches(r, parse_attribute(cp_view(constant_pool@), data@, pos as int)),
            r.0 matches Err(e) ==> e == attribute_error(cp_view(constant_pool@), data@, pos as int),
            pos <= r.1 <= data@.len(),
        decreases remaining(data@, pos as int), 0nat,
    {
        let (ni, q) = take_u16(data, pos);
        let ni = match ni {
            None => return (Err(AttributeReadError::Malformed), q),
            Some(x) => x,
        };
        let (len, q2) = take_u32(data, q);
        let len = match len {
            None => return (Err(AttributeReadError::Malformed), q2),
            Some(x) => x,
        };
        if (ni as usize) >= constant_pool.len() {
            return (Err(AttributeReadError::NameNotFound), q2);
        }
        let entry = &constant_pool[ni as usize];
        assert(cp_view(constant_pool@)[ni as int] == entry@);
        let name: &str = match entry {
            ConstantPoolTags::Utf8 { _value, .. } => _value.as_str(),
            _ => return (Err(AttributeReadError::NameNotUtf8), q2),
        };
        let body = if is_list_name_exec(name) {
            read_list_body(data, q2, name, ni, len)
        } else if is_annotation_name_exec(name) {
            read_annotation_body(data, q2, name, ni, len)
        } else if str_eq(name, "Module") {
            read_module_body(data, q2, ni, len)
        } else if str_eq(name, "Code") {
            ClassFile::read_code_body(constant_pool, data, q2, ni, len)
        } else if str_eq(name, "Record") {
            ClassFile::read_record_body(constant_pool, data, q2, ni, len)
        } else {
            read_fixed_body(data, q2, name, ni, len)
        };
        match body {
            (Some(a), q3) => (Ok(a), q3),
            (None, q3) => (Err(AttributeReadError::Malformed), q3),
        }
    }

    /// Reads the body of a `Code` attribute at `pos`.
    fn read_code_body(constant_pool: &Vec<ConstantPoolTags>, data: &[u8], pos: usize, ni: u16, len: u32) -> (r: (
        Option<Attribute>,
        usize,
    ))
        requires
            pos <= data@.len(),
        ensures
            read_matches(r, parse_code_body(cp_view(constant_pool@), data@, pos as int, ni, len)),
            pos <= r.1 <= data@.len(),
        decreases remaining(data@, pos as int), 0nat,
    {
        let (x, q) = take_u16(data, pos);
        let max_stack = match x {
            None => return (None, q),
            Some(x) => x,
        };
        let (x, q2) = take_u16(data, q);
        let max_locals = match x {
            None => return (None, q2),
            Some(x) => x,
        };
        let (x, q3) = take_u32(data, q2);
        let code_length = match x {
            None => return (None, q3),
            Some(x) => x,
        };
        let (c, q4) = read_bytes(data, q3, code_length as usize);
        let code = match c {
            None => return (None, q4),
            Some(c) => c,
        };
        let (x, q5) = take_u16(data, q4);
        let exception_table_length = match x {
            None => return (None, q5),
            Some(x) => x,
        };
        proof {
            lemma_table_bounds::<ExceptionTableEntry>(data@, q5 as int, exception_table_length as nat);
        }
        let (t, q6) = read_table::<ExceptionTableEntry>(data, q5, exception_table_length as usize);
        let exception_table = match t {
            None => return (None, q6),
            Some(t) => t,
        };
        let (x, q7) = take_u16(data, q6);
        let attributes_count = match x {
            None => return (None, q7),
            Some(x) => x,
        };
        let (attributes, q8) = ClassFile::read_attributes_vec(attributes_count, constant_pool, data, q7);
        let ghost av = attribute_views(attributes@);
        let a = Attribute::Code {
            attribute_name_index: ni,
            attribute_length: len,
            max_stack,
            max_locals,
            code_length,
            code,
            exception_table_length,
            exception_table,
            attributes_count,
            attributes,
        };
        assert(a@->Code_attributes =~= av);
        (Some(a), q8)
    }

    /// Reads the body of a `Record` attribute at `pos`.
    fn read_record_body(constant_pool: &Vec<ConstantPoolTags>, data: &[u8], pos: usize, ni: u16, len: u32) -> (r: (
        Option<Attribute>,
        usize,
    ))
        requires
            pos <= data@.len(),
        ensures
            read_matches(r, parse_record_body(cp_view(constant_pool@), data@, pos as int, ni, len)),
            pos <= r.1 <= data@.len(),
        decreases remaining(data@, pos as int), 0nat,
    {
        let (x, q) = take_u16(data, pos);
        let components_count = match x {
            None => return (None, q),
            Some(x) => x,
        };
        match ClassFile::read_components(components_count, constant_pool, data, q) {
            (None, q2) => (None, q2),
            (Some(components), q2) => {
                let ghost cv = component_views(components@);
                let a = Attribute::Record { attribute_name_index: ni, attribute_length: len, components_count, components };
                assert(a@->Record_components =~= cv);
                (Some(a), q2)
            },
        }
    }

    /// Reads `n` record components at `pos`.
    fn read_components(n: u16, constant_pool: &Vec<ConstantPoolTags>, data: &[u8], pos: usize) -> (r: (
        Option<Vec<RecordComponentInfo>>,
        usize,
    ))
        requires
            pos <= data@.len(),
        ensures
            r.1 == parse_components(cp_view(constant_pool@), data@, pos as int, n as nat).1,
            r.0 is Some == parse_components(cp_view(constant_pool@), data@, pos as int, n as nat).0 is Some,
            r.0 matches Some(v) ==> component_views(v@) == parse_components(cp_view(constant_pool@), data@, pos as int, n as nat).0.unwrap(),
            pos <= r.1 <= data@.len(),
        decreases remaining(data@, pos as int), n as nat,
    {
        let ghost cpv = cp_view(constant_pool@);
        let mut out: Vec<RecordComponentInfo> = Vec::new();
        let mut cur = pos;
        let mut i: u16 = 0;
        assert(component_views(out@) =~= Seq::empty());
        while i < n
            invariant
                i <= n,
                pos <= cur <= data@.len(),
                cpv == cp_view(constant_pool@),
                parse_components(cpv, data@, pos as int, i as nat) == (Some(component_views(out@)), cur as int),
            decreases n - i,
        {
            let (x, q) = take_u16(data, cur);
            let name_index = match x {
                None => {
                    proof {
                        lemma_components_fail_after(cpv, data@, pos as int, (i + 1) as nat, n as nat);
                    }
                    return (None, q);
                },
                Some(x) => x,
            };
            let (x, q2) = take_u16(data, q);
            let descriptor_index = match x {
                None => {
                    proof {
                        lemma_components_fail_after(cpv, data@, pos as int, (i + 1) as nat, n as nat);
                    }
                    return (None, q2);
                },
                Some(x) => x,
            };
            let (x, q3) = take_u16(data, q2);
            let attributes_count = match x {
                None => {
                    proof {
                        lemma_components_fail_after(cpv, data@, pos as int, (i + 1) as nat, n as nat);
                    }
                    return (None, q3);
                },
                Some(x) => x,
            };
            let (attributes, q4) = ClassFile::read_attributes_vec(attributes_count, constant_pool, data, q3);
            let ghost before = out@;
            let c = RecordComponentInfo { name_index, descriptor_index, attributes_count, attributes };
            let ghost cview = c@;
            assert(cview.attributes =~= attribute_views(c.attributes@));
            out.push(c);
            assert(component_views(out@) =~= component_views(before).push(cview));
            cur = q4;
            i = i + 1;
        }
        (Some(out), cur)
    }

    /// Reads `count` attributes at `pos`, leaving out those that fail to read.
    pub fn read_attributes_vec(count: u16, constant_pool: &Vec<ConstantPoolTags>, data: &[u8], pos: usize) -> (r: (
        Vec<Attribute>,
        usize,
    ))
        requires
            pos <= data@.len(),
        ensures
            attribute_views(r.0@) == parse_attributes(cp_view(constant_pool@), data@, pos as int, count as nat).0,
            r.1 == parse_attributes(cp_view(constant_pool@), data@, pos as int, count as nat).1,
            pos <= r.1 <= data@.len(),
        decreases remaining(data@, pos as int), count as nat,
    {
        let ghost cpv = cp_view(constant_pool@);
        let mut out: Vec<Attribute> = Vec::new();
        let mut cur = pos;
        let mut i: u16 = 0;
        assert(attribute_views(out@) =~= Seq::empty());
        while i < count
            invariant
                i <= count,
                pos <= cur <= data@.len(),
                cpv == cp_view(constant_pool@),
                parse_attributes(cpv, data@, pos as int, i as nat) == (attribute_views(out@), cur as int),
            decreases count - i,
        {
            let (a, q) = ClassFile::read_attribute(constant_pool, data, cur);
            let ghost before = out@;
            match a {
                Err(_) => {},
                Ok(a) => {
                    let ghost av = a@;
                    out.push(a);
                    assert(attribute_views(out@) =~= attribute_views(before).push(av));
                },
            }
            cur = q;
            i = i + 1;
        }
        (out, cur)
    }
}

/// Whether an attribute of this name is a count followed by a list of entries.
fn is_list_name_exec(name: &str) -> (r: bool)
    ensures
        r == is_list_name(name@),
{
    str_eq(name, "Exceptions") || str_eq(name, "NestMembers") || str_eq(name, "PermittedSubclasses") || str_eq(
        name,
        "ModulePackages",
    ) || str_eq(name, "InnerClasses") || str_eq(name, "LineNumberTable") || str_eq(name, "LocalVariableTable")
        || str_eq(name, "LocalVariableTypeTable") || str_eq(name, "MethodParameters") || str_eq(
        name,
        "BootstrapMethods",
    )
}

/// Whether an attribute of this name is made of frames or annotations.
fn is_annotation_name_exec(name: &str) -> (r: bool)
    ensures
        r == is_annotation_name(name@),
{
    str_eq(name, "StackMapTable") || str_eq(name, "RuntimeVisibleAnnotations") || str_eq(
        name,
        "RuntimeInvisibleAnnotations",
    ) || str_eq(name, "RuntimeVisibleParameterAnnotations") || str_eq(name, "RuntimeInvisibleParameterAnnotations")
        || str_eq(name, "RuntimeVisibleTypeAnnotations") || str_eq(name, "RuntimeInvisibleTypeAnnotations")
        || str_eq(name, "AnnotationDefault")
}

} // verus!
