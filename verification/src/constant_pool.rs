//! Entries of a class file's constant pool: their model, their encoding and
//! the resolution of string constants.
use crate::bytes::{copy_range, put_bytes, put_u16, put_u32, put_u8, u16_bytes, u32_bytes};
use crate::text::push_decimal;
use vstd::prelude::*;
use vstd::string::StringExecFns;
use vstd::utf8::encode_utf8;

verus! {

/// One constant-pool entry. `ContinuationTag` fills the slot after a long or a
/// double and the unused slot 0. The `tag` fields keep what the reader stored;
/// writing goes by the variant.
#[derive(Debug, Clone)]
#[allow(inconsistent_fields)]
pub enum ConstantPoolTags {
    ContinuationTag { tag: u8 },
    Utf8 { tag: u8, length: u16, bytes: Vec<u8>, _value: String },
    Integer { tag: u8, bytes: u32, _value: i32 },
    Float { tag: u8, bytes: u32 },
    Long { tag: u8, high_bytes: u32, low_bytes: u32, _value: i64 },
    Double { tag: u8, high_bytes: u32, low_bytes: u32 },
    Class { tag: u8, name_index: u16 },
    String { tag: u8, string_index: u16 },
    Fieldref { tag: u8, class_index: u16, name_and_type_index: u16 },
    Methodref { tag: u8, class_index: u16, name_and_type_index: u16 },
    InterfaceMethodref { tag: u8, class_index: u16, name_and_type_index: u16 },
    NameAndType { tag: u8, name_index: u16, descriptor_index: u16 },
    MethodHandle { tag: u8, reference_kind: u8, reference_index: u16 },
    MethodType { tag: u8, descriptor_index: u16 },
    Dynamic { tag: u8, bootstrap_method_attr_index: u16, name_and_type_index: u16 },
    InvokeDynamic { tag: u8, bootstrap_method_attr_index: u16, name_and_type_index: u16 },
    Module { tag: u8, name_index: u16 },
    Package { tag: u8, name_index: u16 },
}

/// The abstract value of a constant-pool entry: byte and character sequences
/// in place of vectors and strings.
#[allow(inconsistent_fields)]
pub enum CpEntry {
    ContinuationTag { tag: u8 },
    Utf8 { tag: u8, length: u16, bytes: Seq<u8>, value: Seq<char> },
    Integer { tag: u8, bytes: u32, value: i32 },
    Float { tag: u8, bytes: u32 },
    Long { tag: u8, high_bytes: u32, low_bytes: u32, value: i64 },
    Double { tag: u8, high_bytes: u32, low_bytes: u32 },
    Class { tag: u8, name_index: u16 },
    String { tag: u8, string_index: u16 },
    Fieldref { tag: u8, class_index: u16, name_and_type_index: u16 },
    Methodref { tag: u8, class_index: u16, name_and_type_index: u16 },
    InterfaceMethodref { tag: u8, class_index: u16, name_and_type_index: u16 },
    NameAndType { tag: u8, name_index: u16, descriptor_index: u16 },
    MethodHandle { tag: u8, reference_kind: u8, reference_index: u16 },
    MethodType { tag: u8, descriptor_index: u16 },
    Dynamic { tag: u8, bootstrap_method_attr_index: u16, name_and_type_index: u16 },
    InvokeDynamic { tag: u8, bootstrap_method_attr_index: u16, name_and_type_index: u16 },
    Module { tag: u8, name_index: u16 },
    Package { tag: u8, name_index: u16 },
}

impl View for ConstantPoolTags {
    type V = CpEntry;

    open spec fn view(&self) -> CpEntry {
        match self {
            ConstantPoolTags::ContinuationTag { tag } => CpEntry::ContinuationTag { tag: *tag },
            ConstantPoolTags::Utf8 { tag, length, bytes, _value } => CpEntry::Utf8 {
                tag: *tag,
                length: *length,
                bytes: bytes@,
                value: _value@,
            },
            ConstantPoolTags::Integer { tag, bytes, _value } => CpEntry::Integer {
                tag: *tag,
                bytes: *bytes,
                value: *_value,
            },
            ConstantPoolTags::Float { tag, bytes } => CpEntry::Float { tag: *tag, bytes: *bytes },
            ConstantPoolTags::Long { tag, high_bytes, low_bytes, _value } => CpEntry::Long {
                tag: *tag,
                high_bytes: *high_bytes,
                low_bytes: *low_bytes,
                value: *_value,
            },
            ConstantPoolTags::Double { tag, high_bytes, low_bytes } => CpEntry::Double {
                tag: *tag,
                high_bytes: *high_bytes,
                low_bytes: *low_bytes,
            },
            ConstantPoolTags::Class { tag, name_index } => CpEntry::Class {
                tag: *tag,
                name_index: *name_index,
            },
            ConstantPoolTags::String { tag, string_index } => CpEntry::String {
                tag: *tag,
                string_index: *string_index,
            },
            ConstantPoolTags::Fieldref { tag, class_index, name_and_type_index } => CpEntry::Fieldref {
                tag: *tag,
                class_index: *class_index,
                name_and_type_index: *name_and_type_index,
            },
            ConstantPoolTags::Methodref { tag, class_index, name_and_type_index } => CpEntry::Methodref {
                tag: *tag,
                class_index: *class_index,
                name_and_type_index: *name_and_type_index,
            },
            ConstantPoolTags::InterfaceMethodref { tag, class_index, name_and_type_index } => {
                CpEntry::InterfaceMethodref {
                    tag: *tag,
                    class_index: *class_index,
                    name_and_type_index: *name_and_type_index,
                }
            },
            ConstantPoolTags::NameAndType { tag, name_index, descriptor_index } => CpEntry::NameAndType {
                tag: *tag,
                name_index: *name_index,
                descriptor_index: *descriptor_index,
            },
            ConstantPoolTags::MethodHandle { tag, reference_kind, reference_index } => CpEntry::MethodHandle {
                tag: *tag,
                reference_kind: *reference_kind,
                reference_index: *reference_index,
            },
            ConstantPoolTags::MethodType { tag, descriptor_index } => CpEntry::MethodType {
                tag: *tag,
                descriptor_index: *descriptor_index,
            },
            ConstantPoolTags::Dynamic { tag, bootstrap_method_attr_index, name_and_type_index } => {
                CpEntry::Dynamic {
                    tag: *tag,
                    bootstrap_method_attr_index: *bootstrap_method_attr_index,
                    name_and_type_index: *name_and_type_index,
                }
            },
            ConstantPoolTags::InvokeDynamic { tag, bootstrap_method_attr_index, name_and_type_index } => {
                CpEntry::InvokeDynamic {
                    tag: *tag,
                    bootstrap_method_attr_index: *bootstrap_method_attr_index,
                    name_and_type_index: *name_and_type_index,
                }
            },
            ConstantPoolTags::Module { tag, name_index } => CpEntry::Module {
                tag: *tag,
                name_index: *name_index,
            },
            ConstantPoolTags::Package { tag, name_index } => CpEntry::Package {
                tag: *tag,
                name_index: *name_index,
            },
        }
    }
}

/// The entry that fills unused constant-pool slots.
pub fn continuation_tag() -> (r: ConstantPoolTags)
    ensures
        r@ == (CpEntry::ContinuationTag { tag: 0 }),
{
    ConstantPoolTags::ContinuationTag { tag: 0 }
}

/// The tag byte with which an entry of this kind is written.
pub open spec fn entry_tag(e: CpEntry) -> u8 {
    match e {
        CpEntry::ContinuationTag { .. } => 0,
        CpEntry::Utf8 { .. } => 1,
        CpEntry::Integer { .. } => 3,
        CpEntry::Float { .. } => 4,
        CpEntry::Long { .. } => 5,
        CpEntry::Double { .. } => 6,
        CpEntry::Class { .. } => 7,
        CpEntry::String { .. } => 8,
        CpEntry::Fieldref { .. } => 9,
        CpEntry::Methodref { .. } => 10,
        CpEntry::InterfaceMethodref { .. } => 11,
        CpEntry::NameAndType { .. } => 12,
        CpEntry::MethodHandle { .. } => 15,
        CpEntry::MethodType { .. } => 16,
        CpEntry::Dynamic { .. } => 17,
        CpEntry::InvokeDynamic { .. } => 18,
        CpEntry::Module { .. } => 19,
        CpEntry::Package { .. } => 20,
    }
}

/// The bytes of an entry in a class file: nothing for a continuation slot,
/// otherwise the tag byte followed by the entry's fields, big-endian.
pub open spec fn entry_bytes(e: CpEntry) -> Seq<u8> {
    match e {
        CpEntry::ContinuationTag { .. } => Seq::empty(),
        CpEntry::Utf8 { length, bytes, .. } => seq![1u8] + u16_bytes(length) + bytes,
        CpEntry::Integer { bytes, .. } => seq![3u8] + u32_bytes(bytes),
        CpEntry::Float { bytes, .. } => seq![4u8] + u32_bytes(bytes),
        CpEntry::Long { high_bytes, low_bytes, .. } => seq![5u8] + u32_bytes(high_bytes) + u32_bytes(low_bytes),
        CpEntry::Double { high_bytes, low_bytes, .. } => seq![6u8] + u32_bytes(high_bytes) + u32_bytes(low_bytes),
        CpEntry::Class { name_index, .. } => seq![7u8] + u16_bytes(name_index),
        CpEntry::String { string_index, .. } => seq![8u8] + u16_bytes(string_index),
        CpEntry::Fieldref { class_index, name_and_type_index, .. } => seq![9u8] + u16_bytes(class_index)
            + u16_bytes(name_and_type_index),
        CpEntry::Methodref { class_index, name_and_type_index, .. } => seq![10u8] + u16_bytes(class_index)
            + u16_bytes(name_and_type_index),
        CpEntry::InterfaceMethodref { class_index, name_and_type_index, .. } => seq![11u8] + u16_bytes(
            class_index,
        ) + u16_bytes(name_and_type_index),
        CpEntry::NameAndType { name_index, descriptor_index, .. } => seq![12u8] + u16_bytes(name_index)
            + u16_bytes(descriptor_index),
        CpEntry::MethodHandle { reference_kind, reference_index, .. } => seq![15u8, reference_kind]
            + u16_bytes(reference_index),
        CpEntry::MethodType { descriptor_index, .. } => seq![16u8] + u16_bytes(descriptor_index),
        CpEntry::Dynamic { bootstrap_method_attr_index, name_and_type_index, .. } => seq![17u8] + u16_bytes(
            bootstrap_method_attr_index,
        ) + u16_bytes(name_and_type_index),
        CpEntry::InvokeDynamic { bootstrap_method_attr_index, name_and_type_index, .. } => seq![18u8]
            + u16_bytes(bootstrap_method_attr_index) + u16_bytes(name_and_type_index),
        CpEntry::Module { name_index, .. } => seq![19u8] + u16_bytes(name_index),
        CpEntry::Package { name_index, .. } => seq![20u8] + u16_bytes(name_index),
    }
}

impl ConstantPoolTags {
    /// The tag byte with which this entry is written (0 for a continuation slot).
    pub fn jvm_tag(&self) -> (r: u8)
        ensures
            r == entry_tag(self@),
    {
        match self {
            ConstantPoolTags::ContinuationTag { .. } => 0,
            ConstantPoolTags::Utf8 { .. } => 1,
            ConstantPoolTags::Integer { .. } => 3,
            ConstantPoolTags::Float { .. } => 4,
            ConstantPoolTags::Long { .. } => 5,
            ConstantPoolTags::Double { .. } => 6,
            ConstantPoolTags::Class { .. } => 7,
            ConstantPoolTags::String { .. } => 8,
            ConstantPoolTags::Fieldref { .. } => 9,
            ConstantPoolTags::Methodref { .. } => 10,
            ConstantPoolTags::InterfaceMethodref { .. } => 11,
            ConstantPoolTags::NameAndType { .. } => 12,
            ConstantPoolTags::MethodHandle { .. } => 15,
            ConstantPoolTags::MethodType { .. } => 16,
            ConstantPoolTags::Dynamic { .. } => 17,
            ConstantPoolTags::InvokeDynamic { .. } => 18,
            ConstantPoolTags::Module { .. } => 19,
            ConstantPoolTags::Package { .. } => 20,
        }
    }

    /// Appends the entry's bytes in class-file form.
    pub fn write(self, buff: &mut Vec<u8>)
        ensures
            final(buff)@ == old(buff)@ + entry_bytes(self@),
    {
        self.emit(buff)
    }

    /// The entry's bytes in class-file form.
    pub fn to_bytes(self) -> (r: Vec<u8>)
        ensures
            r@ == entry_bytes(self@),
    {
        let mut out: Vec<u8> = Vec::new();
        self.emit(&mut out);
        assert(out@ =~= entry_bytes(self@));
        out
    }

    /// Appends the entry's bytes in class-file form.
    pub fn emit(&self, buff: &mut Vec<u8>)
        ensures
            final(buff)@ == old(buff)@ + entry_bytes(self@),
    {
        let ghost b0 = buff@;
        match self {
            ConstantPoolTags::ContinuationTag { .. } => {
                assert(buff@ =~= b0 + entry_bytes(self@));
                return;
            },
            _ => put_u8(buff, self.jvm_tag()),
        }
        match self {
            ConstantPoolTags::ContinuationTag { .. } => {},
            ConstantPoolTags::Utf8 { length, bytes, .. } => {
                put_u16(buff, *length);
                put_bytes(buff, bytes.as_slice());
            },
            ConstantPoolTags::Integer { bytes, .. } => put_u32(buff, *bytes),
            ConstantPoolTags::Float { bytes, .. } => put_u32(buff, *bytes),
            ConstantPoolTags::Long { high_bytes, low_bytes, .. } => {
                put_u32(buff, *high_bytes);
                put_u32(buff, *low_bytes);
            },
            ConstantPoolTags::Double { high_bytes, low_bytes, .. } => {
                put_u32(buff, *high_bytes);
                put_u32(buff, *low_bytes);
            },
            ConstantPoolTags::Class { name_index, .. } => put_u16(buff, *name_index),
            ConstantPoolTags::String { string_index, .. } => put_u16(buff, *string_index),
            ConstantPoolTags::Fieldref { class_index, name_and_type_index, .. } => {
                put_u16(buff, *class_index);
                put_u16(buff, *name_and_type_index);
            },
            ConstantPoolTags::Methodref { class_index, name_and_type_index, .. } => {
                put_u16(buff, *class_index);
                put_u16(buff, *name_and_type_index);
            },
            ConstantPoolTags::InterfaceMethodref { class_index, name_and_type_index, .. } => {
                put_u16(buff, *class_index);
                put_u16(buff, *name_and_type_index);
            },
            ConstantPoolTags::NameAndType { name_index, descriptor_index, .. } => {
                put_u16(buff, *name_index);
                put_u16(buff, *descriptor_index);
            },
            ConstantPoolTags::MethodHandle { reference_kind, reference_index, .. } => {
                put_u8(buff, *reference_kind);
                put_u16(buff, *reference_index);
            },
            ConstantPoolTags::MethodType { descriptor_index, .. } => put_u16(buff, *descriptor_index),
            ConstantPoolTags::Dynamic { bootstrap_method_attr_index, name_and_type_index, .. } => {
                put_u16(buff, *bootstrap_method_attr_index);
                put_u16(buff, *name_and_type_index);
            },
            ConstantPoolTags::InvokeDynamic { bootstrap_method_attr_index, name_and_type_index, .. } => {
                put_u16(buff, *bootstrap_method_attr_index);
                put_u16(buff, *name_and_type_index);
            },
            ConstantPoolTags::Module { name_index, .. } => put_u16(buff, *name_index),
            ConstantPoolTags::Package { name_index, .. } => put_u16(buff, *name_index),
        }
        assert(buff@ =~= b0 + entry_bytes(self@));
    }

    /// A copy of the entry.
    pub fn duplicate(&self) -> (r: ConstantPoolTags)
        ensures
            r@ == self@,
    {
        match self {
            ConstantPoolTags::Utf8 { tag, length, bytes, _value } => {
                let b = copy_range(bytes.as_slice(), 0, bytes.len());
                assert(b@ =~= bytes@);
                ConstantPoolTags::Utf8 { tag: *tag, length: *length, bytes: b, _value: _value.clone() }
            },
            ConstantPoolTags::ContinuationTag { tag } => ConstantPoolTags::ContinuationTag { tag: *tag },
            ConstantPoolTags::Integer { tag, bytes, _value } => ConstantPoolTags::Integer {
                tag: *tag,
                bytes: *bytes,
                _value: *_value,
            },
            ConstantPoolTags::Float { tag, bytes } => ConstantPoolTags::Float { tag: *tag, bytes: *bytes },
            ConstantPoolTags::Long { tag, high_bytes, low_bytes, _value } => ConstantPoolTags::Long {
                tag: *tag,
                high_bytes: *high_bytes,
                low_bytes: *low_bytes,
                _value: *_value,
            },
            ConstantPoolTags::Double { tag, high_bytes, low_bytes } => ConstantPoolTags::Double {
                tag: *tag,
                high_bytes: *high_bytes,
                low_bytes: *low_bytes,
            },
            ConstantPoolTags::Class { tag, name_index } => ConstantPoolTags::Class {
                tag: *tag,
                name_index: *name_index,
            },
            ConstantPoolTags::String { tag, string_index } => ConstantPoolTags::String {
                tag: *tag,
                string_index: *string_index,
            },
            ConstantPoolTags::Fieldref { tag, class_index, name_and_type_index } => ConstantPoolTags::Fieldref {
                tag: *tag,
                class_index: *class_index,
                name_and_type_index: *name_and_type_index,
            },
            ConstantPoolTags::Methodref { tag, class_index, name_and_type_index } => ConstantPoolTags::Methodref {
                tag: *tag,
                class_index: *class_index,
                name_and_type_index: *name_and_type_index,
            },
            ConstantPoolTags::InterfaceMethodref { tag, class_index, name_and_type_index } => {
                ConstantPoolTags::InterfaceMethodref {
                    tag: *tag,
                    class_index: *class_index,
                    name_and_type_index: *name_and_type_index,
                }
            },
            ConstantPoolTags::NameAndType { tag, name_index, descriptor_index } => {
                ConstantPoolTags::NameAndType {
                    tag: *tag,
                    name_index: *name_index,
                    descriptor_index: *descriptor_index,
                }
            },
            ConstantPoolTags::MethodHandle { tag, reference_kind, reference_index } => {
                ConstantPoolTags::MethodHandle {
                    tag: *tag,
                    reference_kind: *reference_kind,
                    reference_index: *reference_index,
                }
            },
            ConstantPoolTags::MethodType { tag, descriptor_index } => ConstantPoolTags::MethodType {
                tag: *tag,
                descriptor_index: *descriptor_index,
            },
            ConstantPoolTags::Dynamic { tag, bootstrap_method_attr_index, name_and_type_index } => {
                ConstantPoolTags::Dynamic {
                    tag: *tag,
                    bootstrap_method_attr_index: *bootstrap_method_attr_index,
                    name_and_type_index: *name_and_type_index,
                }
            },
            ConstantPoolTags::InvokeDynamic { tag, bootstrap_method_attr_index, name_and_type_index } => {
                ConstantPoolTags::InvokeDynamic {
                    tag: *tag,
                    bootstrap_method_attr_index: *bootstrap_method_attr_index,
                    name_and_type_index: *name_and_type_index,
                }
            },
            ConstantPoolTags::Module { tag, name_index } => ConstantPoolTags::Module {
                tag: *tag,
                name_index: *name_index,
            },
            ConstantPoolTags::Package { tag, name_index } => ConstantPoolTags::Package {
                tag: *tag,
                name_index: *name_index,
            },
        }
    }
}

/// The text that a string-like entry resolves to, following `String` entries
/// to the `Utf8` entry they name. An index already in `visited` resolves to the
/// empty text; `None` when the chain does not end within `fuel` steps.
pub open spec fn resolve_string(cp: Seq<CpEntry>, e: CpEntry, visited: Seq<u16>, fuel: nat) -> Option<Seq<char>>
    decreases fuel,
{
    if fuel == 0 {
        None
    } else {
        match e {
            CpEntry::Utf8 { value, .. } => Some(value),
            CpEntry::String { string_index, .. } => {
                if visited.contains(string_index) {
                    Some(Seq::empty())
                } else if string_index >= cp.len() {
                    Some("<error: tag with index="@ + crate::text::decimal(string_index as nat)
                        + " does not exist>"@)
                } else {
                    resolve_string(cp, cp[string_index as int], visited, (fuel - 1) as nat)
                }
            },
            _ => Some("<error: not String or Utf8 tag>"@),
        }
    }
}

/// The constant pool as abstract entries.
pub open spec fn cp_view(cp: Seq<ConstantPoolTags>) -> Seq<CpEntry> {
    cp.map_values(|t: ConstantPoolTags| t@)
}

fn contains_u16(v: &Vec<u16>, x: u16) -> (r: bool)
    ensures
        r == v@.contains(x),
{
    let mut i: usize = 0;
    while i < v.len()
        invariant
            i <= v@.len(),
            forall|j: int| 0 <= j < i ==> v@[j] != x,
        decreases v@.len() - i,
    {
        if v[i] == x {
            return true;
        }
        i = i + 1;
    }
    false
}

impl ConstantPoolTags {
    /// The text that a `Utf8` or `String` entry stands for, following `String`
    /// entries through the pool; the chain must end (an index already visited
    /// ends it).
    pub fn string_tag_to_string(
        constant_pool: &Vec<ConstantPoolTags>,
        string: ConstantPoolTags,
        visited_entries: Option<Vec<u16>>,
    ) -> (r: String)
        requires
            resolve_string(
                cp_view(constant_pool@),
                string@,
                match visited_entries { Some(v) => v@, None => Seq::empty() },
                (constant_pool@.len() + 1) as nat,
            ) is Some,
        ensures
            r@ == resolve_string(
                cp_view(constant_pool@),
                string@,
                match visited_entries { Some(v) => v@, None => Seq::empty() },
                (constant_pool@.len() + 1) as nat,
            ).unwrap(),
    {
        let ghost vseq = match visited_entries { Some(ref v) => v@, None => Seq::<u16>::empty() };
        let visited = match visited_entries {
            Some(v) => v,
            None => Vec::new(),
        };
        assert(visited@ == vseq);
        assert(resolve_string(cp_view(constant_pool@), string@, vseq, (constant_pool@.len() + 1) as nat) is Some);
        let ghost cpv = cp_view(constant_pool@);
        let ghost fuel0 = (constant_pool@.len() + 1) as nat;
        let ghost goal = resolve_string(cpv, string@, visited@, fuel0);
        let mut cur: &ConstantPoolTags = &string;
        let ghost mut fuel: nat = fuel0;
        loop
            invariant
                resolve_string(cpv, cur@, visited@, fuel) == goal,
                goal is Some,
                cpv == cp_view(constant_pool@),
                goal == resolve_string(
                    cp_view(constant_pool@),
                    string@,
                    match visited_entries { Some(v) => v@, None => Seq::empty() },
                    (constant_pool@.len() + 1) as nat,
                ),
            decreases fuel,
        {
            assert(fuel > 0);
            match cur {
                ConstantPoolTags::Utf8 { _value, .. } => {
                    let r = _value.clone();
                    assert(r@ == goal.unwrap());
                    return r;
                },
                ConstantPoolTags::String { string_index, .. } => {
                    if contains_u16(&visited, *string_index) {
                        let r = String::new();
                        assert(r@ =~= goal.unwrap());
                        return r;
                    }
                    if (*string_index as usize) >= constant_pool.len() {
                        let mut r = String::from_str("<error: tag with index=");
                        push_decimal(&mut r, *string_index as u64);
                        r.append(" does not exist>");
                        return r;
                    }
                    proof {
                        assert(cpv[*string_index as int] == constant_pool@[*string_index as int]@);
                        fuel = (fuel - 1) as nat;
                    }
                    cur = &constant_pool[*string_index as usize];
                },
                _ => {
                    return String::from_str("<error: not String or Utf8 tag>");
                },
            }
        }
    }
}

/// Kinds of constant-pool entries by their tag byte; `INVALID` for bytes that
/// name no kind.
#[derive(Debug, Clone, Copy, PartialEq, Eq, Structural)]
pub enum ConstantPoolJvmTag {
    INVALID,
    Utf8,
    Integer,
    Float,
    Long,
    Double,
    Class,
    String,
    Fieldref,
    Methodref,
    InterfaceMethodref,
    NameAndType,
    MethodHandle,
    MethodType,
    Dynamic,
    InvokeDynamic,
    Module,
    Package,
}

/// The kind that a tag byte names.
pub open spec fn jvm_tag_of(value: u8) -> ConstantPoolJvmTag {
    if value == 1 {
        ConstantPoolJvmTag::Utf8
    } else if value == 3 {
        ConstantPoolJvmTag::Integer
    } else if value == 4 {
        ConstantPoolJvmTag::Float
    } else if value == 5 {
        ConstantPoolJvmTag::Long
    } else if value == 6 {
        ConstantPoolJvmTag::Double
    } else if value == 7 {
        ConstantPoolJvmTag::Class
    } else if value == 8 {
        ConstantPoolJvmTag::String
    } else if value == 9 {
        ConstantPoolJvmTag::Fieldref
    } else if value == 10 {
        ConstantPoolJvmTag::Methodref
    } else if value == 11 {
        ConstantPoolJvmTag::InterfaceMethodref
    } else if value == 12 {
        ConstantPoolJvmTag::NameAndType
    } else if value == 15 {
        ConstantPoolJvmTag::MethodHandle
    } else if value == 16 {
        ConstantPoolJvmTag::MethodType
    } else if value == 17 {
        ConstantPoolJvmTag::Dynamic
    } else if value == 18 {
        ConstantPoolJvmTag::InvokeDynamic
    } else if value == 19 {
        ConstantPoolJvmTag::Module
    } else if value == 20 {
        ConstantPoolJvmTag::Package
    } else {
        ConstantPoolJvmTag::INVALID
    }
}

/// The tag byte of a kind (0 for `INVALID`).
pub open spec fn jvm_tag_byte(t: ConstantPoolJvmTag) -> u8 {
    match t {
        ConstantPoolJvmTag::INVALID => 0,
        ConstantPoolJvmTag::Utf8 => 1,
        ConstantPoolJvmTag::Integer => 3,
        ConstantPoolJvmTag::Float => 4,
        ConstantPoolJvmTag::Long => 5,
        ConstantPoolJvmTag::Double => 6,
        ConstantPoolJvmTag::Class => 7,
        ConstantPoolJvmTag::String => 8,
        ConstantPoolJvmTag::Fieldref => 9,
        ConstantPoolJvmTag::Methodref => 10,
        ConstantPoolJvmTag::InterfaceMethodref => 11,
        ConstantPoolJvmTag::NameAndType => 12,
        ConstantPoolJvmTag::MethodHandle => 15,
        ConstantPoolJvmTag::MethodType => 16,
        ConstantPoolJvmTag::Dynamic => 17,
        ConstantPoolJvmTag::InvokeDynamic => 18,
        ConstantPoolJvmTag::Module => 19,
        ConstantPoolJvmTag::Package => 20,
    }
}

impl ConstantPoolJvmTag {
    /// The kind that a tag byte names.
    pub fn from_u8(value: u8) -> (r: ConstantPoolJvmTag)
        ensures
            r == jvm_tag_of(value),
    {
        if value == 1 {
            ConstantPoolJvmTag::Utf8
        } else if value == 3 {
            ConstantPoolJvmTag::Integer
        } else if value == 4 {
            ConstantPoolJvmTag::Float
        } else if value == 5 {
            ConstantPoolJvmTag::Long
        } else if value == 6 {
            ConstantPoolJvmTag::Double
        } else if value == 7 {
            ConstantPoolJvmTag::Class
        } else if value == 8 {
            ConstantPoolJvmTag::String
        } else if value == 9 {
            ConstantPoolJvmTag::Fieldref
        } else if value == 10 {
            ConstantPoolJvmTag::Methodref
        } else if value == 11 {
            ConstantPoolJvmTag::InterfaceMethodref
        } else if value == 12 {
            ConstantPoolJvmTag::NameAndType
        } else if value == 15 {
            ConstantPoolJvmTag::MethodHandle
        } else if value == 16 {
            ConstantPoolJvmTag::MethodType
        } else if value == 17 {
            ConstantPoolJvmTag::Dynamic
        } else if value == 18 {
            ConstantPoolJvmTag::InvokeDynamic
        } else if value == 19 {
            ConstantPoolJvmTag::Module
        } else if value == 20 {
            ConstantPoolJvmTag::Package
        } else {
            ConstantPoolJvmTag::INVALID
        }
    }

    /// The tag byte of this kind.
    pub fn into_u8(self) -> (r: u8)
        ensures
            r == jvm_tag_byte(self),
    {
        match self {
            ConstantPoolJvmTag::INVALID => 0,
            ConstantPoolJvmTag::Utf8 => 1,
            ConstantPoolJvmTag::Integer => 3,
            ConstantPoolJvmTag::Float => 4,
            ConstantPoolJvmTag::Long => 5,
            ConstantPoolJvmTag::Double => 6,
            ConstantPoolJvmTag::Class => 7,
            ConstantPoolJvmTag::String => 8,
            ConstantPoolJvmTag::Fieldref => 9,
            ConstantPoolJvmTag::Methodref => 10,
            ConstantPoolJvmTag::InterfaceMethodref => 11,
            ConstantPoolJvmTag::NameAndType => 12,
            ConstantPoolJvmTag::MethodHandle => 15,
            ConstantPoolJvmTag::MethodType => 16,
            ConstantPoolJvmTag::Dynamic => 17,
            ConstantPoolJvmTag::InvokeDynamic => 18,
            ConstantPoolJvmTag::Module => 19,
            ConstantPoolJvmTag::Package => 20,
        }
    }
}

/// Naming a known kind and writing it back gives its tag byte.
pub proof fn lemma_jvm_tag_roundtrip(value: u8)
    requires
        jvm_tag_of(value) != ConstantPoolJvmTag::INVALID,
    ensures
        jvm_tag_byte(jvm_tag_of(value)) == value,
{
}

} // verus!
