//! A class file as the remapper holds it: the constant pool, the members and
//! the attributes, with its encoding and the lookups into its constant pool.
use crate::access_flags::AccessFlags;
use crate::attribute_info::{attribute_views, attributes_bytes, emit_attributes, Attribute, SpecAttribute};
use crate::bytes::{put_u16, write_vec_u16_as_bytes, put_u32, u16_bytes, u16s_bytes, u32_bytes};
use crate::constant_pool::{cp_view, entry_bytes, ConstantPoolTags, CpEntry};
use crate::text::{lossy_utf8, push_decimal, utf8_lossy};
use vstd::utf8::{decode_utf8, valid_utf8};
use vstd::prelude::*;
use vstd::string::StringExecFns;

verus! {

/// The magic number that opens every class file.
pub const CLASS_HEADER: u32 = 0xCAFEBABE;

/// ```javadoc
/// field_info { u2 access_flags; u2 name_index; u2 descriptor_index; u2 attributes_count; attribute_info attributes[attributes_count]; }
/// ```
pub struct Field {
    pub access_flags: u16,
    pub name_index: u16,
    pub descriptor_index: u16,
    pub attributes_count: u16,
    pub attributes: Vec<Attribute>,
}

/// ```javadoc
/// method_info { u2 access_flags; u2 name_index; u2 descriptor_index; u2 attributes_count; attribute_info attributes[attributes_count]; }
/// ```
pub struct Method {
    pub access_flags: u16,
    pub name_index: u16,
    pub descriptor_index: u16,
    pub attributes_count: u16,
    pub attributes: Vec<Attribute>,
}

/// The abstract value of a field or a method, which share one layout.
pub struct SpecMember {
    pub access_flags: u16,
    pub name_index: u16,
    pub descriptor_index: u16,
    pub attributes_count: u16,
    pub attributes: Seq<SpecAttribute>,
}

impl View for Field {
    type V = SpecMember;

    open spec fn view(&self) -> SpecMember {
        SpecMember {
            access_flags: self.access_flags,
            name_index: self.name_index,
            descriptor_index: self.descriptor_index,
            attributes_count: self.attributes_count,
            attributes: attribute_views(self.attributes@),
        }
    }
}

impl View for Method {
    type V = SpecMember;

    open spec fn view(&self) -> SpecMember {
        SpecMember {
            access_flags: self.access_flags,
            name_index: self.name_index,
            descriptor_index: self.descriptor_index,
            attributes_count: self.attributes_count,
            attributes: attribute_views(self.attributes@),
        }
    }
}

/// The bytes of a field or a method: the four header words as stored, then the attributes.
pub open spec fn member_bytes(m: SpecMember) -> Seq<u8> {
    u16_bytes(m.access_flags) + u16_bytes(m.name_index) + u16_bytes(m.descriptor_index) + u16_bytes(
        m.attributes_count,
    ) + attributes_bytes(m.attributes)
}

/// The bytes of fields or methods, one after another.
pub open spec fn members_bytes(s: Seq<SpecMember>) -> Seq<u8>
    decreases s.len(),
{
    if s.len() == 0 {
        Seq::empty()
    } else {
        members_bytes(s.drop_last()) + member_bytes(s.last())
    }
}

fn emit_member(
    access_flags: u16,
    name_index: u16,
    descriptor_index: u16,
    attributes_count: u16,
    attributes: &Vec<Attribute>,
    buff: &mut Vec<u8>,
)
    ensures
        final(buff)@ == old(buff)@ + member_bytes(
            SpecMember {
                access_flags,
                name_index,
                descriptor_index,
                attributes_count,
                attributes: attribute_views(attributes@),
            },
        ),
{
    let ghost b0 = buff@;
    put_u16(buff, access_flags);
    put_u16(buff, name_index);
    put_u16(buff, descriptor_index);
    put_u16(buff, attributes_count);
    emit_attributes(attributes, buff);
    assert(buff@ =~= b0 + member_bytes(
        SpecMember {
            access_flags,
            name_index,
            descriptor_index,
            attributes_count,
            attributes: attribute_views(attributes@),
        },
    ));
}

impl Field {
    /// Appends the field's bytes in class-file form.
    pub fn write(self, buff: &mut Vec<u8>)
        ensures
            final(buff)@ == old(buff)@ + member_bytes(self@),
    {
        emit_member(
            self.access_flags,
            self.name_index,
            self.descriptor_index,
            self.attributes_count,
            &self.attributes,
            buff,
        );
    }

    /// The field's bytes in class-file form.
    pub fn to_bytes(self) -> (r: Vec<u8>)
        ensures
            r@ == member_bytes(self@),
    {
        let mut out: Vec<u8> = Vec::new();
        let ghost v = self@;
        self.write(&mut out);
        assert(out@ =~= member_bytes(v));
        out
    }
}

impl Method {
    /// Appends the method's bytes in class-file form.
    pub fn write(self, buff: &mut Vec<u8>)
        ensures
            final(buff)@ == old(buff)@ + member_bytes(self@),
    {
        emit_member(
            self.access_flags,
            self.name_index,
            self.descriptor_index,
            self.attributes_count,
            &self.attributes,
            buff,
        );
    }

    /// The method's bytes in class-file form.
    pub fn to_bytes(self) -> (r: Vec<u8>)
        ensures
            r@ == member_bytes(self@),
    {
        let mut out: Vec<u8> = Vec::new();
        let ghost v = self@;
        self.write(&mut out);
        assert(out@ =~= member_bytes(v));
        out
    }
}

/// ```javadoc
/// ClassFile {
///     u4 magic; u2 minor_version; u2 major_version;
///     u2 constant_pool_count; cp_info constant_pool[constant_pool_count-1];
///     u2 access_flags; u2 this_class; u2 super_class;
///     u2 interfaces_count; u2 interfaces[interfaces_count];
///     u2 fields_count; field_info fields[fields_count];
///     u2 methods_count; method_info methods[methods_count];
///     u2 attributes_count; attribute_info attributes[attributes_count];
/// }
/// ```
/// The pool keeps slot 0 and the slot after each long or double as
/// continuation entries, so that it is indexed as the class file indexes it.
/// `_len` is the number of bytes the class was read from.
pub struct ClassFile {
    pub magic: u32,
    pub minor_version: u16,
    pub major_version: u16,
    pub constant_pool_count: u16,
    pub constant_pool: Vec<ConstantPoolTags>,
    pub access_flags: AccessFlags,
    pub this_class: u16,
    pub super_class: u16,
    pub interfaces_count: u16,
    pub interfaces: Vec<u16>,
    pub fields_count: u16,
    pub fields: Vec<Field>,
    pub methods_count: u16,
    pub methods: Vec<Method>,
    pub attributes_count: u16,
    pub attributes: Vec<Attribute>,
    pub _len: u64,
}

/// The abstract value of a class file.
pub struct SpecClassFile {
    pub magic: u32,
    pub minor_version: u16,
    pub major_version: u16,
    pub constant_pool_count: u16,
    pub constant_pool: Seq<CpEntry>,
    pub access_flags: AccessFlags,
    pub this_class: u16,
    pub super_class: u16,
    pub interfaces_count: u16,
    pub interfaces: Seq<u16>,
    pub fields_count: u16,
    pub fields: Seq<SpecMember>,
    pub methods_count: u16,
    pub methods: Seq<SpecMember>,
    pub attributes_count: u16,
    pub attributes: Seq<SpecAttribute>,
    pub len: u64,
}

impl View for ClassFile {
    type V = SpecClassFile;

    open spec fn view(&self) -> SpecClassFile {
        SpecClassFile {
            magic: self.magic,
            minor_version: self.minor_version,
            major_version: self.major_version,
            constant_pool_count: self.constant_pool_count,
            constant_pool: cp_view(self.constant_pool@),
            access_flags: self.access_flags,
            this_class: self.this_class,
            super_class: self.super_class,
            interfaces_count: self.interfaces_count,
            interfaces: self.interfaces@,
            fields_count: self.fields_count,
            fields: self.fields@.map_values(|f: Field| f@),
            methods_count: self.methods_count,
            methods: self.methods@.map_values(|m: Method| m@),
            attributes_count: self.attributes_count,
            attributes: attribute_views(self.attributes@),
            len: self._len,
        }
    }
}

/// The bytes of constant-pool entries, one after another.
pub open spec fn pool_bytes(s: Seq<CpEntry>) -> Seq<u8>
    decreases s.len(),
{
    if s.len() == 0 {
        Seq::empty()
    } else {
        pool_bytes(s.drop_last()) + entry_bytes(s.last())
    }
}

/// The bytes of a class file: the magic number (always the class-file one),
/// then every part in order with its count as stored.
pub open spec fn class_bytes(c: SpecClassFile) -> Seq<u8> {
    u32_bytes(CLASS_HEADER) + u16_bytes(c.minor_version) + u16_bytes(c.major_version) + u16_bytes(
        c.constant_pool_count,
    ) + pool_bytes(c.constant_pool) + u16_bytes(c.access_flags.value) + u16_bytes(c.this_class)
        + u16_bytes(c.super_class) + u16_bytes(c.interfaces_count) + u16s_bytes(c.interfaces)
        + u16_bytes(c.fields_count) + members_bytes(c.fields) + u16_bytes(c.methods_count)
        + members_bytes(c.methods) + u16_bytes(c.attributes_count) + attributes_bytes(c.attributes)
}

/// The text a constant-pool index stands for: a `Utf8` entry's text, a
/// `String` entry's target followed through the pool, and the empty text for
/// any other entry. `None` when an index in the chain is out of the pool or
/// the chain does not end within `fuel` steps.
pub open spec fn cp_string(cp: Seq<CpEntry>, index: u16, fuel: nat) -> Option<Seq<char>>
    decreases fuel,
{
    if fuel == 0 || index >= cp.len() {
        None
    } else {
        match cp[index as int] {
            CpEntry::Utf8 { value, .. } => Some(value),
            CpEntry::String { string_index, .. } => cp_string(cp, string_index, (fuel - 1) as nat),
            _ => Some(Seq::empty()),
        }
    }
}

/// The name of the class entry that `this_class` (or `super_class`) points at,
/// or a message that says why it cannot be read.
pub open spec fn class_name_text(cp: Seq<CpEntry>, is_super: bool, this_class: u16, super_class: u16) -> Seq<char> {
    let index = if is_super { super_class } else { this_class };
    let field = if is_super { "super_class"@ } else { "this_class"@ };
    if index < cp.len() {
        match cp[index as int] {
            CpEntry::Class { name_index, .. } => if name_index < cp.len() {
                match cp[name_index as int] {
                    CpEntry::Utf8 { bytes, .. } => lossy_utf8(bytes),
                    other => "<Error while accessing "@ + field + " - expected ConstantPoolTag::Utf8 at index "@
                        + crate::text::decimal(name_index as nat) + ", got "@ + crate::text::decimal(
                        crate::constant_pool::entry_tag(other) as nat,
                    ) + " instead>"@,
                }
            } else {
                "<Error accessing "@ + field + " - index "@ + crate::text::decimal(name_index as nat)
                    + " is out of bounds (constant pool size is "@ + crate::text::decimal(cp.len()) + ")>"@
            },
            other => "<Error accessing "@ + field + " - expected ConstantPoolTag::Class at index "@
                + crate::text::decimal(index as nat) + ", got "@ + crate::text::decimal(
                crate::constant_pool::entry_tag(other) as nat,
            ) + " instead>"@,
        }
    } else {
        "<Error accessing "@ + field + " - index "@ + crate::text::decimal(index as nat)
            + " is out of bounds (constant pool size is "@ + crate::text::decimal(cp.len()) + ")>"@
    }
}

/// The bytes of the `Utf8` entry that names this class (or its super class),
/// when the index leads through a `Class` entry to one.
pub open spec fn class_name_bytes(cp: Seq<CpEntry>, is_super: bool, this_class: u16, super_class: u16) -> Option<Seq<u8>> {
    let index = if is_super { super_class } else { this_class };
    if index < cp.len() {
        match cp[index as int] {
            CpEntry::Class { name_index, .. } => if name_index < cp.len() {
                match cp[name_index as int] {
                    CpEntry::Utf8 { bytes, .. } => Some(bytes),
                    _ => None,
                }
            } else {
                None
            },
            _ => None,
        }
    } else {
        None
    }
}

impl ClassFile {
    /// The class file's bytes: the magic number, then every part in order.
    pub fn to_bytes(self) -> (r: Vec<u8>)
        requires
            self.constant_pool@.len() <= usize::MAX,
        ensures
            r@ == class_bytes(self@),
    {
        let ghost v = self@;
        let ghost b = class_bytes(v);
        let mut out: Vec<u8> = Vec::new();
        put_u32(&mut out, CLASS_HEADER);
        put_u16(&mut out, self.minor_version);
        put_u16(&mut out, self.major_version);
        put_u16(&mut out, self.constant_pool_count);
        let ghost head = out@;
        let mut i: usize = 0;
        while i < self.constant_pool.len()
            invariant
                i <= self.constant_pool@.len(),
                out@ == head + pool_bytes(cp_view(self.constant_pool@).subrange(0, i as int)),
            decreases self.constant_pool@.len() - i,
        {
            self.constant_pool[i].emit(&mut out);
            proof {
                let s = cp_view(self.constant_pool@).subrange(0, i + 1);
                assert(s.drop_last() =~= cp_view(self.constant_pool@).subrange(0, i as int));
            }
            i = i + 1;
        }
        assert(cp_view(self.constant_pool@).subrange(0, i as int) =~= cp_view(self.constant_pool@));
        put_u16(&mut out, self.access_flags.into_u16());
        put_u16(&mut out, self.this_class);
        put_u16(&mut out, self.super_class);
        put_u16(&mut out, self.interfaces_count);
        write_vec_u16_as_bytes(self.interfaces.as_slice(), &mut out);
        put_u16(&mut out, self.fields_count);
        let ghost mid = out@;
        let mut j: usize = 0;
        while j < self.fields.len()
            invariant
                j <= self.fields@.len(),
                out@ == mid + members_bytes(self.fields@.map_values(|f: Field| f@).subrange(0, j as int)),
            decreases self.fields@.len() - j,
        {
            let f = &self.fields[j];
            emit_member(f.access_flags, f.name_index, f.descriptor_index, f.attributes_count, &f.attributes, &mut out);
            proof {
                let s = self.fields@.map_values(|f: Field| f@).subrange(0, j + 1);
                assert(s.drop_last() =~= self.fields@.map_values(|f: Field| f@).subrange(0, j as int));
            }
            j = j + 1;
        }
        assert(self.fields@.map_values(|f: Field| f@).subrange(0, j as int) =~= self.fields@.map_values(
            |f: Field| f@,
        ));
        put_u16(&mut out, self.methods_count);
        let ghost mid2 = out@;
        let mut k: usize = 0;
        while k < self.methods.len()
            invariant
                k <= self.methods@.len(),
                out@ == mid2 + members_bytes(self.methods@.map_values(|m: Method| m@).subrange(0, k as int)),
            decreases self.methods@.len() - k,
        {
            let m = &self.methods[k];
            emit_member(m.access_flags, m.name_index, m.descriptor_index, m.attributes_count, &m.attributes, &mut out);
            proof {
                let s = self.methods@.map_values(|m: Method| m@).subrange(0, k + 1);
                assert(s.drop_last() =~= self.methods@.map_values(|m: Method| m@).subrange(0, k as int));
            }
            k = k + 1;
        }
        assert(self.methods@.map_values(|m: Method| m@).subrange(0, k as int) =~= self.methods@.map_values(
            |m: Method| m@,
        ));
        put_u16(&mut out, self.attributes_count);
        emit_attributes(&self.attributes, &mut out);
        assert(out@ =~= b);
        out
    }

    /// The text at constant-pool index `index`, following `String` entries to
    /// the `Utf8` entry they name; any other entry gives the empty text.
    pub fn get_string_from_cpool(&self, index: u16) -> (r: String)
        requires
            cp_string(cp_view(self.constant_pool@), index, self.constant_pool@.len() as nat) is Some,
        ensures
            r@ == cp_string(cp_view(self.constant_pool@), index, self.constant_pool@.len() as nat).unwrap(),
    {
        let ghost cpv = cp_view(self.constant_pool@);
        let ghost goal = cp_string(cpv, index, self.constant_pool@.len() as nat);
        let ghost mut fuel: nat = self.constant_pool@.len() as nat;
        let mut cur = index;
        loop
            invariant
                cpv == cp_view(self.constant_pool@),
                cp_string(cpv, cur, fuel) == goal,
                goal is Some,
                goal == cp_string(cp_view(self.constant_pool@), index, self.constant_pool@.len() as nat),
            decreases fuel,
        {
            let entry = &self.constant_pool[cur as usize];
            assert(cpv[cur as int] == entry@);
            match entry {
                ConstantPoolTags::Utf8 { _value, .. } => {
                    return _value.clone();
                },
                ConstantPoolTags::String { string_index, .. } => {
                    proof {
                        fuel = (fuel - 1) as nat;
                    }
                    cur = *string_index;
                },
                _ => {
                    let r = String::new();
                    assert(r@ =~= goal.unwrap());
                    return r;
                },
            }
        }
    }

    /// A copy of the constant-pool entry at `index`.
    pub fn get_from_cpool(&self, index: u16) -> (r: ConstantPoolTags)
        requires
            index < self.constant_pool@.len(),
        ensures
            r@ == self.constant_pool@[index as int]@,
    {
        self.constant_pool[index as usize].duplicate()
    }

    /// The name of this class (or of its super class), as the bytes of its
    /// `Utf8` entry decode with invalid sequences replaced; or a message that
    /// says which entry could not be read and why.
    pub fn class_name_from_cp(&self, is_super: bool) -> (r: String)
        ensures
            r@ == class_name_text(cp_view(self.constant_pool@), is_super, self.this_class, self.super_class),
            class_name_bytes(cp_view(self.constant_pool@), is_super, self.this_class, self.super_class) matches Some(b)
                ==> (valid_utf8(b) ==> r@ == decode_utf8(b)),
    {
        let index = if is_super { self.super_class } else { self.this_class };
        let field = if is_super { "super_class" } else { "this_class" };
        let ghost cpv = cp_view(self.constant_pool@);
        if (index as usize) < self.constant_pool.len() {
            let entry = &self.constant_pool[index as usize];
            assert(cpv[index as int] == entry@);
            match entry {
                ConstantPoolTags::Class { name_index, .. } => {
                    if (*name_index as usize) < self.constant_pool.len() {
                        let named = &self.constant_pool[*name_index as usize];
                        assert(cpv[*name_index as int] == named@);
                        match named {
                            ConstantPoolTags::Utf8 { bytes, .. } => utf8_lossy(bytes.as_slice()),
                            other => {
                                let mut r = String::from_str("<Error while accessing ");
                                r.append(field);
                                r.append(" - expected ConstantPoolTag::Utf8 at index ");
                                push_decimal(&mut r, *name_index as u64);
                                r.append(", got ");
                                push_decimal(&mut r, other.jvm_tag() as u64);
                                r.append(" instead>");
                                r
                            },
                        }
                    } else {
                        let mut r = String::from_str("<Error accessing ");
                        r.append(field);
                        r.append(" - index ");
                        push_decimal(&mut r, *name_index as u64);
                        r.append(" is out of bounds (constant pool size is ");
                        push_decimal(&mut r, self.constant_pool.len() as u64);
                        r.append(")>");
                        r
                    }
                },
                other => {
                    let mut r = String::from_str("<Error accessing ");
                    r.append(field);
                    r.append(" - expected ConstantPoolTag::Class at index ");
                    push_decimal(&mut r, index as u64);
                    r.append(", got ");
                    push_decimal(&mut r, other.jvm_tag() as u64);
                    r.append(" instead>");
                    r
                },
            }
        } else {
            let mut r = String::from_str("<Error accessing ");
            r.append(field);
            r.append(" - index ");
            push_decimal(&mut r, index as u64);
            r.append(" is out of bounds (constant pool size is ");
            push_decimal(&mut r, self.constant_pool.len() as u64);
            r.append(")>");
            r
        }
    }
}

} // verus!
