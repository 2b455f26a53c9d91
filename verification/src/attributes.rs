//! Attributes of classes, fields, methods and code, with the records they are
//! made of: their model, their abstract values and their encoding.
use crate::access_flags::AccessFlags;
use crate::bytes::{concat_map, put_bytes, put_u16, write_vec_u16_as_bytes, put_u32, put_u8, u16_bytes, u16s_bytes, u32_bytes};
use vstd::prelude::*;
use vstd::utf8::encode_utf8;

verus! {

/// A value with a fixed encoding in class-file form.
pub trait Encode: Sized {
    /// The bytes of the value in class-file form.
    spec fn encoded(&self) -> Seq<u8>;

    /// Appends the value's bytes in class-file form.
    fn emit(&self, buff: &mut Vec<u8>)
        ensures
            final(buff)@ == old(buff)@ + self.encoded(),
    ;
}

/// The bytes of every element, one after another.
pub open spec fn encoded_all<T: Encode>(s: Seq<T>) -> Seq<u8> {
    concat_map(s, |x: T| x.encoded())
}

/// Appends the bytes of every element of `v`, in order.
pub fn emit_all<T: Encode>(v: &Vec<T>, buff: &mut Vec<u8>)
    ensures
        final(buff)@ == old(buff)@ + encoded_all(v@),
{
    let mut i: usize = 0;
    while i < v.len()
        invariant
            i <= v@.len(),
            buff@ == old(buff)@ + encoded_all(v@.subrange(0, i as int)),
        decreases v@.len() - i,
    {
        v[i].emit(buff);
        proof {
            let s = v@.subrange(0, i + 1);
            assert(s.drop_last() =~= v@.subrange(0, i as int));
            assert(s.last() == v@[i as int]);
        }
        i = i + 1;
        assert(buff@ =~= old(buff)@ + encoded_all(v@.subrange(0, i as int)));
    }
    assert(v@.subrange(0, v@.len() as int) =~= v@);
}

/// ```javadoc
/// { u2 start_pc; u2 end_pc; u2 handler_pc; u2 catch_type; } exception_table[exception_table_length];
/// ```
#[derive(Copy, Clone, Debug, PartialEq, Eq, Structural)]
pub struct ExceptionTableEntry {
    pub start_pc: u16,
    pub end_pc: u16,
    pub handler_pc: u16,
    pub catch_type: u16,
}

impl Encode for ExceptionTableEntry {
    open spec fn encoded(&self) -> Seq<u8> {
        u16_bytes(self.start_pc) + u16_bytes(self.end_pc) + u16_bytes(self.handler_pc) + u16_bytes(
            self.catch_type,
        )
    }

    fn emit(&self, buff: &mut Vec<u8>) {
        put_u16(buff, self.start_pc);
        put_u16(buff, self.end_pc);
        put_u16(buff, self.handler_pc);
        put_u16(buff, self.catch_type);
        assert(buff@ =~= old(buff)@ + self.encoded());
    }
}

impl ExceptionTableEntry {
    /// Appends the entry's bytes and returns their number.
    pub fn write(self, buff: &mut Vec<u8>) -> (n: usize)
        ensures
            final(buff)@ == old(buff)@ + self.encoded(),
            n == self.encoded().len(),
    {
        self.emit(buff);
        8
    }
}

/// ```javadoc
/// { u2 start_pc; u2 line_number; } line_number_table[line_number_table_length];
/// ```
#[derive(Copy, Clone, Debug, PartialEq, Eq, Structural)]
pub struct LineNumberEntry {
    pub start_pc: u16,
    pub line_number: u16,
}

impl Encode for LineNumberEntry {
    open spec fn encoded(&self) -> Seq<u8> {
        u16_bytes(self.start_pc) + u16_bytes(self.line_number)
    }

    fn emit(&self, buff: &mut Vec<u8>) {
        put_u16(buff, self.start_pc);
        put_u16(buff, self.line_number);
        assert(buff@ =~= old(buff)@ + self.encoded());
    }
}

impl LineNumberEntry {
    /// Appends the entry's bytes and returns their number.
    pub fn write(self, buff: &mut Vec<u8>) -> (n: usize)
        ensures
            final(buff)@ == old(buff)@ + self.encoded(),
            n == self.encoded().len(),
    {
        self.emit(buff);
        4
    }
}

/// ```javadoc
/// { u2 start_pc; u2 length; u2 name_index; u2 descriptor_index; u2 index; } local_variable_table[...];
/// ```
#[derive(Copy, Clone, Debug, PartialEq, Eq, Structural)]
pub struct LocalVariableTableEntry {
    pub start_pc: u16,
    pub length: u16,
    pub name_index: u16,
    pub descriptor_index: u16,
    pub index: u16,
}

impl Encode for LocalVariableTableEntry {
    open spec fn encoded(&self) -> Seq<u8> {
        u16_bytes(self.start_pc) + u16_bytes(self.length) + u16_bytes(self.name_index) + u16_bytes(
            self.descriptor_index,
        ) + u16_bytes(self.index)
    }

    fn emit(&self, buff: &mut Vec<u8>) {
        put_u16(buff, self.start_pc);
        put_u16(buff, self.length);
        put_u16(buff, self.name_index);
        put_u16(buff, self.descriptor_index);
        put_u16(buff, self.index);
        assert(buff@ =~= old(buff)@ + self.encoded());
    }
}

impl LocalVariableTableEntry {
    /// Appends the entry's bytes and returns their number.
    pub fn write(self, buff: &mut Vec<u8>) -> (n: usize)
        ensures
            final(buff)@ == old(buff)@ + self.encoded(),
            n == self.encoded().len(),
    {
        self.emit(buff);
        10
    }
}

/// ```javadoc
/// { u2 start_pc; u2 length; u2 name_index; u2 signature_index; u2 index; } local_variable_type_table[...];
/// ```
#[derive(Copy, Clone, Debug, PartialEq, Eq, Structural)]
pub struct LocalVariableTypeTableEntry {
    pub start_pc: u16,
    pub length: u16,
    pub name_index: u16,
    pub signature_index: u16,
    pub index: u16,
}

impl Encode for LocalVariableTypeTableEntry {
    open spec fn encoded(&self) -> Seq<u8> {
        u16_bytes(self.start_pc) + u16_bytes(self.length) + u16_bytes(self.name_index) + u16_bytes(
            self.signature_index,
        ) + u16_bytes(self.index)
    }

    fn emit(&self, buff: &mut Vec<u8>) {
        put_u16(buff, self.start_pc);
        put_u16(buff, self.length);
        put_u16(buff, self.name_index);
        put_u16(buff, self.signature_index);
        put_u16(buff, self.index);
        assert(buff@ =~= old(buff)@ + self.encoded());
    }
}

impl LocalVariableTypeTableEntry {
    /// Appends the entry's bytes and returns their number.
    pub fn write(self, buff: &mut Vec<u8>) -> (n: usize)
        ensures
            final(buff)@ == old(buff)@ + self.encoded(),
            n == self.encoded().len(),
    {
        self.emit(buff);
        10
    }
}

/// ```javadoc
/// { u2 inner_class_info_index; u2 outer_class_info_index; u2 inner_name_index; u2 inner_class_access_flags; }
/// ```
#[derive(Copy, Clone, Debug, PartialEq, Eq, Structural)]
pub struct InnerClassEntry {
    pub inner_class_info_index: u16,
    pub outer_class_info_index: u16,
    pub inner_name_index: u16,
    pub inner_class_access_flags: u16,
}

impl Encode for InnerClassEntry {
    open spec fn encoded(&self) -> Seq<u8> {
        u16_bytes(self.inner_class_info_index) + u16_bytes(self.outer_class_info_index) + u16_bytes(
            self.inner_name_index,
        ) + u16_bytes(self.inner_class_access_flags)
    }

    fn emit(&self, buff: &mut Vec<u8>) {
        put_u16(buff, self.inner_class_info_index);
        put_u16(buff, self.outer_class_info_index);
        put_u16(buff, self.inner_name_index);
        put_u16(buff, self.inner_class_access_flags);
        assert(buff@ =~= old(buff)@ + self.encoded());
    }
}

impl InnerClassEntry {
    /// Appends the entry's bytes and returns their number.
    pub fn write(self, buff: &mut Vec<u8>) -> (n: usize)
        ensures
            final(buff)@ == old(buff)@ + self.encoded(),
            n == self.encoded().len(),
    {
        self.emit(buff);
        8
    }
}

/// ```javadoc
/// { u2 name_index; u2 access_flags; } parameters[parameters_count];
/// ```
#[derive(Copy, Clone, Debug, PartialEq, Eq, Structural)]
pub struct Parameter {
    pub name_index: u16,
    pub access_flags: AccessFlags,
}

impl Encode for Parameter {
    open spec fn encoded(&self) -> Seq<u8> {
        u16_bytes(self.name_index) + u16_bytes(self.access_flags.value)
    }

    fn emit(&self, buff: &mut Vec<u8>) {
        put_u16(buff, self.name_index);
        put_u16(buff, self.access_flags.into_u16());
        assert(buff@ =~= old(buff)@ + self.encoded());
    }
}

impl Parameter {
    /// Appends the parameter's bytes and returns their number.
    pub fn write(self, buff: &mut Vec<u8>) -> (n: usize)
        ensures
            final(buff)@ == old(buff)@ + self.encoded(),
            n == self.encoded().len(),
    {
        self.emit(buff);
        4
    }
}

/// One step of a type path: `{ u1 type_path_kind; u1 type_argument_index; }`.
#[derive(Copy, Clone, Debug, PartialEq, Eq, Structural)]
pub struct PathEntry {
    pub type_path_kind: u8,
    pub type_argument_index: u8,
}

impl Encode for PathEntry {
    open spec fn encoded(&self) -> Seq<u8> {
        seq![self.type_path_kind, self.type_argument_index]
    }

    fn emit(&self, buff: &mut Vec<u8>) {
        put_u8(buff, self.type_path_kind);
        put_u8(buff, self.type_argument_index);
        assert(buff@ =~= old(buff)@ + self.encoded());
    }
}

impl PathEntry {
    /// Appends the entry's bytes and returns their number.
    pub fn write(self, buff: &mut Vec<u8>) -> (n: usize)
        ensures
            final(buff)@ == old(buff)@ + self.encoded(),
            n == self.encoded().len(),
    {
        self.emit(buff);
        2
    }
}

/// `{ u2 start_pc; u2 length; u2 index; }` of a local-variable type-annotation target.
#[derive(Copy, Clone, Debug, PartialEq, Eq, Structural)]
pub struct LocalvarTargetTableEntry {
    pub start_pc: u16,
    pub length: u16,
    pub index: u16,
}

impl Encode for LocalvarTargetTableEntry {
    open spec fn encoded(&self) -> Seq<u8> {
        u16_bytes(self.start_pc) + u16_bytes(self.length) + u16_bytes(self.index)
    }

    fn emit(&self, buff: &mut Vec<u8>) {
        put_u16(buff, self.start_pc);
        put_u16(buff, self.length);
        put_u16(buff, self.index);
        assert(buff@ =~= old(buff)@ + self.encoded());
    }
}

impl LocalvarTargetTableEntry {
    /// Appends the entry's bytes and returns their number.
    pub fn write(self, buff: &mut Vec<u8>) -> (n: usize)
        ensures
            final(buff)@ == old(buff)@ + self.encoded(),
            n == self.encoded().len(),
    {
        self.emit(buff);
        6
    }
}

/// `{ u2 requires_index; u2 requires_flags; u2 requires_version_index; }` of a module.
#[derive(Copy, Clone, Debug, PartialEq, Eq, Structural)]
pub struct RequiresEntry {
    pub requires_index: u16,
    pub requires_flags: u16,
    pub requires_version_index: u16,
}

impl Encode for RequiresEntry {
    open spec fn encoded(&self) -> Seq<u8> {
        u16_bytes(self.requires_index) + u16_bytes(self.requires_flags) + u16_bytes(self.requires_version_index)
    }

    fn emit(&self, buff: &mut Vec<u8>) {
        put_u16(buff, self.requires_index);
        put_u16(buff, self.requires_flags);
        put_u16(buff, self.requires_version_index);
        assert(buff@ =~= old(buff)@ + self.encoded());
    }
}

impl RequiresEntry {
    /// Appends the entry's bytes and returns their number.
    pub fn write(self, buff: &mut Vec<u8>) -> (n: usize)
        ensures
            final(buff)@ == old(buff)@ + self.encoded(),
            n == self.encoded().len(),
    {
        self.emit(buff);
        6
    }
}

/// `{ u2 exports_index; u2 exports_flags; u2 exports_to_count; }` of a module.
#[derive(Copy, Clone, Debug, PartialEq, Eq, Structural)]
pub struct ExportsEntry {
    pub exports_index: u16,
    pub exports_flags: u16,
    pub exports_to_count: u16,
}

impl Encode for ExportsEntry {
    open spec fn encoded(&self) -> Seq<u8> {
        u16_bytes(self.exports_index) + u16_bytes(self.exports_flags) + u16_bytes(self.exports_to_count)
    }

    fn emit(&self, buff: &mut Vec<u8>) {
        put_u16(buff, self.exports_index);
        put_u16(buff, self.exports_flags);
        put_u16(buff, self.exports_to_count);
        assert(buff@ =~= old(buff)@ + self.encoded());
    }
}

impl ExportsEntry {
    /// Appends the entry's bytes and returns their number.
    pub fn write(self, buff: &mut Vec<u8>) -> (n: usize)
        ensures
            final(buff)@ == old(buff)@ + self.encoded(),
            n == self.encoded().len(),
    {
        self.emit(buff);
        6
    }
}

/// `{ u2 opens_index; u2 opens_flags; u2 opens_to_count; }` of a module.
#[derive(Copy, Clone, Debug, PartialEq, Eq, Structural)]
pub struct OpensEntry {
    pub opens_index: u16,
    pub opens_flags: u16,
    pub opens_to_count: u16,
}

impl Encode for OpensEntry {
    open spec fn encoded(&self) -> Seq<u8> {
        u16_bytes(self.opens_index) + u16_bytes(self.opens_flags) + u16_bytes(self.opens_to_count)
    }

    fn emit(&self, buff: &mut Vec<u8>) {
        put_u16(buff, self.opens_index);
        put_u16(buff, self.opens_flags);
        put_u16(buff, self.opens_to_count);
        assert(buff@ =~= old(buff)@ + self.encoded());
    }
}

impl OpensEntry {
    /// Appends the entry's bytes and returns their number.
    pub fn write(self, buff: &mut Vec<u8>) -> (n: usize)
        ensures
            final(buff)@ == old(buff)@ + self.encoded(),
            n == self.encoded().len(),
    {
        self.emit(buff);
        6
    }
}

/// `{ u2 provides_index; u2 provides_with_count; }` of a module.
#[derive(Copy, Clone, Debug, PartialEq, Eq, Structural)]
pub struct ProvidesEntry {
    pub provides_index: u16,
    pub provides_with_count: u16,
}

impl Encode for ProvidesEntry {
    open spec fn encoded(&self) -> Seq<u8> {
        u16_bytes(self.provides_index) + u16_bytes(self.provides_with_count)
    }

    fn emit(&self, buff: &mut Vec<u8>) {
        put_u16(buff, self.provides_index);
        put_u16(buff, self.provides_with_count);
        assert(buff@ =~= old(buff)@ + self.encoded());
    }
}

impl ProvidesEntry {
    /// Appends the entry's bytes and returns their number.
    pub fn write(self, buff: &mut Vec<u8>) -> (n: usize)
        ensures
            final(buff)@ == old(buff)@ + self.encoded(),
            n == self.encoded().len(),
    {
        self.emit(buff);
        4
    }
}

/// The item tags of a verification type (0 to 8 in class-file form).
#[derive(Copy, Clone, Debug, PartialEq, Eq, Structural)]
pub enum VerificationTypeInfoItem {
    ItemTop,
    ItemInteger,
    ItemFloat,
    ItemDouble,
    ItemLong,
    ItemNull,
    ItemUninitializedThis,
    ItemObject,
    ItemUninitialized,
}

/// The tag byte of an item.
pub open spec fn item_code(t: VerificationTypeInfoItem) -> u8 {
    match t {
        VerificationTypeInfoItem::ItemTop => 0,
        VerificationTypeInfoItem::ItemInteger => 1,
        VerificationTypeInfoItem::ItemFloat => 2,
        VerificationTypeInfoItem::ItemDouble => 3,
        VerificationTypeInfoItem::ItemLong => 4,
        VerificationTypeInfoItem::ItemNull => 5,
        VerificationTypeInfoItem::ItemUninitializedThis => 6,
        VerificationTypeInfoItem::ItemObject => 7,
        VerificationTypeInfoItem::ItemUninitialized => 8,
    }
}

/// The item that a tag byte names, if it names one.
pub open spec fn item_of(value: u8) -> Option<VerificationTypeInfoItem> {
    if value == 0 {
        Some(VerificationTypeInfoItem::ItemTop)
    } else if value == 1 {
        Some(VerificationTypeInfoItem::ItemInteger)
    } else if value == 2 {
        Some(VerificationTypeInfoItem::ItemFloat)
    } else if value == 3 {
        Some(VerificationTypeInfoItem::ItemDouble)
    } else if value == 4 {
        Some(VerificationTypeInfoItem::ItemLong)
    } else if value == 5 {
        Some(VerificationTypeInfoItem::ItemNull)
    } else if value == 6 {
        Some(VerificationTypeInfoItem::ItemUninitializedThis)
    } else if value == 7 {
        Some(VerificationTypeInfoItem::ItemObject)
    } else if value == 8 {
        Some(VerificationTypeInfoItem::ItemUninitialized)
    } else {
        None
    }
}

impl VerificationTypeInfoItem {
    /// The item that a tag byte names; bytes above 8 name none.
    pub fn try_from_u8(value: u8) -> (r: Option<VerificationTypeInfoItem>)
        ensures
            r == item_of(value),
    {
        if value == 0 {
            Some(VerificationTypeInfoItem::ItemTop)
        } else if value == 1 {
            Some(VerificationTypeInfoItem::ItemInteger)
        } else if value == 2 {
            Some(VerificationTypeInfoItem::ItemFloat)
        } else if value == 3 {
            Some(VerificationTypeInfoItem::ItemDouble)
        } else if value == 4 {
            Some(VerificationTypeInfoItem::ItemLong)
        } else if value == 5 {
            Some(VerificationTypeInfoItem::ItemNull)
        } else if value == 6 {
            Some(VerificationTypeInfoItem::ItemUninitializedThis)
        } else if value == 7 {
            Some(VerificationTypeInfoItem::ItemObject)
        } else if value == 8 {
            Some(VerificationTypeInfoItem::ItemUninitialized)
        } else {
            None
        }
    }

    /// The tag byte of the item.
    pub fn to_u8(self) -> (r: u8)
        ensures
            r == item_code(self),
    {
        match self {
            VerificationTypeInfoItem::ItemTop => 0,
            VerificationTypeInfoItem::ItemInteger => 1,
            VerificationTypeInfoItem::ItemFloat => 2,
            VerificationTypeInfoItem::ItemDouble => 3,
            VerificationTypeInfoItem::ItemLong => 4,
            VerificationTypeInfoItem::ItemNull => 5,
            VerificationTypeInfoItem::ItemUninitializedThis => 6,
            VerificationTypeInfoItem::ItemObject => 7,
            VerificationTypeInfoItem::ItemUninitialized => 8,
        }
    }
}

/// Every item tag names its item back.
pub proof fn lemma_item_roundtrip(t: VerificationTypeInfoItem)
    ensures
        item_of(item_code(t)) == Some(t),
{
}

/// A verification type of a stack map frame; each variant keeps the item tag it was read with.
#[derive(Copy, Clone, Debug, PartialEq, Eq, Structural)]
pub enum VerificationTypeInfo {
    TopVariableInfo { tag: VerificationTypeInfoItem },
    IntegerVariableInfo { tag: VerificationTypeInfoItem },
    FloatVariableInfo { tag: VerificationTypeInfoItem },
    DoubleVariableInfo { tag: VerificationTypeInfoItem },
    LongVariableInfo { tag: VerificationTypeInfoItem },
    NullVariableInfo { tag: VerificationTypeInfoItem },
    UninitializedThisVariableInfo { tag: VerificationTypeInfoItem },
    ObjectVariableInfo { tag: VerificationTypeInfoItem, cpool_index: u16 },
    UninitializedVariableInfo { tag: VerificationTypeInfoItem, offset: u16 },
}

impl Encode for VerificationTypeInfo {
    open spec fn encoded(&self) -> Seq<u8> {
        match *self {
            VerificationTypeInfo::TopVariableInfo { tag } => seq![item_code(tag)],
            VerificationTypeInfo::IntegerVariableInfo { tag } => seq![item_code(tag)],
            VerificationTypeInfo::FloatVariableInfo { tag } => seq![item_code(tag)],
            VerificationTypeInfo::DoubleVariableInfo { tag } => seq![item_code(tag)],
            VerificationTypeInfo::LongVariableInfo { tag } => seq![item_code(tag)],
            VerificationTypeInfo::NullVariableInfo { tag } => seq![item_code(tag)],
            VerificationTypeInfo::UninitializedThisVariableInfo { tag } => seq![item_code(tag)],
            VerificationTypeInfo::ObjectVariableInfo { tag, cpool_index } => seq![item_code(tag)] + u16_bytes(
                cpool_index,
            ),
            VerificationTypeInfo::UninitializedVariableInfo { tag, offset } => seq![item_code(tag)] + u16_bytes(
                offset,
            ),
        }
    }

    fn emit(&self, buff: &mut Vec<u8>) {
        match *self {
            VerificationTypeInfo::TopVariableInfo { tag } => put_u8(buff, tag.to_u8()),
            VerificationTypeInfo::IntegerVariableInfo { tag } => put_u8(buff, tag.to_u8()),
            VerificationTypeInfo::FloatVariableInfo { tag } => put_u8(buff, tag.to_u8()),
            VerificationTypeInfo::DoubleVariableInfo { tag } => put_u8(buff, tag.to_u8()),
            VerificationTypeInfo::LongVariableInfo { tag } => put_u8(buff, tag.to_u8()),
            VerificationTypeInfo::NullVariableInfo { tag } => put_u8(buff, tag.to_u8()),
            VerificationTypeInfo::UninitializedThisVariableInfo { tag } => put_u8(buff, tag.to_u8()),
            VerificationTypeInfo::ObjectVariableInfo { tag, cpool_index } => {
                put_u8(buff, tag.to_u8());
                put_u16(buff, cpool_index);
            },
            VerificationTypeInfo::UninitializedVariableInfo { tag, offset } => {
                put_u8(buff, tag.to_u8());
                put_u16(buff, offset);
            },
        }
        assert(buff@ =~= old(buff)@ + self.encoded());
    }
}

impl VerificationTypeInfo {
    /// Appends the verification type's bytes and returns their number.
    pub fn write(self, buff: &mut Vec<u8>) -> (n: usize)
        ensures
            final(buff)@ == old(buff)@ + self.encoded(),
            n == self.encoded().len(),
    {
        let start = buff.len();
        self.emit(buff);
        buff.len() - start
    }
}


/// ```javadoc
/// { u2 bootstrap_method_ref; u2 num_bootstrap_arguments; u2 bootstrap_arguments[num_bootstrap_arguments]; }
/// ```
#[derive(Clone, Debug)]
pub struct BootstrapMethodEntry {
    pub bootstrap_method_ref: u16,
    pub num_bootstrap_arguments: u16,
    pub bootstrap_arguments: Vec<u16>,
}

/// The abstract value of a bootstrap method entry.
pub struct SpecBootstrapMethodEntry {
    pub bootstrap_method_ref: u16,
    pub num_bootstrap_arguments: u16,
    pub bootstrap_arguments: Seq<u16>,
}

impl View for BootstrapMethodEntry {
    type V = SpecBootstrapMethodEntry;

    open spec fn view(&self) -> SpecBootstrapMethodEntry {
        SpecBootstrapMethodEntry {
            bootstrap_method_ref: self.bootstrap_method_ref,
            num_bootstrap_arguments: self.num_bootstrap_arguments,
            bootstrap_arguments: self.bootstrap_arguments@,
        }
    }
}

/// The bytes of a bootstrap method entry; the count is written as stored.
pub open spec fn bootstrap_bytes(e: SpecBootstrapMethodEntry) -> Seq<u8> {
    u16_bytes(e.bootstrap_method_ref) + u16_bytes(e.num_bootstrap_arguments) + u16s_bytes(e.bootstrap_arguments)
}

impl Encode for BootstrapMethodEntry {
    open spec fn encoded(&self) -> Seq<u8> {
        bootstrap_bytes(self@)
    }

    fn emit(&self, buff: &mut Vec<u8>) {
        put_u16(buff, self.bootstrap_method_ref);
        put_u16(buff, self.num_bootstrap_arguments);
        write_vec_u16_as_bytes(self.bootstrap_arguments.as_slice(), buff);
        assert(buff@ =~= old(buff)@ + self.encoded());
    }
}

impl BootstrapMethodEntry {
    /// Appends the entry's bytes and returns their number.
    pub fn write(self, buff: &mut Vec<u8>) -> (n: usize)
        ensures
            final(buff)@ == old(buff)@ + self.encoded(),
            n == self.encoded().len(),
    {
        let start = buff.len();
        self.emit(buff);
        buff.len() - start
    }
}

/// A type path: `{ u1 path_length; { u1 type_path_kind; u1 type_argument_index; } path[path_length]; }`.
#[derive(Clone, Debug)]
pub struct TypePath {
    pub path_length: u8,
    pub path: Vec<PathEntry>,
}

/// The abstract value of a type path.
pub struct SpecTypePath {
    pub path_length: u8,
    pub path: Seq<PathEntry>,
}

impl View for TypePath {
    type V = SpecTypePath;

    open spec fn view(&self) -> SpecTypePath {
        SpecTypePath { path_length: self.path_length, path: self.path@ }
    }
}

/// The bytes of a type path.
pub open spec fn type_path_bytes(p: SpecTypePath) -> Seq<u8> {
    seq![p.path_length] + encoded_all(p.path)
}

impl Encode for TypePath {
    open spec fn encoded(&self) -> Seq<u8> {
        type_path_bytes(self@)
    }

    fn emit(&self, buff: &mut Vec<u8>) {
        put_u8(buff, self.path_length);
        emit_all(&self.path, buff);
        assert(buff@ =~= old(buff)@ + self.encoded());
    }
}

impl TypePath {
    /// Appends the path's bytes and returns their number.
    pub fn write(self, buff: &mut Vec<u8>) -> (n: usize)
        ensures
            final(buff)@ == old(buff)@ + self.encoded(),
            n == self.encoded().len(),
    {
        let start = buff.len();
        self.emit(buff);
        buff.len() - start
    }
}

/// The target of a type annotation.
#[derive(Clone, Debug)]
pub enum TargetInfo {
    TypeParameterTarget { type_parameter_index: u8 },
    SupertypeTarget { supertype_index: u16 },
    TypeParameterBoundTarget { type_parameter_index: u8, bound_index: u8 },
    EmptyTarget {},
    FormalParameterTarget { formal_parameter_index: u8 },
    ThrowsTarget { throws_type_index: u16 },
    LocalvarTarget { table_length: u16, table: Vec<LocalvarTargetTableEntry> },
    CatchTarget { exception_table_index: u16 },
    OffsetTarget { offset: u16 },
    TypeArgumentTarget { offset: u16, type_argument_index: u8 },
}

/// The abstract value of a type-annotation target.
pub enum SpecTargetInfo {
    TypeParameterTarget { type_parameter_index: u8 },
    SupertypeTarget { supertype_index: u16 },
    TypeParameterBoundTarget { type_parameter_index: u8, bound_index: u8 },
    EmptyTarget {},
    FormalParameterTarget { formal_parameter_index: u8 },
    ThrowsTarget { throws_type_index: u16 },
    LocalvarTarget { table_length: u16, table: Seq<LocalvarTargetTableEntry> },
    CatchTarget { exception_table_index: u16 },
    OffsetTarget { offset: u16 },
    TypeArgumentTarget { offset: u16, type_argument_index: u8 },
}

impl View for TargetInfo {
    type V = SpecTargetInfo;

    open spec fn view(&self) -> SpecTargetInfo {
        match self {
            TargetInfo::TypeParameterTarget { type_parameter_index } => SpecTargetInfo::TypeParameterTarget {
                type_parameter_index: *type_parameter_index,
            },
            TargetInfo::SupertypeTarget { supertype_index } => SpecTargetInfo::SupertypeTarget {
                supertype_index: *supertype_index,
            },
            TargetInfo::TypeParameterBoundTarget { type_parameter_index, bound_index } => {
                SpecTargetInfo::TypeParameterBoundTarget {
                    type_parameter_index: *type_parameter_index,
                    bound_index: *bound_index,
                }
            },
            TargetInfo::EmptyTarget {} => SpecTargetInfo::EmptyTarget {},
            TargetInfo::FormalParameterTarget { formal_parameter_index } => SpecTargetInfo::FormalParameterTarget {
                formal_parameter_index: *formal_parameter_index,
            },
            TargetInfo::ThrowsTarget { throws_type_index } => SpecTargetInfo::ThrowsTarget {
                throws_type_index: *throws_type_index,
            },
            TargetInfo::LocalvarTarget { table_length, table } => SpecTargetInfo::LocalvarTarget {
                table_length: *table_length,
                table: table@,
            },
            TargetInfo::CatchTarget { exception_table_index } => SpecTargetInfo::CatchTarget {
                exception_table_index: *exception_table_index,
            },
            TargetInfo::OffsetTarget { offset } => SpecTargetInfo::OffsetTarget { offset: *offset },
            TargetInfo::TypeArgumentTarget { offset, type_argument_index } => SpecTargetInfo::TypeArgumentTarget {
                offset: *offset,
                type_argument_index: *type_argument_index,
            },
        }
    }
}

/// The bytes of a type-annotation target.
pub open spec fn target_info_bytes(t: SpecTargetInfo) -> Seq<u8> {
    match t {
        SpecTargetInfo::TypeParameterTarget { type_parameter_index } => seq![type_parameter_index],
        SpecTargetInfo::SupertypeTarget { supertype_index } => u16_bytes(supertype_index),
        SpecTargetInfo::TypeParameterBoundTarget { type_parameter_index, bound_index } => seq![
            type_parameter_index,
            bound_index,
        ],
        SpecTargetInfo::EmptyTarget {} => Seq::empty(),
        SpecTargetInfo::FormalParameterTarget { formal_parameter_index } => seq![formal_parameter_index],
        SpecTargetInfo::ThrowsTarget { throws_type_index } => u16_bytes(throws_type_index),
        SpecTargetInfo::LocalvarTarget { table_length, table } => u16_bytes(table_length) + encoded_all(table),
        SpecTargetInfo::CatchTarget { exception_table_index } => u16_bytes(exception_table_index),
        SpecTargetInfo::OffsetTarget { offset } => u16_bytes(offset),
        SpecTargetInfo::TypeArgumentTarget { offset, type_argument_index } => u16_bytes(offset) + seq![
            type_argument_index,
        ],
    }
}

impl Encode for TargetInfo {
    open spec fn encoded(&self) -> Seq<u8> {
        target_info_bytes(self@)
    }

    fn emit(&self, buff: &mut Vec<u8>) {
        match self {
            TargetInfo::TypeParameterTarget { type_parameter_index } => put_u8(buff, *type_parameter_index),
            TargetInfo::SupertypeTarget { supertype_index } => put_u16(buff, *supertype_index),
            TargetInfo::TypeParameterBoundTarget { type_parameter_index, bound_index } => {
                put_u8(buff, *type_parameter_index);
                put_u8(buff, *bound_index);
            },
            TargetInfo::EmptyTarget {} => {},
            TargetInfo::FormalParameterTarget { formal_parameter_index } => put_u8(buff, *formal_parameter_index),
            TargetInfo::ThrowsTarget { throws_type_index } => put_u16(buff, *throws_type_index),
            TargetInfo::LocalvarTarget { table_length, table } => {
                put_u16(buff, *table_length);
                emit_all(table, buff);
            },
            TargetInfo::CatchTarget { exception_table_index } => put_u16(buff, *exception_table_index),
            TargetInfo::OffsetTarget { offset } => put_u16(buff, *offset),
            TargetInfo::TypeArgumentTarget { offset, type_argument_index } => {
                put_u16(buff, *offset);
                put_u8(buff, *type_argument_index);
            },
        }
        assert(buff@ =~= old(buff)@ + self.encoded());
    }
}

impl TargetInfo {
    /// Appends the target's bytes and returns their number.
    pub fn write(self, buff: &mut Vec<u8>) -> (n: usize)
        ensures
            final(buff)@ == old(buff)@ + self.encoded(),
            n == self.encoded().len(),
    {
        let start = buff.len();
        self.emit(buff);
        buff.len() - start
    }
}

/// A frame of a `StackMapTable` attribute, by frame-type range.
#[derive(Clone, Debug)]
pub enum StackMapFrame {
    /// 0-63
    SameFrame { frame_type: u8 },
    /// 64-127
    SameLocals1StackItemFrame { frame_type: u8, stack: Vec<VerificationTypeInfo> },
    /// 247
    SameLocals1StackItemFrameExtended { frame_type: u8, offset_delta: u16, stack: Vec<VerificationTypeInfo> },
    /// 248-250
    ChopFrame { frame_type: u8, offset_delta: u16 },
    /// 251
    SameFrameExtended { frame_type: u8, offset_delta: u16 },
    /// 252-254; `frame_type - 251` locals
    AppendFrame { frame_type: u8, offset_delta: u16, locals: Vec<VerificationTypeInfo> },
    /// 255
    FullFrame {
        frame_type: u8,
        offset_delta: u16,
        number_of_locals: u16,
        locals: Vec<VerificationTypeInfo>,
        number_of_stack_items: u16,
        stack: Vec<VerificationTypeInfo>,
    },
}

/// The abstract value of a stack map frame.
pub enum SpecStackMapFrame {
    SameFrame { frame_type: u8 },
    SameLocals1StackItemFrame { frame_type: u8, stack: Seq<VerificationTypeInfo> },
    SameLocals1StackItemFrameExtended { frame_type: u8, offset_delta: u16, stack: Seq<VerificationTypeInfo> },
    ChopFrame { frame_type: u8, offset_delta: u16 },
    SameFrameExtended { frame_type: u8, offset_delta: u16 },
    AppendFrame { frame_type: u8, offset_delta: u16, locals: Seq<VerificationTypeInfo> },
    FullFrame {
        frame_type: u8,
        offset_delta: u16,
        number_of_locals: u16,
        locals: Seq<VerificationTypeInfo>,
        number_of_stack_items: u16,
        stack: Seq<VerificationTypeInfo>,
    },
}

impl View for StackMapFrame {
    type V = SpecStackMapFrame;

    open spec fn view(&self) -> SpecStackMapFrame {
        match self {
            StackMapFrame::SameFrame { frame_type } => SpecStackMapFrame::SameFrame { frame_type: *frame_type },
            StackMapFrame::SameLocals1StackItemFrame { frame_type, stack } => {
                SpecStackMapFrame::SameLocals1StackItemFrame { frame_type: *frame_type, stack: stack@ }
            },
            StackMapFrame::SameLocals1StackItemFrameExtended { frame_type, offset_delta, stack } => {
                SpecStackMapFrame::SameLocals1StackItemFrameExtended {
                    frame_type: *frame_type,
                    offset_delta: *offset_delta,
                    stack: stack@,
                }
            },
            StackMapFrame::ChopFrame { frame_type, offset_delta } => SpecStackMapFrame::ChopFrame {
                frame_type: *frame_type,
                offset_delta: *offset_delta,
            },
            StackMapFrame::SameFrameExtended { frame_type, offset_delta } => SpecStackMapFrame::SameFrameExtended {
                frame_type: *frame_type,
                offset_delta: *offset_delta,
            },
            StackMapFrame::AppendFrame { frame_type, offset_delta, locals } => SpecStackMapFrame::AppendFrame {
                frame_type: *frame_type,
                offset_delta: *offset_delta,
                locals: locals@,
            },
            StackMapFrame::FullFrame {
                frame_type,
                offset_delta,
                number_of_locals,
                locals,
                number_of_stack_items,
                stack,
            } => SpecStackMapFrame::FullFrame {
                frame_type: *frame_type,
                offset_delta: *offset_delta,
                number_of_locals: *number_of_locals,
                locals: locals@,
                number_of_stack_items: *number_of_stack_items,
                stack: stack@,
            },
        }
    }
}

/// The bytes of a stack map frame; counts are written as stored.
pub open spec fn frame_bytes(f: SpecStackMapFrame) -> Seq<u8> {
    match f {
        SpecStackMapFrame::SameFrame { frame_type } => seq![frame_type],
        SpecStackMapFrame::SameLocals1StackItemFrame { frame_type, stack } => seq![frame_type] + encoded_all(stack),
        SpecStackMapFrame::SameLocals1StackItemFrameExtended { frame_type, offset_delta, stack } => seq![frame_type]
            + u16_bytes(offset_delta) + encoded_all(stack),
        SpecStackMapFrame::ChopFrame { frame_type, offset_delta } => seq![frame_type] + u16_bytes(offset_delta),
        SpecStackMapFrame::SameFrameExtended { frame_type, offset_delta } => seq![frame_type] + u16_bytes(
            offset_delta,
        ),
        SpecStackMapFrame::AppendFrame { frame_type, offset_delta, locals } => seq![frame_type] + u16_bytes(
            offset_delta,
        ) + encoded_all(locals),
        SpecStackMapFrame::FullFrame {
            frame_type,
            offset_delta,
            number_of_locals,
            locals,
            number_of_stack_items,
            stack,
        } => seq![frame_type] + u16_bytes(offset_delta) + u16_bytes(number_of_locals) + encoded_all(locals)
            + u16_bytes(number_of_stack_items) + encoded_all(stack),
    }
}

impl Encode for StackMapFrame {
    open spec fn encoded(&self) -> Seq<u8> {
        frame_bytes(self@)
    }

    fn emit(&self, buff: &mut Vec<u8>) {
        match self {
            StackMapFrame::SameFrame { frame_type } => put_u8(buff, *frame_type),
            StackMapFrame::SameLocals1StackItemFrame { frame_type, stack } => {
                put_u8(buff, *frame_type);
                emit_all(stack, buff);
            },
            StackMapFrame::SameLocals1StackItemFrameExtended { frame_type, offset_delta, stack } => {
                put_u8(buff, *frame_type);
                put_u16(buff, *offset_delta);
                emit_all(stack, buff);
            },
            StackMapFrame::ChopFrame { frame_type, offset_delta } => {
                put_u8(buff, *frame_type);
                put_u16(buff, *offset_delta);
            },
            StackMapFrame::SameFrameExtended { frame_type, offset_delta } => {
                put_u8(buff, *frame_type);
                put_u16(buff, *offset_delta);
            },
            StackMapFrame::AppendFrame { frame_type, offset_delta, locals } => {
                put_u8(buff, *frame_type);
                put_u16(buff, *offset_delta);
                emit_all(locals, buff);
            },
            StackMapFrame::FullFrame {
                frame_type,
                offset_delta,
                number_of_locals,
                locals,
                number_of_stack_items,
                stack,
            } => {
                put_u8(buff, *frame_type);
                put_u16(buff, *offset_delta);
                put_u16(buff, *number_of_locals);
                emit_all(locals, buff);
                put_u16(buff, *number_of_stack_items);
                emit_all(stack, buff);
            },
        }
        assert(buff@ =~= old(buff)@ + self.encoded());
    }
}

impl StackMapFrame {
    /// Appends the frame's bytes and returns their number.
    pub fn write(self, buff: &mut Vec<u8>) -> (n: usize)
        ensures
            final(buff)@ == old(buff)@ + self.encoded(),
            n == self.encoded().len(),
    {
        let start = buff.len();
        self.emit(buff);
        buff.len() - start
    }
}


/// ```javadoc
/// annotation { u2 type_index; u2 num_element_value_pairs; { u2 element_name_index; element_value value; } element_value_pairs[...]; }
/// ```
#[derive(Debug)]
pub struct Annotation {
    pub type_index: u16,
    pub num_element_value_pairs: u16,
    pub element_value_pairs: Vec<ElementValuePair>,
}

/// ```javadoc
/// { u2 element_name_index; element_value value; }
/// ```
#[derive(Debug)]
pub struct ElementValuePair {
    pub element_name_index: u16,
    pub value: ElementValue,
}

/// ```javadoc
/// element_value { u1 tag; union { ... } value; }
/// ```
#[derive(Debug)]
pub struct ElementValue {
    pub tag: u8,
    pub value: Value,
}

/// The value of an element, by the kind its tag names.
#[derive(Debug)]
pub enum Value {
    ConstValueIndex { const_value_index: u16 },
    EnumConstValue { type_name_index: u16, const_name_index: u16 },
    ClassInfoIndex { class_info_index: u16 },
    AnnotationValue { annotation_value: Annotation },
    ArrayValue { num_values: u16, values: Vec<ElementValue> },
}

/// The abstract value of an annotation.
pub struct SpecAnnotation {
    pub type_index: u16,
    pub num_element_value_pairs: u16,
    pub element_value_pairs: Seq<SpecElementValuePair>,
}

/// The abstract value of an element-value pair.
pub struct SpecElementValuePair {
    pub element_name_index: u16,
    pub value: SpecElementValue,
}

/// The abstract value of an element value.
pub struct SpecElementValue {
    pub tag: u8,
    pub value: SpecValue,
}

/// The abstract value of the value of an element.
pub enum SpecValue {
    ConstValueIndex { const_value_index: u16 },
    EnumConstValue { type_name_index: u16, const_name_index: u16 },
    ClassInfoIndex { class_info_index: u16 },
    AnnotationValue { annotation_value: SpecAnnotation },
    ArrayValue { num_values: u16, values: Seq<SpecElementValue> },
}

/// The abstract value of an annotation.
pub open spec fn annotation_view(a: &Annotation) -> SpecAnnotation
    decreases a,
{
    SpecAnnotation {
        type_index: a.type_index,
        num_element_value_pairs: a.num_element_value_pairs,
        element_value_pairs: Seq::new(
            a.element_value_pairs@.len(),
            |j: int|
                if 0 <= j < a.element_value_pairs@.len() {
                    proof {
                        vstd::std_specs::vec::axiom_vec_index_decreases(a.element_value_pairs, j);
                    }
                    pair_view(&a.element_value_pairs@[j])
                } else {
                    arbitrary()
                },
        ),
    }
}

/// The abstract value of an element-value pair.
pub open spec fn pair_view(p: &ElementValuePair) -> SpecElementValuePair
    decreases p,
{
    SpecElementValuePair { element_name_index: p.element_name_index, value: element_value_view(&p.value) }
}

/// The abstract value of an element value.
pub open spec fn element_value_view(e: &ElementValue) -> SpecElementValue
    decreases e,
{
    SpecElementValue { tag: e.tag, value: value_view(&e.value) }
}

/// The abstract value of the value of an element.
pub open spec fn value_view(v: &Value) -> SpecValue
    decreases v,
{
    match v {
        Value::ConstValueIndex { const_value_index } => SpecValue::ConstValueIndex {
            const_value_index: *const_value_index,
        },
        Value::EnumConstValue { type_name_index, const_name_index } => SpecValue::EnumConstValue {
            type_name_index: *type_name_index,
            const_name_index: *const_name_index,
        },
        Value::ClassInfoIndex { class_info_index } => SpecValue::ClassInfoIndex {
            class_info_index: *class_info_index,
        },
        Value::AnnotationValue { annotation_value } => SpecValue::AnnotationValue {
            annotation_value: annotation_view(annotation_value),
        },
        Value::ArrayValue { num_values, values } => SpecValue::ArrayValue {
            num_values: *num_values,
            values: Seq::new(
                values@.len(),
                |j: int|
                    if 0 <= j < values@.len() {
                        proof {
                            vstd::std_specs::vec::axiom_vec_index_decreases(*values, j);
                        }
                        element_value_view(&values@[j])
                    } else {
                        arbitrary()
                    },
            ),
        },
    }
}

impl View for Annotation {
    type V = SpecAnnotation;

    open spec fn view(&self) -> SpecAnnotation {
        annotation_view(self)
    }
}

impl View for ElementValuePair {
    type V = SpecElementValuePair;

    open spec fn view(&self) -> SpecElementValuePair {
        pair_view(self)
    }
}

impl View for ElementValue {
    type V = SpecElementValue;

    open spec fn view(&self) -> SpecElementValue {
        element_value_view(self)
    }
}

impl View for Value {
    type V = SpecValue;

    open spec fn view(&self) -> SpecValue {
        value_view(self)
    }
}

/// The abstract values of a sequence of element-value pairs.
pub open spec fn pair_views(v: Seq<ElementValuePair>) -> Seq<SpecElementValuePair> {
    Seq::new(v.len(), |j: int| v[j]@)
}

/// The abstract values of a sequence of element values.
pub open spec fn element_value_views(v: Seq<ElementValue>) -> Seq<SpecElementValue> {
    Seq::new(v.len(), |j: int| v[j]@)
}

/// The abstract values of a sequence of annotations.
pub open spec fn annotation_views(v: Seq<Annotation>) -> Seq<SpecAnnotation> {
    Seq::new(v.len(), |j: int| v[j]@)
}

/// The bytes of an annotation; counts are written as stored.
pub open spec fn annotation_bytes(a: SpecAnnotation) -> Seq<u8>
    decreases a,
{
    u16_bytes(a.type_index) + u16_bytes(a.num_element_value_pairs) + pairs_bytes(a.element_value_pairs)
}

/// The bytes of element-value pairs, one after another.
pub open spec fn pairs_bytes(s: Seq<SpecElementValuePair>) -> Seq<u8>
    decreases s,
{
    if s.len() == 0 {
        Seq::empty()
    } else {
        pairs_bytes(s.subrange(0, s.len() - 1)) + pair_bytes(s[s.len() - 1])
    }
}

/// The bytes of an element-value pair.
pub open spec fn pair_bytes(p: SpecElementValuePair) -> Seq<u8>
    decreases p,
{
    u16_bytes(p.element_name_index) + element_value_bytes(p.value)
}

/// The bytes of an element value: its tag, then its value.
pub open spec fn element_value_bytes(e: SpecElementValue) -> Seq<u8>
    decreases e,
{
    seq![e.tag] + value_bytes(e.value)
}

/// The bytes of the value of an element.
pub open spec fn value_bytes(v: SpecValue) -> Seq<u8>
    decreases v,
{
    match v {
        SpecValue::ConstValueIndex { const_value_index } => u16_bytes(const_value_index),
        SpecValue::EnumConstValue { type_name_index, const_name_index } => u16_bytes(type_name_index) + u16_bytes(
            const_name_index,
        ),
        SpecValue::ClassInfoIndex { class_info_index } => u16_bytes(class_info_index),
        SpecValue::AnnotationValue { annotation_value } => annotation_bytes(annotation_value),
        SpecValue::ArrayValue { num_values, values } => u16_bytes(num_values) + element_values_bytes(values),
    }
}

/// The bytes of element values, one after another.
pub open spec fn element_values_bytes(s: Seq<SpecElementValue>) -> Seq<u8>
    decreases s,
{
    if s.len() == 0 {
        Seq::empty()
    } else {
        element_values_bytes(s.subrange(0, s.len() - 1)) + element_value_bytes(s[s.len() - 1])
    }
}

/// The bytes of annotations, one after another.
pub open spec fn annotations_bytes(s: Seq<SpecAnnotation>) -> Seq<u8>
    decreases s.len(),
{
    if s.len() == 0 {
        Seq::empty()
    } else {
        annotations_bytes(s.drop_last()) + annotation_bytes(s.last())
    }
}

impl Annotation {
    /// Appends the annotation's bytes.
    pub fn emit(&self, buff: &mut Vec<u8>)
        ensures
            final(buff)@ == old(buff)@ + annotation_bytes(self@),
        decreases self,
    {
        put_u16(buff, self.type_index);
        put_u16(buff, self.num_element_value_pairs);
        emit_pairs(&self.element_value_pairs, buff);
        assert(pair_views(self.element_value_pairs@) =~= self@.element_value_pairs);
        assert(buff@ =~= old(buff)@ + annotation_bytes(self@));
    }

    /// Appends the annotation's bytes and returns their number.
    pub fn write(self, buff: &mut Vec<u8>) -> (n: usize)
        ensures
            final(buff)@ == old(buff)@ + annotation_bytes(self@),
            n == annotation_bytes(self@).len(),
    {
        let start = buff.len();
        self.emit(buff);
        buff.len() - start
    }
}

fn emit_pairs(v: &Vec<ElementValuePair>, buff: &mut Vec<u8>)
    ensures
        final(buff)@ == old(buff)@ + pairs_bytes(pair_views(v@)),
    decreases v,
{
    let mut i: usize = 0;
    while i < v.len()
        invariant
            i <= v@.len(),
            buff@ == old(buff)@ + pairs_bytes(pair_views(v@).subrange(0, i as int)),
        decreases v@.len() - i,
    {
        proof {
            vstd::std_specs::vec::axiom_vec_index_decreases(*v, i as int);
        }
        v[i].emit(buff);
        proof {
            let s = pair_views(v@).subrange(0, i + 1);
            assert(s.subrange(0, s.len() - 1) =~= pair_views(v@).subrange(0, i as int));
            assert(s[s.len() - 1] == v@[i as int]@);
        }
        i = i + 1;
    }
    assert(pair_views(v@).subrange(0, v@.len() as int) =~= pair_views(v@));
}

impl ElementValuePair {
    /// Appends the pair's bytes.
    pub fn emit(&self, buff: &mut Vec<u8>)
        ensures
            final(buff)@ == old(buff)@ + pair_bytes(self@),
        decreases self,
    {
        put_u16(buff, self.element_name_index);
        self.value.emit(buff);
        assert(buff@ =~= old(buff)@ + pair_bytes(self@));
    }

    /// Appends the pair's bytes and returns their number.
    pub fn write(self, buff: &mut Vec<u8>) -> (n: usize)
        ensures
            final(buff)@ == old(buff)@ + pair_bytes(self@),
            n == pair_bytes(self@).len(),
    {
        let start = buff.len();
        self.emit(buff);
        buff.len() - start
    }
}

impl ElementValue {
    /// Appends the element value's bytes.
    pub fn emit(&self, buff: &mut Vec<u8>)
        ensures
            final(buff)@ == old(buff)@ + element_value_bytes(self@),
        decreases self,
    {
        put_u8(buff, self.tag);
        self.value.emit(buff);
        assert(buff@ =~= old(buff)@ + element_value_bytes(self@));
    }

    /// Appends the element value's bytes and returns their number.
    pub fn write(self, buff: &mut Vec<u8>) -> (n: usize)
        ensures
            final(buff)@ == old(buff)@ + element_value_bytes(self@),
            n == element_value_bytes(self@).len(),
    {
        let start = buff.len();
        self.emit(buff);
        buff.len() - start
    }
}

impl Value {
    /// Appends the value's bytes.
    pub fn emit(&self, buff: &mut Vec<u8>)
        ensures
            final(buff)@ == old(buff)@ + value_bytes(self@),
        decreases self,
    {
        match self {
            Value::ConstValueIndex { const_value_index } => put_u16(buff, *const_value_index),
            Value::EnumConstValue { type_name_index, const_name_index } => {
                put_u16(buff, *type_name_index);
                put_u16(buff, *const_name_index);
            },
            Value::ClassInfoIndex { class_info_index } => put_u16(buff, *class_info_index),
            Value::AnnotationValue { annotation_value } => annotation_value.emit(buff),
            Value::ArrayValue { num_values, values } => {
                put_u16(buff, *num_values);
                emit_element_values(values, buff);
                assert(element_value_views(values@) =~= (match self@ {
                    SpecValue::ArrayValue { values, .. } => values,
                    _ => Seq::empty(),
                }));
            },
        }
        assert(buff@ =~= old(buff)@ + value_bytes(self@));
    }

    /// Appends the value's bytes and returns their number.
    pub fn write(self, buff: &mut Vec<u8>) -> (n: usize)
        ensures
            final(buff)@ == old(buff)@ + value_bytes(self@),
            n == value_bytes(self@).len(),
    {
        let start = buff.len();
        self.emit(buff);
        buff.len() - start
    }
}

fn emit_element_values(v: &Vec<ElementValue>, buff: &mut Vec<u8>)
    ensures
        final(buff)@ == old(buff)@ + element_values_bytes(element_value_views(v@)),
    decreases v,
{
    let mut i: usize = 0;
    while i < v.len()
        invariant
            i <= v@.len(),
            buff@ == old(buff)@ + element_values_bytes(element_value_views(v@).subrange(0, i as int)),
        decreases v@.len() - i,
    {
        proof {
            vstd::std_specs::vec::axiom_vec_index_decreases(*v, i as int);
        }
        v[i].emit(buff);
        proof {
            let s = element_value_views(v@).subrange(0, i + 1);
            assert(s.subrange(0, s.len() - 1) =~= element_value_views(v@).subrange(0, i as int));
            assert(s[s.len() - 1] == v@[i as int]@);
        }
        i = i + 1;
    }
    assert(element_value_views(v@).subrange(0, v@.len() as int) =~= element_value_views(v@));
}

pub fn emit_annotations(v: &Vec<Annotation>, buff: &mut Vec<u8>)
    ensures
        final(buff)@ == old(buff)@ + annotations_bytes(annotation_views(v@)),
{
    let mut i: usize = 0;
    while i < v.len()
        invariant
            i <= v@.len(),
            buff@ == old(buff)@ + annotations_bytes(annotation_views(v@).subrange(0, i as int)),
        decreases v@.len() - i,
    {
        v[i].emit(buff);
        proof {
            let s = annotation_views(v@).subrange(0, i + 1);
            assert(s.drop_last() =~= annotation_views(v@).subrange(0, i as int));
        }
        i = i + 1;
    }
    assert(annotation_views(v@).subrange(0, v@.len() as int) =~= annotation_views(v@));
}

/// ```javadoc
/// { u2 num_annotations; annotation annotations[num_annotations]; }
/// ```
#[derive(Debug)]
pub struct ParameterAnnotation {
    pub num_annotations: u16,
    pub annotations: Vec<Annotation>,
}

/// The abstract value of the annotations of one parameter.
pub struct SpecParameterAnnotation {
    pub num_annotations: u16,
    pub annotations: Seq<SpecAnnotation>,
}

impl View for ParameterAnnotation {
    type V = SpecParameterAnnotation;

    open spec fn view(&self) -> SpecParameterAnnotation {
        SpecParameterAnnotation {
            num_annotations: self.num_annotations,
            annotations: annotation_views(self.annotations@),
        }
    }
}

/// The bytes of the annotations of one parameter.
pub open spec fn parameter_annotation_bytes(p: SpecParameterAnnotation) -> Seq<u8> {
    u16_bytes(p.num_annotations) + annotations_bytes(p.annotations)
}

impl Encode for ParameterAnnotation {
    open spec fn encoded(&self) -> Seq<u8> {
        parameter_annotation_bytes(self@)
    }

    fn emit(&self, buff: &mut Vec<u8>) {
        put_u16(buff, self.num_annotations);
        emit_annotations(&self.annotations, buff);
        assert(buff@ =~= old(buff)@ + self.encoded());
    }
}

impl ParameterAnnotation {
    /// Appends the parameter annotations' bytes and returns their number.
    pub fn write(self, buff: &mut Vec<u8>) -> (n: usize)
        ensures
            final(buff)@ == old(buff)@ + self.encoded(),
            n == self.encoded().len(),
    {
        let start = buff.len();
        self.emit(buff);
        buff.len() - start
    }
}

/// ```javadoc
/// type_annotation { u1 target_type; target_info; type_path target_path; u2 type_index;
///     u2 num_element_value_pairs; { u2 element_name_index; element_value value; } element_value_pairs[...]; }
/// ```
#[derive(Debug)]
pub struct TypeAnnotation {
    pub target_type: u8,
    pub target_info: TargetInfo,
    pub target_path: TypePath,
    pub type_index: u16,
    pub num_element_value_pairs: u16,
    pub element_value_pairs: Vec<ElementValuePair>,
}

/// The abstract value of a type annotation.
pub struct SpecTypeAnnotation {
    pub target_type: u8,
    pub target_info: SpecTargetInfo,
    pub target_path: SpecTypePath,
    pub type_index: u16,
    pub num_element_value_pairs: u16,
    pub element_value_pairs: Seq<SpecElementValuePair>,
}

impl View for TypeAnnotation {
    type V = SpecTypeAnnotation;

    open spec fn view(&self) -> SpecTypeAnnotation {
        SpecTypeAnnotation {
            target_type: self.target_type,
            target_info: self.target_info@,
            target_path: self.target_path@,
            type_index: self.type_index,
            num_element_value_pairs: self.num_element_value_pairs,
            element_value_pairs: pair_views(self.element_value_pairs@),
        }
    }
}

/// The bytes of a type annotation.
pub open spec fn type_annotation_bytes(t: SpecTypeAnnotation) -> Seq<u8> {
    seq![t.target_type] + target_info_bytes(t.target_info) + type_path_bytes(t.target_path) + u16_bytes(
        t.type_index,
    ) + u16_bytes(t.num_element_value_pairs) + pairs_bytes(t.element_value_pairs)
}

impl Encode for TypeAnnotation {
    open spec fn encoded(&self) -> Seq<u8> {
        type_annotation_bytes(self@)
    }

    fn emit(&self, buff: &mut Vec<u8>) {
        put_u8(buff, self.target_type);
        self.target_info.emit(buff);
        self.target_path.emit(buff);
        put_u16(buff, self.type_index);
        put_u16(buff, self.num_element_value_pairs);
        emit_pairs(&self.element_value_pairs, buff);
        assert(buff@ =~= old(buff)@ + self.encoded());
    }
}

impl TypeAnnotation {
    /// Appends the type annotation's bytes and returns their number.
    pub fn write(self, buff: &mut Vec<u8>) -> (n: usize)
        ensures
            final(buff)@ == old(buff)@ + self.encoded(),
            n == self.encoded().len(),
    {
        let start = buff.len();
        self.emit(buff);
        buff.len() - start
    }
}

} // verus!
