//! Reading class-file structures from bytes, with the cursor discipline of a
//! buffered reader: a read that runs past the end fails and leaves the cursor at
//! the end; a read that finds a value it does not accept fails after the bytes
//! it took. Every reader here is stated against a grammar function of the same
//! shape over the abstract byte sequence, which returns the value read (if any)
//! and the position after it.
use crate::access_flags::{AccessFlagContext, AccessFlags};
use crate::attributes::{
    encoded_all, frame_bytes, item_of, Encode, ExceptionTableEntry, ExportsEntry, InnerClassEntry, LineNumberEntry,
    LocalVariableTableEntry, LocalVariableTypeTableEntry, LocalvarTargetTableEntry, OpensEntry,
    Parameter, PathEntry, ProvidesEntry, RequiresEntry, SpecStackMapFrame, StackMapFrame,
    VerificationTypeInfo, VerificationTypeInfoItem,
};
use crate::bytes::{avail, concat_map, copy_range, lemma_u16_bytes_at, take_u16, take_u32, take_u8, u16_at, u16_at_exec, u16s_at, u16s_at_exec, u16s_bytes, u32_at};
use vstd::prelude::*;

verus! {

/// A byte at `p`.
pub open spec fn get_u8(d: Seq<u8>, p: int) -> (Option<u8>, int) {
    if avail(d, p, 1) {
        (Some(d[p]), p + 1)
    } else {
        (None, d.len() as int)
    }
}

/// A big-endian u16 at `p`.
pub open spec fn get_u16(d: Seq<u8>, p: int) -> (Option<u16>, int) {
    if avail(d, p, 2) {
        (Some(u16_at(d, p)), p + 2)
    } else {
        (None, d.len() as int)
    }
}

/// A big-endian u32 at `p`.
pub open spec fn get_u32(d: Seq<u8>, p: int) -> (Option<u32>, int) {
    if avail(d, p, 4) {
        (Some(u32_at(d, p)), p + 4)
    } else {
        (None, d.len() as int)
    }
}

/// `n` raw bytes at `p`.
pub open spec fn get_bytes(d: Seq<u8>, p: int, n: int) -> (Option<Seq<u8>>, int) {
    if avail(d, p, n) {
        (Some(d.subrange(p, p + n)), p + n)
    } else {
        (None, d.len() as int)
    }
}

/// `n` big-endian u16 values at `p`.
pub open spec fn get_u16s(d: Seq<u8>, p: int, n: nat) -> (Option<Seq<u16>>, int) {
    if avail(d, p, 2 * n as int) {
        (Some(u16s_at(d, p, n)), p + 2 * n)
    } else {
        (None, d.len() as int)
    }
}

/// Reads `n` raw bytes at `pos`.
pub fn read_bytes(data: &[u8], pos: usize, n: usize) -> (r: (Option<Vec<u8>>, usize))
    requires
        pos <= data@.len(),
    ensures
        r.1 == get_bytes(data@, pos as int, n as int).1,
        r.0 is Some == get_bytes(data@, pos as int, n as int).0 is Some,
        r.0 matches Some(v) ==> v@ == get_bytes(data@, pos as int, n as int).0.unwrap(),
{
    if data.len() - pos >= n {
        (Some(copy_range(data, pos, pos + n)), pos + n)
    } else {
        (None, data.len())
    }
}

/// Reads `n` big-endian u16 values at `pos`.
pub fn read_u16s(data: &[u8], pos: usize, n: u16) -> (r: (Option<Vec<u16>>, usize))
    requires
        pos <= data@.len(),
    ensures
        r.1 == get_u16s(data@, pos as int, n as nat).1,
        r.0 is Some == get_u16s(data@, pos as int, n as nat).0 is Some,
        r.0 matches Some(v) ==> v@ == get_u16s(data@, pos as int, n as nat).0.unwrap(),
{
    let need: usize = 2 * (n as usize);
    if data.len() - pos >= need {
        (Some(u16s_at_exec(data, pos, n)), pos + need)
    } else {
        (None, data.len())
    }
}

/// An entry of a fixed width, read field by field.
pub trait Decode: Sized + Encode {
    /// The number of bytes of an entry.
    spec fn width() -> nat;

    /// The entry whose bytes start at `p`.
    spec fn decoded(d: Seq<u8>, p: int) -> Self;

    /// The number of bytes of an entry.
    fn width_exec() -> (w: usize)
        ensures
            w == Self::width(),
            w <= 16,
    ;

    /// The entry whose bytes start at `pos`, where they are all present.
    fn decode(data: &[u8], pos: usize) -> (r: Self)
        requires
            avail(data@, pos as int, Self::width() as int),
            data@.len() <= usize::MAX,
        ensures
            r == Self::decoded(data@, pos as int),
    ;

    /// An entry read from bytes is written as those bytes.
    proof fn lemma_decoded_bytes(d: Seq<u8>, p: int)
        requires
            avail(d, p, Self::width() as int),
        ensures
            Self::decoded(d, p).encoded() == d.subrange(p, p + Self::width()),
    ;
}

/// `n` entries read one after another from `p`; the first one cut short by the
/// end of the data ends the read there.
pub open spec fn get_table<T: Decode>(d: Seq<u8>, p: int, n: nat) -> (Option<Seq<T>>, int)
    decreases n,
{
    if n == 0 {
        (Some(Seq::empty()), p)
    } else {
        let (r, q) = get_table::<T>(d, p, (n - 1) as nat);
        match r {
            None => (None, q),
            Some(s) => if avail(d, q, T::width() as int) {
                (Some(s.push(T::decoded(d, q))), q + T::width())
            } else {
                (None, d.len() as int)
            },
        }
    }
}

/// The position where a table read from `p` stops, whatever it yields, lies in `[p, |d|]`.
pub proof fn lemma_table_bounds<T: Decode>(d: Seq<u8>, p: int, n: nat)
    requires
        0 <= p <= d.len(),
    ensures
        p <= get_table::<T>(d, p, n).1 <= d.len(),
    decreases n,
{
    if n > 0 {
        lemma_table_bounds::<T>(d, p, (n - 1) as nat);
    }
}

/// Reads `n` entries at `pos`.
pub fn read_table<T: Decode>(data: &[u8], pos: usize, n: usize) -> (r: (Option<Vec<T>>, usize))
    requires
        pos <= data@.len(),
    ensures
        r.1 == get_table::<T>(data@, pos as int, n as nat).1,
        r.0 is Some == get_table::<T>(data@, pos as int, n as nat).0 is Some,
        r.0 matches Some(v) ==> v@ == get_table::<T>(data@, pos as int, n as nat).0.unwrap(),
{
    let w = T::width_exec();
    let mut out: Vec<T> = Vec::new();
    let mut cur = pos;
    let mut i: usize = 0;
    while i < n
        invariant
            i <= n,
            pos <= cur <= data@.len(),
            w == T::width(),
            get_table::<T>(data@, pos as int, i as nat) == (Some(out@), cur as int),
        decreases n - i,
    {
        if data.len() - cur < w {
            proof {
                lemma_table_fails_after::<T>(data@, pos as int, (i + 1) as nat, n as nat);
            }
            return (None, data.len());
        }
        let e = T::decode(data, cur);
        out.push(e);
        cur = cur + w;
        i = i + 1;
    }
    (Some(out), cur)
}

/// Once a table read fails, reading more entries fails too, at the end of the data.
pub proof fn lemma_table_fails_after<T: Decode>(d: Seq<u8>, p: int, k: nat, n: nat)
    requires
        k <= n,
        get_table::<T>(d, p, k).0 is None,
        get_table::<T>(d, p, k).1 == d.len(),
    ensures
        get_table::<T>(d, p, n).0 is None,
        get_table::<T>(d, p, n).1 == d.len(),
    decreases n - k,
{
    if k < n {
        lemma_table_fails_after::<T>(d, p, k, (n - 1) as nat);
    }
}

/// Writing a table that was read gives back the bytes it was read from.
pub proof fn lemma_table_roundtrip<T: Decode>(d: Seq<u8>, p: int, n: nat)
    requires
        0 <= p <= d.len(),
        get_table::<T>(d, p, n).0 is Some,
    ensures
        p <= get_table::<T>(d, p, n).1 <= d.len(),
        encoded_all(get_table::<T>(d, p, n).0.unwrap()) == d.subrange(p, get_table::<T>(d, p, n).1),
    decreases n,
{
    if n == 0 {
        assert(encoded_all(Seq::<T>::empty()) =~= d.subrange(p, p));
    } else {
        let (r, q) = get_table::<T>(d, p, (n - 1) as nat);
        lemma_table_roundtrip::<T>(d, p, (n - 1) as nat);
        let prev = r.unwrap();
        T::lemma_decoded_bytes(d, q);
        let s = prev.push(T::decoded(d, q));
        assert(s.drop_last() =~= prev);
        assert(encoded_all(s) == encoded_all(prev) + T::decoded(d, q).encoded());
        assert(d.subrange(p, q + T::width()) =~= d.subrange(p, q) + d.subrange(q, q + T::width()));
    }
}

/// Writing u16 values that were read gives back the bytes they were read from.
pub proof fn lemma_u16s_roundtrip(d: Seq<u8>, p: int, n: nat)
    requires
        avail(d, p, 2 * n as int),
    ensures
        u16s_bytes(u16s_at(d, p, n)) == d.subrange(p, p + 2 * n),
    decreases n,
{
    if n == 0 {
        assert(u16s_bytes(u16s_at(d, p, 0)) =~= d.subrange(p, p));
    } else {
        let m = (n - 1) as nat;
        lemma_u16s_roundtrip(d, p, m);
        assert(u16s_at(d, p, n).drop_last() =~= u16s_at(d, p, m));
        lemma_u16_bytes_at(d, p + 2 * m);
        assert(d.subrange(p, p + 2 * n) =~= d.subrange(p, p + 2 * m) + d.subrange(p + 2 * m, p + 2 * m + 2));
    }
}

impl Decode for ExceptionTableEntry {
    open spec fn width() -> nat {
        8
    }

    open spec fn decoded(d: Seq<u8>, p: int) -> Self {
        ExceptionTableEntry {
            start_pc: u16_at(d, p),
            end_pc: u16_at(d, p + 2),
            handler_pc: u16_at(d, p + 4),
            catch_type: u16_at(d, p + 6),
        }
    }

    fn width_exec() -> usize {
        8
    }

    fn decode(data: &[u8], pos: usize) -> Self {
        ExceptionTableEntry {
            start_pc: u16_at_exec(data, pos),
            end_pc: u16_at_exec(data, pos + 2),
            handler_pc: u16_at_exec(data, pos + 4),
            catch_type: u16_at_exec(data, pos + 6),
        }
    }

    proof fn lemma_decoded_bytes(d: Seq<u8>, p: int) {
        lemma_u16_bytes_at(d, p);
        lemma_u16_bytes_at(d, p + 2);
        lemma_u16_bytes_at(d, p + 4);
        lemma_u16_bytes_at(d, p + 6);
        assert(Self::decoded(d, p).encoded() =~= d.subrange(p, p + 8));
    }
}

impl Decode for LineNumberEntry {
    open spec fn width() -> nat {
        4
    }

    open spec fn decoded(d: Seq<u8>, p: int) -> Self {
        LineNumberEntry { start_pc: u16_at(d, p), line_number: u16_at(d, p + 2) }
    }

    fn width_exec() -> usize {
        4
    }

    fn decode(data: &[u8], pos: usize) -> Self {
        LineNumberEntry { start_pc: u16_at_exec(data, pos), line_number: u16_at_exec(data, pos + 2) }
    }

    proof fn lemma_decoded_bytes(d: Seq<u8>, p: int) {
        lemma_u16_bytes_at(d, p);
        lemma_u16_bytes_at(d, p + 2);
        assert(Self::decoded(d, p).encoded() =~= d.subrange(p, p + 4));
    }
}

impl Decode for LocalVariableTableEntry {
    open spec fn width() -> nat {
        10
    }

    open spec fn decoded(d: Seq<u8>, p: int) -> Self {
        LocalVariableTableEntry {
            start_pc: u16_at(d, p),
            length: u16_at(d, p + 2),
            name_index: u16_at(d, p + 4),
            descriptor_index: u16_at(d, p + 6),
            index: u16_at(d, p + 8),
        }
    }

    fn width_exec() -> usize {
        10
    }

    fn decode(data: &[u8], pos: usize) -> Self {
        LocalVariableTableEntry {
            start_pc: u16_at_exec(data, pos),
            length: u16_at_exec(data, pos + 2),
            name_index: u16_at_exec(data, pos + 4),
            descriptor_index: u16_at_exec(data, pos + 6),
            index: u16_at_exec(data, pos + 8),
        }
    }

    proof fn lemma_decoded_bytes(d: Seq<u8>, p: int) {
        lemma_u16_bytes_at(d, p);
        lemma_u16_bytes_at(d, p + 2);
        lemma_u16_bytes_at(d, p + 4);
        lemma_u16_bytes_at(d, p + 6);
        lemma_u16_bytes_at(d, p + 8);
        assert(Self::decoded(d, p).encoded() =~= d.subrange(p, p + 10));
    }
}

impl Decode for LocalVariableTypeTableEntry {
    open spec fn width() -> nat {
        10
    }

    open spec fn decoded(d: Seq<u8>, p: int) -> Self {
        LocalVariableTypeTableEntry {
            start_pc: u16_at(d, p),
            length: u16_at(d, p + 2),
            name_index: u16_at(d, p + 4),
            signature_index: u16_at(d, p + 6),
            index: u16_at(d, p + 8),
        }
    }

    fn width_exec() -> usize {
        10
    }

    fn decode(data: &[u8], pos: usize) -> Self {
        LocalVariableTypeTableEntry {
            start_pc: u16_at_exec(data, pos),
            length: u16_at_exec(data, pos + 2),
            name_index: u16_at_exec(data, pos + 4),
            signature_index: u16_at_exec(data, pos + 6),
            index: u16_at_exec(data, pos + 8),
        }
    }

    proof fn lemma_decoded_bytes(d: Seq<u8>, p: int) {
        lemma_u16_bytes_at(d, p);
        lemma_u16_bytes_at(d, p + 2);
        lemma_u16_bytes_at(d, p + 4);
        lemma_u16_bytes_at(d, p + 6);
        lemma_u16_bytes_at(d, p + 8);
        assert(Self::decoded(d, p).encoded() =~= d.subrange(p, p + 10));
    }
}

impl Decode for InnerClassEntry {
    open spec fn width() -> nat {
        8
    }

    open spec fn decoded(d: Seq<u8>, p: int) -> Self {
        InnerClassEntry {
            inner_class_info_index: u16_at(d, p),
            outer_class_info_index: u16_at(d, p + 2),
            inner_name_index: u16_at(d, p + 4),
            inner_class_access_flags: u16_at(d, p + 6),
        }
    }

    fn width_exec() -> usize {
        8
    }

    fn decode(data: &[u8], pos: usize) -> Self {
        InnerClassEntry {
            inner_class_info_index: u16_at_exec(data, pos),
            outer_class_info_index: u16_at_exec(data, pos + 2),
            inner_name_index: u16_at_exec(data, pos + 4),
            inner_class_access_flags: u16_at_exec(data, pos + 6),
        }
    }

    proof fn lemma_decoded_bytes(d: Seq<u8>, p: int) {
        lemma_u16_bytes_at(d, p);
        lemma_u16_bytes_at(d, p + 2);
        lemma_u16_bytes_at(d, p + 4);
        lemma_u16_bytes_at(d, p + 6);
        assert(Self::decoded(d, p).encoded() =~= d.subrange(p, p + 8));
    }
}

impl Decode for Parameter {
    open spec fn width() -> nat {
        4
    }

    /// The flags word of a method parameter is read in the module context.
    open spec fn decoded(d: Seq<u8>, p: int) -> Self {
        Parameter {
            name_index: u16_at(d, p),
            access_flags: AccessFlags { value: u16_at(d, p + 2), context: AccessFlagContext::Module },
        }
    }

    fn width_exec() -> usize {
        4
    }

    fn decode(data: &[u8], pos: usize) -> Self {
        Parameter {
            name_index: u16_at_exec(data, pos),
            access_flags: AccessFlags::from_parts(AccessFlagContext::Module, u16_at_exec(data, pos + 2)),
        }
    }

    proof fn lemma_decoded_bytes(d: Seq<u8>, p: int) {
        lemma_u16_bytes_at(d, p);
        lemma_u16_bytes_at(d, p + 2);
        assert(Self::decoded(d, p).encoded() =~= d.subrange(p, p + 4));
    }
}

impl Decode for PathEntry {
    open spec fn width() -> nat {
        2
    }

    open spec fn decoded(d: Seq<u8>, p: int) -> Self {
        PathEntry { type_path_kind: d[p], type_argument_index: d[p + 1] }
    }

    fn width_exec() -> usize {
        2
    }

    fn decode(data: &[u8], pos: usize) -> Self {
        PathEntry { type_path_kind: data[pos], type_argument_index: data[pos + 1] }
    }

    proof fn lemma_decoded_bytes(d: Seq<u8>, p: int) {
        assert(Self::decoded(d, p).encoded() =~= d.subrange(p, p + 2));
    }
}

impl Decode for LocalvarTargetTableEntry {
    open spec fn width() -> nat {
        6
    }

    open spec fn decoded(d: Seq<u8>, p: int) -> Self {
        LocalvarTargetTableEntry { start_pc: u16_at(d, p), length: u16_at(d, p + 2), index: u16_at(d, p + 4) }
    }

    fn width_exec() -> usize {
        6
    }

    fn decode(data: &[u8], pos: usize) -> Self {
        LocalvarTargetTableEntry {
            start_pc: u16_at_exec(data, pos),
            length: u16_at_exec(data, pos + 2),
            index: u16_at_exec(data, pos + 4),
        }
    }

    proof fn lemma_decoded_bytes(d: Seq<u8>, p: int) {
        lemma_u16_bytes_at(d, p);
        lemma_u16_bytes_at(d, p + 2);
        lemma_u16_bytes_at(d, p + 4);
        assert(Self::decoded(d, p).encoded() =~= d.subrange(p, p + 6));
    }
}

impl Decode for RequiresEntry {
    open spec fn width() -> nat {
        6
    }

    open spec fn decoded(d: Seq<u8>, p: int) -> Self {
        RequiresEntry {
            requires_index: u16_at(d, p),
            requires_flags: u16_at(d, p + 2),
            requires_version_index: u16_at(d, p + 4),
        }
    }

    fn width_exec() -> usize {
        6
    }

    fn decode(data: &[u8], pos: usize) -> Self {
        RequiresEntry {
            requires_index: u16_at_exec(data, pos),
            requires_flags: u16_at_exec(data, pos + 2),
            requires_version_index: u16_at_exec(data, pos + 4),
        }
    }

    proof fn lemma_decoded_bytes(d: Seq<u8>, p: int) {
        lemma_u16_bytes_at(d, p);
        lemma_u16_bytes_at(d, p + 2);
        lemma_u16_bytes_at(d, p + 4);
        assert(Self::decoded(d, p).encoded() =~= d.subrange(p, p + 6));
    }
}

impl Decode for ExportsEntry {
    open spec fn width() -> nat {
        6
    }

    open spec fn decoded(d: Seq<u8>, p: int) -> Self {
        ExportsEntry {
            exports_index: u16_at(d, p),
            exports_flags: u16_at(d, p + 2),
            exports_to_count: u16_at(d, p + 4),
        }
    }

    fn width_exec() -> usize {
        6
    }

    fn decode(data: &[u8], pos: usize) -> Self {
        ExportsEntry {
            exports_index: u16_at_exec(data, pos),
            exports_flags: u16_at_exec(data, pos + 2),
            exports_to_count: u16_at_exec(data, pos + 4),
        }
    }

    proof fn lemma_decoded_bytes(d: Seq<u8>, p: int) {
        lemma_u16_bytes_at(d, p);
        lemma_u16_bytes_at(d, p + 2);
        lemma_u16_bytes_at(d, p + 4);
        assert(Self::decoded(d, p).encoded() =~= d.subrange(p, p + 6));
    }
}

impl Decode for OpensEntry {
    open spec fn width() -> nat {
        6
    }

    open spec fn decoded(d: Seq<u8>, p: int) -> Self {
        OpensEntry { opens_index: u16_at(d, p), opens_flags: u16_at(d, p + 2), opens_to_count: u16_at(d, p + 4) }
    }

    fn width_exec() -> usize {
        6
    }

    fn decode(data: &[u8], pos: usize) -> Self {
        OpensEntry {
            opens_index: u16_at_exec(data, pos),
            opens_flags: u16_at_exec(data, pos + 2),
            opens_to_count: u16_at_exec(data, pos + 4),
        }
    }

    proof fn lemma_decoded_bytes(d: Seq<u8>, p: int) {
        lemma_u16_bytes_at(d, p);
        lemma_u16_bytes_at(d, p + 2);
        lemma_u16_bytes_at(d, p + 4);
        assert(Self::decoded(d, p).encoded() =~= d.subrange(p, p + 6));
    }
}

impl Decode for ProvidesEntry {
    open spec fn width() -> nat {
        4
    }

    open spec fn decoded(d: Seq<u8>, p: int) -> Self {
        ProvidesEntry { provides_index: u16_at(d, p), provides_with_count: u16_at(d, p + 2) }
    }

    fn width_exec() -> usize {
        4
    }

    fn decode(data: &[u8], pos: usize) -> Self {
        ProvidesEntry { provides_index: u16_at_exec(data, pos), provides_with_count: u16_at_exec(data, pos + 2) }
    }

    proof fn lemma_decoded_bytes(d: Seq<u8>, p: int) {
        lemma_u16_bytes_at(d, p);
        lemma_u16_bytes_at(d, p + 2);
        assert(Self::decoded(d, p).encoded() =~= d.subrange(p, p + 4));
    }
}

/// A verification type at `p`: its item tag, then a u16 operand for an object
/// or an uninitialized value. An unknown tag fails after its byte.
pub open spec fn parse_vtype(d: Seq<u8>, p: int) -> (Option<VerificationTypeInfo>, int) {
    match get_u8(d, p) {
        (None, q) => (None, q),
        (Some(b), q) => match item_of(b) {
            None => (None, q),
            Some(tag) => match tag {
                VerificationTypeInfoItem::ItemTop => (Some(VerificationTypeInfo::TopVariableInfo { tag }), q),
                VerificationTypeInfoItem::ItemInteger => (Some(VerificationTypeInfo::IntegerVariableInfo { tag }), q),
                VerificationTypeInfoItem::ItemFloat => (Some(VerificationTypeInfo::FloatVariableInfo { tag }), q),
                VerificationTypeInfoItem::ItemDouble => (Some(VerificationTypeInfo::DoubleVariableInfo { tag }), q),
                VerificationTypeInfoItem::ItemLong => (Some(VerificationTypeInfo::LongVariableInfo { tag }), q),
                VerificationTypeInfoItem::ItemNull => (Some(VerificationTypeInfo::NullVariableInfo { tag }), q),
                VerificationTypeInfoItem::ItemUninitializedThis => (
                    Some(VerificationTypeInfo::UninitializedThisVariableInfo { tag }),
                    q,
                ),
                VerificationTypeInfoItem::ItemObject => match get_u16(d, q) {
                    (None, q2) => (None, q2),
                    (Some(i), q2) => (Some(VerificationTypeInfo::ObjectVariableInfo { tag, cpool_index: i }), q2),
                },
                VerificationTypeInfoItem::ItemUninitialized => match get_u16(d, q) {
                    (None, q2) => (None, q2),
                    (Some(o), q2) => (Some(VerificationTypeInfo::UninitializedVariableInfo { tag, offset: o }), q2),
                },
            },
        },
    }
}

/// `n` verification types one after another; the first failure ends the read.
pub open spec fn parse_vtypes(d: Seq<u8>, p: int, n: nat) -> (Option<Seq<VerificationTypeInfo>>, int)
    decreases n,
{
    if n == 0 {
        (Some(Seq::empty()), p)
    } else {
        match parse_vtypes(d, p, (n - 1) as nat) {
            (None, q) => (None, q),
            (Some(s), q) => match parse_vtype(d, q) {
                (None, q2) => (None, q2),
                (Some(v), q2) => (Some(s.push(v)), q2),
            },
        }
    }
}

/// Why a stack map frame could not be read.
#[derive(Debug, Copy, Clone, PartialEq, Eq, Structural)]
pub enum FrameReadError {
    /// A frame type reserved for future use (128-246), or a verification type
    /// whose tag names no type.
    InvalidType,
    /// The data ends inside the frame.
    Malformed,
}

/// Why the verification type at `p` cannot be read, when it cannot.
pub open spec fn vtype_error(d: Seq<u8>, p: int) -> FrameReadError {
    match get_u8(d, p) {
        (Some(b), _) => if item_of(b) is None {
            FrameReadError::InvalidType
        } else {
            FrameReadError::Malformed
        },
        (None, _) => FrameReadError::Malformed,
    }
}

/// Why `n` verification types at `p` cannot be read, when they cannot: the
/// first one that fails decides.
pub open spec fn vtypes_error(d: Seq<u8>, p: int, n: nat) -> FrameReadError
    decreases n,
{
    if n == 0 {
        FrameReadError::Malformed
    } else {
        match parse_vtypes(d, p, (n - 1) as nat) {
            (None, _) => vtypes_error(d, p, (n - 1) as nat),
            (Some(_), q) => vtype_error(d, q),
        }
    }
}

/// Once a read of verification types fails, reading more fails for the same reason.
pub proof fn lemma_vtypes_error_after(d: Seq<u8>, p: int, k: nat, n: nat)
    requires
        k <= n,
        parse_vtypes(d, p, k).0 is None,
    ensures
        vtypes_error(d, p, n) == vtypes_error(d, p, k),
    decreases n - k,
{
    if k < n {
        lemma_vtypes_fail_after(d, p, k, (n - 1) as nat);
        lemma_vtypes_error_after(d, p, k, (n - 1) as nat);
    }
}

/// Why the stack map frame at `p` cannot be read, when it cannot: a reserved
/// frame type, or the first verification type in it that fails.
pub open spec fn frame_error(d: Seq<u8>, p: int) -> FrameReadError {
    match get_u8(d, p) {
        (None, _) => FrameReadError::Malformed,
        (Some(ft), q) => if ft <= 63 {
            FrameReadError::Malformed
        } else if ft <= 127 {
            vtype_error(d, q)
        } else if ft == 247 {
            match get_u16(d, q) {
                (None, _) => FrameReadError::Malformed,
                (Some(_), q2) => vtype_error(d, q2),
            }
        } else if 248 <= ft <= 251 {
            FrameReadError::Malformed
        } else if 252 <= ft <= 254 {
            match get_u16(d, q) {
                (None, _) => FrameReadError::Malformed,
                (Some(_), q2) => vtypes_error(d, q2, (ft - 251) as nat),
            }
        } else if ft == 255 {
            match get_u16(d, q) {
                (None, _) => FrameReadError::Malformed,
                (Some(_), q2) => match get_u16(d, q2) {
                    (None, _) => FrameReadError::Malformed,
                    (Some(nl), q3) => match parse_vtypes(d, q3, nl as nat) {
                        (None, _) => vtypes_error(d, q3, nl as nat),
                        (Some(_), q4) => match get_u16(d, q4) {
                            (None, _) => FrameReadError::Malformed,
                            (Some(ns), q5) => vtypes_error(d, q5, ns as nat),
                        },
                    },
                },
            }
        } else {
            FrameReadError::InvalidType
        },
    }
}

/// Why a read of a verification type at `pos` failed.
pub fn vtype_failure(data: &[u8], pos: usize) -> (r: FrameReadError)
    requires
        pos <= data@.len(),
    ensures
        r == vtype_error(data@, pos as int),
{
    match take_u8(data, pos) {
        (Some(b), _) => match VerificationTypeInfoItem::try_from_u8(b) {
            None => FrameReadError::InvalidType,
            Some(_) => FrameReadError::Malformed,
        },
        (None, _) => FrameReadError::Malformed,
    }
}

impl VerificationTypeInfo {
    /// Reads a verification type at `pos`.
    pub fn read_from(data: &[u8], pos: usize) -> (r: (Option<VerificationTypeInfo>, usize))
        requires
            pos <= data@.len(),
        ensures
            r.0 == parse_vtype(data@, pos as int).0,
            r.1 == parse_vtype(data@, pos as int).1,
            pos <= r.1 <= data@.len(),
    {
        let (b, q) = take_u8(data, pos);
        let b = match b {
            None => return (None, q),
            Some(b) => b,
        };
        let tag = match VerificationTypeInfoItem::try_from_u8(b) {
            None => return (None, q),
            Some(t) => t,
        };
        match tag {
            VerificationTypeInfoItem::ItemTop => (Some(VerificationTypeInfo::TopVariableInfo { tag }), q),
            VerificationTypeInfoItem::ItemInteger => (Some(VerificationTypeInfo::IntegerVariableInfo { tag }), q),
            VerificationTypeInfoItem::ItemFloat => (Some(VerificationTypeInfo::FloatVariableInfo { tag }), q),
            VerificationTypeInfoItem::ItemDouble => (Some(VerificationTypeInfo::DoubleVariableInfo { tag }), q),
            VerificationTypeInfoItem::ItemLong => (Some(VerificationTypeInfo::LongVariableInfo { tag }), q),
            VerificationTypeInfoItem::ItemNull => (Some(VerificationTypeInfo::NullVariableInfo { tag }), q),
            VerificationTypeInfoItem::ItemUninitializedThis => (
                Some(VerificationTypeInfo::UninitializedThisVariableInfo { tag }),
                q,
            ),
            VerificationTypeInfoItem::ItemObject => match take_u16(data, q) {
                (None, q2) => (None, q2),
                (Some(i), q2) => (Some(VerificationTypeInfo::ObjectVariableInfo { tag, cpool_index: i }), q2),
            },
            VerificationTypeInfoItem::ItemUninitialized => match take_u16(data, q) {
                (None, q2) => (None, q2),
                (Some(o), q2) => (Some(VerificationTypeInfo::UninitializedVariableInfo { tag, offset: o }), q2),
            },
        }
    }
}

/// Reads `n` verification types at `pos`.
pub fn read_vtypes(data: &[u8], pos: usize, n: u16) -> (r: (Result<Vec<VerificationTypeInfo>, FrameReadError>, usize))
    requires
        pos <= data@.len(),
    ensures
        r.1 == parse_vtypes(data@, pos as int, n as nat).1,
        r.0 is Ok == parse_vtypes(data@, pos as int, n as nat).0 is Some,
        r.0 matches Ok(v) ==> v@ == parse_vtypes(data@, pos as int, n as nat).0.unwrap(),
        r.0 matches Err(e) ==> e == vtypes_error(data@, pos as int, n as nat),
        pos <= r.1 <= data@.len(),
{
    let mut out: Vec<VerificationTypeInfo> = Vec::new();
    let mut cur = pos;
    let mut i: u16 = 0;
    while i < n
        invariant
            i <= n,
            pos <= cur <= data@.len(),
            parse_vtypes(data@, pos as int, i as nat) == (Some(out@), cur as int),
        decreases n - i,
    {
        let (v, q) = VerificationTypeInfo::read_from(data, cur);
        match v {
            None => {
                let e = vtype_failure(data, cur);
                proof {
                    lemma_vtypes_fail_after(data@, pos as int, (i + 1) as nat, n as nat);
                    lemma_vtypes_error_after(data@, pos as int, (i + 1) as nat, n as nat);
                }
                return (Err(e), q);
            },
            Some(v) => {
                out.push(v);
                cur = q;
            },
        }
        i = i + 1;
        assert(parse_vtypes(data@, pos as int, i as nat) == (Some(out@), cur as int));
    }
    (Ok(out), cur)
}

/// Once a read of verification types fails, reading more of them fails at the same place.
pub proof fn lemma_vtypes_fail_after(d: Seq<u8>, p: int, k: nat, n: nat)
    requires
        k <= n,
        parse_vtypes(d, p, k).0 is None,
    ensures
        parse_vtypes(d, p, n) == parse_vtypes(d, p, k),
    decreases n - k,
{
    if k < n {
        lemma_vtypes_fail_after(d, p, k, (n - 1) as nat);
    }
}

/// A stack map frame at `p`, by its frame type: 0-63 same, 64-127 one stack
/// item, 247 one stack item with an offset, 248-250 chop, 251 same with an
/// offset, 252-254 `frame_type - 251` more locals, 255 full. The reserved types
/// 128-246 fail after the type byte.
pub open spec fn parse_frame(d: Seq<u8>, p: int) -> (Option<SpecStackMapFrame>, int) {
    match get_u8(d, p) {
        (None, q) => (None, q),
        (Some(ft), q) => if ft <= 63 {
            (Some(SpecStackMapFrame::SameFrame { frame_type: ft }), q)
        } else if ft <= 127 {
            match parse_vtype(d, q) {
                (None, q2) => (None, q2),
                (Some(v), q2) => (Some(SpecStackMapFrame::SameLocals1StackItemFrame { frame_type: ft, stack: seq![v] }), q2),
            }
        } else if ft == 247 {
            match get_u16(d, q) {
                (None, q2) => (None, q2),
                (Some(off), q2) => match parse_vtype(d, q2) {
                    (None, q3) => (None, q3),
                    (Some(v), q3) => (
                        Some(SpecStackMapFrame::SameLocals1StackItemFrameExtended {
                            frame_type: ft,
                            offset_delta: off,
                            stack: seq![v],
                        }),
                        q3,
                    ),
                },
            }
        } else if 248 <= ft <= 250 {
            match get_u16(d, q) {
                (None, q2) => (None, q2),
                (Some(off), q2) => (Some(SpecStackMapFrame::ChopFrame { frame_type: ft, offset_delta: off }), q2),
            }
        } else if ft == 251 {
            match get_u16(d, q) {
                (None, q2) => (None, q2),
                (Some(off), q2) => (Some(SpecStackMapFrame::SameFrameExtended { frame_type: ft, offset_delta: off }), q2),
            }
        } else if 252 <= ft <= 254 {
            match get_u16(d, q) {
                (None, q2) => (None, q2),
                (Some(off), q2) => match parse_vtypes(d, q2, (ft - 251) as nat) {
                    (None, q3) => (None, q3),
                    (Some(locals), q3) => (
                        Some(SpecStackMapFrame::AppendFrame { frame_type: ft, offset_delta: off, locals }),
                        q3,
                    ),
                },
            }
        } else if ft == 255 {
            match get_u16(d, q) {
                (None, q2) => (None, q2),
                (Some(off), q2) => match get_u16(d, q2) {
                    (None, q3) => (None, q3),
                    (Some(nl), q3) => match parse_vtypes(d, q3, nl as nat) {
                        (None, q4) => (None, q4),
                        (Some(locals), q4) => match get_u16(d, q4) {
                            (None, q5) => (None, q5),
                            (Some(ns), q5) => match parse_vtypes(d, q5, ns as nat) {
                                (None, q6) => (None, q6),
                                (Some(stack), q6) => (
                                    Some(SpecStackMapFrame::FullFrame {
                                        frame_type: ft,
                                        offset_delta: off,
                                        number_of_locals: nl,
                                        locals,
                                        number_of_stack_items: ns,
                                        stack,
                                    }),
                                    q6,
                                ),
                            },
                        },
                    },
                },
            }
        } else {
            (None, q)
        },
    }
}

/// `n` stack map frames one after another; a frame that fails to read is left
/// out and the next one is read from where the failure left the cursor.
pub open spec fn parse_frames(d: Seq<u8>, p: int, n: nat) -> (Seq<SpecStackMapFrame>, int)
    decreases n,
{
    if n == 0 {
        (Seq::empty(), p)
    } else {
        let (s, q) = parse_frames(d, p, (n - 1) as nat);
        match parse_frame(d, q) {
            (None, q2) => (s, q2),
            (Some(f), q2) => (s.push(f), q2),
        }
    }
}

/// Writing a verification type that was read gives back the bytes it was read from.
pub proof fn lemma_vtype_roundtrip(d: Seq<u8>, p: int)
    requires
        0 <= p <= d.len(),
        parse_vtype(d, p).0 is Some,
    ensures
        parse_vtype(d, p).0.unwrap().encoded() == d.subrange(p, parse_vtype(d, p).1),
{
    if avail(d, p + 1, 2) {
        lemma_u16_bytes_at(d, p + 1);
    }
    assert(parse_vtype(d, p).0.unwrap().encoded() =~= d.subrange(p, parse_vtype(d, p).1));
}

/// Writing verification types that were read gives back the bytes they were read from.
pub proof fn lemma_vtypes_roundtrip(d: Seq<u8>, p: int, n: nat)
    requires
        0 <= p <= d.len(),
        parse_vtypes(d, p, n).0 is Some,
    ensures
        p <= parse_vtypes(d, p, n).1 <= d.len(),
        encoded_all(parse_vtypes(d, p, n).0.unwrap()) == d.subrange(p, parse_vtypes(d, p, n).1),
    decreases n,
{
    if n == 0 {
        assert(encoded_all(Seq::<VerificationTypeInfo>::empty()) =~= d.subrange(p, p));
    } else {
        lemma_vtypes_roundtrip(d, p, (n - 1) as nat);
        let (s, q) = parse_vtypes(d, p, (n - 1) as nat);
        let v = parse_vtype(d, q).0.unwrap();
        lemma_vtype_roundtrip(d, q);
        let q2 = parse_vtype(d, q).1;
        assert(s.unwrap().push(v).drop_last() =~= s.unwrap());
        assert(d.subrange(p, q2) =~= d.subrange(p, q) + d.subrange(q, q2));
    }
}

/// The encoding of a single verification type.
proof fn lemma_encoded_single(v: VerificationTypeInfo)
    ensures
        encoded_all(seq![v]) == v.encoded(),
{
    let f = |x: VerificationTypeInfo| x.encoded();
    assert(seq![v].drop_last() =~= Seq::<VerificationTypeInfo>::empty());
    assert(concat_map(Seq::<VerificationTypeInfo>::empty(), f) == Seq::<u8>::empty());
    assert(concat_map(seq![v], f) == concat_map(seq![v].drop_last(), f) + f(v));
    assert(encoded_all(seq![v]) =~= v.encoded());
}

proof fn lemma_frame_roundtrip_one(d: Seq<u8>, p: int)
    requires
        0 <= p <= d.len(),
        parse_frame(d, p).0 is Some,
        64 <= d[p] <= 127,
    ensures
        frame_bytes(parse_frame(d, p).0.unwrap()) == d.subrange(p, parse_frame(d, p).1),
{
    let q = p + 1;
    lemma_vtype_roundtrip(d, q);
    lemma_encoded_single(parse_vtype(d, q).0.unwrap());
    assert(frame_bytes(parse_frame(d, p).0.unwrap()) =~= d.subrange(p, parse_frame(d, p).1));
}

proof fn lemma_frame_roundtrip_one_extended(d: Seq<u8>, p: int)
    requires
        0 <= p <= d.len(),
        parse_frame(d, p).0 is Some,
        d[p] == 247,
    ensures
        frame_bytes(parse_frame(d, p).0.unwrap()) == d.subrange(p, parse_frame(d, p).1),
{
    let q = p + 1;
    lemma_u16_bytes_at(d, q);
    lemma_vtype_roundtrip(d, q + 2);
    lemma_encoded_single(parse_vtype(d, q + 2).0.unwrap());
    assert(frame_bytes(parse_frame(d, p).0.unwrap()) =~= d.subrange(p, parse_frame(d, p).1));
}

proof fn lemma_frame_roundtrip_offset(d: Seq<u8>, p: int)
    requires
        0 <= p <= d.len(),
        parse_frame(d, p).0 is Some,
        248 <= d[p] <= 251,
    ensures
        frame_bytes(parse_frame(d, p).0.unwrap()) == d.subrange(p, parse_frame(d, p).1),
{
    let q = p + 1;
    lemma_u16_bytes_at(d, q);
    assert(frame_bytes(parse_frame(d, p).0.unwrap()) =~= d.subrange(p, parse_frame(d, p).1));
}

proof fn lemma_frame_roundtrip_append(d: Seq<u8>, p: int)
    requires
        0 <= p <= d.len(),
        parse_frame(d, p).0 is Some,
        252 <= d[p] <= 254,
    ensures
        frame_bytes(parse_frame(d, p).0.unwrap()) == d.subrange(p, parse_frame(d, p).1),
{
    let q = p + 1;
    lemma_u16_bytes_at(d, q);
    lemma_vtypes_roundtrip(d, q + 2, (d[p] - 251) as nat);
    assert(frame_bytes(parse_frame(d, p).0.unwrap()) =~= d.subrange(p, parse_frame(d, p).1));
}

proof fn lemma_frame_roundtrip_full(d: Seq<u8>, p: int)
    requires
        0 <= p <= d.len(),
        parse_frame(d, p).0 is Some,
        d[p] == 255,
    ensures
        frame_bytes(parse_frame(d, p).0.unwrap()) == d.subrange(p, parse_frame(d, p).1),
{
    let q = p + 1;
    lemma_u16_bytes_at(d, q);
    lemma_u16_bytes_at(d, q + 2);
    let nl = u16_at(d, q + 2);
    lemma_vtypes_roundtrip(d, q + 4, nl as nat);
    let q4 = parse_vtypes(d, q + 4, nl as nat).1;
    lemma_u16_bytes_at(d, q4);
    let ns = u16_at(d, q4);
    lemma_vtypes_roundtrip(d, q4 + 2, ns as nat);
    assert(frame_bytes(parse_frame(d, p).0.unwrap()) =~= d.subrange(p, parse_frame(d, p).1));
}

/// Writing a stack map frame that was read gives back the bytes it was read from.
pub proof fn lemma_frame_roundtrip(d: Seq<u8>, p: int)
    requires
        0 <= p <= d.len(),
        parse_frame(d, p).0 is Some,
    ensures
        frame_bytes(parse_frame(d, p).0.unwrap()) == d.subrange(p, parse_frame(d, p).1),
{
    let ft = d[p];
    if ft <= 63 {
        assert(frame_bytes(parse_frame(d, p).0.unwrap()) =~= d.subrange(p, parse_frame(d, p).1));
    } else if ft <= 127 {
        lemma_frame_roundtrip_one(d, p);
    } else if ft == 247 {
        lemma_frame_roundtrip_one_extended(d, p);
    } else if 248 <= ft <= 251 {
        lemma_frame_roundtrip_offset(d, p);
    } else if 252 <= ft <= 254 {
        lemma_frame_roundtrip_append(d, p);
    } else {
        lemma_frame_roundtrip_full(d, p);
    }
}

} // verus!
