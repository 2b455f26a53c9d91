//! The debug text of constant-pool entries: each entry with the entries it
//! refers to written inside it. Floating-point values are left to the caller
//! to write, as the pieces [`DisplayPiece::FloatOf`] and [`DisplayPiece::DoubleOf`].
use crate::classfile::{cp_string, ClassFile};
use crate::constant_pool::{cp_view, ConstantPoolTags, CpEntry};
use crate::mutf8::{mutf8_decode, read_modified_utf8};
use crate::text::{decimal, push_decimal};
use vstd::prelude::*;
use vstd::string::StringExecFns;

verus! {

/// A piece of the debug text of an entry.
pub enum DisplayPiece {
    /// Text as it is.
    Text(String),
    /// The value of a float entry: its four bytes taken as an integer and
    /// converted to `f32`, written as Rust writes an `f32`.
    FloatOf(u32),
    /// The value of a double entry: its eight bytes taken as an integer and
    /// converted to `f64`, written as Rust writes an `f64`.
    DoubleOf(u64),
}

/// The abstract value of a piece.
pub enum SpecPiece {
    Text(Seq<char>),
    FloatOf(u32),
    DoubleOf(u64),
}

impl View for DisplayPiece {
    type V = SpecPiece;

    open spec fn view(&self) -> SpecPiece {
        match self {
            DisplayPiece::Text(s) => SpecPiece::Text(s@),
            DisplayPiece::FloatOf(b) => SpecPiece::FloatOf(*b),
            DisplayPiece::DoubleOf(b) => SpecPiece::DoubleOf(*b),
        }
    }
}

/// The abstract values of pieces.
pub open spec fn piece_views(v: Seq<DisplayPiece>) -> Seq<SpecPiece> {
    v.map_values(|p: DisplayPiece| p@)
}

/// One text piece.
pub open spec fn text(s: Seq<char>) -> Seq<SpecPiece> {
    seq![SpecPiece::Text(s)]
}

/// A signed number in decimal.
pub open spec fn signed_decimal(v: int) -> Seq<char> {
    if v < 0 {
        seq!['-'] + decimal((-v) as nat)
    } else {
        decimal(v as nat)
    }
}

/// The numbers of a byte list, separated by `, `.
pub open spec fn byte_items(b: Seq<u8>) -> Seq<char>
    decreases b.len(),
{
    if b.len() == 0 {
        Seq::empty()
    } else if b.len() == 1 {
        decimal(b[0] as nat)
    } else {
        byte_items(b.drop_last()) + ", "@ + decimal(b.last() as nat)
    }
}

/// A byte list as Rust's debug format writes it: `[1, 2, 3]`.
pub open spec fn bytes_debug(b: Seq<u8>) -> Seq<char> {
    seq!['['] + byte_items(b) + seq![']']
}

/// The debug text of the entry `e` of the pool `cp`, with each entry it refers
/// to written inside it, to a depth of `fuel`. `None` when an index it follows
/// is outside the pool, or the references go deeper than `fuel`.
pub open spec fn tag_pieces(cp: Seq<CpEntry>, e: CpEntry, fuel: nat) -> Option<Seq<SpecPiece>>
    decreases fuel, 1nat,
{
    if fuel == 0 {
        None
    } else {
        let f = (fuel - 1) as nat;
        match e {
            CpEntry::Utf8 { length, bytes, .. } => Some(
                text(
                    "Utf8<length="@ + decimal(length as nat) + ", bytes='"@ + bytes_debug(bytes) + "', value='"@
                        + mutf8_decode(bytes) + "'>"@,
                ),
            ),
            CpEntry::Integer { value, .. } => Some(text("Integer<value="@ + signed_decimal(value as int) + ">"@)),
            CpEntry::Float { bytes, .. } => Some(text("Float<value="@) + seq![SpecPiece::FloatOf(bytes)] + text(">"@)),
            CpEntry::Long { value, .. } => Some(text("Long<value="@ + signed_decimal(value as int) + ">"@)),
            CpEntry::Double { high_bytes, low_bytes, .. } => Some(
                text("Double<value="@) + seq![SpecPiece::DoubleOf(((high_bytes as int) * 0x1_0000_0000 + (low_bytes as int)) as u64)]
                    + text(">"@),
            ),
            CpEntry::Class { name_index, .. } => if name_index < cp.len() {
                match tag_pieces(cp, cp[name_index as int], f) {
                    Some(inner) => Some(
                        text("Class<name_index="@ + decimal(name_index as nat) + ", content="@) + inner + text(">"@),
                    ),
                    None => None,
                }
            } else {
                None
            },
            CpEntry::String { string_index, .. } => if string_index < cp.len() {
                match tag_pieces(cp, cp[string_index as int], f) {
                    Some(inner) => Some(
                        text("String<string_index="@ + decimal(string_index as nat) + ", content="@) + inner + text(
                            ">"@,
                        ),
                    ),
                    None => None,
                }
            } else {
                None
            },
            CpEntry::Fieldref { class_index, name_and_type_index, .. } => ref_pieces(
                cp,
                "FieldRef<class="@,
                class_index,
                name_and_type_index,
                fuel,
            ),
            CpEntry::Methodref { class_index, name_and_type_index, .. } => ref_pieces(
                cp,
                "MethodRef<class="@,
                class_index,
                name_and_type_index,
                fuel,
            ),
            CpEntry::InterfaceMethodref { class_index, name_and_type_index, .. } => ref_pieces(
                cp,
                "InterfaceMethodRef<class="@,
                class_index,
                name_and_type_index,
                fuel,
            ),
            CpEntry::NameAndType { name_index, descriptor_index, .. } => if name_index < cp.len()
                && descriptor_index < cp.len() {
                match (tag_pieces(cp, cp[name_index as int], f), tag_pieces(cp, cp[descriptor_index as int], f)) {
                    (Some(a), Some(b)) => Some(
                        text("NameAndType<name="@) + a + text(", descriptor="@) + b + text(">"@),
                    ),
                    _ => None,
                }
            } else {
                None
            },
            CpEntry::MethodHandle { .. } => Some(text("MethodHandle<TODO>"@)),
            CpEntry::MethodType { .. } => Some(text("MethodType<TODO>"@)),
            CpEntry::Dynamic { .. } => Some(text("Dynamic<TODO>"@)),
            CpEntry::InvokeDynamic { .. } => Some(text("InvokeDynamic<TODO>"@)),
            CpEntry::Module { name_index, .. } | CpEntry::Package { name_index, .. } => match cp_string(
                cp,
                name_index,
                cp.len(),
            ) {
                Some(s) => Some(text("Module<name="@ + s + ">"@)),
                None => None,
            },
            CpEntry::ContinuationTag { .. } => Some(text("ContinuationTag"@)),
        }
    }
}

/// The debug text of a reference entry: the class entry and the name-and-type
/// entry it points at, one level further down, under the heading `head`.
pub open spec fn ref_pieces(cp: Seq<CpEntry>, head: Seq<char>, class_index: u16, nat_index: u16, fuel: nat) -> Option<
    Seq<SpecPiece>,
>
    decreases fuel, 0nat,
{
    if fuel > 0 && class_index < cp.len() && nat_index < cp.len() {
        let f = (fuel - 1) as nat;
        match (tag_pieces(cp, cp[class_index as int], f), tag_pieces(cp, cp[nat_index as int], f)) {
            (Some(a), Some(b)) => Some(text(head) + a + text(", name_and_type="@) + b + text(">"@)),
            _ => None,
        }
    } else {
        None
    }
}

fn push_signed(s: &mut String, v: i64)
    ensures
        final(s)@ == old(s)@ + signed_decimal(v as int),
{
    if v < 0 {
        s.append("-");
        proof {
            reveal_strlit("-");
        }
        let m: u64 = (0i128 - (v as i128)) as u64;
        push_decimal(s, m);
        assert(s@ =~= old(s)@ + signed_decimal(v as int));
    } else {
        push_decimal(s, v as u64);
    }
}

fn bytes_debug_string(b: &Vec<u8>) -> (r: String)
    ensures
        r@ == bytes_debug(b@),
{
    let mut out = String::new();
    crate::text::push_char(&mut out, '[');
    let mut i: usize = 0;
    while i < b.len()
        invariant
            i <= b@.len(),
            out@ == seq!['['] + byte_items(b@.subrange(0, i as int)),
        decreases b@.len() - i,
    {
        let ghost before = out@;
        if i > 0 {
            out.append(", ");
        }
        push_decimal(&mut out, b[i] as u64);
        proof {
            let t = b@.subrange(0, i + 1);
            assert(t.drop_last() =~= b@.subrange(0, i as int));
            assert(t.last() == b@[i as int]);
            if i == 0 {
                assert(byte_items(b@.subrange(0, 0)) =~= Seq::<char>::empty());
                assert(out@ =~= seq!['['] + byte_items(t));
            } else {
                assert(out@ =~= seq!['['] + byte_items(t));
            }
        }
        i = i + 1;
    }
    crate::text::push_char(&mut out, ']');
    assert(b@.subrange(0, b@.len() as int) =~= b@);
    out
}

fn text_piece(s: &str) -> (r: DisplayPiece)
    ensures
        r@ == SpecPiece::Text(s@),
{
    DisplayPiece::Text(String::from_str(s))
}

impl ClassFile {
    fn ref_of(&self, head: &str, class_index: u16, nat_index: u16, fuel: usize) -> (r: Option<Vec<DisplayPiece>>)
        ensures
            r is Some == ref_pieces(cp_view(self.constant_pool@), head@, class_index, nat_index, fuel as nat) is Some,
            r matches Some(v) ==> piece_views(v@) == ref_pieces(
                cp_view(self.constant_pool@),
                head@,
                class_index,
                nat_index,
                fuel as nat,
            ).unwrap(),
        decreases fuel, 0nat,
    {
        let ghost cp = cp_view(self.constant_pool@);
        let n = self.constant_pool.len();
        if fuel == 0 || class_index as usize >= n || nat_index as usize >= n {
            return None;
        }
        assert(cp[class_index as int] == self.constant_pool@[class_index as int]@);
        assert(cp[nat_index as int] == self.constant_pool@[nat_index as int]@);
        let a = self.pieces_of(&self.constant_pool[class_index as usize], fuel - 1);
        let b = self.pieces_of(&self.constant_pool[nat_index as usize], fuel - 1);
        match (a, b) {
            (Some(mut a), Some(mut b)) => {
                let ghost av = piece_views(a@);
                let ghost bv = piece_views(b@);
                let mut out: Vec<DisplayPiece> = Vec::new();
                out.push(text_piece(head));
                out.append(&mut a);
                out.push(text_piece(", name_and_type="));
                out.append(&mut b);
                out.push(text_piece(">"));
                assert(piece_views(out@) =~= text(head@) + av + text(", name_and_type="@) + bv + text(">"@));
                Some(out)
            },
            _ => None,
        }
    }

    fn pieces_of(&self, e: &ConstantPoolTags, fuel: usize) -> (r: Option<Vec<DisplayPiece>>)
        ensures
            r is Some == tag_pieces(cp_view(self.constant_pool@), e@, fuel as nat) is Some,
            r matches Some(v) ==> piece_views(v@) == tag_pieces(cp_view(self.constant_pool@), e@, fuel as nat).unwrap(),
        decreases fuel, 1nat,
    {
        let ghost cp = cp_view(self.constant_pool@);
        if fuel == 0 {
            return None;
        }
        let n = self.constant_pool.len();
        let mut out: Vec<DisplayPiece> = Vec::new();
        match e {
            ConstantPoolTags::Utf8 { length, bytes, .. } => {
                let mut t = String::from_str("Utf8<length=");
                push_decimal(&mut t, *length as u64);
                t.append(", bytes='");
                let bd = bytes_debug_string(bytes);
                t.append(bd.as_str());
                t.append("', value='");
                match read_modified_utf8(bytes.as_slice()) {
                    Ok(v) => t.append(v.as_str()),
                    Err(_) => t.append("<error>"),
                }
                t.append("'>");
                out.push(DisplayPiece::Text(t));
            },
            ConstantPoolTags::Integer { _value, .. } => {
                let mut t = String::from_str("Integer<value=");
                push_signed(&mut t, *_value as i64);
                t.append(">");
                out.push(DisplayPiece::Text(t));
            },
            ConstantPoolTags::Float { bytes, .. } => {
                out.push(text_piece("Float<value="));
                out.push(DisplayPiece::FloatOf(*bytes));
                out.push(text_piece(">"));
            },
            ConstantPoolTags::Long { _value, .. } => {
                let mut t = String::from_str("Long<value=");
                push_signed(&mut t, *_value);
                t.append(">");
                out.push(DisplayPiece::Text(t));
            },
            ConstantPoolTags::Double { high_bytes, low_bytes, .. } => {
                out.push(text_piece("Double<value="));
                out.push(DisplayPiece::DoubleOf((*high_bytes as u64) * 4294967296 + (*low_bytes as u64)));
                out.push(text_piece(">"));
            },
            ConstantPoolTags::Class { name_index, .. } => {
                if *name_index as usize >= n {
                    return None;
                }
                assert(cp[*name_index as int] == self.constant_pool@[*name_index as int]@);
                match self.pieces_of(&self.constant_pool[*name_index as usize], fuel - 1) {
                    None => return None,
                    Some(mut inner) => {
                        let mut t = String::from_str("Class<name_index=");
                        push_decimal(&mut t, *name_index as u64);
                        t.append(", content=");
                        out.push(DisplayPiece::Text(t));
                        out.append(&mut inner);
                        out.push(text_piece(">"));
                    },
                }
            },
            ConstantPoolTags::String { string_index, .. } => {
                if *string_index as usize >= n {
                    return None;
                }
                assert(cp[*string_index as int] == self.constant_pool@[*string_index as int]@);
                match self.pieces_of(&self.constant_pool[*string_index as usize], fuel - 1) {
                    None => return None,
                    Some(mut inner) => {
                        let mut t = String::from_str("String<string_index=");
                        push_decimal(&mut t, *string_index as u64);
                        t.append(", content=");
                        out.push(DisplayPiece::Text(t));
                        out.append(&mut inner);
                        out.push(text_piece(">"));
                    },
                }
            },
            ConstantPoolTags::Fieldref { class_index, name_and_type_index, .. } => {
                return self.ref_of("FieldRef<class=", *class_index, *name_and_type_index, fuel);
            },
            ConstantPoolTags::Methodref { class_index, name_and_type_index, .. } => {
                return self.ref_of("MethodRef<class=", *class_index, *name_and_type_index, fuel);
            },
            ConstantPoolTags::InterfaceMethodref { class_index, name_and_type_index, .. } => {
                return self.ref_of("InterfaceMethodRef<class=", *class_index, *name_and_type_index, fuel);
            },
            ConstantPoolTags::NameAndType { name_index, descriptor_index, .. } => {
                if *name_index as usize >= n || *descriptor_index as usize >= n {
                    return None;
                }
                assert(cp[*name_index as int] == self.constant_pool@[*name_index as int]@);
                assert(cp[*descriptor_index as int] == self.constant_pool@[*descriptor_index as int]@);
                let a = self.pieces_of(&self.constant_pool[*name_index as usize], fuel - 1);
                let b = self.pieces_of(&self.constant_pool[*descriptor_index as usize], fuel - 1);
                match (a, b) {
                    (Some(mut a), Some(mut b)) => {
                        out.push(text_piece("NameAndType<name="));
                        out.append(&mut a);
                        out.push(text_piece(", descriptor="));
                        out.append(&mut b);
                        out.push(text_piece(">"));
                    },
                    _ => return None,
                }
            },
            ConstantPoolTags::MethodHandle { .. } => out.push(text_piece("MethodHandle<TODO>")),
            ConstantPoolTags::MethodType { .. } => out.push(text_piece("MethodType<TODO>")),
            ConstantPoolTags::Dynamic { .. } => out.push(text_piece("Dynamic<TODO>")),
            ConstantPoolTags::InvokeDynamic { .. } => out.push(text_piece("InvokeDynamic<TODO>")),
            ConstantPoolTags::Module { name_index, .. } | ConstantPoolTags::Package { name_index, .. } => {
                if !self.cp_resolves(*name_index) {
                    return None;
                }
                let name = self.get_string_from_cpool(*name_index);
                let mut t = String::from_str("Module<name=");
                t.append(name.as_str());
                t.append(">");
                out.push(DisplayPiece::Text(t));
            },
            ConstantPoolTags::ContinuationTag { .. } => out.push(text_piece("ContinuationTag")),
        }
        assert(piece_views(out@) =~= tag_pieces(cp, e@, fuel as nat).unwrap());
        Some(out)
    }

    /// Whether the debug text of `tag` can be made: the indices it follows stay
    /// in the pool, and its chains of references are no longer than the pool
    /// (a longer chain runs in a circle).
    pub fn tag_displays(&self, tag: &ConstantPoolTags) -> (r: bool)
        requires
            self.constant_pool@.len() < usize::MAX,
        ensures
            r == tag_pieces(cp_view(self.constant_pool@), tag@, (self.constant_pool@.len() + 1) as nat) is Some,
    {
        self.pieces_of(tag, self.constant_pool.len() + 1).is_some()
    }

    /// The debug text of `tag`: the entry with each entry it refers to written
    /// inside it, as pieces of text and floating-point values.
    pub fn tag_to_display(&self, tag: &ConstantPoolTags) -> (r: Vec<DisplayPiece>)
        requires
            self.constant_pool@.len() < usize::MAX,
            tag_pieces(cp_view(self.constant_pool@), tag@, (self.constant_pool@.len() + 1) as nat) is Some,
        ensures
            piece_views(r@) == tag_pieces(cp_view(self.constant_pool@), tag@, (self.constant_pool@.len() + 1) as nat).unwrap(),
    {
        match self.pieces_of(tag, self.constant_pool.len() + 1) {
            Some(v) => v,
            None => Vec::new(),
        }
    }
}

} // verus!
