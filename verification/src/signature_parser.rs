//! Turning JVM type descriptors such as `([Ljava/lang/String;I)V` into the
//! Java-like signatures they stand for, such as `void (java.lang.String[], int)`.
use vstd::prelude::*;
use vstd::string::{StrSliceExecFns, StringExecFns};
use crate::text::push_char;

verus! {

/// The primitive types of the JVM.
#[derive(Debug, Copy, Clone, PartialEq, Eq, Structural)]
pub enum ValueTypePrimitive {
    Byte,
    Short,
    Int,
    Long,
    Char,
    Float,
    Double,
    Boolean,
    Void,
}

/// The primitive type that a descriptor letter names, in either case.
pub open spec fn primitive_of(c: char) -> Option<ValueTypePrimitive> {
    if c == 'B' || c == 'b' {
        Some(ValueTypePrimitive::Byte)
    } else if c == 'C' || c == 'c' {
        Some(ValueTypePrimitive::Char)
    } else if c == 'D' || c == 'd' {
        Some(ValueTypePrimitive::Double)
    } else if c == 'F' || c == 'f' {
        Some(ValueTypePrimitive::Float)
    } else if c == 'I' || c == 'i' {
        Some(ValueTypePrimitive::Int)
    } else if c == 'J' || c == 'j' {
        Some(ValueTypePrimitive::Long)
    } else if c == 'S' || c == 's' {
        Some(ValueTypePrimitive::Short)
    } else if c == 'Z' || c == 'z' {
        Some(ValueTypePrimitive::Boolean)
    } else if c == 'V' || c == 'v' {
        Some(ValueTypePrimitive::Void)
    } else {
        None
    }
}

/// The Java name of a primitive type.
pub open spec fn primitive_name(p: ValueTypePrimitive) -> Seq<char> {
    match p {
        ValueTypePrimitive::Byte => "byte"@,
        ValueTypePrimitive::Short => "short"@,
        ValueTypePrimitive::Int => "int"@,
        ValueTypePrimitive::Long => "long"@,
        ValueTypePrimitive::Char => "char"@,
        ValueTypePrimitive::Float => "float"@,
        ValueTypePrimitive::Double => "double"@,
        ValueTypePrimitive::Boolean => "boolean"@,
        ValueTypePrimitive::Void => "void"@,
    }
}

impl ValueTypePrimitive {
    /// The primitive type that a descriptor letter names; the letter is
    /// compared without regard to case.
    pub fn from(value: char) -> (r: Option<ValueTypePrimitive>)
        ensures
            r == primitive_of(value),
    {
        if value == 'B' || value == 'b' {
            Some(ValueTypePrimitive::Byte)
        } else if value == 'C' || value == 'c' {
            Some(ValueTypePrimitive::Char)
        } else if value == 'D' || value == 'd' {
            Some(ValueTypePrimitive::Double)
        } else if value == 'F' || value == 'f' {
            Some(ValueTypePrimitive::Float)
        } else if value == 'I' || value == 'i' {
            Some(ValueTypePrimitive::Int)
        } else if value == 'J' || value == 'j' {
            Some(ValueTypePrimitive::Long)
        } else if value == 'S' || value == 's' {
            Some(ValueTypePrimitive::Short)
        } else if value == 'Z' || value == 'z' {
            Some(ValueTypePrimitive::Boolean)
        } else if value == 'V' || value == 'v' {
            Some(ValueTypePrimitive::Void)
        } else {
            None
        }
    }

    /// The Java name of the type.
    pub fn to_string(&self) -> (r: String)
        ensures
            r@ == primitive_name(*self),
    {
        match self {
            ValueTypePrimitive::Byte => String::from_str("byte"),
            ValueTypePrimitive::Short => String::from_str("short"),
            ValueTypePrimitive::Int => String::from_str("int"),
            ValueTypePrimitive::Long => String::from_str("long"),
            ValueTypePrimitive::Char => String::from_str("char"),
            ValueTypePrimitive::Float => String::from_str("float"),
            ValueTypePrimitive::Double => String::from_str("double"),
            ValueTypePrimitive::Boolean => String::from_str("boolean"),
            ValueTypePrimitive::Void => String::from_str("void"),
        }
    }
}

/// A type in a descriptor.
#[derive(Debug)]
pub enum ValueType {
    Primitive { ty: ValueTypePrimitive },
    /// A class or interface, by its dotted name.
    Object { ty: String },
    Array { ty: Box<ValueType> },
    Undefined,
}

/// The abstract value of a type in a descriptor.
pub enum SpecValueType {
    Primitive { ty: ValueTypePrimitive },
    Object { ty: Seq<char> },
    Array { ty: Box<SpecValueType> },
    Undefined,
}

/// The abstract value of a type.
pub open spec fn value_type_view(t: &ValueType) -> SpecValueType
    decreases t,
{
    match t {
        ValueType::Primitive { ty } => SpecValueType::Primitive { ty: *ty },
        ValueType::Object { ty } => SpecValueType::Object { ty: ty@ },
        ValueType::Array { ty } => SpecValueType::Array { ty: Box::new(value_type_view(&**ty)) },
        ValueType::Undefined => SpecValueType::Undefined,
    }
}

impl View for ValueType {
    type V = SpecValueType;

    open spec fn view(&self) -> SpecValueType {
        value_type_view(self)
    }
}

/// The Java text of a type: an array type is its element type followed by `[]`.
pub open spec fn value_type_text(t: SpecValueType) -> Seq<char>
    decreases t,
{
    match t {
        SpecValueType::Primitive { ty } => primitive_name(ty),
        SpecValueType::Object { ty } => ty,
        SpecValueType::Array { ty } => value_type_text(*ty) + "[]"@,
        SpecValueType::Undefined => "<Undefined ValueType>"@,
    }
}

impl ValueType {
    /// The Java text of the type.
    pub fn to_string(&self) -> (r: String)
        ensures
            r@ == value_type_text(self@),
        decreases self,
    {
        match self {
            ValueType::Primitive { ty } => ty.to_string(),
            ValueType::Object { ty } => ty.clone(),
            ValueType::Array { ty } => {
                let mut r = ty.to_string();
                r.append("[]");
                r
            },
            ValueType::Undefined => String::from_str("<Undefined ValueType>"),
        }
    }
}

/// The signature a descriptor stands for.
#[derive(Debug)]
pub enum JVMSignature {
    FieldSignature { spec: ValueType },
    MethodSignature { params_spec: Vec<ValueType>, return_spec: ValueType },
}

/// The abstract value of a signature.
pub enum SpecSignature {
    FieldSignature { spec: SpecValueType },
    MethodSignature { params_spec: Seq<SpecValueType>, return_spec: SpecValueType },
}

impl View for JVMSignature {
    type V = SpecSignature;

    open spec fn view(&self) -> SpecSignature {
        match self {
            JVMSignature::FieldSignature { spec } => SpecSignature::FieldSignature { spec: spec@ },
            JVMSignature::MethodSignature { params_spec, return_spec } => SpecSignature::MethodSignature {
                params_spec: params_spec@.map_values(|t: ValueType| t@),
                return_spec: return_spec@,
            },
        }
    }
}

/// The texts of types, separated by `", "`.
pub open spec fn join_texts(ts: Seq<SpecValueType>) -> Seq<char>
    decreases ts.len(),
{
    if ts.len() == 0 {
        Seq::empty()
    } else if ts.len() == 1 {
        value_type_text(ts[0])
    } else {
        join_texts(ts.drop_last()) + ", "@ + value_type_text(ts.last())
    }
}

/// The Java text of a signature: a field's type, or a method's return type
/// followed by its parameter types in parentheses.
pub open spec fn signature_text(s: SpecSignature) -> Seq<char> {
    match s {
        SpecSignature::FieldSignature { spec } => value_type_text(spec),
        SpecSignature::MethodSignature { params_spec, return_spec } => value_type_text(return_spec) + " ("@
            + join_texts(params_spec) + ")"@,
    }
}

impl JVMSignature {
    /// The Java text of the signature.
    pub fn to_string(&self) -> (r: String)
        ensures
            r@ == signature_text(self@),
    {
        match self {
            JVMSignature::FieldSignature { spec } => spec.to_string(),
            JVMSignature::MethodSignature { params_spec, return_spec } => {
                let ghost ps = params_spec@.map_values(|t: ValueType| t@);
                let mut joined = String::new();
                let mut i: usize = 0;
                while i < params_spec.len()
                    invariant
                        i <= params_spec@.len(),
                        ps == params_spec@.map_values(|t: ValueType| t@),
                        joined@ == join_texts(ps.subrange(0, i as int)),
                    decreases params_spec@.len() - i,
                {
                    if i > 0 {
                        joined.append(", ");
                    }
                    let t = params_spec[i].to_string();
                    joined.append(t.as_str());
                    proof {
                        let s = ps.subrange(0, i + 1);
                        assert(s.drop_last() =~= ps.subrange(0, i as int));
                        assert(s.last() == params_spec@[i as int]@);
                        if i == 0 {
                            assert(ps.subrange(0, 0) =~= Seq::<SpecValueType>::empty());
                        }
                    }
                    i = i + 1;
                }
                assert(ps.subrange(0, i as int) =~= ps);
                let mut r = return_spec.to_string();
                r.append(" (");
                r.append(joined.as_str());
                r.append(")");
                r
            },
        }
    }
}

/// The first position from `i` that holds `;`, or the end.
pub open spec fn semicolon_from(s: Seq<char>, i: int) -> int
    decreases s.len() - i,
{
    if i >= s.len() {
        s.len() as int
    } else if s[i] == ';' {
        i
    } else {
        semicolon_from(s, i + 1)
    }
}

/// A character of a class name in a descriptor as Java writes it: `/` becomes `.`.
pub open spec fn dotted(c: char) -> char {
    if c == '/' {
        '.'
    } else {
        c
    }
}

/// The number of characters left after `i`; none once `i` is past the end.
pub open spec fn chars_left(s: Seq<char>, i: int) -> nat {
    if 0 <= i <= s.len() {
        (s.len() - i) as nat
    } else {
        0
    }
}

/// An object or array type at `i`: `L` and a class name up to `;` (or the
/// end), or `[` and an element type. Any other character fails after it; the
/// end of the descriptor fails where it is.
pub open spec fn parse_object_or_array(s: Seq<char>, i: int) -> (Option<SpecValueType>, int)
    decreases chars_left(s, i), 0nat,
{
    if i < 0 || i >= s.len() {
        (None, i)
    } else if s[i] == 'L' {
        let j = semicolon_from(s, i + 1);
        (
            Some(SpecValueType::Object { ty: s.subrange(i + 1, j).map_values(|c: char| dotted(c)) }),
            if j < s.len() { j + 1 } else { j },
        )
    } else if s[i] == '[' {
        match parse_array(s, i + 1) {
            (None, k) => (None, k),
            (Some(t), k) => (Some(SpecValueType::Array { ty: Box::new(t) }), k),
        }
    } else {
        (None, i + 1)
    }
}

/// The element type of an array at `i`: a primitive letter (in either case),
/// or an object or array type.
pub open spec fn parse_array(s: Seq<char>, i: int) -> (Option<SpecValueType>, int)
    decreases chars_left(s, i), 1nat,
{
    if i < 0 || i >= s.len() {
        (None, i)
    } else {
        match primitive_of(s[i]) {
            Some(p) => (Some(SpecValueType::Primitive { ty: p }), i + 1),
            None => parse_object_or_array(s, i),
        }
    }
}

/// An object or array type read inside the descriptor moves past at least one character.
pub proof fn lemma_object_advances(s: Seq<char>, i: int)
    requires
        0 <= i < s.len(),
    ensures
        i < parse_object_or_array(s, i).1 <= s.len(),
    decreases chars_left(s, i), 0nat,
{
    if s[i] == 'L' {
        lemma_semicolon_bounds(s, i + 1);
    } else if s[i] == '[' {
        lemma_array_advances(s, i + 1);
    }
}

/// An array element type read from `i` stops between `i` and the end.
pub proof fn lemma_array_advances(s: Seq<char>, i: int)
    requires
        0 <= i <= s.len(),
    ensures
        i <= parse_array(s, i).1 <= s.len(),
    decreases chars_left(s, i), 1nat,
{
    if i < s.len() && primitive_of(s[i]) is None {
        lemma_object_advances(s, i);
    }
}

/// The next `;` from `i` lies between `i` and the end.
pub proof fn lemma_semicolon_bounds(s: Seq<char>, i: int)
    requires
        0 <= i <= s.len(),
    ensures
        i <= semicolon_from(s, i) <= s.len(),
    decreases s.len() - i,
{
    if i < s.len() && s[i] != ';' {
        lemma_semicolon_bounds(s, i + 1);
    }
}

/// Whether `c` is a primitive letter as the top level of a descriptor takes it (upper case).
pub open spec fn is_primitive_letter(c: char) -> bool {
    c == 'B' || c == 'C' || c == 'D' || c == 'F' || c == 'I' || c == 'J' || c == 'S' || c == 'Z' || c == 'V'
}

/// The walk over a descriptor from `i`: `(` starts the parameters and marks a
/// method, `)` ends them, a primitive letter or an object or array type is a
/// parameter inside the parentheses and the type outside them (a later one
/// replaces an earlier one); anything else is passed over. Gives the type,
/// the parameters and whether it is a method.
pub open spec fn descriptor_walk(
    s: Seq<char>,
    i: int,
    ret: SpecValueType,
    params: Seq<SpecValueType>,
    in_params: bool,
    is_method: bool,
) -> (SpecValueType, Seq<SpecValueType>, bool)
    decreases chars_left(s, i),
{
    if i < 0 || i >= s.len() {
        (ret, params, is_method)
    } else if s[i] == '(' {
        descriptor_walk(s, i + 1, ret, params, true, true)
    } else if s[i] == ')' {
        descriptor_walk(s, i + 1, ret, params, false, is_method)
    } else if is_primitive_letter(s[i]) {
        let t = SpecValueType::Primitive { ty: primitive_of(s[i]).unwrap() };
        if in_params {
            descriptor_walk(s, i + 1, ret, params.push(t), in_params, is_method)
        } else {
            descriptor_walk(s, i + 1, t, params, in_params, is_method)
        }
    } else {
        proof {
            lemma_object_advances(s, i);
        }
        match parse_object_or_array(s, i) {
            (None, k) => descriptor_walk(s, k, ret, params, in_params, is_method),
            (Some(t), k) => if in_params {
                descriptor_walk(s, k, ret, params.push(t), in_params, is_method)
            } else {
                descriptor_walk(s, k, t, params, in_params, is_method)
            },
        }
    }
}

/// The signature a descriptor stands for.
pub open spec fn descriptor_signature(s: Seq<char>) -> SpecSignature {
    let (ret, params, is_method) = descriptor_walk(s, 0, SpecValueType::Undefined, Seq::empty(), false, false);
    if is_method {
        SpecSignature::MethodSignature { params_spec: params, return_spec: ret }
    } else {
        SpecSignature::FieldSignature { spec: ret }
    }
}

/// Types joined for a parameter list read from the front: the first type's
/// text, then, when more follow, a comma, a space and the rest joined the same
/// way; so the parameters keep their order.
pub proof fn lemma_join_texts_front(t: SpecValueType, ts: Seq<SpecValueType>)
    ensures
        join_texts(seq![t] + ts) == value_type_text(t) + if ts.len() == 0 {
            Seq::<char>::empty()
        } else {
            seq![',', ' '] + join_texts(ts)
        },
    decreases ts.len(),
{
    reveal_strlit(", ");
    let all = seq![t] + ts;
    if ts.len() == 0 {
        assert(all =~= seq![t]);
        assert(value_type_text(t) + Seq::<char>::empty() =~= value_type_text(t));
    } else {
        let front = ts.drop_last();
        let u = ts.last();
        lemma_join_texts_front(t, front);
        assert(all.drop_last() =~= seq![t] + front);
        assert(all.last() == u);
        assert(join_texts(all) == join_texts(seq![t] + front) + ", "@ + value_type_text(u));
        if front.len() == 0 {
            assert(ts =~= seq![u]);
            assert(join_texts(ts) == value_type_text(u));
            assert(join_texts(all) =~= value_type_text(t) + (seq![',', ' '] + join_texts(ts)));
        } else {
            assert(ts.drop_last() =~= front);
            assert(join_texts(ts) == join_texts(front) + ", "@ + value_type_text(u));
            assert(join_texts(all) =~= value_type_text(t) + (seq![',', ' '] + join_texts(ts)));
        }
    }
}

/// A method signature prints as its return type, a space, and its parameter
/// types between parentheses, separated by a comma and a space.
pub proof fn lemma_method_signature_text(ps: Seq<SpecValueType>, r: SpecValueType)
    ensures
        signature_text(SpecSignature::MethodSignature { params_spec: ps, return_spec: r }) == value_type_text(r)
            + seq![' ', '('] + join_texts(ps) + seq![')'],
        ps.len() == 0 ==> join_texts(ps) == Seq::<char>::empty(),
        ps.len() > 0 ==> join_texts(ps) == value_type_text(ps[0]) + if ps.len() == 1 {
            Seq::<char>::empty()
        } else {
            seq![',', ' '] + join_texts(ps.drop_first())
        },
{
    reveal_strlit(" (");
    reveal_strlit(")");
    if ps.len() > 0 {
        lemma_join_texts_front(ps[0], ps.drop_first());
        assert(seq![ps[0]] + ps.drop_first() =~= ps);
    }
    assert(signature_text(SpecSignature::MethodSignature { params_spec: ps, return_spec: r }) =~= value_type_text(r)
        + seq![' ', '('] + join_texts(ps) + seq![')']);
}

/// The Java name of each base-type letter of a field descriptor, as the JVM
/// specification's table of base types gives it.
pub open spec fn base_type_name(c: char) -> Option<Seq<char>> {
    if c == 'B' {
        Some(seq!['b', 'y', 't', 'e'])
    } else if c == 'C' {
        Some(seq!['c', 'h', 'a', 'r'])
    } else if c == 'D' {
        Some(seq!['d', 'o', 'u', 'b', 'l', 'e'])
    } else if c == 'F' {
        Some(seq!['f', 'l', 'o', 'a', 't'])
    } else if c == 'I' {
        Some(seq!['i', 'n', 't'])
    } else if c == 'J' {
        Some(seq!['l', 'o', 'n', 'g'])
    } else if c == 'S' {
        Some(seq!['s', 'h', 'o', 'r', 't'])
    } else if c == 'Z' {
        Some(seq!['b', 'o', 'o', 'l', 'e', 'a', 'n'])
    } else if c == 'V' {
        Some(seq!['v', 'o', 'i', 'd'])
    } else {
        None
    }
}

/// Each base-type letter, in either case, names a primitive type whose Java
/// text is the name the JVM specification gives that letter (`J` is `long`,
/// `Z` is `boolean`, ...), and a one-letter field descriptor prints as it.
pub proof fn lemma_base_type_names(c: char)
    requires
        base_type_name(c) is Some,
    ensures
        primitive_of(c) is Some,
        primitive_name(primitive_of(c).unwrap()) == base_type_name(c).unwrap(),
        value_type_text(field_type(seq![c])) == base_type_name(c).unwrap(),
        signature_text(descriptor_signature(seq![c])) == base_type_name(c).unwrap(),
{
    reveal_strlit("byte");
    reveal_strlit("char");
    reveal_strlit("double");
    reveal_strlit("float");
    reveal_strlit("int");
    reveal_strlit("long");
    reveal_strlit("short");
    reveal_strlit("boolean");
    reveal_strlit("void");
    let t = seq![c];
    assert(wf_field(t));
    lemma_field_descriptor(t);
    assert(primitive_name(primitive_of(c).unwrap()) =~= base_type_name(c).unwrap());
}

/// Whether `t` is a well-formed field descriptor: a primitive letter, `L`, a
/// class name free of `;` and `;`, or `[` and a well-formed field descriptor.
pub open spec fn wf_field(t: Seq<char>) -> bool
    decreases t.len(),
{
    if t.len() == 0 {
        false
    } else if t[0] == 'L' {
        t.len() >= 2 && t.last() == ';' && forall|m: int| 1 <= m < t.len() - 1 ==> t[m] != ';'
    } else if t[0] == '[' {
        wf_field(t.drop_first())
    } else {
        t.len() == 1 && is_primitive_letter(t[0])
    }
}

/// The type a well-formed field descriptor names.
pub open spec fn field_type(t: Seq<char>) -> SpecValueType
    decreases t.len(),
{
    if t.len() == 0 {
        SpecValueType::Undefined
    } else if t[0] == 'L' {
        SpecValueType::Object { ty: t.subrange(1, t.len() - 1).map_values(|c: char| dotted(c)) }
    } else if t[0] == '[' {
        SpecValueType::Array { ty: Box::new(field_type(t.drop_first())) }
    } else {
        SpecValueType::Primitive { ty: primitive_of(t[0]).unwrap() }
    }
}

/// An array descriptor prints as its element type followed by `[]`, and a
/// class descriptor `L<name>;` prints as the name with each `/` made a `.`
/// and every other character kept.
pub proof fn lemma_reference_type_text(t: Seq<char>)
    requires
        wf_field(t),
        t[0] == 'L' || t[0] == '[',
    ensures
        t[0] == '[' ==> value_type_text(field_type(t)) == value_type_text(field_type(t.drop_first())) + seq!['[', ']'],
        t[0] == 'L' ==> value_type_text(field_type(t)).len() == t.len() - 2,
        t[0] == 'L' ==> forall|i: int| 0 <= i < t.len() - 2 ==> #[trigger] value_type_text(field_type(t))[i] == if t[i + 1] == '/' {
            '.'
        } else {
            t[i + 1]
        },
{
    reveal_strlit("[]");
    if t[0] == '[' {
        assert(value_type_text(field_type(t)) =~= value_type_text(field_type(t.drop_first())) + seq!['[', ']']);
    }
}

/// Descriptors written one after another.
pub open spec fn concat_all(ps: Seq<Seq<char>>) -> Seq<char>
    decreases ps.len(),
{
    if ps.len() == 0 {
        Seq::empty()
    } else {
        ps[0] + concat_all(ps.drop_first())
    }
}

/// The first `;` from `j` is at `k` when none lies between them.
proof fn lemma_semicolon_at(s: Seq<char>, j: int, k: int)
    requires
        0 <= j <= k < s.len(),
        s[k] == ';',
        forall|m: int| j <= m < k ==> s[m] != ';',
    ensures
        semicolon_from(s, j) == k,
    decreases k - j,
{
    if j < k {
        lemma_semicolon_at(s, j + 1, k);
    }
}

/// An object or array descriptor found at `i` reads as the type it names and
/// ends where it ends.
proof fn lemma_object_at(s: Seq<char>, i: int, t: Seq<char>)
    requires
        wf_field(t),
        t[0] == 'L' || t[0] == '[',
        0 <= i,
        i + t.len() <= s.len(),
        s.subrange(i, i + t.len()) == t,
    ensures
        parse_object_or_array(s, i) == (Some(field_type(t)), i + t.len()),
    decreases t.len(),
{
    reveal_with_fuel(wf_field, 2);
    assert(s[i] == t[0]);
    if t[0] == 'L' {
        let k = i + t.len() - 1;
        assert(s[k] == t[t.len() - 1]);
        assert forall|m: int| i + 1 <= m < k implies s[m] != ';' by {
            assert(s[m] == t[m - i]);
        }
        lemma_semicolon_at(s, i + 1, k);
        assert(s.subrange(i + 1, k) =~= t.subrange(1, t.len() - 1));
    } else {
        let u = t.drop_first();
        assert(wf_field(u));
        assert(u.len() >= 1);
        assert(s.subrange(i + 1, i + 1 + u.len()) =~= u);
        assert(s[i + 1] == s.subrange(i, i + t.len())[1]);
        assert(s[i + 1] == u[0]);
        if u[0] == 'L' || u[0] == '[' {
            lemma_object_at(s, i + 1, u);
            assert(primitive_of(s[i + 1]) is None);
        } else {
            assert(u.len() == 1 && is_primitive_letter(u[0]));
        }
    }
}

/// Walking over parameter descriptors written one after another pushes the
/// type of each, in order.
proof fn lemma_walk_params(s: Seq<char>, i: int, ps: Seq<Seq<char>>, ret: SpecValueType, params: Seq<SpecValueType>)
    requires
        forall|k: int| 0 <= k < ps.len() ==> wf_field(#[trigger] ps[k]),
        0 <= i,
        i + concat_all(ps).len() <= s.len(),
        s.subrange(i, i + concat_all(ps).len()) == concat_all(ps),
    ensures
        descriptor_walk(s, i, ret, params, true, true) == descriptor_walk(
            s,
            i + concat_all(ps).len(),
            ret,
            params + ps.map_values(|p: Seq<char>| field_type(p)),
            true,
            true,
        ),
    decreases ps.len(),
{
    if ps.len() == 0 {
        assert(params + ps.map_values(|p: Seq<char>| field_type(p)) =~= params);
    } else {
        let t = ps[0];
        let rest = ps.drop_first();
        assert(wf_field(t));
        assert(concat_all(ps) == t + concat_all(rest));
        let n = t.len() as int;
        assert(s.subrange(i, i + n) =~= t);
        let cr = concat_all(rest);
        let whole = s.subrange(i, i + concat_all(ps).len());
        assert(whole == t + cr);
        assert forall|j: int| 0 <= j < cr.len() implies s.subrange(i + n, i + n + cr.len())[j] == cr[j] by {
            assert(s.subrange(i + n, i + n + cr.len())[j] == whole[n + j]);
            assert(whole[n + j] == (t + cr)[n + j]);
        }
        assert(s.subrange(i + n, i + n + cr.len()) =~= cr);
        assert(s[i] == t[0]);
        assert forall|k: int| 0 <= k < rest.len() implies wf_field(#[trigger] rest[k]) by {
            assert(rest[k] == ps[k + 1]);
        }
        let pushed = params.push(field_type(t));
        if t[0] == 'L' || t[0] == '[' {
            lemma_object_at(s, i, t);
            lemma_object_advances(s, i);
        } else {
            assert(n == 1 && is_primitive_letter(t[0]));
        }
        assert(descriptor_walk(s, i, ret, params, true, true) == descriptor_walk(s, i + n, ret, pushed, true, true));
        lemma_walk_params(s, i + n, rest, ret, pushed);
        assert(pushed + rest.map_values(|p: Seq<char>| field_type(p)) =~= params + ps.map_values(
            |p: Seq<char>| field_type(p),
        ));
    }
}

/// Walking over a field descriptor that ends the text, outside parameters,
/// makes its type the result.
proof fn lemma_walk_last(s: Seq<char>, i: int, t: Seq<char>, ret: SpecValueType, params: Seq<SpecValueType>, m: bool)
    requires
        wf_field(t),
        0 <= i,
        i + t.len() == s.len(),
        s.subrange(i, s.len() as int) == t,
    ensures
        descriptor_walk(s, i, ret, params, false, m) == (field_type(t), params, m),
{
    reveal_with_fuel(descriptor_walk, 2);
    assert(s[i] == s.subrange(i, s.len() as int)[0]);
    assert(s[i] == t[0]);
    if t[0] == 'L' || t[0] == '[' {
        lemma_object_at(s, i, t);
        lemma_object_advances(s, i);
    }
}

/// A well-formed field descriptor stands for the field signature of its type.
pub proof fn lemma_field_descriptor(t: Seq<char>)
    requires
        wf_field(t),
    ensures
        descriptor_signature(t) == (SpecSignature::FieldSignature { spec: field_type(t) }),
{
    assert(t.subrange(0, t.len() as int) =~= t);
    lemma_walk_last(t, 0, t, SpecValueType::Undefined, Seq::empty(), false);
}

/// A method descriptor made of well-formed field descriptors stands for the
/// method whose parameters are the parameter descriptors read one by one, as
/// field descriptors, and whose return type is that of the descriptor after
/// the parentheses.
pub proof fn lemma_method_descriptor(ps: Seq<Seq<char>>, r: Seq<char>)
    requires
        forall|k: int| 0 <= k < ps.len() ==> wf_field(#[trigger] ps[k]),
        wf_field(r),
    ensures
        descriptor_signature("("@ + concat_all(ps) + ")"@ + r) == (SpecSignature::MethodSignature {
            params_spec: ps.map_values(|p: Seq<char>| field_type(p)),
            return_spec: field_type(r),
        }),
        forall|k: int| 0 <= k < ps.len() ==> descriptor_signature(#[trigger] ps[k]) == (SpecSignature::FieldSignature {
            spec: field_type(ps[k]),
        }),
        descriptor_signature(r) == (SpecSignature::FieldSignature { spec: field_type(r) }),
{
    reveal_strlit("(");
    reveal_strlit(")");
    let body = concat_all(ps);
    let s = "("@ + body + ")"@ + r;
    let n = body.len() as int;
    assert(s[0] == '(');
    assert(s.subrange(1, 1 + n) =~= body);
    assert(s[1 + n] == ')');
    assert(s.subrange(2 + n, s.len() as int) =~= r);
    let e = Seq::<SpecValueType>::empty();
    lemma_walk_params(s, 1, ps, SpecValueType::Undefined, e);
    let params = e + ps.map_values(|p: Seq<char>| field_type(p));
    assert(params =~= ps.map_values(|p: Seq<char>| field_type(p)));
    lemma_walk_last(s, 2 + n, r, SpecValueType::Undefined, params, true);
    assert(descriptor_walk(s, 1 + n, SpecValueType::Undefined, params, true, true) == descriptor_walk(
        s,
        2 + n,
        SpecValueType::Undefined,
        params,
        false,
        true,
    ));
    assert forall|k: int| 0 <= k < ps.len() implies descriptor_signature(#[trigger] ps[k]) == (
    SpecSignature::FieldSignature { spec: field_type(ps[k]) }) by {
        lemma_field_descriptor(ps[k]);
    }
    lemma_field_descriptor(r);
}

/// Reads an object or array type at `pos` of `chars`.
pub fn parse_object_or_array_descriptor(chars: &Vec<char>, pos: usize) -> (r: (Option<ValueType>, usize))
    requires
        pos <= chars@.len(),
    ensures
        r.1 == parse_object_or_array(chars@, pos as int).1,
        r.0 is Some == parse_object_or_array(chars@, pos as int).0 is Some,
        r.0 matches Some(t) ==> t@ == parse_object_or_array(chars@, pos as int).0.unwrap(),
    decreases chars_left(chars@, pos as int), 0nat,
{
    if pos >= chars.len() {
        return (None, pos);
    }
    if chars[pos] == 'L' {
        let mut name = String::new();
        let mut j = pos + 1;
        while j < chars.len() && chars[j] != ';'
            invariant
                pos + 1 <= j <= chars@.len(),
                semicolon_from(chars@, pos + 1) == semicolon_from(chars@, j as int),
                name@ == chars@.subrange(pos + 1, j as int).map_values(|c: char| dotted(c)),
            decreases chars@.len() - j,
        {
            let c = chars[j];
            if c == '/' {
                push_char(&mut name, '.');
            } else {
                push_char(&mut name, c);
            }
            assert(chars@.subrange(pos + 1, j + 1).map_values(|c: char| dotted(c)) =~= chars@.subrange(
                pos + 1,
                j as int,
            ).map_values(|c: char| dotted(c)).push(dotted(c)));
            j = j + 1;
        }
        let end = if j < chars.len() { j + 1 } else { j };
        (Some(ValueType::Object { ty: name }), end)
    } else if chars[pos] == '[' {
        match parse_array_descriptor(chars, pos + 1) {
            (None, k) => (None, k),
            (Some(t), k) => {
                let v = ValueType::Array { ty: Box::new(t) };
                (Some(v), k)
            },
        }
    } else {
        (None, pos + 1)
    }
}

/// Reads the element type of an array at `pos` of `chars`.
pub fn parse_array_descriptor(chars: &Vec<char>, pos: usize) -> (r: (Option<ValueType>, usize))
    requires
        pos <= chars@.len(),
    ensures
        r.1 == parse_array(chars@, pos as int).1,
        r.0 is Some == parse_array(chars@, pos as int).0 is Some,
        r.0 matches Some(t) ==> t@ == parse_array(chars@, pos as int).0.unwrap(),
    decreases chars_left(chars@, pos as int), 1nat,
{
    if pos >= chars.len() {
        return (None, pos);
    }
    match ValueTypePrimitive::from(chars[pos]) {
        None => parse_object_or_array_descriptor(chars, pos),
        Some(primitive_type) => (Some(ValueType::Primitive { ty: primitive_type }), pos + 1),
    }
}

/// The signature that a JVM descriptor stands for; there always is one.
pub fn parse_jvm_descriptor(descriptor: &str) -> (r: Option<JVMSignature>)
    ensures
        r matches Some(s) && s@ == descriptor_signature(descriptor@),
{
    let n = descriptor.unicode_len();
    let mut chars: Vec<char> = Vec::new();
    let mut k: usize = 0;
    while k < n
        invariant
            k <= n,
            n == descriptor@.len(),
            chars@ == descriptor@.subrange(0, k as int),
        decreases n - k,
    {
        chars.push(descriptor.get_char(k));
        k = k + 1;
        assert(chars@ =~= descriptor@.subrange(0, k as int));
    }
    assert(chars@ =~= descriptor@);
    let ghost s = chars@;
    let ghost total = descriptor_walk(s, 0, SpecValueType::Undefined, Seq::empty(), false, false);
    let mut return_spec = ValueType::Undefined;
    let mut params_spec: Vec<ValueType> = Vec::new();
    let mut is_parsing_method_params = false;
    let mut is_method_descriptor = false;
    let mut i: usize = 0;
    assert(params_spec@.map_values(|t: ValueType| t@) =~= Seq::<SpecValueType>::empty());
    while i < chars.len()
        invariant
            i <= chars@.len(),
            s == chars@,
            descriptor_walk(
                s,
                i as int,
                return_spec@,
                params_spec@.map_values(|t: ValueType| t@),
                is_parsing_method_params,
                is_method_descriptor,
            ) == total,
        decreases chars@.len() - i,
    {
        let c = chars[i];
        if c == '(' {
            is_parsing_method_params = true;
            is_method_descriptor = true;
            i = i + 1;
        } else if c == ')' {
            is_parsing_method_params = false;
            i = i + 1;
        } else if c == 'B' || c == 'C' || c == 'D' || c == 'F' || c == 'I' || c == 'J' || c == 'S' || c == 'Z'
            || c == 'V' {
            let p = match ValueTypePrimitive::from(c) {
                Some(p) => p,
                None => return None,
            };
            let t = ValueType::Primitive { ty: p };
            if is_parsing_method_params {
                let ghost before = params_spec@.map_values(|t: ValueType| t@);
                let ghost tv = t@;
                params_spec.push(t);
                assert(params_spec@.map_values(|t: ValueType| t@) =~= before.push(tv));
            } else {
                return_spec = t;
            }
            i = i + 1;
        } else {
            proof {
                lemma_object_advances(s, i as int);
            }
            let (t, next) = parse_object_or_array_descriptor(&chars, i);
            match t {
                None => {},
                Some(t) => {
                    if is_parsing_method_params {
                        let ghost before = params_spec@.map_values(|t: ValueType| t@);
                        let ghost tv = t@;
                        params_spec.push(t);
                        assert(params_spec@.map_values(|t: ValueType| t@) =~= before.push(tv));
                    } else {
                        return_spec = t;
                    }
                },
            }
            i = next;
        }
    }
    if is_method_descriptor {
        Some(JVMSignature::MethodSignature { params_spec, return_spec })
    } else {
        Some(JVMSignature::FieldSignature { spec: return_spec })
    }
}

} // verus!
