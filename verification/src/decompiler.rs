//! A first cut at Java source from a class file: the class line, a line for
//! each field and each method, without bodies.
use crate::access_flags::{flags_text, AccessFlagContext, AccessFlags};
use crate::attribute_info::{Attribute, SpecAttribute};
use crate::attributes::InnerClassEntry;
use crate::class_text::{member_signature, pool_text};
use crate::classfile::{class_name_text, cp_string, ClassFile, Field, Method, SpecClassFile, SpecMember};
use crate::constant_pool::cp_view;
use crate::signature_parser::{
    descriptor_signature, dotted, parse_jvm_descriptor, value_type_text, JVMSignature, SpecSignature,
    SpecValueType, ValueType,
};
use crate::text::{is_prefix, is_suffix, push_char, str_eq};
use vstd::prelude::*;
use vstd::string::{StrSliceExecFns, StringExecFns};

verus! {

/// A field of a decompiled class.
pub struct JavaField {
    pub access_flags: AccessFlags,
    pub name: String,
}

/// A method of a decompiled class.
pub struct JavaMethod {
    pub access_flags: AccessFlags,
    pub name: String,
}

/// A decompiled class.
pub struct JavaClass<'a> {
    pub minor_version: u16,
    pub major_version: u16,
    pub source_file: Option<String>,
    pub inner_classes: Vec<JavaClass<'a>>,
    pub this_class: &'a str,
    pub super_class: Option<&'a JavaClass<'a>>,
    pub fields: Vec<JavaField>,
    pub methods: Vec<JavaMethod>,
}

impl<'a> JavaClass<'a> {
    /// A class named `Main` of version 0.0, with nothing in it and no super
    /// class; the given super class is not used.
    pub fn new(super_class: Option<JavaClass>) -> (r: Self)
        ensures
            r.minor_version == 0 && r.major_version == 0,
            r.source_file is None,
            r.inner_classes@.len() == 0,
            r.this_class@ == "Main"@,
            r.super_class is None,
            r.fields@.len() == 0,
            r.methods@.len() == 0,
    {
        JavaClass {
            minor_version: 0,
            major_version: 0,
            source_file: None,
            inner_classes: Vec::new(),
            this_class: "Main",
            super_class: None,
            fields: Vec::new(),
            methods: Vec::new(),
        }
    }
}

/// `n` indentation steps of four spaces.
pub open spec fn tabs(n: nat) -> Seq<char>
    decreases n,
{
    if n == 0 {
        Seq::empty()
    } else {
        tabs((n - 1) as nat) + "    "@
    }
}

/// The indentation level of members: one more than the given level, 1 when none is given.
pub open spec fn member_indent(indent: Option<u8>) -> nat {
    match indent {
        None => 1,
        Some(i) => (i + 1) as nat,
    }
}

/// Whether a field's signature is the one of a `java.lang.String`.
pub open spec fn is_string_field(sig: SpecSignature) -> bool {
    match sig {
        SpecSignature::FieldSignature { spec } => match spec {
            SpecValueType::Object { ty } => ty == "java.lang.String"@,
            _ => false,
        },
        _ => false,
    }
}

/// What the constant-value attributes of a string field add to its line: ` = "<text>"` for each.
pub open spec fn constant_suffix(cp: Seq<crate::constant_pool::CpEntry>, attrs: Seq<SpecAttribute>, string_field: bool) -> Seq<char>
    decreases attrs.len(),
{
    if attrs.len() == 0 {
        Seq::empty()
    } else {
        constant_suffix(cp, attrs.drop_last(), string_field) + match attrs.last() {
            SpecAttribute::ConstantValue { constantvalue_index, .. } => if string_field {
                " = \""@ + pool_text(cp, constantvalue_index) + "\""@
            } else {
                Seq::empty()
            },
            _ => Seq::empty(),
        }
    }
}

/// Whether the line of a field can be made: its name, its descriptor and, for
/// a string field, its constant values resolve.
pub open spec fn field_ok(cp: Seq<crate::constant_pool::CpEntry>, f: SpecMember) -> bool {
    &&& cp_string(cp, f.name_index, cp.len()) is Some
    &&& cp_string(cp, f.descriptor_index, cp.len()) is Some
    &&& is_string_field(descriptor_signature(pool_text(cp, f.descriptor_index))) ==> forall|j: int|
        0 <= j < f.attributes.len() ==> match #[trigger] f.attributes[j] {
            SpecAttribute::ConstantValue { constantvalue_index, .. } => cp_string(
                cp,
                constantvalue_index,
                cp.len(),
            ) is Some,
            _ => true,
        }
}

/// The source line of a field.
pub open spec fn java_field_line(cp: Seq<crate::constant_pool::CpEntry>, f: SpecMember, indent: nat) -> Seq<char> {
    let sig = descriptor_signature(pool_text(cp, f.descriptor_index));
    tabs(indent) + flags_text(f.access_flags, AccessFlagContext::Field) + " "@ + member_signature(cp, f) + " "@
        + pool_text(cp, f.name_index) + constant_suffix(cp, f.attributes, is_string_field(sig)) + ";"@
}

/// The line of a `java.lang.String` field whose last attribute is a constant
/// value ends with ` = "`, the constant's text and `";`: the constant is
/// written as a quoted Java string literal.
pub proof fn lemma_string_constant_quoted(cp: Seq<crate::constant_pool::CpEntry>, f: SpecMember, indent: nat)
    requires
        f.attributes.len() > 0,
        f.attributes.last() is ConstantValue,
        is_string_field(descriptor_signature(pool_text(cp, f.descriptor_index))),
    ensures
        is_suffix(
            seq![' ', '=', ' ', '"'] + pool_text(cp, f.attributes.last()->constantvalue_index) + seq!['"', ';'],
            java_field_line(cp, f, indent),
        ),
{
    reveal_strlit(" = \"");
    reveal_strlit("\"");
    reveal_strlit(";");
    let t = pool_text(cp, f.attributes.last()->constantvalue_index);
    let sig = descriptor_signature(pool_text(cp, f.descriptor_index));
    let head = tabs(indent) + flags_text(f.access_flags, AccessFlagContext::Field) + " "@ + member_signature(cp, f) + " "@
        + pool_text(cp, f.name_index) + constant_suffix(cp, f.attributes.drop_last(), is_string_field(sig));
    let tail = seq![' ', '=', ' ', '"'] + t + seq!['"', ';'];
    assert(constant_suffix(cp, f.attributes, true) == constant_suffix(cp, f.attributes.drop_last(), true) + (" = \""@
        + t + "\""@));
    assert(java_field_line(cp, f, indent) =~= head + tail);
    let line = java_field_line(cp, f, indent);
    assert(line.subrange(line.len() - tail.len(), line.len() as int) =~= tail);
}

/// The line of a field without constant-value attributes ends with its name and `;`.
pub proof fn lemma_plain_field_line(cp: Seq<crate::constant_pool::CpEntry>, f: SpecMember, indent: nat)
    requires
        forall|j: int| 0 <= j < f.attributes.len() ==> !(#[trigger] f.attributes[j] is ConstantValue),
    ensures
        is_suffix(seq![' '] + pool_text(cp, f.name_index) + seq![';'], java_field_line(cp, f, indent)),
{
    reveal_strlit(" ");
    reveal_strlit(";");
    let sig = descriptor_signature(pool_text(cp, f.descriptor_index));
    lemma_no_constant_suffix(cp, f.attributes, is_string_field(sig));
    let head = tabs(indent) + flags_text(f.access_flags, AccessFlagContext::Field) + " "@ + member_signature(cp, f);
    let tail = seq![' '] + pool_text(cp, f.name_index) + seq![';'];
    assert(java_field_line(cp, f, indent) =~= head + tail);
    let line = java_field_line(cp, f, indent);
    assert(line.subrange(line.len() - tail.len(), line.len() as int) =~= tail);
}

/// Attributes without a constant value add nothing to a field's line.
proof fn lemma_no_constant_suffix(cp: Seq<crate::constant_pool::CpEntry>, attrs: Seq<SpecAttribute>, string_field: bool)
    requires
        forall|j: int| 0 <= j < attrs.len() ==> !(#[trigger] attrs[j] is ConstantValue),
    ensures
        constant_suffix(cp, attrs, string_field) == Seq::<char>::empty(),
    decreases attrs.len(),
{
    if attrs.len() > 0 {
        let rest = attrs.drop_last();
        assert forall|j: int| 0 <= j < rest.len() implies !(#[trigger] rest[j] is ConstantValue) by {
            assert(rest[j] == attrs[j]);
        }
        lemma_no_constant_suffix(cp, rest, string_field);
        assert(!(attrs[attrs.len() - 1] is ConstantValue));
        assert(constant_suffix(cp, attrs, string_field) =~= Seq::<char>::empty());
    }
}

/// An indentation of `n` levels is `4 * n` spaces.
pub proof fn lemma_tabs_are_spaces(n: nat)
    ensures
        tabs(n).len() == 4 * n,
        forall|i: int| 0 <= i < 4 * n ==> #[trigger] tabs(n)[i] == ' ',
    decreases n,
{
    reveal_strlit("    ");
    if n > 0 {
        lemma_tabs_are_spaces((n - 1) as nat);
        assert forall|i: int| 0 <= i < 4 * n implies #[trigger] tabs(n)[i] == ' ' by {
            if i < 4 * (n - 1) {
                assert(tabs(n)[i] == tabs((n - 1) as nat)[i]);
            }
        }
    }
}

/// A field's line starts with its indentation, then its flags as the access
/// flags of a field print, then a space.
pub proof fn lemma_field_line_start(cp: Seq<crate::constant_pool::CpEntry>, f: SpecMember, indent: nat)
    ensures
        is_prefix(tabs(indent) + flags_text(f.access_flags, AccessFlagContext::Field) + seq![' '], java_field_line(cp, f, indent)),
{
    reveal_strlit(" ");
    let start = tabs(indent) + flags_text(f.access_flags, AccessFlagContext::Field) + seq![' '];
    let line = java_field_line(cp, f, indent);
    let sig = descriptor_signature(pool_text(cp, f.descriptor_index));
    let rest = member_signature(cp, f) + " "@ + pool_text(cp, f.name_index) + constant_suffix(cp, f.attributes, is_string_field(sig)) + ";"@;
    assert(line =~= start + rest);
    assert(line.subrange(0, start.len() as int) =~= start);
}

/// Whether a method is a constructor or a class initializer, which get no line.
pub open spec fn is_initializer(name: Seq<char>) -> bool {
    name == "<init>"@ || name == "<clinit>"@
}

/// Whether the line of a method can be made: its name resolves, and so does
/// its descriptor unless it is an initializer.
pub open spec fn method_ok(cp: Seq<crate::constant_pool::CpEntry>, m: SpecMember) -> bool {
    &&& cp_string(cp, m.name_index, cp.len()) is Some
    &&& !is_initializer(pool_text(cp, m.name_index)) ==> cp_string(cp, m.descriptor_index, cp.len()) is Some
}

/// The source lines of the methods: none for an initializer or a descriptor
/// that is not a method's, else flags, return type, name and, in
/// parentheses, the return type again, with an empty body.
pub open spec fn java_method_lines(cp: Seq<crate::constant_pool::CpEntry>, ms: Seq<SpecMember>, indent: nat) -> Seq<Seq<char>>
    decreases ms.len(),
{
    if ms.len() == 0 {
        Seq::empty()
    } else {
        let m = ms.last();
        let name = pool_text(cp, m.name_index);
        let rest = java_method_lines(cp, ms.drop_last(), indent);
        if is_initializer(name) {
            rest
        } else {
            match descriptor_signature(pool_text(cp, m.descriptor_index)) {
                SpecSignature::MethodSignature { return_spec, .. } => rest.push(
                    tabs(indent) + flags_text(m.access_flags, AccessFlagContext::Method) + " "@ + value_type_text(
                        return_spec,
                    ) + " "@ + name + "("@ + value_type_text(return_spec) + ")"@ + "{}"@,
                ),
                _ => rest,
            }
        }
    }
}

fn push_tabs(s: &mut String, n: u16)
    ensures
        final(s)@ == old(s)@ + tabs(n as nat),
{
    let mut i: u16 = 0;
    while i < n
        invariant
            i <= n,
            s@ == old(s)@ + tabs(i as nat),
        decreases n - i,
    {
        s.append("    ");
        i = i + 1;
    }
}

fn indent_of(indent: Option<u8>) -> (r: u16)
    requires
        indent matches Some(i) ==> i < 255,
    ensures
        r == member_indent(indent),
{
    match indent {
        None => 1,
        Some(i) => (i + 1) as u16,
    }
}

/// Appends the source line of each field of `classfile` to `buf`.
pub fn write_fields(classfile: &ClassFile, buf: &mut Vec<String>, indent: Option<u8>)
    requires
        indent matches Some(i) ==> i < 255,
        forall|j: int| 0 <= j < classfile@.fields.len() ==> field_ok(classfile@.constant_pool, #[trigger] classfile@.fields[j]),
    ensures
        final(buf)@.map_values(|s: String| s@) == old(buf)@.map_values(|s: String| s@) + classfile@.fields.map_values(
            |f: SpecMember| java_field_line(classfile@.constant_pool, f, member_indent(indent)),
        ),
{
    let ghost c = classfile@;
    let ghost cp = c.constant_pool;
    let ghost b0 = buf@.map_values(|s: String| s@);
    let level = indent_of(indent);
    let mut j: usize = 0;
    while j < classfile.fields.len()
        invariant
            j <= classfile.fields@.len(),
            c == classfile@,
            cp == c.constant_pool,
            level == member_indent(indent),
            forall|k: int| 0 <= k < c.fields.len() ==> field_ok(cp, #[trigger] c.fields[k]),
            buf@.map_values(|s: String| s@) == b0 + c.fields.subrange(0, j as int).map_values(
                |f: SpecMember| java_field_line(cp, f, level as nat),
            ),
        decreases classfile.fields@.len() - j,
    {
        let f = &classfile.fields[j];
        assert(c.fields[j as int] == f@);
        assert(field_ok(cp, f@));
        let name = classfile.get_string_from_cpool(f.name_index);
        let descriptor = classfile.get_string_from_cpool(f.descriptor_index);
        let sig = match parse_jvm_descriptor(descriptor.as_str()) {
            Some(s) => s,
            None => return,
        };
        let string_field = match &sig {
            JVMSignature::FieldSignature { spec } => match spec {
                ValueType::Object { ty } => str_eq(ty.as_str(), "java.lang.String"),
                _ => false,
            },
            _ => false,
        };
        let flags = AccessFlags::from_parts(AccessFlagContext::Field, f.access_flags);
        let mut line = String::new();
        push_tabs(&mut line, level);
        let ft = flags.as_string();
        line.append(ft.as_str());
        line.append(" ");
        let st = sig.to_string();
        line.append(st.as_str());
        line.append(" ");
        line.append(name.as_str());
        let ghost attrs = f@.attributes;
        let mut a: usize = 0;
        let ghost head = line@;
        while a < f.attributes.len()
            invariant
                a <= f.attributes@.len(),
                attrs == f@.attributes,
                field_ok(cp, f@),
                cp == cp_view(classfile.constant_pool@),
                string_field == is_string_field(descriptor_signature(pool_text(cp, f.descriptor_index))),
                line@ == head + constant_suffix(cp, attrs.subrange(0, a as int), string_field),
            decreases f.attributes@.len() - a,
        {
            assert(attrs[a as int] == f.attributes@[a as int]@);
            match &f.attributes[a] {
                Attribute::ConstantValue { constantvalue_index, .. } => {
                    if string_field {
                        let v = classfile.get_string_from_cpool(*constantvalue_index);
                        line.append(" = \"");
                        line.append(v.as_str());
                        line.append("\"");
                    }
                },
                _ => {},
            }
            proof {
                let s = attrs.subrange(0, a + 1);
                assert(s.drop_last() =~= attrs.subrange(0, a as int));
            }
            a = a + 1;
        }
        assert(attrs.subrange(0, a as int) =~= attrs);
        line.append(";");
        let ghost before = buf@.map_values(|s: String| s@);
        let ghost lv = line@;
        buf.push(line);
        assert(buf@.map_values(|s: String| s@) =~= before.push(lv));
        assert(c.fields.subrange(0, j + 1) =~= c.fields.subrange(0, j as int).push(c.fields[j as int]));
        j = j + 1;
    }
    assert(c.fields.subrange(0, j as int) =~= c.fields);
}

/// Appends the source line of each method of `classfile` to `buf`, leaving
/// out initializers.
pub fn write_methods(classfile: &ClassFile, buf: &mut Vec<String>, indent: Option<u8>)
    requires
        indent matches Some(i) ==> i < 255,
        forall|j: int| 0 <= j < classfile@.methods.len() ==> method_ok(classfile@.constant_pool, #[trigger] classfile@.methods[j]),
    ensures
        final(buf)@.map_values(|s: String| s@) == old(buf)@.map_values(|s: String| s@) + java_method_lines(
            classfile@.constant_pool,
            classfile@.methods,
            member_indent(indent),
        ),
{
    let ghost c = classfile@;
    let ghost cp = c.constant_pool;
    let ghost b0 = buf@.map_values(|s: String| s@);
    let level = indent_of(indent);
    let mut j: usize = 0;
    while j < classfile.methods.len()
        invariant
            j <= classfile.methods@.len(),
            c == classfile@,
            cp == c.constant_pool,
            level == member_indent(indent),
            forall|k: int| 0 <= k < c.methods.len() ==> method_ok(cp, #[trigger] c.methods[k]),
            buf@.map_values(|s: String| s@) == b0 + java_method_lines(cp, c.methods.subrange(0, j as int), level as nat),
        decreases classfile.methods@.len() - j,
    {
        let m = &classfile.methods[j];
        assert(c.methods[j as int] == m@);
        assert(method_ok(cp, m@));
        proof {
            let s = c.methods.subrange(0, j + 1);
            assert(s.drop_last() =~= c.methods.subrange(0, j as int));
            assert(s.last() == m@);
        }
        let name = classfile.get_string_from_cpool(m.name_index);
        if str_eq(name.as_str(), "<init>") || str_eq(name.as_str(), "<clinit>") {
            j = j + 1;
            continue;
        }
        let descriptor = classfile.get_string_from_cpool(m.descriptor_index);
        let sig = match parse_jvm_descriptor(descriptor.as_str()) {
            Some(s) => s,
            None => return,
        };
        match &sig {
            JVMSignature::MethodSignature { return_spec, .. } => {
                let flags = AccessFlags::from_parts(AccessFlagContext::Method, m.access_flags);
                let ret = return_spec.to_string();
                let mut line = String::new();
                push_tabs(&mut line, level);
                let ft = flags.as_string();
                line.append(ft.as_str());
                line.append(" ");
                line.append(ret.as_str());
                line.append(" ");
                line.append(name.as_str());
                line.append("(");
                line.append(ret.as_str());
                line.append(")");
                line.append("{}");
                let ghost before = buf@.map_values(|s: String| s@);
                let ghost lv = line@;
                buf.push(line);
                assert(buf@.map_values(|s: String| s@) =~= before.push(lv));
            },
            _ => {},
        }
        j = j + 1;
    }
    assert(c.methods.subrange(0, j as int) =~= c.methods);
}

/// The inner-class names that the class's `InnerClasses` attributes list, in order.
pub open spec fn inner_class_names(cp: Seq<crate::constant_pool::CpEntry>, attrs: Seq<SpecAttribute>) -> Seq<Seq<char>>
    decreases attrs.len(),
{
    if attrs.len() == 0 {
        Seq::empty()
    } else {
        inner_class_names(cp, attrs.drop_last()) + match attrs.last() {
            SpecAttribute::InnerClasses { classes, .. } => classes.map_values(
                |e: InnerClassEntry| pool_text(cp, e.inner_name_index),
            ),
            _ => Seq::empty(),
        }
    }
}

/// Whether the inner-class names of the class's attributes all resolve.
pub open spec fn inner_classes_ok(cp: Seq<crate::constant_pool::CpEntry>, attrs: Seq<SpecAttribute>) -> bool {
    forall|j: int| 0 <= j < attrs.len() ==> match #[trigger] attrs[j] {
        SpecAttribute::InnerClasses { classes, .. } => forall|k: int|
            0 <= k < classes.len() ==> cp_string(cp, #[trigger] classes[k].inner_name_index, cp.len()) is Some,
        _ => true,
    }
}

/// The names of the inner classes that the class's attributes list.
pub fn extract_inner_classes(classfile: &ClassFile) -> (r: Vec<String>)
    requires
        inner_classes_ok(classfile@.constant_pool, classfile@.attributes),
    ensures
        r@.map_values(|s: String| s@) == inner_class_names(classfile@.constant_pool, classfile@.attributes),
{
    let ghost c = classfile@;
    let ghost cp = c.constant_pool;
    let mut inner_classes: Vec<String> = Vec::new();
    let mut i: usize = 0;
    while i < classfile.attributes.len()
        invariant
            i <= classfile.attributes@.len(),
            c == classfile@,
            cp == c.constant_pool,
            inner_classes_ok(cp, c.attributes),
            inner_classes@.map_values(|s: String| s@) == inner_class_names(cp, c.attributes.subrange(0, i as int)),
        decreases classfile.attributes@.len() - i,
    {
        assert(c.attributes[i as int] == classfile.attributes@[i as int]@);
        proof {
            let s = c.attributes.subrange(0, i + 1);
            assert(s.drop_last() =~= c.attributes.subrange(0, i as int));
        }
        let ghost before = inner_classes@.map_values(|s: String| s@);
        match &classfile.attributes[i] {
            Attribute::InnerClasses { classes, .. } => {
                assert(c.attributes[i as int] == classfile.attributes@[i as int]@);
                assert(c.attributes[i as int]->InnerClasses_classes == classes@);
                let mut k: usize = 0;
                while k < classes.len()
                    invariant
                        k <= classes@.len(),
                        cp == cp_view(classfile.constant_pool@),
                        forall|q: int| 0 <= q < classes@.len() ==> cp_string(cp, #[trigger] classes@[q].inner_name_index, cp.len()) is Some,
                        inner_classes@.map_values(|s: String| s@) == before + classes@.subrange(0, k as int).map_values(
                            |e: InnerClassEntry| pool_text(cp, e.inner_name_index),
                        ),
                    decreases classes@.len() - k,
                {
                    let name = classfile.get_string_from_cpool(classes[k].inner_name_index);
                    let ghost prev = inner_classes@.map_values(|s: String| s@);
                    let ghost nv = name@;
                    inner_classes.push(name);
                    assert(inner_classes@.map_values(|s: String| s@) =~= prev.push(nv));
                    assert(classes@.subrange(0, k + 1) =~= classes@.subrange(0, k as int).push(classes@[k as int]));
                    k = k + 1;
                }
                assert(classes@.subrange(0, k as int) =~= classes@);
            },
            _ => {},
        }
        i = i + 1;
    }
    assert(c.attributes.subrange(0, i as int) =~= c.attributes);
    inner_classes
}

/// Lines joined with line breaks between them.
pub open spec fn joined_lines(ls: Seq<Seq<char>>) -> Seq<char>
    decreases ls.len(),
{
    if ls.len() == 0 {
        Seq::empty()
    } else if ls.len() == 1 {
        ls[0]
    } else {
        joined_lines(ls.drop_last()) + "\n"@ + ls.last()
    }
}

/// The source of a class: the class line, the field lines, an empty line and
/// the method lines, then the closing brace.
pub open spec fn class_source(c: SpecClassFile) -> Seq<char> {
    let cp = c.constant_pool;
    let head = flags_text(c.access_flags.value, c.access_flags.context) + "class "@ + class_name_text(
        cp,
        false,
        c.this_class,
        c.super_class,
    ) + " extends "@ + class_name_text(cp, true, c.this_class, c.super_class).map_values(|ch: char| dotted(ch))
        + " {"@;
    joined_lines(
        seq![head] + c.fields.map_values(|f: SpecMember| java_field_line(cp, f, 1)) + seq!["\n"@]
            + java_method_lines(cp, c.methods, 1) + seq!["}"@],
    )
}

/// Whether the source of a class can be made.
pub open spec fn decompilable(c: SpecClassFile) -> bool {
    &&& inner_classes_ok(c.constant_pool, c.attributes)
    &&& forall|j: int| 0 <= j < c.fields.len() ==> field_ok(c.constant_pool, #[trigger] c.fields[j])
    &&& forall|j: int| 0 <= j < c.methods.len() ==> method_ok(c.constant_pool, #[trigger] c.methods[j])
}

/// The source of a class, whose bytes the caller writes where it wants them.
pub fn write_class(classfile: &ClassFile) -> (r: String)
    requires
        decompilable(classfile@),
    ensures
        r@ == class_source(classfile@),
{
    let mut code_lines: Vec<String> = Vec::new();
    let this_class_name = classfile.class_name_from_cp(false);
    let super_raw = classfile.class_name_from_cp(true);
    let mut super_class_name = String::new();
    let n = super_raw.as_str().unicode_len();
    let mut i: usize = 0;
    while i < n
        invariant
            i <= n,
            n == super_raw@.len(),
            super_class_name@ == super_raw@.subrange(0, i as int).map_values(|ch: char| dotted(ch)),
        decreases n - i,
    {
        let ch = super_raw.as_str().get_char(i);
        if ch == '/' {
            push_char(&mut super_class_name, '.');
        } else {
            push_char(&mut super_class_name, ch);
        }
        assert(super_raw@.subrange(0, i + 1).map_values(|ch: char| dotted(ch)) =~= super_raw@.subrange(
            0,
            i as int,
        ).map_values(|ch: char| dotted(ch)).push(dotted(ch)));
        i = i + 1;
    }
    assert(super_raw@.subrange(0, i as int) =~= super_raw@);
    let mut line = classfile.access_flags.as_string();
    line.append("class ");
    line.append(this_class_name.as_str());
    line.append(" extends ");
    line.append(super_class_name.as_str());
    line.append(" {");
    let ghost head = line@;
    code_lines.push(line);
    assert(code_lines@.map_values(|s: String| s@) =~= seq![head]);
    let _ = extract_inner_classes(classfile);
    write_fields(classfile, &mut code_lines, None);
    let ghost with_fields = code_lines@.map_values(|s: String| s@);
    code_lines.push(String::from_str("\n"));
    assert(code_lines@.map_values(|s: String| s@) =~= with_fields.push("\n"@));
    write_methods(classfile, &mut code_lines, None);
    let ghost with_methods = code_lines@.map_values(|s: String| s@);
    code_lines.push(String::from_str("}"));
    assert(code_lines@.map_values(|s: String| s@) =~= with_methods.push("}"@));
    let ghost ls = code_lines@.map_values(|s: String| s@);
    let mut full = String::new();
    let mut k: usize = 0;
    while k < code_lines.len()
        invariant
            k <= code_lines@.len(),
            ls == code_lines@.map_values(|s: String| s@),
            full@ == joined_lines(ls.subrange(0, k as int)),
        decreases code_lines@.len() - k,
    {
        if k > 0 {
            full.append("\n");
        }
        full.append(code_lines[k].as_str());
        proof {
            let s = ls.subrange(0, k + 1);
            assert(s.drop_last() =~= ls.subrange(0, k as int));
            if k == 0 {
                assert(ls.subrange(0, 0) =~= Seq::<Seq<char>>::empty());
            }
        }
        k = k + 1;
    }
    assert(ls.subrange(0, k as int) =~= ls);
    assert(ls =~= seq![head] + classfile@.fields.map_values(
        |f: SpecMember| java_field_line(classfile@.constant_pool, f, 1),
    ) + seq!["\n"@] + java_method_lines(classfile@.constant_pool, classfile@.methods, 1) + seq!["}"@]);
    full
}

impl ClassFile {
    fn inner_names_resolve(&self) -> (r: bool)
        ensures
            r == inner_classes_ok(self@.constant_pool, self@.attributes),
    {
        let ghost c = self@;
        let ghost cp = c.constant_pool;
        let mut i: usize = 0;
        while i < self.attributes.len()
            invariant
                i <= self.attributes@.len(),
                c == self@,
                cp == c.constant_pool,
                inner_classes_ok(cp, c.attributes.subrange(0, i as int)),
            decreases self.attributes@.len() - i,
        {
            assert(c.attributes[i as int] == self.attributes@[i as int]@);
            match &self.attributes[i] {
                Attribute::InnerClasses { classes, .. } => {
                    assert(c.attributes[i as int]->InnerClasses_classes == classes@);
                    let mut k: usize = 0;
                    while k < classes.len()
                        invariant
                            k <= classes@.len(),
                            c == self@,
                            cp == c.constant_pool,
                            i < c.attributes.len(),
                            c.attributes[i as int] is InnerClasses,
                            c.attributes[i as int]->InnerClasses_classes == classes@,
                            forall|q: int| 0 <= q < k ==> cp_string(cp, #[trigger] classes@[q].inner_name_index, cp.len()) is Some,
                        decreases classes@.len() - k,
                    {
                        if !self.cp_resolves(classes[k].inner_name_index) {
                            assert(!inner_classes_ok(cp, c.attributes)) by {
                                let cl = c.attributes[i as int]->InnerClasses_classes;
                                assert(cl[k as int] == classes@[k as int]);
                                assert(!(cp_string(cp, cl[k as int].inner_name_index, cp.len()) is Some));
                            }
                            return false;
                        }
                        k = k + 1;
                    }
                },
                _ => {},
            }
            assert(inner_classes_ok(cp, c.attributes.subrange(0, i + 1))) by {
                assert forall|j: int| 0 <= j < i + 1 implies match #[trigger] c.attributes.subrange(0, i + 1)[j] {
                    SpecAttribute::InnerClasses { classes, .. } => forall|k: int|
                        0 <= k < classes.len() ==> cp_string(cp, #[trigger] classes[k].inner_name_index, cp.len()) is Some,
                    _ => true,
                } by {
                    if j < i {
                        assert(c.attributes.subrange(0, i + 1)[j] == c.attributes.subrange(0, i as int)[j]);
                    }
                }
            }
            i = i + 1;
        }
        assert(c.attributes.subrange(0, i as int) =~= c.attributes);
        true
    }

    fn field_decompiles(&self, f: &Field) -> (r: bool)
        ensures
            r == field_ok(self@.constant_pool, f@),
    {
        let ghost cp = self@.constant_pool;
        if !self.cp_resolves(f.name_index) || !self.cp_resolves(f.descriptor_index) {
            return false;
        }
        let descriptor = self.get_string_from_cpool(f.descriptor_index);
        let sig = match parse_jvm_descriptor(descriptor.as_str()) {
            Some(s) => s,
            None => return false,
        };
        let string_field = match &sig {
            JVMSignature::FieldSignature { spec } => match spec {
                ValueType::Object { ty } => str_eq(ty.as_str(), "java.lang.String"),
                _ => false,
            },
            _ => false,
        };
        if !string_field {
            return true;
        }
        let ghost attrs = f@.attributes;
        assert(string_field == is_string_field(descriptor_signature(pool_text(cp, f.descriptor_index))));
        let mut a: usize = 0;
        while a < f.attributes.len()
            invariant
                a <= f.attributes@.len(),
                attrs == f@.attributes,
                cp == self@.constant_pool,
                cp == cp_view(self.constant_pool@),
                is_string_field(descriptor_signature(pool_text(cp, f.descriptor_index))),
                forall|j: int| 0 <= j < a ==> match #[trigger] attrs[j] {
                    SpecAttribute::ConstantValue { constantvalue_index, .. } => cp_string(
                        cp,
                        constantvalue_index,
                        cp.len(),
                    ) is Some,
                    _ => true,
                },
            decreases f.attributes@.len() - a,
        {
            assert(attrs[a as int] == f.attributes@[a as int]@);
            match &f.attributes[a] {
                Attribute::ConstantValue { constantvalue_index, .. } => {
                    if !self.cp_resolves(*constantvalue_index) {
                        return false;
                    }
                },
                _ => {},
            }
            a = a + 1;
        }
        true
    }

    fn method_decompiles(&self, m: &Method) -> (r: bool)
        ensures
            r == method_ok(self@.constant_pool, m@),
    {
        if !self.cp_resolves(m.name_index) {
            return false;
        }
        let name = self.get_string_from_cpool(m.name_index);
        if str_eq(name.as_str(), "<init>") || str_eq(name.as_str(), "<clinit>") {
            return true;
        }
        self.cp_resolves(m.descriptor_index)
    }

    /// Whether the source of the class can be made: the check that [`write_class`] asks for.
    pub fn is_decompilable(&self) -> (r: bool)
        ensures
            r == decompilable(self@),
    {
        let ghost c = self@;
        let ghost cp = c.constant_pool;
        if !self.inner_names_resolve() {
            return false;
        }
        let mut j: usize = 0;
        while j < self.fields.len()
            invariant
                j <= self.fields@.len(),
                c == self@,
                cp == c.constant_pool,
                forall|k: int| 0 <= k < j ==> field_ok(cp, #[trigger] c.fields[k]),
            decreases self.fields@.len() - j,
        {
            assert(c.fields[j as int] == self.fields@[j as int]@);
            if !self.field_decompiles(&self.fields[j]) {
                return false;
            }
            j = j + 1;
        }
        let mut k: usize = 0;
        while k < self.methods.len()
            invariant
                k <= self.methods@.len(),
                c == self@,
                cp == c.constant_pool,
                forall|q: int| 0 <= q < k ==> method_ok(cp, #[trigger] c.methods[q]),
            decreases self.methods@.len() - k,
        {
            assert(c.methods[k as int] == self.methods@[k as int]@);
            if !self.method_decompiles(&self.methods[k]) {
                return false;
            }
            k = k + 1;
        }
        true
    }
}

} // verus!
