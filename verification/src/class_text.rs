//! The printed form of a class file: its version and names, its counts, and
//! a line for each interface, field, method and attribute.
use crate::access_flags::{flags_text, AccessFlagContext, AccessFlags};
use crate::attribute_info::{attribute_views, Attribute, SpecAttribute};
use crate::attribute_text::{attribute_showable, attribute_text, opcodes_in_table, operand_count};
use crate::opcodes::Opcodes;
use crate::classfile::{class_name_text, cp_string, ClassFile, SpecMember};
use crate::constant_pool::{cp_view, entry_tag, ConstantPoolTags, CpEntry};
use crate::signature_parser::{descriptor_signature, parse_jvm_descriptor, signature_text};
use crate::text::{decimal, push_decimal, trim, trimmed};
use vstd::prelude::*;
use vstd::string::StringExecFns;

verus! {

/// Items laid out one per line under a heading, each line indented by eight spaces.
pub open spec fn item_lines(items: Seq<Seq<char>>) -> Seq<char>
    decreases items.len(),
{
    if items.len() == 0 {
        "        "@
    } else {
        item_lines(items.drop_last()) + "\n        "@ + items.last()
    }
}

/// What the count of a list shows after it: `[]` for a count of 0, else the items' lines.
pub open spec fn list_text(count: u16, items: Seq<Seq<char>>) -> Seq<char> {
    if count == 0 {
        "[]"@
    } else {
        item_lines(items)
    }
}

/// The text of the constant-pool text at `index`.
pub open spec fn pool_text(cp: Seq<CpEntry>, index: u16) -> Seq<char> {
    cp_string(cp, index, cp.len()).unwrap()
}

/// The line of an interface: the name of the class it points at, or what went wrong.
pub open spec fn interface_line(cp: Seq<CpEntry>, index: u16) -> Seq<char> {
    if index < cp.len() {
        match cp[index as int] {
            CpEntry::Class { name_index, .. } => pool_text(cp, name_index),
            other => "Error accessing interfaces - expected Class_info found at index "@ + decimal(index as nat)
                + " in the constant pool: got "@ + decimal(entry_tag(other) as nat),
        }
    } else {
        "Error accessing interfaces - nothing found at index "@ + decimal(index as nat) + " in the constant pool"@
    }
}

/// Whether the line of an interface can be made: a class entry's name resolves.
pub open spec fn interface_ok(cp: Seq<CpEntry>, index: u16) -> bool {
    index < cp.len() ==> match cp[index as int] {
        CpEntry::Class { name_index, .. } => cp_string(cp, name_index, cp.len()) is Some,
        _ => true,
    }
}

/// The signature text of a member's descriptor.
pub open spec fn member_signature(cp: Seq<CpEntry>, m: SpecMember) -> Seq<char> {
    signature_text(descriptor_signature(pool_text(cp, m.descriptor_index)))
}

/// Whether the lines of a member can be made: its name and descriptor resolve
/// and its attributes can be shown.
pub open spec fn member_ok(cp: Seq<CpEntry>, m: SpecMember) -> bool {
    &&& cp_string(cp, m.name_index, cp.len()) is Some
    &&& cp_string(cp, m.descriptor_index, cp.len()) is Some
    &&& all_showable(m.attributes)
}

/// The line of a field: its flags, its type and its name.
pub open spec fn field_line(cp: Seq<CpEntry>, f: SpecMember) -> Seq<char> {
    trimmed(
        flags_text(f.access_flags, AccessFlagContext::Field) + " "@ + trimmed(member_signature(cp, f)) + " "@
            + trimmed(pool_text(cp, f.name_index)),
    )
}

/// The lines of a method: its flags, name and signature, then a line for each of its attributes.
pub open spec fn method_lines(cp: Seq<CpEntry>, m: SpecMember) -> Seq<Seq<char>> {
    seq![
        trimmed(
            flags_text(m.access_flags, AccessFlagContext::Field) + " "@ + trimmed(pool_text(cp, m.name_index))
                + " "@ + trimmed(member_signature(cp, m)),
        ),
    ] + m.attributes.map_values(|a: SpecAttribute| "  "@ + attribute_text(a))
}

/// The lines of methods, one method after another.
pub open spec fn methods_lines(cp: Seq<CpEntry>, ms: Seq<SpecMember>) -> Seq<Seq<char>>
    decreases ms.len(),
{
    if ms.len() == 0 {
        Seq::empty()
    } else {
        methods_lines(cp, ms.drop_last()) + method_lines(cp, ms.last())
    }
}

/// Whether a class can be printed: every name it prints resolves and every
/// attribute it prints can be shown.
pub open spec fn printable(c: crate::classfile::SpecClassFile) -> bool {
    &&& forall|i: int| 0 <= i < c.interfaces.len() ==> interface_ok(c.constant_pool, #[trigger] c.interfaces[i])
    &&& forall|i: int| 0 <= i < c.fields.len() ==> member_ok(c.constant_pool, #[trigger] c.fields[i])
    &&& forall|i: int| 0 <= i < c.methods.len() ==> member_ok(c.constant_pool, #[trigger] c.methods[i])
    &&& all_showable(c.attributes)
}

/// The printed form of a class.
pub open spec fn class_text(c: crate::classfile::SpecClassFile) -> Seq<char> {
    let cp = c.constant_pool;
    let this_name = class_name_text(cp, false, c.this_class, c.super_class);
    let super_name = class_name_text(cp, true, c.this_class, c.super_class);
    "Classfile version "@ + decimal(c.major_version as nat) + "."@ + decimal(c.minor_version as nat)
        + " of class "@ + this_name + " extends "@ + super_name + "\n    constant_pool_count: "@ + decimal(
        c.constant_pool_count as nat,
    ) + "\n    access_flags: "@ + flags_text(c.access_flags.value, c.access_flags.context)
        + "\n    this_class: "@ + this_name + "\n    super_class: "@ + super_name
        + "\n    interfaces_count: "@ + decimal(c.interfaces_count as nat) + list_text(
        c.interfaces_count,
        c.interfaces.map_values(|i: u16| interface_line(cp, i)),
    ) + "\n    fields_count: "@ + decimal(c.fields_count as nat) + list_text(
        c.fields_count,
        c.fields.map_values(|f: SpecMember| field_line(cp, f)),
    ) + "\n    methods_count: "@ + decimal(c.methods_count as nat) + list_text(
        c.methods_count,
        methods_lines(cp, c.methods),
    ) + "\n    attributes_count: "@ + decimal(c.attributes_count as nat) + list_text(
        c.attributes_count,
        c.attributes.map_values(|a: SpecAttribute| attribute_text(a)),
    ) + "\n    "@
}

/// Appends `items` as lines under a heading.
fn push_item_lines(out: &mut String, items: &Vec<String>)
    ensures
        final(out)@ == old(out)@ + item_lines(items@.map_values(|s: String| s@)),
{
    let ghost views = items@.map_values(|s: String| s@);
    out.append("        ");
    let mut i: usize = 0;
    proof {
        reveal_strlit("        ");
        assert(views.subrange(0, 0) =~= Seq::<Seq<char>>::empty());
    }
    while i < items.len()
        invariant
            i <= items@.len(),
            views == items@.map_values(|s: String| s@),
            out@ == old(out)@ + item_lines(views.subrange(0, i as int)),
        decreases items@.len() - i,
    {
        out.append("\n        ");
        out.append(items[i].as_str());
        proof {
            let s = views.subrange(0, i + 1);
            assert(s.drop_last() =~= views.subrange(0, i as int));
        }
        i = i + 1;
    }
    assert(views.subrange(0, i as int) =~= views);
}

/// Appends what a list's count shows after it.
fn push_list(out: &mut String, count: u16, items: &Vec<String>)
    ensures
        final(out)@ == old(out)@ + list_text(count, items@.map_values(|s: String| s@)),
{
    if count == 0 {
        out.append("[]");
    } else {
        push_item_lines(out, items);
    }
}

impl ClassFile {
    /// The line of the interface at constant-pool index `index`.
    fn interface_line(&self, index: u16) -> (r: String)
        requires
            interface_ok(cp_view(self.constant_pool@), index),
        ensures
            r@ == interface_line(cp_view(self.constant_pool@), index),
    {
        let ghost cp = cp_view(self.constant_pool@);
        if (index as usize) < self.constant_pool.len() {
            let entry = &self.constant_pool[index as usize];
            assert(cp[index as int] == entry@);
            match entry {
                ConstantPoolTags::Class { name_index, .. } => self.get_string_from_cpool(*name_index),
                other => {
                    let mut r = String::from_str("Error accessing interfaces - expected Class_info found at index ");
                    push_decimal(&mut r, index as u64);
                    r.append(" in the constant pool: got ");
                    push_decimal(&mut r, other.jvm_tag() as u64);
                    r
                },
            }
        } else {
            let mut r = String::from_str("Error accessing interfaces - nothing found at index ");
            push_decimal(&mut r, index as u64);
            r.append(" in the constant pool");
            r
        }
    }

    /// The signature text of a member's descriptor.
    fn signature_of(&self, descriptor_index: u16) -> (r: String)
        requires
            cp_string(cp_view(self.constant_pool@), descriptor_index, self.constant_pool@.len() as nat) is Some,
        ensures
            r@ == signature_text(descriptor_signature(pool_text(cp_view(self.constant_pool@), descriptor_index))),
    {
        let d = self.get_string_from_cpool(descriptor_index);
        match parse_jvm_descriptor(d.as_str()) {
            Some(sig) => sig.to_string(),
            None => String::new(),
        }
    }

    /// The printed form of the class.
    pub fn to_string(&self) -> (r: String)
        requires
            printable(self@),
        ensures
            r@ == class_text(self@),
    {
        let ghost c = self@;
        let ghost cp = c.constant_pool;
        let class_name = self.class_name_from_cp(false);
        let super_class_name = self.class_name_from_cp(true);
        let mut interfaces: Vec<String> = Vec::new();
        let mut i: usize = 0;
        while i < self.interfaces.len()
            invariant
                i <= self.interfaces@.len(),
                c == self@,
                cp == c.constant_pool,
                printable(c),
                interfaces@.map_values(|s: String| s@) == self.interfaces@.subrange(0, i as int).map_values(
                    |x: u16| interface_line(cp, x),
                ),
            decreases self.interfaces@.len() - i,
        {
            assert(interface_ok(cp, c.interfaces[i as int]));
            let line = self.interface_line(self.interfaces[i]);
            let ghost before = interfaces@.map_values(|s: String| s@);
            let ghost lv = line@;
            interfaces.push(line);
            assert(interfaces@.map_values(|s: String| s@) =~= before.push(lv));
            assert(self.interfaces@.subrange(0, i + 1) =~= self.interfaces@.subrange(0, i as int).push(
                self.interfaces@[i as int],
            ));
            assert(interfaces@.map_values(|s: String| s@) =~= self.interfaces@.subrange(0, i + 1).map_values(
                |x: u16| interface_line(cp, x),
            ));
            i = i + 1;
        }
        assert(self.interfaces@.subrange(0, i as int) =~= self.interfaces@);
        let mut fields: Vec<String> = Vec::new();
        let mut j: usize = 0;
        while j < self.fields.len()
            invariant
                j <= self.fields@.len(),
                c == self@,
                cp == c.constant_pool,
                printable(c),
                fields@.map_values(|s: String| s@) == c.fields.subrange(0, j as int).map_values(
                    |f: SpecMember| field_line(cp, f),
                ),
            decreases self.fields@.len() - j,
        {
            let f = &self.fields[j];
            assert(c.fields[j as int] == f@);
            assert(member_ok(cp, f@));
            let sig = self.signature_of(f.descriptor_index);
            let name = self.get_string_from_cpool(f.name_index);
            let flags = AccessFlags::from_parts(AccessFlagContext::Field, f.access_flags);
            let mut line = flags.as_string();
            line.append(" ");
            let ts = trim(sig.as_str());
            line.append(ts.as_str());
            line.append(" ");
            let tn = trim(name.as_str());
            line.append(tn.as_str());
            let line = trim(line.as_str());
            let ghost before = fields@.map_values(|s: String| s@);
            let ghost lv = line@;
            fields.push(line);
            assert(fields@.map_values(|s: String| s@) =~= before.push(lv));
            assert(c.fields.subrange(0, j + 1) =~= c.fields.subrange(0, j as int).push(c.fields[j as int]));
            assert(fields@.map_values(|s: String| s@) =~= c.fields.subrange(0, j + 1).map_values(
                |f: SpecMember| field_line(cp, f),
            ));
            j = j + 1;
        }
        assert(c.fields.subrange(0, j as int) =~= c.fields);
        let mut methods: Vec<String> = Vec::new();
        let mut k: usize = 0;
        while k < self.methods.len()
            invariant
                k <= self.methods@.len(),
                c == self@,
                cp == c.constant_pool,
                printable(c),
                methods@.map_values(|s: String| s@) == methods_lines(cp, c.methods.subrange(0, k as int)),
            decreases self.methods@.len() - k,
        {
            let m = &self.methods[k];
            assert(c.methods[k as int] == m@);
            assert(member_ok(cp, m@));
            let ghost before = methods@.map_values(|s: String| s@);
            let sig = self.signature_of(m.descriptor_index);
            let name = self.get_string_from_cpool(m.name_index);
            let flags = AccessFlags::from_parts(AccessFlagContext::Field, m.access_flags);
            let mut line = flags.as_string();
            line.append(" ");
            let tn = trim(name.as_str());
            line.append(tn.as_str());
            line.append(" ");
            let ts = trim(sig.as_str());
            line.append(ts.as_str());
            let line = trim(line.as_str());
            methods.push(line);
            let ghost av = m@.attributes;
            let mut a: usize = 0;
            while a < m.attributes.len()
                invariant
                    a <= m.attributes@.len(),
                    av == attribute_views(m.attributes@),
                    member_ok(cp, m@),
                    av == m@.attributes,
                    methods@.map_values(|s: String| s@) == before + seq![method_lines(cp, m@)[0]] + av.subrange(
                        0,
                        a as int,
                    ).map_values(|x: SpecAttribute| "  "@ + attribute_text(x)),
                decreases m.attributes@.len() - a,
            {
                assert(av[a as int] == m.attributes@[a as int]@);
                assert(attribute_showable(av[a as int]));
                let t = m.attributes[a].to_string();
                let mut l = String::from_str("  ");
                l.append(t.as_str());
                let ghost mb = methods@.map_values(|s: String| s@);
                methods.push(l);
                assert(methods@.map_values(|s: String| s@) =~= mb.push(l@));
                assert(av.subrange(0, a + 1).map_values(|x: SpecAttribute| "  "@ + attribute_text(x)) =~= av.subrange(
                    0,
                    a as int,
                ).map_values(|x: SpecAttribute| "  "@ + attribute_text(x)).push(l@));
                a = a + 1;
            }
            proof {
                assert(av.subrange(0, a as int) =~= av);
                let s = c.methods.subrange(0, k + 1);
                assert(s.drop_last() =~= c.methods.subrange(0, k as int));
                assert(method_lines(cp, m@) =~= seq![method_lines(cp, m@)[0]] + av.map_values(
                    |x: SpecAttribute| "  "@ + attribute_text(x),
                ));
                assert(methods@.map_values(|s: String| s@) =~= methods_lines(cp, s));
            }
            k = k + 1;
        }
        assert(c.methods.subrange(0, k as int) =~= c.methods);
        let mut attributes: Vec<String> = Vec::new();
        let mut t: usize = 0;
        while t < self.attributes.len()
            invariant
                t <= self.attributes@.len(),
                c == self@,
                printable(c),
                attributes@.map_values(|s: String| s@) == c.attributes.subrange(0, t as int).map_values(
                    |a: SpecAttribute| attribute_text(a),
                ),
            decreases self.attributes@.len() - t,
        {
            assert(c.attributes[t as int] == self.attributes@[t as int]@);
            assert(attribute_showable(c.attributes[t as int]));
            let s = self.attributes[t].to_string();
            let ghost before = attributes@.map_values(|s: String| s@);
            let ghost sv = s@;
            attributes.push(s);
            assert(attributes@.map_values(|s: String| s@) =~= before.push(sv));
            assert(c.attributes.subrange(0, t + 1) =~= c.attributes.subrange(0, t as int).push(c.attributes[t as int]));
            assert(attributes@.map_values(|s: String| s@) =~= c.attributes.subrange(0, t + 1).map_values(
                |a: SpecAttribute| attribute_text(a),
            ));
            t = t + 1;
        }
        assert(c.attributes.subrange(0, t as int) =~= c.attributes);
        let mut out = String::from_str("Classfile version ");
        push_decimal(&mut out, self.major_version as u64);
        out.append(".");
        push_decimal(&mut out, self.minor_version as u64);
        out.append(" of class ");
        out.append(class_name.as_str());
        out.append(" extends ");
        out.append(super_class_name.as_str());
        out.append("\n    constant_pool_count: ");
        push_decimal(&mut out, self.constant_pool_count as u64);
        out.append("\n    access_flags: ");
        let af = self.access_flags.as_string();
        out.append(af.as_str());
        out.append("\n    this_class: ");
        out.append(class_name.as_str());
        out.append("\n    super_class: ");
        out.append(super_class_name.as_str());
        out.append("\n    interfaces_count: ");
        push_decimal(&mut out, self.interfaces_count as u64);
        push_list(&mut out, self.interfaces_count, &interfaces);
        out.append("\n    fields_count: ");
        push_decimal(&mut out, self.fields_count as u64);
        push_list(&mut out, self.fields_count, &fields);
        out.append("\n    methods_count: ");
        push_decimal(&mut out, self.methods_count as u64);
        push_list(&mut out, self.methods_count, &methods);
        out.append("\n    attributes_count: ");
        push_decimal(&mut out, self.attributes_count as u64);
        push_list(&mut out, self.attributes_count, &attributes);
        out.append("\n    ");
        assert(out@ =~= class_text(c));
        out
    }
}

/// Whether the code from `i` on keeps its instruction positions within the opcode table.
fn code_in_table(code: &Vec<u8>) -> (r: bool)
    ensures
        r == opcodes_in_table(code@, 0),
{
    let n = code.len();
    let mut i: usize = 0;
    while i < n
        invariant
            i <= n,
            n == code@.len(),
            opcodes_in_table(code@, i as int) == opcodes_in_table(code@, 0),
        decreases n - i,
    {
        let b = code[i];
        if b == 255 {
            return false;
        }
        match Opcodes::get(b) {
            None => {
                i = i + 1;
            },
            Some(op) => {
                let want: usize = (op.oplen - 1) as usize;
                let left: usize = n - i - 1;
                let k = if want <= left { want } else { left };
                assert(k == operand_count(code@, i as int, op.oplen));
                i = i + 1 + k;
            },
        }
    }
    true
}

/// Whether an attribute can be shown.
pub fn attribute_can_show(a: &Attribute) -> (r: bool)
    ensures
        r == attribute_showable(a@),
{
    match a {
        Attribute::Code { code, .. } => code_in_table(code),
        _ => true,
    }
}

/// Whether every attribute of a sequence can be shown.
pub open spec fn all_showable(attrs: Seq<SpecAttribute>) -> bool {
    forall|j: int| 0 <= j < attrs.len() ==> attribute_showable(#[trigger] attrs[j])
}

fn attributes_can_show(v: &Vec<Attribute>) -> (r: bool)
    ensures
        r == all_showable(attribute_views(v@)),
{
    let ghost views = attribute_views(v@);
    let mut i: usize = 0;
    while i < v.len()
        invariant
            i <= v@.len(),
            views == attribute_views(v@),
            forall|j: int| 0 <= j < i ==> attribute_showable(#[trigger] views[j]),
        decreases v@.len() - i,
    {
        assert(views[i as int] == v@[i as int]@);
        if !attribute_can_show(&v[i]) {
            assert(!attribute_showable(views[i as int]));
            return false;
        }
        i = i + 1;
    }
    true
}

impl ClassFile {
    /// Whether the text at constant-pool index `index` resolves.
    pub fn cp_resolves(&self, index: u16) -> (r: bool)
        ensures
            r == (cp_string(cp_view(self.constant_pool@), index, self.constant_pool@.len() as nat) is Some),
    {
        let ghost cpv = cp_view(self.constant_pool@);
        let n = self.constant_pool.len();
        let mut fuel: usize = n;
        let mut cur = index;
        loop
            invariant
                n == self.constant_pool@.len(),
                cpv == cp_view(self.constant_pool@),
                fuel <= n,
                cp_string(cpv, cur, fuel as nat) is Some == cp_string(cpv, index, n as nat) is Some,
            decreases fuel,
        {
            if fuel == 0 || (cur as usize) >= n {
                return false;
            }
            let entry = &self.constant_pool[cur as usize];
            assert(cpv[cur as int] == entry@);
            match entry {
                ConstantPoolTags::String { string_index, .. } => {
                    cur = *string_index;
                    fuel = fuel - 1;
                },
                _ => {
                    return true;
                },
            }
        }
    }

    fn member_printable(&self, m_name: u16, m_descriptor: u16, attrs: &Vec<Attribute>) -> (r: bool)
        ensures
            r == (cp_string(cp_view(self.constant_pool@), m_name, self.constant_pool@.len() as nat) is Some
                && cp_string(cp_view(self.constant_pool@), m_descriptor, self.constant_pool@.len() as nat) is Some
                && all_showable(attribute_views(attrs@))),
    {
        self.cp_resolves(m_name) && self.cp_resolves(m_descriptor) && attributes_can_show(attrs)
    }

    /// Whether the class can be printed: the check that [`ClassFile::to_string`] asks for.
    pub fn is_printable(&self) -> (r: bool)
        ensures
            r == printable(self@),
    {
        let ghost c = self@;
        let ghost cp = c.constant_pool;
        let mut i: usize = 0;
        while i < self.interfaces.len()
            invariant
                i <= self.interfaces@.len(),
                c == self@,
                cp == c.constant_pool,
                forall|j: int| 0 <= j < i ==> interface_ok(cp, #[trigger] c.interfaces[j]),
            decreases self.interfaces@.len() - i,
        {
            let index = self.interfaces[i];
            if (index as usize) < self.constant_pool.len() {
                let entry = &self.constant_pool[index as usize];
                assert(cp[index as int] == entry@);
                match entry {
                    ConstantPoolTags::Class { name_index, .. } => {
                        if !self.cp_resolves(*name_index) {
                            assert(!interface_ok(cp, c.interfaces[i as int]));
                            return false;
                        }
                    },
                    _ => {},
                }
            }
            i = i + 1;
        }
        let mut j: usize = 0;
        while j < self.fields.len()
            invariant
                j <= self.fields@.len(),
                c == self@,
                cp == c.constant_pool,
                forall|k: int| 0 <= k < j ==> member_ok(cp, #[trigger] c.fields[k]),
            decreases self.fields@.len() - j,
        {
            let f = &self.fields[j];
            assert(c.fields[j as int] == f@);
            if !self.member_printable(f.name_index, f.descriptor_index, &f.attributes) {
                return false;
            }
            j = j + 1;
        }
        let mut k: usize = 0;
        while k < self.methods.len()
            invariant
                k <= self.methods@.len(),
                c == self@,
                cp == c.constant_pool,
                forall|q: int| 0 <= q < k ==> member_ok(cp, #[trigger] c.methods[q]),
            decreases self.methods@.len() - k,
        {
            let m = &self.methods[k];
            assert(c.methods[k as int] == m@);
            if !self.member_printable(m.name_index, m.descriptor_index, &m.attributes) {
                return false;
            }
            k = k + 1;
        }
        attributes_can_show(&self.attributes)
    }
}

} // verus!
