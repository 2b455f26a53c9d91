//! The text of an attribute as the class printer shows it: the disassembly
//! of a code attribute, the name index of any other.
use crate::attribute_info::{Attribute, SpecAttribute};
use crate::opcodes::{opcode_info, Opcodes};
use crate::text::{decimal, push_char, push_decimal};
use vstd::prelude::*;
use vstd::string::StringExecFns;

verus! {

/// The name index of an attribute.
pub open spec fn name_index_of(a: SpecAttribute) -> u16 {
    match a {
        SpecAttribute::ConstantValue { attribute_name_index, .. } => attribute_name_index,
        SpecAttribute::Code { attribute_name_index, .. } => attribute_name_index,
        SpecAttribute::StackMapTable { attribute_name_index, .. } => attribute_name_index,
        SpecAttribute::Exceptions { attribute_name_index, .. } => attribute_name_index,
        SpecAttribute::InnerClasses { attribute_name_index, .. } => attribute_name_index,
        SpecAttribute::EnclosingMethod { attribute_name_index, .. } => attribute_name_index,
        SpecAttribute::Synthetic { attribute_name_index, .. } => attribute_name_index,
        SpecAttribute::Signature { attribute_name_index, .. } => attribute_name_index,
        SpecAttribute::SourceFile { attribute_name_index, .. } => attribute_name_index,
        SpecAttribute::SourceDebugExtension { attribute_name_index, .. } => attribute_name_index,
        SpecAttribute::LineNumberTable { attribute_name_index, .. } => attribute_name_index,
        SpecAttribute::LocalVariableTable { attribute_name_index, .. } => attribute_name_index,
        SpecAttribute::LocalVariableTypeTable { attribute_name_index, .. } => attribute_name_index,
        SpecAttribute::Deprecated { attribute_name_index, .. } => attribute_name_index,
        SpecAttribute::RuntimeVisibleAnnotations { attribute_name_index, .. } => attribute_name_index,
        SpecAttribute::RuntimeInvisibleAnnotations { attribute_name_index, .. } => attribute_name_index,
        SpecAttribute::RuntimeVisibleParameterAnnotations { attribute_name_index, .. } => attribute_name_index,
        SpecAttribute::RuntimeInvisibleParameterAnnotations { attribute_name_index, .. } => attribute_name_index,
        SpecAttribute::RuntimeVisibleTypeAnnotations { attribute_name_index, .. } => attribute_name_index,
        SpecAttribute::RuntimeInvisibleTypeAnnotations { attribute_name_index, .. } => attribute_name_index,
        SpecAttribute::AnnotationDefault { attribute_name_index, .. } => attribute_name_index,
        SpecAttribute::BootstrapMethods { attribute_name_index, .. } => attribute_name_index,
        SpecAttribute::MethodParameters { attribute_name_index, .. } => attribute_name_index,
        SpecAttribute::Module { attribute_name_index, .. } => attribute_name_index,
        SpecAttribute::ModulePackages { attribute_name_index, .. } => attribute_name_index,
        SpecAttribute::ModuleMainClass { attribute_name_index, .. } => attribute_name_index,
        SpecAttribute::NestHost { attribute_name_index, .. } => attribute_name_index,
        SpecAttribute::NestMembers { attribute_name_index, .. } => attribute_name_index,
        SpecAttribute::Record { attribute_name_index, .. } => attribute_name_index,
        SpecAttribute::PermittedSubclasses { attribute_name_index, .. } => attribute_name_index,
        SpecAttribute::ExternalAttribute { attribute_name_index, .. } => attribute_name_index,
    }
}

/// The operands from `j` on, `k` of them, each after a space in decimal.
pub open spec fn operand_text(code: Seq<u8>, j: int, k: nat) -> Seq<char>
    decreases k,
{
    if k == 0 {
        Seq::empty()
    } else {
        operand_text(code, j, (k - 1) as nat) + " "@ + decimal(code[j + k - 1] as nat)
    }
}

/// How many operand bytes follow the instruction at `i`: its length less one,
/// or fewer when the code ends first.
pub open spec fn operand_count(code: Seq<u8>, i: int, len: u8) -> nat {
    let wanted = len - 1;
    let left = code.len() - i - 1;
    if wanted <= left {
        wanted as nat
    } else {
        left as nat
    }
}

/// The disassembly of `code` from `i`: a line for each instruction, its
/// mnemonic and its operand bytes in decimal; bytes that name no instruction
/// are passed over.
pub open spec fn disassembly(code: Seq<u8>, i: int) -> Seq<char>
    decreases code.len() - i,
{
    if i < 0 || i >= code.len() {
        Seq::empty()
    } else {
        match opcode_info(code[i]) {
            None => disassembly(code, i + 1),
            Some((name, len)) => name + operand_text(code, i + 1, operand_count(code, i, len)) + "\n"@
                + disassembly(code, i + 1 + operand_count(code, i, len)),
        }
    }
}

/// Each instruction of a code array is printed on a line of its own: its
/// mnemonic, then each of its operand bytes after a space, in decimal and in
/// the order they are stored, then a line feed; the next instruction starts
/// right after its last operand byte.
pub proof fn lemma_instruction_lines(code: Seq<u8>, i: int)
    requires
        0 <= i < code.len(),
        opcode_info(code[i]) is Some,
    ensures
        opcode_info(code[i]).unwrap().1 == 1 ==> disassembly(code, i) == opcode_info(code[i]).unwrap().0 + seq!['\n']
            + disassembly(code, i + 1),
        opcode_info(code[i]).unwrap().1 == 2 && i + 2 <= code.len() ==> disassembly(code, i) == opcode_info(
            code[i],
        ).unwrap().0 + seq![' '] + decimal(code[i + 1] as nat) + seq!['\n'] + disassembly(code, i + 2),
        opcode_info(code[i]).unwrap().1 == 3 && i + 3 <= code.len() ==> disassembly(code, i) == opcode_info(
            code[i],
        ).unwrap().0 + seq![' '] + decimal(code[i + 1] as nat) + seq![' '] + decimal(code[i + 2] as nat) + seq!['\n']
            + disassembly(code, i + 3),
{
    reveal_strlit(" ");
    reveal_strlit("\n");
    reveal_with_fuel(operand_text, 3);
    let name = opcode_info(code[i]).unwrap().0;
    let len = opcode_info(code[i]).unwrap().1;
    if len == 1 {
        assert(operand_text(code, i + 1, 0) =~= Seq::<char>::empty());
        assert(disassembly(code, i) =~= name + seq!['\n'] + disassembly(code, i + 1));
    } else if len == 2 && i + 2 <= code.len() {
        assert(operand_count(code, i, len) == 1);
        assert(operand_text(code, i + 1, 1) =~= seq![' '] + decimal(code[i + 1] as nat));
        assert(disassembly(code, i) =~= name + seq![' '] + decimal(code[i + 1] as nat) + seq!['\n'] + disassembly(
            code,
            i + 2,
        ));
    } else if len == 3 && i + 3 <= code.len() {
        assert(operand_count(code, i, len) == 2);
        assert(operand_text(code, i + 1, 2) =~= seq![' '] + decimal(code[i + 1] as nat) + seq![' '] + decimal(
            code[i + 2] as nat,
        ));
        assert(disassembly(code, i) =~= name + seq![' '] + decimal(code[i + 1] as nat) + seq![' '] + decimal(
            code[i + 2] as nat,
        ) + seq!['\n'] + disassembly(code, i + 3));
    }
}

/// Whether no instruction position from `i` on holds the byte 255, which the
/// opcode table has no slot for.
pub open spec fn opcodes_in_table(code: Seq<u8>, i: int) -> bool
    decreases code.len() - i,
{
    if i < 0 || i >= code.len() {
        true
    } else {
        code[i] != 255 && match opcode_info(code[i]) {
            None => opcodes_in_table(code, i + 1),
            Some((_, len)) => opcodes_in_table(code, i + 1 + operand_count(code, i, len)),
        }
    }
}

/// Whether an attribute can be shown: a code attribute's instructions are all in the table.
pub open spec fn attribute_showable(a: SpecAttribute) -> bool {
    match a {
        SpecAttribute::Code { code, .. } => opcodes_in_table(code, 0),
        _ => true,
    }
}

/// The text of an attribute: the disassembly of a code attribute, the name index of any other.
pub open spec fn attribute_text(a: SpecAttribute) -> Seq<char> {
    match a {
        SpecAttribute::Code { code, .. } => disassembly(code, 0),
        _ => decimal(name_index_of(a) as nat),
    }
}

/// The disassembly of `code`.
pub fn disassemble(code: &Vec<u8>) -> (r: String)
    requires
        opcodes_in_table(code@, 0),
    ensures
        r@ == disassembly(code@, 0),
{
    let n = code.len();
    let mut out = String::new();
    let mut i: usize = 0;
    while i < n
        invariant
            i <= n,
            n == code@.len(),
            opcodes_in_table(code@, i as int),
            out@ + disassembly(code@, i as int) == disassembly(code@, 0),
        decreases n - i,
    {
        let b = code[i];
        match Opcodes::get(b) {
            None => {
                i = i + 1;
            },
            Some(op) => {
                let ghost before = out@;
                let ghost k_spec = operand_count(code@, i as int, op.oplen);
                let mut line = String::from_str(op.opname);
                let need: usize = (op.oplen - 1) as usize;
                let mut k: usize = 0;
                while k < need && i + 1 + k < n
                    invariant
                        i < n,
                        n == code@.len(),
                        need == op.oplen - 1,
                        k <= need,
                        i + 1 + k <= n,
                        line@ == op.opname@ + operand_text(code@, i + 1, k as nat),
                    decreases need - k,
                {
                    line.append(" ");
                    push_decimal(&mut line, code[i + 1 + k] as u64);
                    k = k + 1;
                }
                assert(k == k_spec);
                push_char(&mut line, '\n');
                out.append(line.as_str());
                proof {
                    reveal_strlit("\n");
                    assert(out@ + disassembly(code@, i + 1 + k) =~= before + disassembly(code@, i as int));
                }
                i = i + 1 + k;
            },
        }
    }
    assert(out@ =~= disassembly(code@, 0));
    out
}

impl Attribute {
    /// The text of the attribute: the disassembly of a code attribute, the
    /// name index of any other.
    pub fn to_string(&self) -> (r: String)
        requires
            attribute_showable(self@),
        ensures
            r@ == attribute_text(self@),
    {
        match self {
            Attribute::Code { code, .. } => disassemble(code),
            Attribute::ConstantValue { attribute_name_index, .. } => {
                let mut r = String::new();
                push_decimal(&mut r, *attribute_name_index as u64);
                r
            },
            Attribute::StackMapTable { attribute_name_index, .. } => {
                let mut r = String::new();
                push_decimal(&mut r, *attribute_name_index as u64);
                r
            },
            Attribute::Exceptions { attribute_name_index, .. } => {
                let mut r = String::new();
                push_decimal(&mut r, *attribute_name_index as u64);
                r
            },
            Attribute::InnerClasses { attribute_name_index, .. } => {
                let mut r = String::new();
                push_decimal(&mut r, *attribute_name_index as u64);
                r
            },
            Attribute::EnclosingMethod { attribute_name_index, .. } => {
                let mut r = String::new();
                push_decimal(&mut r, *attribute_name_index as u64);
                r
            },
            Attribute::Synthetic { attribute_name_index, .. } => {
                let mut r = String::new();
                push_decimal(&mut r, *attribute_name_index as u64);
                r
            },
            Attribute::Signature { attribute_name_index, .. } => {
                let mut r = String::new();
                push_decimal(&mut r, *attribute_name_index as u64);
                r
            },
            Attribute::SourceFile { attribute_name_index, .. } => {
                let mut r = String::new();
                push_decimal(&mut r, *attribute_name_index as u64);
                r
            },
            Attribute::SourceDebugExtension { attribute_name_index, .. } => {
                let mut r = String::new();
                push_decimal(&mut r, *attribute_name_index as u64);
                r
            },
            Attribute::LineNumberTable { attribute_name_index, .. } => {
                let mut r = String::new();
                push_decimal(&mut r, *attribute_name_index as u64);
                r
            },
            Attribute::LocalVariableTable { attribute_name_index, .. } => {
                let mut r = String::new();
                push_decimal(&mut r, *attribute_name_index as u64);
                r
            },
            Attribute::LocalVariableTypeTable { attribute_name_index, .. } => {
                let mut r = String::new();
                push_decimal(&mut r, *attribute_name_index as u64);
                r
            },
            Attribute::Deprecated { attribute_name_index, .. } => {
                let mut r = String::new();
                push_decimal(&mut r, *attribute_name_index as u64);
                r
            },
            Attribute::RuntimeVisibleAnnotations { attribute_name_index, .. } => {
                let mut r = String::new();
                push_decimal(&mut r, *attribute_name_index as u64);
                r
            },
            Attribute::RuntimeInvisibleAnnotations { attribute_name_index, .. } => {
                let mut r = String::new();
                push_decimal(&mut r, *attribute_name_index as u64);
                r
            },
            Attribute::RuntimeVisibleParameterAnnotations { attribute_name_index, .. } => {
                let mut r = String::new();
                push_decimal(&mut r, *attribute_name_index as u64);
                r
            },
            Attribute::RuntimeInvisibleParameterAnnotations { attribute_name_index, .. } => {
                let mut r = String::new();
                push_decimal(&mut r, *attribute_name_index as u64);
                r
            },
            Attribute::RuntimeVisibleTypeAnnotations { attribute_name_index, .. } => {
                let mut r = String::new();
                push_decimal(&mut r, *attribute_name_index as u64);
                r
            },
            Attribute::RuntimeInvisibleTypeAnnotations { attribute_name_index, .. } => {
                let mut r = String::new();
                push_decimal(&mut r, *attribute_name_index as u64);
                r
            },
            Attribute::AnnotationDefault { attribute_name_index, .. } => {
                let mut r = String::new();
                push_decimal(&mut r, *attribute_name_index as u64);
                r
            },
            Attribute::BootstrapMethods { attribute_name_index, .. } => {
                let mut r = String::new();
                push_decimal(&mut r, *attribute_name_index as u64);
                r
            },
            Attribute::MethodParameters { attribute_name_index, .. } => {
                let mut r = String::new();
                push_decimal(&mut r, *attribute_name_index as u64);
                r
            },
            Attribute::Module { attribute_name_index, .. } => {
                let mut r = String::new();
                push_decimal(&mut r, *attribute_name_index as u64);
                r
            },
            Attribute::ModulePackages { attribute_name_index, .. } => {
                let mut r = String::new();
                push_decimal(&mut r, *attribute_name_index as u64);
                r
            },
            Attribute::ModuleMainClass { attribute_name_index, .. } => {
                let mut r = String::new();
                push_decimal(&mut r, *attribute_name_index as u64);
                r
            },
            Attribute::NestHost { attribute_name_index, .. } => {
                let mut r = String::new();
                push_decimal(&mut r, *attribute_name_index as u64);
                r
            },
            Attribute::NestMembers { attribute_name_index, .. } => {
                let mut r = String::new();
                push_decimal(&mut r, *attribute_name_index as u64);
                r
            },
            Attribute::Record { attribute_name_index, .. } => {
                let mut r = String::new();
                push_decimal(&mut r, *attribute_name_index as u64);
                r
            },
            Attribute::PermittedSubclasses { attribute_name_index, .. } => {
                let mut r = String::new();
                push_decimal(&mut r, *attribute_name_index as u64);
                r
            },
            Attribute::ExternalAttribute { attribute_name_index, .. } => {
                let mut r = String::new();
                push_decimal(&mut r, *attribute_name_index as u64);
                r
            },
        }
    }
}

} // verus!
