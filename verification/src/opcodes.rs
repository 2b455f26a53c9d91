//! The JVM instruction set as the disassembler knows it: each opcode's
//! mnemonic and its length in bytes, operands included.
use vstd::prelude::*;

verus! {

/// The JVM instruction set.
#[non_exhaustive]
pub struct Opcodes;

/// An instruction: its opcode, its mnemonic and its length in bytes.
#[derive(Copy, Clone, Debug)]
pub struct Opcode {
    pub opcode: u8,
    pub opname: &'static str,
    pub oplen: u8,
}

/// The mnemonic and the length of the instruction with opcode `b`; `None` for
/// the bytes that name no instruction.
pub open spec fn opcode_info(b: u8) -> Option<(Seq<char>, u8)> {
    match b {
        0 => Some(("nop"@, 1u8)),
        1 => Some(("aconst_null"@, 1u8)),
        2 => Some(("iconst_m1"@, 1u8)),
        3 => Some(("iconst_0"@, 1u8)),
        4 => Some(("iconst_1"@, 1u8)),
        5 => Some(("iconst_2"@, 1u8)),
        6 => Some(("iconst_3"@, 1u8)),
        7 => Some(("iconst_4"@, 1u8)),
        8 => Some(("iconst_5"@, 1u8)),
        9 => Some(("lconst_0"@, 1u8)),
        10 => Some(("lconst_1"@, 1u8)),
        11 => Some(("fconst_0"@, 1u8)),
        12 => Some(("fconst_1"@, 1u8)),
        13 => Some(("fconst_2"@, 1u8)),
        14 => Some(("dconst_0"@, 1u8)),
        15 => Some(("dconst_1"@, 1u8)),
        16 => Some(("bipush"@, 2u8)),
        17 => Some(("sipush"@, 3u8)),
        18 => Some(("ldc"@, 2u8)),
        19 => Some(("ldc_w"@, 3u8)),
        20 => Some(("ldc2_w"@, 3u8)),
        21 => Some(("iload"@, 2u8)),
        22 => Some(("lload"@, 2u8)),
        23 => Some(("fload"@, 2u8)),
        24 => Some(("dload"@, 2u8)),
        25 => Some(("aload"@, 2u8)),
        26 => Some(("iload_0"@, 1u8)),
        27 => Some(("iload_1"@, 1u8)),
        28 => Some(("iload_2"@, 1u8)),
        29 => Some(("iload_3"@, 1u8)),
        30 => Some(("lload_0"@, 1u8)),
        31 => Some(("lload_1"@, 1u8)),
        32 => Some(("lload_2"@, 1u8)),
        33 => Some(("lload_3"@, 1u8)),
        34 => Some(("fload_0"@, 1u8)),
        35 => Some(("fload_1"@, 1u8)),
        36 => Some(("fload_2"@, 1u8)),
        37 => Some(("fload_3"@, 1u8)),
        38 => Some(("dload_0"@, 1u8)),
        39 => Some(("dload_1"@, 1u8)),
        40 => Some(("dload_2"@, 1u8)),
        41 => Some(("dload_3"@, 1u8)),
        42 => Some(("aload_0"@, 1u8)),
        43 => Some(("aload_1"@, 1u8)),
        44 => Some(("aload_2"@, 1u8)),
        45 => Some(("aload_3"@, 1u8)),
        46 => Some(("iaload"@, 1u8)),
        47 => Some(("laload"@, 1u8)),
        48 => Some(("faload"@, 1u8)),
        49 => Some(("daload"@, 1u8)),
        50 => Some(("aaload"@, 1u8)),
        51 => Some(("baload"@, 1u8)),
        52 => Some(("caload"@, 1u8)),
        53 => Some(("saload"@, 1u8)),
        54 => Some(("istore"@, 2u8)),
        55 => Some(("lstore"@, 2u8)),
        56 => Some(("fstore"@, 2u8)),
        57 => Some(("dstore"@, 2u8)),
        58 => Some(("astore"@, 2u8)),
        59 => Some(("istore_0"@, 1u8)),
        60 => Some(("istore_1"@, 1u8)),
        61 => Some(("istore_2"@, 1u8)),
        62 => Some(("istore_3"@, 1u8)),
        63 => Some(("lstore_0"@, 1u8)),
        64 => Some(("lstore_1"@, 1u8)),
        65 => Some(("lstore_2"@, 1u8)),
        66 => Some(("lstore_3"@, 1u8)),
        67 => Some(("fstore_0"@, 1u8)),
        68 => Some(("fstore_1"@, 1u8)),
        69 => Some(("fstore_2"@, 1u8)),
        70 => Some(("fstore_3"@, 1u8)),
        71 => Some(("dstore_0"@, 1u8)),
        72 => Some(("dstore_1"@, 1u8)),
        73 => Some(("dstore_2"@, 1u8)),
        74 => Some(("dstore_3"@, 1u8)),
        75 => Some(("astore_0"@, 1u8)),
        76 => Some(("astore_1"@, 1u8)),
        77 => Some(("astore_2"@, 1u8)),
        78 => Some(("astore_3"@, 1u8)),
        79 => Some(("iastore"@, 1u8)),
        80 => Some(("lastore"@, 1u8)),
        81 => Some(("fastore"@, 1u8)),
        82 => Some(("dastore"@, 1u8)),
        83 => Some(("aastore"@, 1u8)),
        84 => Some(("bastore"@, 1u8)),
        85 => Some(("castore"@, 1u8)),
        86 => Some(("sastore"@, 1u8)),
        87 => Some(("pop"@, 1u8)),
        88 => Some(("pop2"@, 1u8)),
        89 => Some(("dup"@, 1u8)),
        90 => Some(("dup_x1"@, 1u8)),
        91 => Some(("dup_x2"@, 1u8)),
        92 => Some(("dup2"@, 1u8)),
        93 => Some(("dup2_x1"@, 1u8)),
        94 => Some(("dup2_x2"@, 1u8)),
        95 => Some(("swap"@, 1u8)),
        96 => Some(("iadd"@, 1u8)),
        97 => Some(("ladd"@, 1u8)),
        98 => Some(("fadd"@, 1u8)),
        99 => Some(("dadd"@, 1u8)),
        100 => Some(("isub"@, 1u8)),
        101 => Some(("lsub"@, 1u8)),
        102 => Some(("fsub"@, 1u8)),
        103 => Some(("dsub"@, 1u8)),
        104 => Some(("imul"@, 1u8)),
        105 => Some(("lmul"@, 1u8)),
        106 => Some(("fmul"@, 1u8)),
        107 => Some(("dmul"@, 1u8)),
        108 => Some(("idiv"@, 1u8)),
        109 => Some(("ldiv"@, 1u8)),
        110 => Some(("fdiv"@, 1u8)),
        111 => Some(("ddiv"@, 1u8)),
        112 => Some(("irem"@, 1u8)),
        113 => Some(("lrem"@, 1u8)),
        114 => Some(("frem"@, 1u8)),
        115 => Some(("drem"@, 1u8)),
        116 => Some(("ineg"@, 1u8)),
        117 => Some(("lneg"@, 1u8)),
        118 => Some(("fneg"@, 1u8)),
        119 => Some(("dneg"@, 1u8)),
        120 => Some(("ishl"@, 1u8)),
        121 => Some(("lshl"@, 1u8)),
        122 => Some(("ishr"@, 1u8)),
        123 => Some(("lshr"@, 1u8)),
        124 => Some(("iushr"@, 1u8)),
        125 => Some(("lushr"@, 1u8)),
        126 => Some(("iand"@, 1u8)),
        127 => Some(("land"@, 1u8)),
        128 => Some(("ior"@, 1u8)),
        129 => Some(("lor"@, 1u8)),
        130 => Some(("ixor"@, 1u8)),
        131 => Some(("lxor"@, 1u8)),
        132 => Some(("iinc"@, 3u8)),
        133 => Some(("i2l"@, 1u8)),
        134 => Some(("i2f"@, 1u8)),
        135 => Some(("i2d"@, 1u8)),
        136 => Some(("l2i"@, 1u8)),
        137 => Some(("l2f"@, 1u8)),
        138 => Some(("l2d"@, 1u8)),
        139 => Some(("f2i"@, 1u8)),
        140 => Some(("f2l"@, 1u8)),
        141 => Some(("f2d"@, 1u8)),
        142 => Some(("d2i"@, 1u8)),
        143 => Some(("d2l"@, 1u8)),
        144 => Some(("d2f"@, 1u8)),
        145 => Some(("i2b"@, 1u8)),
        146 => Some(("i2c"@, 1u8)),
        147 => Some(("i2s"@, 1u8)),
        148 => Some(("lcmp"@, 1u8)),
        149 => Some(("fcmpl"@, 1u8)),
        150 => Some(("fcmpg"@, 1u8)),
        151 => Some(("dcmpl"@, 1u8)),
        152 => Some(("dcmpg"@, 1u8)),
        153 => Some(("ifeq"@, 3u8)),
        154 => Some(("ifne"@, 3u8)),
        155 => Some(("iflt"@, 3u8)),
        156 => Some(("ifge"@, 3u8)),
        157 => Some(("ifgt"@, 3u8)),
        158 => Some(("ifle"@, 3u8)),
        159 => Some(("if_icmpeq"@, 3u8)),
        160 => Some(("if_icmpne"@, 3u8)),
        161 => Some(("if_icmplt"@, 3u8)),
        162 => Some(("if_icmpge"@, 3u8)),
        163 => Some(("if_icmpgt"@, 3u8)),
        164 => Some(("if_icmple"@, 3u8)),
        165 => Some(("if_acmpeq"@, 3u8)),
        166 => Some(("if_acmpne"@, 3u8)),
        167 => Some(("goto"@, 3u8)),
        168 => Some(("jsr"@, 3u8)),
        169 => Some(("ret"@, 2u8)),
        170 => Some(("tableswitch"@, 15u8)),
        171 => Some(("lookupswitch"@, 11u8)),
        172 => Some(("ireturn"@, 1u8)),
        173 => Some(("lreturn"@, 1u8)),
        174 => Some(("freturn"@, 1u8)),
        175 => Some(("dreturn"@, 1u8)),
        176 => Some(("areturn"@, 1u8)),
        177 => Some(("return"@, 1u8)),
        178 => Some(("getstatic"@, 3u8)),
        179 => Some(("putstatic"@, 3u8)),
        180 => Some(("getfield"@, 3u8)),
        181 => Some(("putfield"@, 3u8)),
        182 => Some(("invokevirtual"@, 3u8)),
        183 => Some(("invokespecial"@, 3u8)),
        184 => Some(("invokestatic"@, 3u8)),
        185 => Some(("invokeinterface"@, 5u8)),
        186 => Some(("invokedynamic"@, 5u8)),
        187 => Some(("new"@, 3u8)),
        188 => Some(("newarray"@, 2u8)),
        189 => Some(("anewarray"@, 3u8)),
        190 => Some(("arraylength"@, 1u8)),
        191 => Some(("athrow"@, 1u8)),
        192 => Some(("checkcast"@, 3u8)),
        193 => Some(("instanceof"@, 3u8)),
        194 => Some(("monitorenter"@, 1u8)),
        195 => Some(("monitorexit"@, 1u8)),
        197 => Some(("multianewarray"@, 4u8)),
        198 => Some(("ifnull"@, 3u8)),
        199 => Some(("ifnonnull"@, 3u8)),
        200 => Some(("goto_w"@, 5u8)),
        201 => Some(("jsr_w"@, 5u8)),
        _ => None,
    }
}

/// The length in bytes of each instruction of the JVM instruction set, by
/// ranges of opcodes: the opcode byte and its operand bytes. `tableswitch` and
/// `lookupswitch`, whose length varies with their padding and tables, are
/// counted as 15 and 11 bytes, their shortest forms with one entry; `wide`
/// (196) and the opcodes from 202 on are not instructions this table knows.
pub open spec fn instruction_length(b: u8) -> Option<int> {
    if b <= 15 {
        Some(1)
    } else if b == 16 || b == 18 {
        Some(2)
    } else if b == 17 || b == 19 || b == 20 {
        Some(3)
    } else if 21 <= b <= 25 {
        Some(2)
    } else if 26 <= b <= 53 {
        Some(1)
    } else if 54 <= b <= 58 {
        Some(2)
    } else if 59 <= b <= 131 {
        Some(1)
    } else if b == 132 {
        Some(3)
    } else if 133 <= b <= 152 {
        Some(1)
    } else if 153 <= b <= 168 {
        Some(3)
    } else if b == 169 {
        Some(2)
    } else if b == 170 {
        Some(15)
    } else if b == 171 {
        Some(11)
    } else if 172 <= b <= 177 {
        Some(1)
    } else if 178 <= b <= 184 {
        Some(3)
    } else if b == 185 || b == 186 {
        Some(5)
    } else if b == 187 || b == 189 {
        Some(3)
    } else if b == 188 {
        Some(2)
    } else if b == 190 || b == 191 || b == 194 || b == 195 {
        Some(1)
    } else if b == 192 || b == 193 {
        Some(3)
    } else if b == 197 {
        Some(4)
    } else if b == 198 || b == 199 {
        Some(3)
    } else if b == 200 || b == 201 {
        Some(5)
    } else {
        None
    }
}

/// Every opcode that is an instruction has the length the instruction set
/// gives it (an `invokevirtual` is the opcode and a two-byte pool index, three
/// bytes), and the bytes that are no instruction have no entry.
pub proof fn lemma_instruction_lengths(b: u8)
    ensures
        opcode_info(b) is Some <==> instruction_length(b) is Some,
        opcode_info(b) is Some ==> opcode_info(b).unwrap().1 as int == instruction_length(b).unwrap(),
{
}

/// The type letter of the typed load and store instructions, in opcode order:
/// `i`, `l`, `f`, `d`, `a`.
pub open spec fn type_letter(k: int) -> char {
    if k == 0 {
        'i'
    } else if k == 1 {
        'l'
    } else if k == 2 {
        'f'
    } else if k == 3 {
        'd'
    } else {
        'a'
    }
}

/// The decimal digit of a local-variable slot 0 to 3.
pub open spec fn slot_digit(k: int) -> char {
    if k == 0 {
        '0'
    } else if k == 1 {
        '1'
    } else if k == 2 {
        '2'
    } else {
        '3'
    }
}

/// The names of the instruction families of the JVM instruction set: the
/// typed loads and stores (`iload` ... `aload` at 21-25, `istore` ... `astore`
/// at 54-58), their forms for slots 0-3 (`iload_0` ... `aload_3` at 26-45,
/// `istore_0` ... `astore_3` at 59-78), the returns at 172-177, the field
/// accesses at 178-181 and the invocations at 182-186.
pub proof fn lemma_instruction_names(b: u8)
    ensures
        21 <= b <= 25 ==> opcode_info(b).unwrap().0 == seq![type_letter(b - 21)] + seq!['l', 'o', 'a', 'd'],
        54 <= b <= 58 ==> opcode_info(b).unwrap().0 == seq![type_letter(b - 54)] + seq!['s', 't', 'o', 'r', 'e'],
        26 <= b <= 45 ==> opcode_info(b).unwrap().0 == seq![type_letter((b - 26) / 4)] + seq!['l', 'o', 'a', 'd', '_'] + seq![
            slot_digit((b - 26) % 4),
        ],
        59 <= b <= 78 ==> opcode_info(b).unwrap().0 == seq![type_letter((b - 59) / 4)] + seq!['s', 't', 'o', 'r', 'e', '_'] + seq![
            slot_digit((b - 59) % 4),
        ],
        172 <= b <= 176 ==> opcode_info(b).unwrap().0 == seq![type_letter(b - 172)] + seq!['r', 'e', 't', 'u', 'r', 'n'],
        b == 177 ==> opcode_info(b).unwrap().0 == seq!['r', 'e', 't', 'u', 'r', 'n'],
        b == 178 ==> opcode_info(b).unwrap().0 == seq!['g', 'e', 't', 's', 't', 'a', 't', 'i', 'c'],
        b == 179 ==> opcode_info(b).unwrap().0 == seq!['p', 'u', 't', 's', 't', 'a', 't', 'i', 'c'],
        b == 180 ==> opcode_info(b).unwrap().0 == seq!['g', 'e', 't', 'f', 'i', 'e', 'l', 'd'],
        b == 181 ==> opcode_info(b).unwrap().0 == seq!['p', 'u', 't', 'f', 'i', 'e', 'l', 'd'],
        b == 182 ==> opcode_info(b).unwrap().0 == seq!['i', 'n', 'v', 'o', 'k', 'e', 'v', 'i', 'r', 't', 'u', 'a', 'l'],
        b == 183 ==> opcode_info(b).unwrap().0 == seq!['i', 'n', 'v', 'o', 'k', 'e', 's', 'p', 'e', 'c', 'i', 'a', 'l'],
        b == 184 ==> opcode_info(b).unwrap().0 == seq!['i', 'n', 'v', 'o', 'k', 'e', 's', 't', 'a', 't', 'i', 'c'],
        b == 185 ==> opcode_info(b).unwrap().0 == seq!['i', 'n', 'v', 'o', 'k', 'e', 'i', 'n', 't', 'e', 'r', 'f', 'a', 'c', 'e'],
        b == 186 ==> opcode_info(b).unwrap().0 == seq!['i', 'n', 'v', 'o', 'k', 'e', 'd', 'y', 'n', 'a', 'm', 'i', 'c'],
{
    reveal_strlit("aload");
    reveal_strlit("aload_0");
    reveal_strlit("aload_1");
    reveal_strlit("aload_2");
    reveal_strlit("aload_3");
    reveal_strlit("areturn");
    reveal_strlit("astore");
    reveal_strlit("astore_0");
    reveal_strlit("astore_1");
    reveal_strlit("astore_2");
    reveal_strlit("astore_3");
    reveal_strlit("dload");
    reveal_strlit("dload_0");
    reveal_strlit("dload_1");
    reveal_strlit("dload_2");
    reveal_strlit("dload_3");
    reveal_strlit("dreturn");
    reveal_strlit("dstore");
    reveal_strlit("dstore_0");
    reveal_strlit("dstore_1");
    reveal_strlit("dstore_2");
    reveal_strlit("dstore_3");
    reveal_strlit("fload");
    reveal_strlit("fload_0");
    reveal_strlit("fload_1");
    reveal_strlit("fload_2");
    reveal_strlit("fload_3");
    reveal_strlit("freturn");
    reveal_strlit("fstore");
    reveal_strlit("fstore_0");
    reveal_strlit("fstore_1");
    reveal_strlit("fstore_2");
    reveal_strlit("fstore_3");
    reveal_strlit("getfield");
    reveal_strlit("getstatic");
    reveal_strlit("iload");
    reveal_strlit("iload_0");
    reveal_strlit("iload_1");
    reveal_strlit("iload_2");
    reveal_strlit("iload_3");
    reveal_strlit("invokedynamic");
    reveal_strlit("invokeinterface");
    reveal_strlit("invokespecial");
    reveal_strlit("invokestatic");
    reveal_strlit("invokevirtual");
    reveal_strlit("ireturn");
    reveal_strlit("istore");
    reveal_strlit("istore_0");
    reveal_strlit("istore_1");
    reveal_strlit("istore_2");
    reveal_strlit("istore_3");
    reveal_strlit("lload");
    reveal_strlit("lload_0");
    reveal_strlit("lload_1");
    reveal_strlit("lload_2");
    reveal_strlit("lload_3");
    reveal_strlit("lreturn");
    reveal_strlit("lstore");
    reveal_strlit("lstore_0");
    reveal_strlit("lstore_1");
    reveal_strlit("lstore_2");
    reveal_strlit("lstore_3");
    reveal_strlit("putfield");
    reveal_strlit("putstatic");
    reveal_strlit("return");
    assert(opcode_info(b) is Some ==> opcode_info(b).unwrap().0 =~= opcode_info(b).unwrap().0);
}

impl Opcodes {
    /// The instruction with opcode `b`, if there is one.
    pub fn get(b: u8) -> (r: Option<Opcode>)
        ensures
            r is Some == opcode_info(b) is Some,
            r matches Some(op) ==> op.opcode == b && op.opname@ == opcode_info(b).unwrap().0 && op.oplen
                == opcode_info(b).unwrap().1,
    {
        match b {
            0 => Some(Opcode { opcode: 0, opname: "nop", oplen: 1 }),
            1 => Some(Opcode { opcode: 1, opname: "aconst_null", oplen: 1 }),
            2 => Some(Opcode { opcode: 2, opname: "iconst_m1", oplen: 1 }),
            3 => Some(Opcode { opcode: 3, opname: "iconst_0", oplen: 1 }),
            4 => Some(Opcode { opcode: 4, opname: "iconst_1", oplen: 1 }),
            5 => Some(Opcode { opcode: 5, opname: "iconst_2", oplen: 1 }),
            6 => Some(Opcode { opcode: 6, opname: "iconst_3", oplen: 1 }),
            7 => Some(Opcode { opcode: 7, opname: "iconst_4", oplen: 1 }),
            8 => Some(Opcode { opcode: 8, opname: "iconst_5", oplen: 1 }),
            9 => Some(Opcode { opcode: 9, opname: "lconst_0", oplen: 1 }),
            10 => Some(Opcode { opcode: 10, opname: "lconst_1", oplen: 1 }),
            11 => Some(Opcode { opcode: 11, opname: "fconst_0", oplen: 1 }),
            12 => Some(Opcode { opcode: 12, opname: "fconst_1", oplen: 1 }),
            13 => Some(Opcode { opcode: 13, opname: "fconst_2", oplen: 1 }),
            14 => Some(Opcode { opcode: 14, opname: "dconst_0", oplen: 1 }),
            15 => Some(Opcode { opcode: 15, opname: "dconst_1", oplen: 1 }),
            16 => Some(Opcode { opcode: 16, opname: "bipush", oplen: 2 }),
            17 => Some(Opcode { opcode: 17, opname: "sipush", oplen: 3 }),
            18 => Some(Opcode { opcode: 18, opname: "ldc", oplen: 2 }),
            19 => Some(Opcode { opcode: 19, opname: "ldc_w", oplen: 3 }),
            20 => Some(Opcode { opcode: 20, opname: "ldc2_w", oplen: 3 }),
            21 => Some(Opcode { opcode: 21, opname: "iload", oplen: 2 }),
            22 => Some(Opcode { opcode: 22, opname: "lload", oplen: 2 }),
            23 => Some(Opcode { opcode: 23, opname: "fload", oplen: 2 }),
            24 => Some(Opcode { opcode: 24, opname: "dload", oplen: 2 }),
            25 => Some(Opcode { opcode: 25, opname: "aload", oplen: 2 }),
            26 => Some(Opcode { opcode: 26, opname: "iload_0", oplen: 1 }),
            27 => Some(Opcode { opcode: 27, opname: "iload_1", oplen: 1 }),
            28 => Some(Opcode { opcode: 28, opname: "iload_2", oplen: 1 }),
            29 => Some(Opcode { opcode: 29, opname: "iload_3", oplen: 1 }),
            30 => Some(Opcode { opcode: 30, opname: "lload_0", oplen: 1 }),
            31 => Some(Opcode { opcode: 31, opname: "lload_1", oplen: 1 }),
            32 => Some(Opcode { opcode: 32, opname: "lload_2", oplen: 1 }),
            33 => Some(Opcode { opcode: 33, opname: "lload_3", oplen: 1 }),
            34 => Some(Opcode { opcode: 34, opname: "fload_0", oplen: 1 }),
            35 => Some(Opcode { opcode: 35, opname: "fload_1", oplen: 1 }),
            36 => Some(Opcode { opcode: 36, opname: "fload_2", oplen: 1 }),
            37 => Some(Opcode { opcode: 37, opname: "fload_3", oplen: 1 }),
            38 => Some(Opcode { opcode: 38, opname: "dload_0", oplen: 1 }),
            39 => Some(Opcode { opcode: 39, opname: "dload_1", oplen: 1 }),
            40 => Some(Opcode { opcode: 40, opname: "dload_2", oplen: 1 }),
            41 => Some(Opcode { opcode: 41, opname: "dload_3", oplen: 1 }),
            42 => Some(Opcode { opcode: 42, opname: "aload_0", oplen: 1 }),
            43 => Some(Opcode { opcode: 43, opname: "aload_1", oplen: 1 }),
            44 => Some(Opcode { opcode: 44, opname: "aload_2", oplen: 1 }),
            45 => Some(Opcode { opcode: 45, opname: "aload_3", oplen: 1 }),
            46 => Some(Opcode { opcode: 46, opname: "iaload", oplen: 1 }),
            47 => Some(Opcode { opcode: 47, opname: "laload", oplen: 1 }),
            48 => Some(Opcode { opcode: 48, opname: "faload", oplen: 1 }),
            49 => Some(Opcode { opcode: 49, opname: "daload", oplen: 1 }),
            50 => Some(Opcode { opcode: 50, opname: "aaload", oplen: 1 }),
            51 => Some(Opcode { opcode: 51, opname: "baload", oplen: 1 }),
            52 => Some(Opcode { opcode: 52, opname: "caload", oplen: 1 }),
            53 => Some(Opcode { opcode: 53, opname: "saload", oplen: 1 }),
            54 => Some(Opcode { opcode: 54, opname: "istore", oplen: 2 }),
            55 => Some(Opcode { opcode: 55, opname: "lstore", oplen: 2 }),
            56 => Some(Opcode { opcode: 56, opname: "fstore", oplen: 2 }),
            57 => Some(Opcode { opcode: 57, opname: "dstore", oplen: 2 }),
            58 => Some(Opcode { opcode: 58, opname: "astore", oplen: 2 }),
            59 => Some(Opcode { opcode: 59, opname: "istore_0", oplen: 1 }),
            60 => Some(Opcode { opcode: 60, opname: "istore_1", oplen: 1 }),
            61 => Some(Opcode { opcode: 61, opname: "istore_2", oplen: 1 }),
            62 => Some(Opcode { opcode: 62, opname: "istore_3", oplen: 1 }),
            63 => Some(Opcode { opcode: 63, opname: "lstore_0", oplen: 1 }),
            64 => Some(Opcode { opcode: 64, opname: "lstore_1", oplen: 1 }),
            65 => Some(Opcode { opcode: 65, opname: "lstore_2", oplen: 1 }),
            66 => Some(Opcode { opcode: 66, opname: "lstore_3", oplen: 1 }),
            67 => Some(Opcode { opcode: 67, opname: "fstore_0", oplen: 1 }),
            68 => Some(Opcode { opcode: 68, opname: "fstore_1", oplen: 1 }),
            69 => Some(Opcode { opcode: 69, opname: "fstore_2", oplen: 1 }),
            70 => Some(Opcode { opcode: 70, opname: "fstore_3", oplen: 1 }),
            71 => Some(Opcode { opcode: 71, opname: "dstore_0", oplen: 1 }),
            72 => Some(Opcode { opcode: 72, opname: "dstore_1", oplen: 1 }),
            73 => Some(Opcode { opcode: 73, opname: "dstore_2", oplen: 1 }),
            74 => Some(Opcode { opcode: 74, opname: "dstore_3", oplen: 1 }),
            75 => Some(Opcode { opcode: 75, opname: "astore_0", oplen: 1 }),
            76 => Some(Opcode { opcode: 76, opname: "astore_1", oplen: 1 }),
            77 => Some(Opcode { opcode: 77, opname: "astore_2", oplen: 1 }),
            78 => Some(Opcode { opcode: 78, opname: "astore_3", oplen: 1 }),
            79 => Some(Opcode { opcode: 79, opname: "iastore", oplen: 1 }),
            80 => Some(Opcode { opcode: 80, opname: "lastore", oplen: 1 }),
            81 => Some(Opcode { opcode: 81, opname: "fastore", oplen: 1 }),
            82 => Some(Opcode { opcode: 82, opname: "dastore", oplen: 1 }),
            83 => Some(Opcode { opcode: 83, opname: "aastore", oplen: 1 }),
            84 => Some(Opcode { opcode: 84, opname: "bastore", oplen: 1 }),
            85 => Some(Opcode { opcode: 85, opname: "castore", oplen: 1 }),
            86 => Some(Opcode { opcode: 86, opname: "sastore", oplen: 1 }),
            87 => Some(Opcode { opcode: 87, opname: "pop", oplen: 1 }),
            88 => Some(Opcode { opcode: 88, opname: "pop2", oplen: 1 }),
            89 => Some(Opcode { opcode: 89, opname: "dup", oplen: 1 }),
            90 => Some(Opcode { opcode: 90, opname: "dup_x1", oplen: 1 }),
            91 => Some(Opcode { opcode: 91, opname: "dup_x2", oplen: 1 }),
            92 => Some(Opcode { opcode: 92, opname: "dup2", oplen: 1 }),
            93 => Some(Opcode { opcode: 93, opname: "dup2_x1", oplen: 1 }),
            94 => Some(Opcode { opcode: 94, opname: "dup2_x2", oplen: 1 }),
            95 => Some(Opcode { opcode: 95, opname: "swap", oplen: 1 }),
            96 => Some(Opcode { opcode: 96, opname: "iadd", oplen: 1 }),
            97 => Some(Opcode { opcode: 97, opname: "ladd", oplen: 1 }),
            98 => Some(Opcode { opcode: 98, opname: "fadd", oplen: 1 }),
            99 => Some(Opcode { opcode: 99, opname: "dadd", oplen: 1 }),
            100 => Some(Opcode { opcode: 100, opname: "isub", oplen: 1 }),
            101 => Some(Opcode { opcode: 101, opname: "lsub", oplen: 1 }),
            102 => Some(Opcode { opcode: 102, opname: "fsub", oplen: 1 }),
            103 => Some(Opcode { opcode: 103, opname: "dsub", oplen: 1 }),
            104 => Some(Opcode { opcode: 104, opname: "imul", oplen: 1 }),
            105 => Some(Opcode { opcode: 105, opname: "lmul", oplen: 1 }),
            106 => Some(Opcode { opcode: 106, opname: "fmul", oplen: 1 }),
            107 => Some(Opcode { opcode: 107, opname: "dmul", oplen: 1 }),
            108 => Some(Opcode { opcode: 108, opname: "idiv", oplen: 1 }),
            109 => Some(Opcode { opcode: 109, opname: "ldiv", oplen: 1 }),
            110 => Some(Opcode { opcode: 110, opname: "fdiv", oplen: 1 }),
            111 => Some(Opcode { opcode: 111, opname: "ddiv", oplen: 1 }),
            112 => Some(Opcode { opcode: 112, opname: "irem", oplen: 1 }),
            113 => Some(Opcode { opcode: 113, opname: "lrem", oplen: 1 }),
            114 => Some(Opcode { opcode: 114, opname: "frem", oplen: 1 }),
            115 => Some(Opcode { opcode: 115, opname: "drem", oplen: 1 }),
            116 => Some(Opcode { opcode: 116, opname: "ineg", oplen: 1 }),
            117 => Some(Opcode { opcode: 117, opname: "lneg", oplen: 1 }),
            118 => Some(Opcode { opcode: 118, opname: "fneg", oplen: 1 }),
            119 => Some(Opcode { opcode: 119, opname: "dneg", oplen: 1 }),
            120 => Some(Opcode { opcode: 120, opname: "ishl", oplen: 1 }),
            121 => Some(Opcode { opcode: 121, opname: "lshl", oplen: 1 }),
            122 => Some(Opcode { opcode: 122, opname: "ishr", oplen: 1 }),
            123 => Some(Opcode { opcode: 123, opname: "lshr", oplen: 1 }),
            124 => Some(Opcode { opcode: 124, opname: "iushr", oplen: 1 }),
            125 => Some(Opcode { opcode: 125, opname: "lushr", oplen: 1 }),
            126 => Some(Opcode { opcode: 126, opname: "iand", oplen: 1 }),
            127 => Some(Opcode { opcode: 127, opname: "land", oplen: 1 }),
            128 => Some(Opcode { opcode: 128, opname: "ior", oplen: 1 }),
            129 => Some(Opcode { opcode: 129, opname: "lor", oplen: 1 }),
            130 => Some(Opcode { opcode: 130, opname: "ixor", oplen: 1 }),
            131 => Some(Opcode { opcode: 131, opname: "lxor", oplen: 1 }),
            132 => Some(Opcode { opcode: 132, opname: "iinc", oplen: 3 }),
            133 => Some(Opcode { opcode: 133, opname: "i2l", oplen: 1 }),
            134 => Some(Opcode { opcode: 134, opname: "i2f", oplen: 1 }),
            135 => Some(Opcode { opcode: 135, opname: "i2d", oplen: 1 }),
            136 => Some(Opcode { opcode: 136, opname: "l2i", oplen: 1 }),
            137 => Some(Opcode { opcode: 137, opname: "l2f", oplen: 1 }),
            138 => Some(Opcode { opcode: 138, opname: "l2d", oplen: 1 }),
            139 => Some(Opcode { opcode: 139, opname: "f2i", oplen: 1 }),
            140 => Some(Opcode { opcode: 140, opname: "f2l", oplen: 1 }),
            141 => Some(Opcode { opcode: 141, opname: "f2d", oplen: 1 }),
            142 => Some(Opcode { opcode: 142, opname: "d2i", oplen: 1 }),
            143 => Some(Opcode { opcode: 143, opname: "d2l", oplen: 1 }),
            144 => Some(Opcode { opcode: 144, opname: "d2f", oplen: 1 }),
            145 => Some(Opcode { opcode: 145, opname: "i2b", oplen: 1 }),
            146 => Some(Opcode { opcode: 146, opname: "i2c", oplen: 1 }),
            147 => Some(Opcode { opcode: 147, opname: "i2s", oplen: 1 }),
            148 => Some(Opcode { opcode: 148, opname: "lcmp", oplen: 1 }),
            149 => Some(Opcode { opcode: 149, opname: "fcmpl", oplen: 1 }),
            150 => Some(Opcode { opcode: 150, opname: "fcmpg", oplen: 1 }),
            151 => Some(Opcode { opcode: 151, opname: "dcmpl", oplen: 1 }),
            152 => Some(Opcode { opcode: 152, opname: "dcmpg", oplen: 1 }),
            153 => Some(Opcode { opcode: 153, opname: "ifeq", oplen: 3 }),
            154 => Some(Opcode { opcode: 154, opname: "ifne", oplen: 3 }),
            155 => Some(Opcode { opcode: 155, opname: "iflt", oplen: 3 }),
            156 => Some(Opcode { opcode: 156, opname: "ifge", oplen: 3 }),
            157 => Some(Opcode { opcode: 157, opname: "ifgt", oplen: 3 }),
            158 => Some(Opcode { opcode: 158, opname: "ifle", oplen: 3 }),
            159 => Some(Opcode { opcode: 159, opname: "if_icmpeq", oplen: 3 }),
            160 => Some(Opcode { opcode: 160, opname: "if_icmpne", oplen: 3 }),
            161 => Some(Opcode { opcode: 161, opname: "if_icmplt", oplen: 3 }),
            162 => Some(Opcode { opcode: 162, opname: "if_icmpge", oplen: 3 }),
            163 => Some(Opcode { opcode: 163, opname: "if_icmpgt", oplen: 3 }),
            164 => Some(Opcode { opcode: 164, opname: "if_icmple", oplen: 3 }),
            165 => Some(Opcode { opcode: 165, opname: "if_acmpeq", oplen: 3 }),
            166 => Some(Opcode { opcode: 166, opname: "if_acmpne", oplen: 3 }),
            167 => Some(Opcode { opcode: 167, opname: "goto", oplen: 3 }),
            168 => Some(Opcode { opcode: 168, opname: "jsr", oplen: 3 }),
            169 => Some(Opcode { opcode: 169, opname: "ret", oplen: 2 }),
            170 => Some(Opcode { opcode: 170, opname: "tableswitch", oplen: 15 }),
            171 => Some(Opcode { opcode: 171, opname: "lookupswitch", oplen: 11 }),
            172 => Some(Opcode { opcode: 172, opname: "ireturn", oplen: 1 }),
            173 => Some(Opcode { opcode: 173, opname: "lreturn", oplen: 1 }),
            174 => Some(Opcode { opcode: 174, opname: "freturn", oplen: 1 }),
            175 => Some(Opcode { opcode: 175, opname: "dreturn", oplen: 1 }),
            176 => Some(Opcode { opcode: 176, opname: "areturn", oplen: 1 }),
            177 => Some(Opcode { opcode: 177, opname: "return", oplen: 1 }),
            178 => Some(Opcode { opcode: 178, opname: "getstatic", oplen: 3 }),
            179 => Some(Opcode { opcode: 179, opname: "putstatic", oplen: 3 }),
            180 => Some(Opcode { opcode: 180, opname: "getfield", oplen: 3 }),
            181 => Some(Opcode { opcode: 181, opname: "putfield", oplen: 3 }),
            182 => Some(Opcode { opcode: 182, opname: "invokevirtual", oplen: 3 }),
            183 => Some(Opcode { opcode: 183, opname: "invokespecial", oplen: 3 }),
            184 => Some(Opcode { opcode: 184, opname: "invokestatic", oplen: 3 }),
            185 => Some(Opcode { opcode: 185, opname: "invokeinterface", oplen: 5 }),
            186 => Some(Opcode { opcode: 186, opname: "invokedynamic", oplen: 5 }),
            187 => Some(Opcode { opcode: 187, opname: "new", oplen: 3 }),
            188 => Some(Opcode { opcode: 188, opname: "newarray", oplen: 2 }),
            189 => Some(Opcode { opcode: 189, opname: "anewarray", oplen: 3 }),
            190 => Some(Opcode { opcode: 190, opname: "arraylength", oplen: 1 }),
            191 => Some(Opcode { opcode: 191, opname: "athrow", oplen: 1 }),
            192 => Some(Opcode { opcode: 192, opname: "checkcast", oplen: 3 }),
            193 => Some(Opcode { opcode: 193, opname: "instanceof", oplen: 3 }),
            194 => Some(Opcode { opcode: 194, opname: "monitorenter", oplen: 1 }),
            195 => Some(Opcode { opcode: 195, opname: "monitorexit", oplen: 1 }),
            197 => Some(Opcode { opcode: 197, opname: "multianewarray", oplen: 4 }),
            198 => Some(Opcode { opcode: 198, opname: "ifnull", oplen: 3 }),
            199 => Some(Opcode { opcode: 199, opname: "ifnonnull", oplen: 3 }),
            200 => Some(Opcode { opcode: 200, opname: "goto_w", oplen: 5 }),
            201 => Some(Opcode { opcode: 201, opname: "jsr_w", oplen: 5 }),
            _ => None,
        }
    }
}

} // verus!
