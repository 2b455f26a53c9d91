use reborn::attribute_text::disassemble;
use reborn::opcodes::Opcodes;

#[test]
fn knows_instructions() {
    let ret = Opcodes::get(0xb1).unwrap();
    assert_eq!(ret.opname, "return");
    assert_eq!(ret.oplen, 1);
    let sipush = Opcodes::get(17).unwrap();
    assert_eq!(sipush.opname, "sipush");
    assert_eq!(sipush.oplen, 3);
    assert!(Opcodes::get(0xff).is_none());
    assert!(Opcodes::get(202).is_none());
}

#[test]
fn disassembles_code() {
    assert_eq!(disassemble(&vec![0x10, 5, 0xb1]), "bipush 5\nreturn\n");
    assert_eq!(disassemble(&vec![0x11, 1]), "sipush 1\n");
    assert_eq!(disassemble(&Vec::new()), "");
}
