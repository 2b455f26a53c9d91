use reborn::attribute_reader::AttributeReadError;
use reborn::constant_pool::ConstantPoolTags;
use reborn::attribute_info::Attribute;
use reborn::classfile::ClassFile;

fn u16be(out: &mut Vec<u8>, v: u16) {
    out.extend_from_slice(&v.to_be_bytes());
}

fn u32be(out: &mut Vec<u8>, v: u32) {
    out.extend_from_slice(&v.to_be_bytes());
}

fn utf8(out: &mut Vec<u8>, s: &str) {
    out.push(1);
    u16be(out, s.len() as u16);
    out.extend_from_slice(s.as_bytes());
}

/// A class whose pool is: 1 "Bar", 2 Class #1, 3 "java/lang/Object", 4 Class #3,
/// 5 "Code", 6 "LineNumberTable", 7 "SourceFile", 8 "Bar.java",
/// 9 "RuntimeVisibleAnnotations", 10 "LDeprecated;", 11 "value", 12 Long, 14 "m",
/// 15 "()V", 16 the name given for the class attribute; then the class
/// attributes given.
fn class_with(class_attrs: &[Vec<u8>], extra_name: &str) -> Vec<u8> {
    let mut b = Vec::new();
    u32be(&mut b, 0xCAFEBABE);
    u16be(&mut b, 3);
    u16be(&mut b, 50);
    u16be(&mut b, 17);
    utf8(&mut b, "Bar");
    b.push(7);
    u16be(&mut b, 1);
    utf8(&mut b, "java/lang/Object");
    b.push(7);
    u16be(&mut b, 3);
    utf8(&mut b, "Code");
    utf8(&mut b, "LineNumberTable");
    utf8(&mut b, "SourceFile");
    utf8(&mut b, "Bar.java");
    utf8(&mut b, "RuntimeVisibleAnnotations");
    utf8(&mut b, "LDeprecated;");
    utf8(&mut b, "value");
    b.push(5);
    u32be(&mut b, 1);
    u32be(&mut b, 2);
    utf8(&mut b, "m");
    utf8(&mut b, "()V");
    utf8(&mut b, extra_name);
    u16be(&mut b, 0x0021);
    u16be(&mut b, 2);
    u16be(&mut b, 4);
    u16be(&mut b, 0);
    u16be(&mut b, 0);
    u16be(&mut b, 1);
    u16be(&mut b, 0x0009);
    u16be(&mut b, 14);
    u16be(&mut b, 15);
    u16be(&mut b, 1);
    // Code with a LineNumberTable inside.
    let mut lnt = Vec::new();
    u16be(&mut lnt, 6);
    u32be(&mut lnt, 6);
    u16be(&mut lnt, 1);
    u16be(&mut lnt, 0);
    u16be(&mut lnt, 42);
    let mut code = Vec::new();
    u16be(&mut code, 1);
    u16be(&mut code, 0);
    u32be(&mut code, 2);
    code.push(0x03);
    code.push(0xb1);
    u16be(&mut code, 0);
    u16be(&mut code, 1);
    code.extend_from_slice(&lnt);
    u16be(&mut b, 5);
    u32be(&mut b, code.len() as u32);
    b.extend_from_slice(&code);
    u16be(&mut b, class_attrs.len() as u16);
    for a in class_attrs {
        b.extend_from_slice(a);
    }
    b
}

fn source_file() -> Vec<u8> {
    let mut a = Vec::new();
    u16be(&mut a, 7);
    u32be(&mut a, 2);
    u16be(&mut a, 8);
    a
}

fn annotations() -> Vec<u8> {
    let mut a = Vec::new();
    u16be(&mut a, 9);
    let mut body = Vec::new();
    u16be(&mut body, 1);
    u16be(&mut body, 10);
    u16be(&mut body, 1);
    u16be(&mut body, 11);
    body.push(b'[');
    u16be(&mut body, 2);
    body.push(b'I');
    u16be(&mut body, 12);
    body.push(b's');
    u16be(&mut body, 8);
    u32be(&mut a, body.len() as u32);
    a.extend_from_slice(&body);
    a
}

#[test]
fn nested_attributes_read_and_write_back() {
    let data = class_with(&[source_file(), annotations()], "Unused");
    let class = ClassFile::read(&data, None).ok().unwrap();
    assert_eq!(class.attributes.len(), 2);
    assert!(matches!(class.attributes[0], Attribute::SourceFile { sourcefile_index: 8, .. }));
    assert!(matches!(class.attributes[1], Attribute::RuntimeVisibleAnnotations { num_annotations: 1, .. }));
    match &class.methods[0].attributes[0] {
        Attribute::Code { attributes, code, .. } => {
            assert_eq!(code, &vec![0x03u8, 0xb1]);
            assert!(matches!(attributes[0], Attribute::LineNumberTable { line_number_table_length: 1, .. }));
        }
        _ => panic!("expected a Code attribute"),
    }
    assert_eq!(class.to_bytes(), data);
}

#[test]
fn a_long_takes_two_pool_slots() {
    let data = class_with(&[], "Unused");
    let class = ClassFile::read(&data, None).ok().unwrap();
    assert_eq!(class.constant_pool.len(), 17);
    assert!(matches!(class.constant_pool[12], reborn::constant_pool::ConstantPoolTags::Long { _value: 4294967298, .. }));
    assert!(matches!(class.constant_pool[13], reborn::constant_pool::ConstantPoolTags::ContinuationTag { .. }));
    assert_eq!(class.get_string_from_cpool(14), "m");
}

#[test]
fn an_unknown_attribute_keeps_all_its_bytes() {
    let mut unknown = Vec::new();
    u16be(&mut unknown, 16);
    u32be(&mut unknown, 3);
    unknown.extend_from_slice(&[0xAA, 0xBB, 0xCC]);
    let data = class_with(&[unknown, source_file()], "Custom");
    let class = ClassFile::read(&data, None).ok().unwrap();
    assert_eq!(class.attributes.len(), 2);
    match &class.attributes[0] {
        Attribute::ExternalAttribute { info, attribute_length, .. } => {
            assert_eq!(info, &vec![0xAAu8, 0xBB, 0xCC]);
            assert_eq!(*attribute_length, 3);
        }
        _ => panic!("expected an external attribute"),
    }
    assert!(matches!(class.attributes[1], Attribute::SourceFile { sourcefile_index: 8, .. }));
    assert_eq!(class.to_bytes(), data);
}

#[test]
fn an_empty_unknown_attribute_has_no_info() {
    let mut unknown = Vec::new();
    u16be(&mut unknown, 16);
    u32be(&mut unknown, 0);
    let data = class_with(&[unknown], "Custom");
    let class = ClassFile::read(&data, None).ok().unwrap();
    match &class.attributes[0] {
        Attribute::ExternalAttribute { info, attribute_length, .. } => {
            assert!(info.is_empty());
            assert_eq!(*attribute_length, 0);
        }
        _ => panic!("expected an external attribute"),
    }
    assert_eq!(class.to_bytes(), data);
}

#[test]
fn printing_shows_the_disassembly_of_code() {
    let data = class_with(&[source_file()], "Unused");
    let class = ClassFile::read(&data, None).ok().unwrap();
    assert!(class.is_printable());
    let text = class.to_string();
    assert!(text.contains("\n          iconst_0\nreturn\n"));
    assert_eq!(class.methods[0].attributes[0].to_string(), "iconst_0\nreturn\n");
    assert_eq!(class.attributes[0].to_string(), "7");
}

fn small_pool() -> Vec<reborn::constant_pool::ConstantPoolTags> {
    vec![
        ConstantPoolTags::ContinuationTag { tag: 0 },
        ConstantPoolTags::Utf8 { tag: 1, length: 3, bytes: b"Foo".to_vec(), _value: "Foo".to_string() },
        ConstantPoolTags::Class { tag: 7, name_index: 1 },
    ]
}

#[test]
fn reading_an_unknown_attribute_consumes_its_info() {
    let data = vec![0x00, 0x01, 0x00, 0x00, 0x00, 0x03, 0xAA, 0xBB, 0xCC];
    let (r, pos): (Result<Attribute, AttributeReadError>, usize) = ClassFile::read_attribute(&small_pool(), &data, 0);
    match r {
        Ok(Attribute::ExternalAttribute { attribute_name_index, attribute_length, info }) => {
            assert_eq!(attribute_name_index, 1);
            assert_eq!(attribute_length, 3);
            assert_eq!(info, vec![0xAA, 0xBB, 0xCC]);
        }
        _ => panic!("expected an external attribute"),
    }
    assert_eq!(pos, 9);
}

#[test]
fn an_attribute_name_outside_the_pool_is_not_found() {
    let data = vec![0x00, 0x09, 0x00, 0x00, 0x00, 0x00];
    let (r, pos) = ClassFile::read_attribute(&small_pool(), &data, 0);
    assert_eq!(r.err(), Some(AttributeReadError::NameNotFound));
    assert_eq!(pos, 6);
}

#[test]
fn an_attribute_name_of_another_kind_is_invalid() {
    let data = vec![0x00, 0x02, 0x00, 0x00, 0x00, 0x00];
    let (r, pos) = ClassFile::read_attribute(&small_pool(), &data, 0);
    assert_eq!(r.err(), Some(AttributeReadError::NameNotUtf8));
    assert_eq!(pos, 6);
}

#[test]
fn a_cut_attribute_is_malformed() {
    let data = vec![0x00, 0x01, 0x00, 0x00, 0x00, 0x05, 0xAA];
    let (r, _) = ClassFile::read_attribute(&small_pool(), &data, 0);
    assert_eq!(r.err(), Some(AttributeReadError::Malformed));
}
