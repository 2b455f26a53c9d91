use linked_hash_map::LinkedHashMap;
use reborn::attribute_info::Attribute;
use reborn::class_reader::ReadError;
use reborn::classfile::ClassFile;
use reborn::constant_pool::ConstantPoolTags;

fn u16be(out: &mut Vec<u8>, v: u16) {
    out.extend_from_slice(&v.to_be_bytes());
}

fn u32be(out: &mut Vec<u8>, v: u32) {
    out.extend_from_slice(&v.to_be_bytes());
}

fn utf8(out: &mut Vec<u8>, s: &str) {
    out.push(1);
    u16be(out, s.len() as u16);
    out.extend_from_slice(s.as_bytes());
}

/// A class `Foo extends java/lang/Object` with one field `int field_70170_p`
/// and one method `void m()` whose code is a single `return`.
fn sample_class() -> Vec<u8> {
    let mut b = Vec::new();
    u32be(&mut b, 0xCAFEBABE);
    u16be(&mut b, 0);
    u16be(&mut b, 52);
    u16be(&mut b, 10);
    utf8(&mut b, "Foo");
    b.push(7);
    u16be(&mut b, 1);
    utf8(&mut b, "java/lang/Object");
    b.push(7);
    u16be(&mut b, 3);
    utf8(&mut b, "field_70170_p");
    utf8(&mut b, "I");
    utf8(&mut b, "m");
    utf8(&mut b, "()V");
    utf8(&mut b, "Code");
    u16be(&mut b, 0x0021);
    u16be(&mut b, 2);
    u16be(&mut b, 4);
    u16be(&mut b, 0);
    u16be(&mut b, 1);
    u16be(&mut b, 0x0001);
    u16be(&mut b, 5);
    u16be(&mut b, 6);
    u16be(&mut b, 0);
    u16be(&mut b, 1);
    u16be(&mut b, 0x0001);
    u16be(&mut b, 7);
    u16be(&mut b, 8);
    u16be(&mut b, 1);
    u16be(&mut b, 9);
    u32be(&mut b, 13);
    u16be(&mut b, 0);
    u16be(&mut b, 1);
    u32be(&mut b, 1);
    b.push(0xb1);
    u16be(&mut b, 0);
    u16be(&mut b, 0);
    u16be(&mut b, 0);
    b
}

#[test]
fn reads_a_small_class() {
    let data = sample_class();
    let class = ClassFile::read(&data, None).ok().unwrap();
    assert_eq!(class.magic, 0xCAFEBABE);
    assert_eq!(class.major_version, 52);
    assert_eq!(class.minor_version, 0);
    assert_eq!(class.constant_pool_count, 10);
    assert_eq!(class.constant_pool.len(), 10);
    assert_eq!(class.this_class, 2);
    assert_eq!(class.super_class, 4);
    assert_eq!(class.fields.len(), 1);
    assert_eq!(class.methods.len(), 1);
    assert_eq!(class.methods[0].attributes.len(), 1);
    match &class.methods[0].attributes[0] {
        Attribute::Code { code, max_locals, .. } => {
            assert_eq!(code, &vec![0xb1u8]);
            assert_eq!(*max_locals, 1);
        }
        _ => panic!("expected a Code attribute"),
    }
    assert_eq!(class.class_name_from_cp(false), "Foo");
    assert_eq!(class.class_name_from_cp(true), "java/lang/Object");
    assert_eq!(class.get_string_from_cpool(5), "field_70170_p");
}

#[test]
fn slot_zero_is_a_continuation() {
    let class = ClassFile::read(&sample_class(), None).ok().unwrap();
    assert!(matches!(class.constant_pool[0], ConstantPoolTags::ContinuationTag { .. }));
}

#[test]
fn written_back_gives_the_same_bytes() {
    let data = sample_class();
    let class = ClassFile::read(&data, None).ok().unwrap();
    assert_eq!(class.to_bytes(), data);
}

#[test]
fn utf8_texts_are_renamed_by_the_mappings() {
    let data = sample_class();
    let mut mappings: LinkedHashMap<String, String> = LinkedHashMap::new();
    mappings.insert("field_70170_p".to_string(), "world".to_string());
    let class = ClassFile::read(&data, Some(&mappings)).ok().unwrap();
    assert_eq!(class.get_string_from_cpool(5), "world");
    assert_eq!(class.get_string_from_cpool(1), "Foo");
    let bytes = class.to_bytes();
    assert_eq!(bytes.len(), data.len() - "field_70170_p".len() + "world".len());
    let pos = bytes.windows(5).position(|w| w == b"world").unwrap();
    assert_eq!(&bytes[pos - 2..pos], &[0u8, 5][..]);
}

#[test]
fn truncated_data_is_an_error() {
    let data = sample_class();
    for cut in [0usize, 3, 4, 9, 20, data.len() - 1] {
        match ClassFile::read(&data[..cut], None) {
            Err(e) => assert_eq!(e, ReadError::UnexpectedEof),
            Ok(_) => panic!("a class cut at {} was read", cut),
        }
    }
}

#[test]
fn prints_a_class() {
    let class = ClassFile::read(&sample_class(), None).ok().unwrap();
    assert!(class.is_printable());
    let text = class.to_string();
    assert!(text.starts_with("Classfile version 52.0 of class Foo extends java/lang/Object\n    constant_pool_count: 10\n"));
    assert!(text.contains("\n    this_class: Foo\n    super_class: java/lang/Object\n    interfaces_count: 0[]\n"));
    assert!(text.contains("\n    fields_count: 1"));
    assert!(text.contains("field_70170_p"));
    assert!(text.contains("\n    attributes_count: 0[]\n    "));
}

#[test]
fn an_unknown_pool_index_does_not_resolve() {
    let class = ClassFile::read(&sample_class(), None).ok().unwrap();
    assert!(class.cp_resolves(1));
    assert!(!class.cp_resolves(99));
}

#[test]
fn decompiles_a_small_class() {
    let class = ClassFile::read(&sample_class(), None).ok().unwrap();
    assert!(class.is_decompilable());
    let source = reborn::decompiler::write_class(&class);
    assert!(source.contains("class Foo extends java.lang.Object {"));
    assert!(source.contains("field_70170_p;"));
    assert!(source.contains(" void m(void){}"));
    assert!(source.ends_with("\n}"));
}

fn pieces_text(pieces: &[reborn::pool_display::DisplayPiece]) -> String {
    let mut out = String::new();
    for p in pieces {
        match p {
            reborn::pool_display::DisplayPiece::Text(t) => out.push_str(t),
            reborn::pool_display::DisplayPiece::FloatOf(b) => out.push_str(&format!("{}", *b as f32)),
            reborn::pool_display::DisplayPiece::DoubleOf(b) => out.push_str(&format!("{}", *b as f64)),
        }
    }
    out
}

#[test]
fn pool_entries_debug_text() {
    let class = ClassFile::read(&sample_class(), None).ok().unwrap();
    let e1 = &class.constant_pool[1];
    assert!(class.tag_displays(e1));
    assert_eq!(
        pieces_text(&class.tag_to_display(e1)),
        "Utf8<length=3, bytes='[70, 111, 111]', value='Foo'>"
    );
    let e2 = &class.constant_pool[2];
    assert_eq!(
        pieces_text(&class.tag_to_display(e2)),
        "Class<name_index=1, content=Utf8<length=3, bytes='[70, 111, 111]', value='Foo'>>"
    );
    assert_eq!(pieces_text(&class.tag_to_display(&class.constant_pool[0])), "ContinuationTag");
}

#[test]
fn numbers_in_debug_text() {
    let class = ClassFile::read(&sample_class(), None).ok().unwrap();
    let (i, _) = ClassFile::read_tag(&[3, 0xff, 0xff, 0xff, 0xfe], 0, None);
    assert_eq!(pieces_text(&class.tag_to_display(&i.unwrap())), "Integer<value=-2>");
    let (l, _) = ClassFile::read_tag(&[5, 0, 0, 0, 1, 0, 0, 0, 0], 0, None);
    assert_eq!(pieces_text(&class.tag_to_display(&l.unwrap())), "Long<value=4294967296>");
    let (f, _) = ClassFile::read_tag(&[4, 0, 0, 0, 3], 0, None);
    assert_eq!(pieces_text(&class.tag_to_display(&f.unwrap())), "Float<value=3>");
}

#[test]
fn references_out_of_the_pool_have_no_debug_text() {
    let class = ClassFile::read(&sample_class(), None).ok().unwrap();
    let (c, _) = ClassFile::read_tag(&[7, 0, 99], 0, None);
    assert!(!class.tag_displays(&c.unwrap()));
}

#[test]
fn remapping_changes_only_the_renamed_pool_entries() {
    let data = sample_class();
    let mut mappings: LinkedHashMap<String, String> = LinkedHashMap::new();
    mappings.insert("field_70170_p".to_string(), "world".to_string());
    mappings.insert("not_in_the_class".to_string(), "x".to_string());
    let remapped = ClassFile::read(&data, Some(&mappings)).ok().unwrap().to_bytes();
    let old_entry = [&[1u8, 0, 13][..], b"field_70170_p"].concat();
    let new_entry = [&[1u8, 0, 5][..], b"world"].concat();
    let at = data.windows(old_entry.len()).position(|w| w == old_entry.as_slice()).unwrap();
    let mut expected = data[..at].to_vec();
    expected.extend_from_slice(&new_entry);
    expected.extend_from_slice(&data[at + old_entry.len()..]);
    assert_eq!(remapped, expected);
}

#[test]
fn class_names_are_decoded_lossily() {
    let mut data = sample_class();
    let at = data.windows(3).position(|w| w == b"Foo").unwrap();
    data[at + 1] = 0xff;
    let class = ClassFile::read(&data, None).ok().unwrap();
    assert_eq!(class.class_name_from_cp(false), "F\u{FFFD}o");
}
