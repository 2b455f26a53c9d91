use reborn::attributes::{StackMapFrame, VerificationTypeInfo};
use reborn::class_reader::{ElementValueReadError, ReadError};
use reborn::reader::FrameReadError;
use reborn::classfile::ClassFile;
use reborn::constant_pool::ConstantPoolTags;

#[test]
fn verification_types_read_and_write_back() {
    for data in [vec![0u8], vec![1], vec![6], vec![7, 0x12, 0x34], vec![8, 0, 9]] {
        let (v, end) = VerificationTypeInfo::read_from(&data, 0);
        let v = v.unwrap();
        assert_eq!(end, data.len());
        let mut out = Vec::new();
        let n = v.write(&mut out);
        assert_eq!(n, data.len());
        assert_eq!(out, data);
    }
}

#[test]
fn bad_verification_types() {
    assert!(VerificationTypeInfo::read_from(&[9], 0).0.is_none());
    assert!(VerificationTypeInfo::read_from(&[7, 1], 0).0.is_none());
    assert!(VerificationTypeInfo::read_from(&[], 0).0.is_none());
}

#[test]
fn frames_read_and_write_back() {
    let samples: Vec<Vec<u8>> = vec![
        vec![10],
        vec![70, 1],
        vec![247, 0, 3, 7, 0, 2],
        vec![249, 0, 4],
        vec![251, 0, 5],
        vec![253, 0, 6, 1, 2],
        vec![255, 0, 1, 0, 2, 1, 7, 0, 3, 0, 1, 4],
    ];
    for data in samples {
        let (f, end) = ClassFile::read_stack_frame(&data, 0);
        let f: StackMapFrame = f.unwrap();
        assert_eq!(end, data.len());
        let mut out = Vec::new();
        f.write(&mut out);
        assert_eq!(out, data);
    }
}

#[test]
fn reserved_frame_types_are_invalid() {
    assert_eq!(ClassFile::read_stack_frame(&[128], 0).0.err(), Some(FrameReadError::InvalidType));
    assert_eq!(ClassFile::read_stack_frame(&[246, 0, 0], 0).0.err(), Some(FrameReadError::InvalidType));
    assert_eq!(ClassFile::read_stack_frame(&[246], 0).1, 1);
}

#[test]
fn a_bad_verification_type_in_a_frame_is_invalid() {
    assert_eq!(ClassFile::read_stack_frame(&[70, 9], 0).0.err(), Some(FrameReadError::InvalidType));
    assert_eq!(ClassFile::read_stack_frame(&[255, 0, 1, 0, 2, 1, 12], 0).0.err(), Some(FrameReadError::InvalidType));
}

#[test]
fn a_cut_frame_is_malformed() {
    assert_eq!(ClassFile::read_stack_frame(&[], 0).0.err(), Some(FrameReadError::Malformed));
    assert_eq!(ClassFile::read_stack_frame(&[247, 0], 0).0.err(), Some(FrameReadError::Malformed));
    assert_eq!(ClassFile::read_stack_frame(&[253, 0, 6, 1], 0).0.err(), Some(FrameReadError::Malformed));
}

#[test]
fn element_values_by_tag() {
    let (v, end) = ClassFile::read_annotation_element_value(&[b'I', 0, 5], 0);
    assert!(v.is_ok());
    assert_eq!(end, 3);
    let (v, end) = ClassFile::read_annotation_element_value(&[b'e', 0, 1, 0, 2], 0);
    assert!(v.is_ok());
    assert_eq!(end, 5);
}

#[test]
fn an_unknown_element_value_tag_is_reported() {
    let (v, end) = ClassFile::read_annotation_element_value(&[b'X', 0, 5], 0);
    assert_eq!(v.err(), Some(ElementValueReadError::UnknownTag));
    assert_eq!(end, 1);
    // An annotation value whose pair holds an unknown tag.
    let (v, _) = ClassFile::read_annotation_element_value(&[b'@', 0, 1, 0, 1, 0, 2, b'Q'], 0);
    assert_eq!(v.err(), Some(ElementValueReadError::UnknownTag));
    let (v, _) = ClassFile::read_annotation_element_value(&[b'c', 0], 0);
    assert_eq!(v.err(), Some(ElementValueReadError::Malformed));
}

#[test]
fn pool_entries_read_and_write_back() {
    let samples: Vec<Vec<u8>> = vec![
        vec![1, 0, 3, b'a', b'b', b'c'],
        vec![3, 0, 0, 0, 42],
        vec![4, 0x3f, 0x80, 0, 0],
        vec![5, 0, 0, 0, 1, 0, 0, 0, 2],
        vec![7, 0, 2],
        vec![8, 0, 1],
        vec![9, 0, 1, 0, 2],
        vec![12, 0, 1, 0, 2],
        vec![15, 6, 0, 3],
        vec![16, 0, 4],
        vec![18, 0, 0, 0, 5],
    ];
    for data in samples {
        let (e, end) = ClassFile::read_tag(&data, 0, None);
        let e: ConstantPoolTags = e.unwrap();
        assert_eq!(end, data.len());
        assert_eq!(e.to_bytes(), data);
    }
}

#[test]
fn an_unknown_pool_tag_is_not_an_entry() {
    let (e, end) = ClassFile::read_tag(&[99, 1, 2], 0, None);
    assert!(e.is_none());
    assert_eq!(end, 1);
}

#[test]
fn read_error_is_end_of_data() {
    assert_eq!(ClassFile::read(&[0xCA, 0xFE], None).err(), Some(ReadError::UnexpectedEof));
}

#[test]
fn utf8_entries_decode_modified_utf8() {
    let class_bytes: Vec<u8> = vec![1, 0, 6, b'a', 0xC3, 0xA9, 0xE2, 0x82, 0xAC];
    let (e, end) = ClassFile::read_tag(&class_bytes, 0, None);
    assert_eq!(end, class_bytes.len());
    match e.unwrap() {
        ConstantPoolTags::Utf8 { _value, length, .. } => {
            assert_eq!(_value, "aé€");
            assert_eq!(length, 6);
        }
        _ => panic!("expected a Utf8 entry"),
    }
    let (bad, _) = ClassFile::read_tag(&[1, 0, 2, 0xC0, 0x80], 0, None);
    match bad.unwrap() {
        ConstantPoolTags::Utf8 { _value, .. } => assert_eq!(_value, "\u{FFFD}"),
        _ => panic!("expected a Utf8 entry"),
    }
}
