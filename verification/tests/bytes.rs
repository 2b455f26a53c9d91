use reborn::bytes::write_vec_u16_as_bytes;

#[test]
fn u16_lists_are_written_big_endian_after_what_was_there() {
    let mut buff = vec![0xFFu8];
    let n = write_vec_u16_as_bytes(&[0x0102, 0xABCD], &mut buff);
    assert_eq!(n, 4);
    assert_eq!(buff, vec![0xFF, 0x01, 0x02, 0xAB, 0xCD]);
    assert_eq!(write_vec_u16_as_bytes(&[], &mut buff), 0);
    assert_eq!(buff.len(), 5);
}
