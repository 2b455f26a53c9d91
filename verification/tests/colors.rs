use reborn::colors::{Color, HexColor};

#[test]
fn reads_hex_colours() {
    assert_eq!(Color::from_hex("#ff8000"), Color { r: 255, g: 128, b: 0, a: 255 });
    assert_eq!(Color::from_hex("0x10203040"), Color { r: 16, g: 32, b: 48, a: 64 });
    assert_eq!(Color::from_hex("AbCdEf"), Color { r: 0xab, g: 0xcd, b: 0xef, a: 255 });
    assert_eq!(Color::from_hex_color(HexColor { hex: "#000000ff" }), Color { r: 0, g: 0, b: 0, a: 255 });
}

#[test]
fn a_plus_sign_is_read_as_u8_from_str_radix_reads_it() {
    assert_eq!(Color::from_hex("+f0a0b0"), Color { r: 15, g: 10, b: 11, a: 255 });
}

#[test]
fn tells_valid_hex_colours() {
    assert!(Color::is_valid_hex("#ff8000"));
    assert!(Color::is_valid_hex("11223344"));
    assert!(!Color::is_valid_hex("#ff80"));
    assert!(!Color::is_valid_hex("zz0000"));
    assert!(!Color::is_valid_hex("#1122334g"));
}

#[test]
fn mixes_saturating() {
    let a = Color { r: 200, g: 10, b: 100, a: 7 };
    let b = Color { r: 100, g: 20, b: 100, a: 9 };
    assert_eq!(a.add(b), Color { r: 255, g: 30, b: 200, a: 7 });
    assert_eq!(a.sub(b), Color { r: 100, g: 0, b: 0, a: 7 });
    let mut c = a;
    c.add_assign(b);
    assert_eq!(c, Color { r: 255, g: 30, b: 200, a: 7 });
    let mut d = a;
    d.sub_assign(b);
    assert_eq!(d, Color { r: 100, g: 0, b: 0, a: 7 });
}
