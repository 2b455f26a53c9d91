//! Colours of the interface: parsed from hex text and mixed channel by channel.
use crate::text::{is_prefix, starts_with};
use vstd::prelude::*;
use vstd::string::StrSliceExecFns;
use vstd::utf8::encode_utf8;

verus! {

/// An RGBA colour, a byte per channel.
#[derive(Debug, Copy, Clone, PartialEq, Eq, Structural)]
pub struct Color {
    pub r: u8,
    pub g: u8,
    pub b: u8,
    pub a: u8,
}

/// A colour written in hex: `RRGGBB` or `RRGGBBAA`, after an optional `0x` or `#`.
pub struct HexColor<'a> {
    pub hex: &'a str,
}

/// The value of a hex digit.
pub open spec fn hex_digit(c: char) -> Option<u8> {
    if '0' <= c <= '9' {
        Some((c as u32 - '0' as u32) as u8)
    } else if 'a' <= c <= 'f' {
        Some((c as u32 - 'a' as u32 + 10) as u8)
    } else if 'A' <= c <= 'F' {
        Some((c as u32 - 'A' as u32 + 10) as u8)
    } else {
        None
    }
}

/// The byte that two characters write in base 16, as `u8::from_str_radix`
/// reads them: two hex digits, or a `+` sign and one digit.
pub open spec fn hex_pair(a: char, b: char) -> Option<u8> {
    if a == '+' {
        hex_digit(b)
    } else {
        match (hex_digit(a), hex_digit(b)) {
            (Some(x), Some(y)) => Some((x * 16 + y) as u8),
            _ => None,
        }
    }
}

/// The digits of a hex colour: the text after a `0x` or `#` prefix.
pub open spec fn hex_body(s: Seq<char>) -> Seq<char> {
    if is_prefix("0x"@, s) {
        s.subrange(2, s.len() as int)
    } else if is_prefix("#"@, s) {
        s.subrange(1, s.len() as int)
    } else {
        s
    }
}

/// Whether a hex colour can be read: three byte pairs, and a fourth one when
/// the digits take eight bytes.
pub open spec fn valid_hex_color(s: Seq<char>) -> bool {
    let h = hex_body(s);
    &&& h.len() >= 6
    &&& hex_pair(h[0], h[1]) is Some
    &&& hex_pair(h[2], h[3]) is Some
    &&& hex_pair(h[4], h[5]) is Some
    &&& encode_utf8(h).len() == 8 ==> h.len() >= 8 && hex_pair(h[6], h[7]) is Some
}

/// The colour a valid hex colour stands for; without an alpha pair it is opaque.
pub open spec fn hex_color(s: Seq<char>) -> Color {
    let h = hex_body(s);
    Color {
        r: hex_pair(h[0], h[1]).unwrap(),
        g: hex_pair(h[2], h[3]).unwrap(),
        b: hex_pair(h[4], h[5]).unwrap(),
        a: if encode_utf8(h).len() == 8 {
            hex_pair(h[6], h[7]).unwrap()
        } else {
            255
        },
    }
}

fn hex_digit_exec(c: char) -> (r: Option<u8>)
    ensures
        r == hex_digit(c),
{
    if '0' <= c && c <= '9' {
        Some((c as u32 - '0' as u32) as u8)
    } else if 'a' <= c && c <= 'f' {
        Some((c as u32 - 'a' as u32 + 10) as u8)
    } else if 'A' <= c && c <= 'F' {
        Some((c as u32 - 'A' as u32 + 10) as u8)
    } else {
        None
    }
}

fn hex_pair_exec(a: char, b: char) -> (r: Option<u8>)
    ensures
        r == hex_pair(a, b),
{
    if a == '+' {
        hex_digit_exec(b)
    } else {
        match (hex_digit_exec(a), hex_digit_exec(b)) {
            (Some(x), Some(y)) => Some(x * 16 + y),
            _ => None,
        }
    }
}

impl Color {
    /// Whether `value` is a hex colour that [`Color::from_hex`] can read.
    pub fn is_valid_hex(value: &str) -> (r: bool)
        ensures
            r == valid_hex_color(value@),
    {
        let n = value.unicode_len();
        let body: &str = if starts_with(value, "0x") {
            proof {
                reveal_strlit("0x");
            }
            value.substring_char(2, n)
        } else if starts_with(value, "#") {
            proof {
                reveal_strlit("#");
            }
            value.substring_char(1, n)
        } else {
            value
        };
        assert(body@ == hex_body(value@));
        let m = body.unicode_len();
        if m < 6 {
            return false;
        }
        if hex_pair_exec(body.get_char(0), body.get_char(1)).is_none()
            || hex_pair_exec(body.get_char(2), body.get_char(3)).is_none()
            || hex_pair_exec(body.get_char(4), body.get_char(5)).is_none() {
            return false;
        }
        let blen = body.as_bytes().len();
        assert(blen as int == encode_utf8(body@).len());
        if blen == 8 {
            m >= 8 && hex_pair_exec(body.get_char(6), body.get_char(7)).is_some()
        } else {
            true
        }
    }

    /// The colour a hex colour text stands for.
    pub fn from_hex(value: &str) -> (r: Color)
        requires
            valid_hex_color(value@),
        ensures
            r == hex_color(value@),
    {
        let n = value.unicode_len();
        let body: &str = if starts_with(value, "0x") {
            proof {
                reveal_strlit("0x");
            }
            value.substring_char(2, n)
        } else if starts_with(value, "#") {
            proof {
                reveal_strlit("#");
            }
            value.substring_char(1, n)
        } else {
            value
        };
        assert(body@ == hex_body(value@));
        let r = hex_pair_exec(body.get_char(0), body.get_char(1)).unwrap();
        let g = hex_pair_exec(body.get_char(2), body.get_char(3)).unwrap();
        let b = hex_pair_exec(body.get_char(4), body.get_char(5)).unwrap();
        let blen = body.as_bytes().len();
        assert(blen as int == encode_utf8(body@).len());
        let a = if blen == 8 {
            hex_pair_exec(body.get_char(6), body.get_char(7)).unwrap()
        } else {
            255
        };
        Color { r, g, b, a }
    }

    /// The colour a [`HexColor`] stands for.
    pub fn from_hex_color(value: HexColor) -> (r: Color)
        requires
            valid_hex_color(value.hex@),
        ensures
            r == hex_color(value.hex@),
    {
        Color::from_hex(value.hex)
    }

    /// Channel-wise difference, floored at 0; the alpha of `self` stays.
    pub fn sub(self, rhs: Color) -> (r: Color)
        ensures
            r.r == self.r.saturating_sub(rhs.r),
            r.g == self.g.saturating_sub(rhs.g),
            r.b == self.b.saturating_sub(rhs.b),
            r.a == self.a,
    {
        Color {
            r: self.r.saturating_sub(rhs.r),
            g: self.g.saturating_sub(rhs.g),
            b: self.b.saturating_sub(rhs.b),
            a: self.a,
        }
    }

    /// Subtracts `rhs` channel-wise in place, floored at 0; alpha stays.
    pub fn sub_assign(&mut self, rhs: Color)
        ensures
            final(self).r == old(self).r.saturating_sub(rhs.r),
            final(self).g == old(self).g.saturating_sub(rhs.g),
            final(self).b == old(self).b.saturating_sub(rhs.b),
            final(self).a == old(self).a,
    {
        self.r = self.r.saturating_sub(rhs.r);
        self.g = self.g.saturating_sub(rhs.g);
        self.b = self.b.saturating_sub(rhs.b);
    }

    /// Channel-wise sum, capped at 255; the alpha of `self` stays.
    pub fn add(self, rhs: Color) -> (r: Color)
        ensures
            r.r == rhs.r.saturating_add(self.r),
            r.g == rhs.g.saturating_add(self.g),
            r.b == rhs.b.saturating_add(self.b),
            r.a == self.a,
    {
        Color {
            r: rhs.r.saturating_add(self.r),
            g: rhs.g.saturating_add(self.g),
            b: rhs.b.saturating_add(self.b),
            a: self.a,
        }
    }

    /// Adds `rhs` channel-wise in place, capped at 255; alpha stays.
    pub fn add_assign(&mut self, rhs: Color)
        ensures
            final(self).r == old(self).r.saturating_add(rhs.r),
            final(self).g == old(self).g.saturating_add(rhs.g),
            final(self).b == old(self).b.saturating_add(rhs.b),
            final(self).a == old(self).a,
    {
        self.r = self.r.saturating_add(rhs.r);
        self.g = self.g.saturating_add(rhs.g);
        self.b = self.b.saturating_add(rhs.b);
    }
}

} // verus!
