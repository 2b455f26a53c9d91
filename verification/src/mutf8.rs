//! Decoding of the "modified UTF-8" in which class files store their strings.
use crate::text::{push_char, utf8_to_string};
use vstd::prelude::*;
use vstd::string::StringExecFns;
use vstd::utf8::{decode_utf8, valid_utf8};

verus! {

/// The character that stands for a sequence that cannot be decoded.
pub open spec fn replacement() -> char {
    '\u{FFFD}'
}

/// One code point of one to three bytes: its characters when it is well-formed
/// UTF-8, the replacement character otherwise.
pub open spec fn decode_group(g: Seq<u8>) -> Seq<char> {
    if valid_utf8(g) {
        decode_utf8(g)
    } else {
        seq![replacement()]
    }
}

/// The text that `b` decodes to. A lead byte `0xxxxxxx` starts a one-byte code
/// point, `110xxxxx` a two-byte one and `1110xxxx` a three-byte one; any other
/// byte gives the replacement character, and a code point cut short by the end
/// of the data ends the text.
pub open spec fn mutf8_decode(b: Seq<u8>) -> Seq<char>
    decreases b.len(),
{
    if b.len() == 0 {
        Seq::empty()
    } else {
        let x = b[0];
        if x < 0x80 {
            decode_group(b.subrange(0, 1)) + mutf8_decode(b.subrange(1, b.len() as int))
        } else if 0xC0 <= x < 0xE0 {
            if b.len() < 2 {
                Seq::empty()
            } else {
                decode_group(b.subrange(0, 2)) + mutf8_decode(b.subrange(2, b.len() as int))
            }
        } else if 0xE0 <= x < 0xF0 {
            if b.len() < 3 {
                Seq::empty()
            } else {
                decode_group(b.subrange(0, 3)) + mutf8_decode(b.subrange(3, b.len() as int))
            }
        } else {
            seq![replacement()] + mutf8_decode(b.subrange(1, b.len() as int))
        }
    }
}

fn push_group(string: &mut String, data: &[u8], start: usize, end: usize)
    requires
        start < end <= data@.len(),
    ensures
        final(string)@ == old(string)@ + decode_group(data@.subrange(start as int, end as int)),
{
    let mut g: Vec<u8> = Vec::new();
    let mut i = start;
    while i < end
        invariant
            start <= i <= end <= data@.len(),
            g@ == data@.subrange(start as int, i as int),
        decreases end - i,
    {
        g.push(data[i]);
        i = i + 1;
        assert(g@ =~= data@.subrange(start as int, i as int));
    }
    match utf8_to_string(g) {
        Some(c) => string.append(c.as_str()),
        None => push_char(string, '\u{FFFD}'),
    }
}

/// Decodes modified UTF-8; it never fails.
pub fn read_modified_utf8(data: &[u8]) -> (r: Result<String, ()>)
    ensures
        r matches Ok(s) && s@ == mutf8_decode(data@),
{
    let mut string = String::new();
    let mut i: usize = 0;
    assert(data@.subrange(0, data@.len() as int) =~= data@);
    while i < data.len()
        invariant
            i <= data@.len(),
            string@ + mutf8_decode(data@.subrange(i as int, data@.len() as int)) == mutf8_decode(data@),
        decreases data@.len() - i,
    {
        let ghost rest = data@.subrange(i as int, data@.len() as int);
        let byte = data[i];
        if byte < 0x80 {
            push_group(&mut string, data, i, i + 1);
            assert(rest.subrange(0, 1) =~= data@.subrange(i as int, i + 1));
            assert(rest.subrange(1, rest.len() as int) =~= data@.subrange(i + 1, data@.len() as int));
            i = i + 1;
        } else if 0xC0 <= byte && byte < 0xE0 {
            if data.len() - i < 2 {
                assert(mutf8_decode(rest) =~= Seq::<char>::empty());
                assert(string@ =~= mutf8_decode(data@));
                return Ok(string);
            }
            push_group(&mut string, data, i, i + 2);
            assert(rest.subrange(0, 2) =~= data@.subrange(i as int, i + 2));
            assert(rest.subrange(2, rest.len() as int) =~= data@.subrange(i + 2, data@.len() as int));
            i = i + 2;
        } else if 0xE0 <= byte && byte < 0xF0 {
            if data.len() - i < 3 {
                assert(mutf8_decode(rest) =~= Seq::<char>::empty());
                assert(string@ =~= mutf8_decode(data@));
                return Ok(string);
            }
            push_group(&mut string, data, i, i + 3);
            assert(rest.subrange(0, 3) =~= data@.subrange(i as int, i + 3));
            assert(rest.subrange(3, rest.len() as int) =~= data@.subrange(i + 3, data@.len() as int));
            i = i + 3;
        } else {
            push_char(&mut string, '\u{FFFD}');
            assert(rest.subrange(1, rest.len() as int) =~= data@.subrange(i + 1, data@.len() as int));
            i = i + 1;
        }
        assert(string@ + mutf8_decode(data@.subrange(i as int, data@.len() as int)) =~= mutf8_decode(data@));
    }
    assert(mutf8_decode(data@.subrange(i as int, data@.len() as int)) =~= Seq::<char>::empty());
    assert(string@ =~= mutf8_decode(data@));
    Ok(string)
}

} // verus!
