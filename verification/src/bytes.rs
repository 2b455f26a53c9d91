//! Big-endian integers as the class-file format stores them, and the
//! cursor discipline of a buffered reader over a byte slice.
use byteorder::{BigEndian, ByteOrder, WriteBytesExt};
use vstd::prelude::*;

verus! {

/// The unsigned 16-bit integer stored big-endian at `p`.
pub open spec fn u16_at(d: Seq<u8>, p: int) -> u16 {
    (d[p] as int * 256 + d[p + 1] as int) as u16
}

/// The unsigned 32-bit integer stored big-endian at `p`.
pub open spec fn u32_at(d: Seq<u8>, p: int) -> u32 {
    (d[p] as int * 16777216 + d[p + 1] as int * 65536 + d[p + 2] as int * 256
        + d[p + 3] as int) as u32
}

/// The two bytes that encode `n` big-endian.
pub open spec fn u16_bytes(n: u16) -> Seq<u8> {
    seq![(n / 256) as u8, (n % 256) as u8]
}

/// The four bytes that encode `n` big-endian.
pub open spec fn u32_bytes(n: u32) -> Seq<u8> {
    seq![
        (n / 16777216) as u8,
        ((n / 65536) % 256) as u8,
        ((n / 256) % 256) as u8,
        (n % 256) as u8,
    ]
}

/// The bytes that encode each element of `v` big-endian, one after another.
pub open spec fn u16s_bytes(v: Seq<u16>) -> Seq<u8>
    decreases v.len(),
{
    if v.len() == 0 {
        Seq::empty()
    } else {
        u16s_bytes(v.drop_last()) + u16_bytes(v.last())
    }
}

/// `n` consecutive big-endian u16 values starting at `p`.
pub open spec fn u16s_at(d: Seq<u8>, p: int, n: nat) -> Seq<u16> {
    Seq::new(n, |i: int| u16_at(d, p + 2 * i))
}

/// Whether `n` more bytes can be read from `p`.
pub open spec fn avail(d: Seq<u8>, p: int, n: int) -> bool {
    0 <= p && p + n <= d.len()
}

/// `byteorder::BigEndian::read_u16` on the two bytes at `pos`: the value they encode big-endian.
#[verifier::external_body]
fn be_read_u16(data: &[u8], pos: usize) -> (r: u16)
    requires
        pos + 2 <= data@.len(),
    ensures
        r == u16_at(data@, pos as int),
{
    BigEndian::read_u16(&data[pos..pos + 2])
}

/// `byteorder::BigEndian::read_u32` on the four bytes at `pos`: the value they encode big-endian.
#[verifier::external_body]
fn be_read_u32(data: &[u8], pos: usize) -> (r: u32)
    requires
        pos + 4 <= data@.len(),
    ensures
        r == u32_at(data@, pos as int),
{
    BigEndian::read_u32(&data[pos..pos + 4])
}

/// `byteorder::WriteBytesExt::write_u8` on a vector: appends the byte (writing to a
/// `Vec<u8>` cannot fail, so the `io::Result` carries nothing).
#[verifier::external_body]
pub(crate) fn put_u8(buf: &mut Vec<u8>, n: u8)
    ensures
        final(buf)@ == old(buf)@.push(n),
{
    let _ = buf.write_u8(n);
}

/// `byteorder::WriteBytesExt::write_u16::<BigEndian>` on a vector: appends the two
/// big-endian bytes of `n`.
#[verifier::external_body]
pub(crate) fn put_u16(buf: &mut Vec<u8>, n: u16)
    ensures
        final(buf)@ == old(buf)@ + u16_bytes(n),
{
    let _ = buf.write_u16::<BigEndian>(n);
}

/// `byteorder::WriteBytesExt::write_u32::<BigEndian>` on a vector: appends the four
/// big-endian bytes of `n`.
#[verifier::external_body]
pub(crate) fn put_u32(buf: &mut Vec<u8>, n: u32)
    ensures
        final(buf)@ == old(buf)@ + u32_bytes(n),
{
    let _ = buf.write_u32::<BigEndian>(n);
}

/// Reads a byte at `pos`; at the end of the data the read fails and, like a
/// buffered reader that hit end of file, leaves the cursor at the end.
pub fn take_u8(data: &[u8], pos: usize) -> (r: (Option<u8>, usize))
    requires
        pos <= data@.len(),
    ensures
        avail(data@, pos as int, 1) ==> r.0 == Some(data@[pos as int]) && r.1 == pos + 1,
        !avail(data@, pos as int, 1) ==> r.0 is None && r.1 == data@.len(),
{
    if pos < data.len() {
        (Some(data[pos]), pos + 1)
    } else {
        (None, data.len())
    }
}

/// Reads a big-endian u16 at `pos`, with the cursor discipline of `take_u8`.
pub fn take_u16(data: &[u8], pos: usize) -> (r: (Option<u16>, usize))
    requires
        pos <= data@.len(),
    ensures
        avail(data@, pos as int, 2) ==> r.0 == Some(u16_at(data@, pos as int)) && r.1 == pos + 2,
        !avail(data@, pos as int, 2) ==> r.0 is None && r.1 == data@.len(),
{
    if data.len() - pos >= 2 {
        (Some(be_read_u16(data, pos)), pos + 2)
    } else {
        (None, data.len())
    }
}

/// Reads a big-endian u32 at `pos`, with the cursor discipline of `take_u8`.
pub fn take_u32(data: &[u8], pos: usize) -> (r: (Option<u32>, usize))
    requires
        pos <= data@.len(),
    ensures
        avail(data@, pos as int, 4) ==> r.0 == Some(u32_at(data@, pos as int)) && r.1 == pos + 4,
        !avail(data@, pos as int, 4) ==> r.0 is None && r.1 == data@.len(),
{
    if data.len() - pos >= 4 {
        (Some(be_read_u32(data, pos)), pos + 4)
    } else {
        (None, data.len())
    }
}

/// The big-endian u16 at `pos`, where two bytes are known to be there.
pub fn u16_at_exec(data: &[u8], pos: usize) -> (r: u16)
    requires
        pos + 2 <= data@.len(),
    ensures
        r == u16_at(data@, pos as int),
{
    be_read_u16(data, pos)
}

/// The big-endian u32 at `pos`, where four bytes are known to be there.
pub fn u32_at_exec(data: &[u8], pos: usize) -> (r: u32)
    requires
        pos + 4 <= data@.len(),
    ensures
        r == u32_at(data@, pos as int),
{
    be_read_u32(data, pos)
}

/// `n` big-endian u16 values starting at `pos`, where `2 * n` bytes are known to be there.
pub fn u16s_at_exec(data: &[u8], pos: usize, n: u16) -> (r: Vec<u16>)
    requires
        pos + 2 * n <= data@.len(),
    ensures
        r@ == u16s_at(data@, pos as int, n as nat),
{
    let mut v: Vec<u16> = Vec::with_capacity(n as usize);
    let mut i: u16 = 0;
    while i < n
        invariant
            i <= n,
            pos + 2 * n <= data@.len(),
            data@.len() == data.len(),
            v@ == u16s_at(data@, pos as int, i as nat),
        decreases n - i,
    {
        v.push(be_read_u16(data, pos + 2 * (i as usize)));
        i = i + 1;
        assert(v@ =~= u16s_at(data@, pos as int, i as nat));
    }
    v
}

/// A copy of the bytes from `start` up to `end`.
pub fn copy_range(data: &[u8], start: usize, end: usize) -> (r: Vec<u8>)
    requires
        start <= end <= data@.len(),
    ensures
        r@ == data@.subrange(start as int, end as int),
{
    let mut v: Vec<u8> = Vec::with_capacity(end - start);
    let mut i = start;
    while i < end
        invariant
            start <= i <= end <= data@.len(),
            v@ == data@.subrange(start as int, i as int),
        decreases end - i,
    {
        v.push(data[i]);
        i = i + 1;
        assert(v@ =~= data@.subrange(start as int, i as int));
    }
    v
}

/// Appends every byte of `bytes`.
pub fn put_bytes(buf: &mut Vec<u8>, bytes: &[u8])
    ensures
        final(buf)@ == old(buf)@ + bytes@,
{
    let mut i: usize = 0;
    while i < bytes.len()
        invariant
            i <= bytes@.len(),
            buf@ == old(buf)@ + bytes@.subrange(0, i as int),
        decreases bytes@.len() - i,
    {
        buf.push(bytes[i]);
        i = i + 1;
        assert(buf@ =~= old(buf)@ + bytes@.subrange(0, i as int));
    }
    assert(bytes@.subrange(0, bytes@.len() as int) =~= bytes@);
}

/// The concatenation of `f` applied to each element, in order.
pub open spec fn concat_map<T>(s: Seq<T>, f: spec_fn(T) -> Seq<u8>) -> Seq<u8>
    decreases s.len(),
{
    if s.len() == 0 {
        Seq::empty()
    } else {
        concat_map(s.drop_last(), f) + f(s.last())
    }
}

/// Appends the big-endian bytes of every element of `vec`, whatever the
/// host's byte order, and gives the number of bytes written: two per element.
pub fn write_vec_u16_as_bytes(vec: &[u16], buff: &mut Vec<u8>) -> (r: usize)
    ensures
        final(buff)@ == old(buff)@ + u16s_bytes(vec@),
        r == 2 * vec@.len(),
{
    let start = buff.len();
    let mut i: usize = 0;
    while i < vec.len()
        invariant
            i <= vec@.len(),
            start == old(buff)@.len(),
            buff@ == old(buff)@ + u16s_bytes(vec@.subrange(0, i as int)),
            buff@.len() == start + 2 * i,
        decreases vec@.len() - i,
    {
        put_u16(buff, vec[i]);
        proof {
            assert(vec@.subrange(0, i + 1).drop_last() =~= vec@.subrange(0, i as int));
        }
        i = i + 1;
    }
    assert(vec@.subrange(0, vec@.len() as int) =~= vec@);
    buff.len() - start
}

/// Decoding the big-endian bytes of a u16 gives the u16 back.
pub proof fn lemma_u16_roundtrip(n: u16, prefix: Seq<u8>, suffix: Seq<u8>)
    ensures
        u16_at(prefix + u16_bytes(n) + suffix, prefix.len() as int) == n,
{
    let d = prefix + u16_bytes(n) + suffix;
    assert(d[prefix.len() as int] == (n / 256) as u8);
    assert(d[prefix.len() as int + 1] == (n % 256) as u8);
}

/// Decoding the big-endian bytes of a u32 gives the u32 back.
pub proof fn lemma_u32_roundtrip(n: u32, prefix: Seq<u8>, suffix: Seq<u8>)
    ensures
        u32_at(prefix + u32_bytes(n) + suffix, prefix.len() as int) == n,
{
    let d = prefix + u32_bytes(n) + suffix;
    let p = prefix.len() as int;
    assert(d[p] == (n / 16777216) as u8);
    assert(d[p + 1] == ((n / 65536) % 256) as u8);
    assert(d[p + 2] == ((n / 256) % 256) as u8);
    assert(d[p + 3] == (n % 256) as u8);
}

/// Encoding the u16 stored at `p` gives back its two bytes.
pub proof fn lemma_u16_bytes_at(d: Seq<u8>, p: int)
    requires
        avail(d, p, 2),
    ensures
        u16_bytes(u16_at(d, p)) == d.subrange(p, p + 2),
{
    let a = d[p];
    let b = d[p + 1];
    assert((a as int * 256 + b as int) / 256 == a as int) by (nonlinear_arith)
        requires
            0 <= b < 256,
    ;
    assert((a as int * 256 + b as int) % 256 == b as int) by (nonlinear_arith)
        requires
            0 <= b < 256,
    ;
    assert(u16_bytes(u16_at(d, p)) =~= d.subrange(p, p + 2));
}

/// Encoding the u32 stored at `p` gives back its four bytes.
pub proof fn lemma_u32_bytes_at(d: Seq<u8>, p: int)
    requires
        avail(d, p, 4),
    ensures
        u32_bytes(u32_at(d, p)) == d.subrange(p, p + 4),
{
    let a = d[p] as int;
    let b = d[p + 1] as int;
    let c = d[p + 2] as int;
    let e = d[p + 3] as int;
    let n = a * 16777216 + b * 65536 + c * 256 + e;
    assert(n / 16777216 == a && (n / 65536) % 256 == b && (n / 256) % 256 == c && n % 256 == e)
        by (nonlinear_arith)
        requires
            0 <= a < 256,
            0 <= b < 256,
            0 <= c < 256,
            0 <= e < 256,
            n == a * 16777216 + b * 65536 + c * 256 + e,
    ;
    assert(u32_bytes(u32_at(d, p)) =~= d.subrange(p, p + 4));
}

} // verus!
