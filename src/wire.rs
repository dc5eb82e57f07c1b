//! Byte-level pieces of the wire format: integers in either byte order,
//! padding, and attributes (`u16` id, `u16` length, value, padding to 4).
use vstd::prelude::*;

verus! {

/// The byte order negotiated for a connection.
#[derive(Clone, Copy, Debug, PartialEq, Eq)]
pub enum Endian {
    Little,
    Big,
}

/// A point of the preedit area.
#[derive(Clone, Copy, Debug, PartialEq, Eq)]
pub struct Point {
    pub x: i16,
    pub y: i16,
}

/// An attribute: an id and a value that is itself a piece of wire data.
#[derive(Debug)]
pub struct Attribute {
    pub id: u16,
    pub value: Vec<u8>,
}

/// The bytes of `v`, in the order `e`.
pub open spec fn u16_bytes(v: u16, e: Endian) -> Seq<u8> {
    let lo = (v % 256) as u8;
    let hi = (v / 256) as u8;
    match e {
        Endian::Little => seq![lo, hi],
        Endian::Big => seq![hi, lo],
    }
}

/// The bytes of `v`, in the order `e`.
pub open spec fn u32_bytes(v: u32, e: Endian) -> Seq<u8> {
    match e {
        Endian::Little => u16_bytes((v % 65536) as u16, e) + u16_bytes((v / 65536) as u16, e),
        Endian::Big => u16_bytes((v / 65536) as u16, e) + u16_bytes((v % 65536) as u16, e),
    }
}

/// The `u16` that the two bytes at `b[0..2]` hold in the order `e`.
pub open spec fn u16_at(b: Seq<u8>, e: Endian) -> u16
    recommends
        b.len() >= 2,
{
    match e {
        Endian::Little => (b[0] as int + 256 * b[1] as int) as u16,
        Endian::Big => (b[1] as int + 256 * b[0] as int) as u16,
    }
}

/// The `u32` that the four bytes at `b[0..4]` hold in the order `e`.
pub open spec fn u32_at(b: Seq<u8>, e: Endian) -> u32
    recommends
        b.len() >= 4,
{
    match e {
        Endian::Little => (u16_at(b, e) as int + 65536 * u16_at(b.skip(2), e) as int) as u32,
        Endian::Big => (u16_at(b.skip(2), e) as int + 65536 * u16_at(b, e) as int) as u32,
    }
}

/// Padding that brings `n` bytes to a multiple of four.
pub open spec fn pad4(n: nat) -> nat {
    ((4 - n % 4) % 4) as nat
}

/// Reads a `u16` at `pos`, if two bytes are there.
pub fn read_u16(b: &[u8], pos: usize, e: Endian) -> (r: Option<u16>)
    ensures
        r == if pos + 2 <= b@.len() {
            Some(u16_at(b@.skip(pos as int), e))
        } else {
            None::<u16>
        },
{
    if pos > b.len() || b.len() - pos < 2 {
        return None;
    }
    let b0 = b[pos] as u16;
    let b1 = b[pos + 1] as u16;
    match e {
        Endian::Little => Some(b0 + 256 * b1),
        Endian::Big => Some(b1 + 256 * b0),
    }
}

/// Reads a `u32` at `pos`, if four bytes are there.
pub fn read_u32(b: &[u8], pos: usize, e: Endian) -> (r: Option<u32>)
    ensures
        r == if pos + 4 <= b@.len() {
            Some(u32_at(b@.skip(pos as int), e))
        } else {
            None::<u32>
        },
{
    if pos > b.len() || b.len() - pos < 4 {
        return None;
    }
    let a = read_u16(b, pos, e).unwrap();
    let c = read_u16(b, pos + 2, e).unwrap();
    assert(b@.skip(pos as int).skip(2) =~= b@.skip(pos + 2));
    match e {
        Endian::Little => Some(a as u32 + 65536 * c as u32),
        Endian::Big => Some(c as u32 + 65536 * a as u32),
    }
}

/// Appends `v` in the order `e`.
pub fn write_u16(out: &mut Vec<u8>, v: u16, e: Endian)
    ensures
        final(out)@ == old(out)@ + u16_bytes(v, e),
{
    let lo = (v % 256) as u8;
    let hi = (v / 256) as u8;
    match e {
        Endian::Little => {
            out.push(lo);
            out.push(hi);
        },
        Endian::Big => {
            out.push(hi);
            out.push(lo);
        },
    }
    assert(out@ =~= old(out)@ + u16_bytes(v, e));
}

/// Appends `v` in the order `e`.
pub fn write_u32(out: &mut Vec<u8>, v: u32, e: Endian)
    ensures
        final(out)@ == old(out)@ + u32_bytes(v, e),
{
    let lo = (v % 65536) as u16;
    let hi = (v / 65536) as u16;
    match e {
        Endian::Little => {
            write_u16(out, lo, e);
            write_u16(out, hi, e);
        },
        Endian::Big => {
            write_u16(out, hi, e);
            write_u16(out, lo, e);
        },
    }
    assert(out@ =~= old(out)@ + u32_bytes(v, e));
}

/// Reading back what was written gives the value written.
pub proof fn lemma_u16_round_trip(v: u16, e: Endian, rest: Seq<u8>)
    ensures
        u16_at(u16_bytes(v, e) + rest, e) == v,
{
    let s = u16_bytes(v, e) + rest;
    assert(s[0] == u16_bytes(v, e)[0]);
    assert(s[1] == u16_bytes(v, e)[1]);
}

/// Reading back what was written gives the value written.
pub proof fn lemma_u32_round_trip(v: u32, e: Endian, rest: Seq<u8>)
    ensures
        u32_at(u32_bytes(v, e) + rest, e) == v,
{
    let lo = (v % 65536) as u16;
    let hi = (v / 65536) as u16;
    let s = u32_bytes(v, e) + rest;
    match e {
        Endian::Little => {
            assert(s =~= u16_bytes(lo, e) + (u16_bytes(hi, e) + rest));
            assert(s.skip(2) =~= u16_bytes(hi, e) + rest);
            lemma_u16_round_trip(lo, e, u16_bytes(hi, e) + rest);
            lemma_u16_round_trip(hi, e, rest);
        },
        Endian::Big => {
            assert(s =~= u16_bytes(hi, e) + (u16_bytes(lo, e) + rest));
            assert(s.skip(2) =~= u16_bytes(lo, e) + rest);
            lemma_u16_round_trip(hi, e, u16_bytes(lo, e) + rest);
            lemma_u16_round_trip(lo, e, rest);
        },
    }
}

/// The bytes of an attribute: id, value length, value, padding to four.
pub open spec fn attribute_bytes(id: u16, value: Seq<u8>, e: Endian) -> Seq<u8> {
    u16_bytes(id, e) + u16_bytes(value.len() as u16, e) + value + Seq::new(
        pad4(value.len()),
        |i: int| 0u8,
    )
}

/// The attribute at the start of `b`, with the number of bytes it takes up,
/// if `b` starts with a whole one.
pub open spec fn attribute_at(b: Seq<u8>, e: Endian) -> Option<(u16, Seq<u8>, nat)> {
    if b.len() < 4 {
        None
    } else {
        let n = u16_at(b.skip(2), e) as nat;
        let size = 4 + n + pad4(n);
        if size <= b.len() {
            Some((u16_at(b, e), b.subrange(4, 4 + n as int), size))
        } else {
            None
        }
    }
}

/// The number of bytes an attribute with `n` value bytes takes up.
pub open spec fn attribute_size(n: nat) -> nat {
    4 + n + pad4(n)
}

impl Attribute {
    /// The number of bytes this attribute takes up on the wire.
    pub fn size(&self) -> (r: usize)
        requires
            self.value@.len() <= 65535,
        ensures
            r == attribute_size(self.value@.len()),
    {
        let n = self.value.len();
        4 + n + (4 - n % 4) % 4
    }

    /// Appends this attribute in the order `e`.
    pub fn write(&self, out: &mut Vec<u8>, e: Endian)
        requires
            self.value@.len() <= 65535,
        ensures
            final(out)@ == old(out)@ + attribute_bytes(self.id, self.value@, e),
    {
        let ghost start = out@;
        write_u16(out, self.id, e);
        write_u16(out, self.value.len() as u16, e);
        out.extend_from_slice(self.value.as_slice());
        let pad = (4 - self.value.len() % 4) % 4;
        let mut k: usize = 0;
        while k < pad
            invariant
                k <= pad,
                pad == pad4(self.value@.len()),
                out@ == start + u16_bytes(self.id, e) + u16_bytes(self.value@.len() as u16, e)
                    + self.value@ + Seq::new(k as nat, |i: int| 0u8),
            decreases pad - k,
        {
            out.push(0u8);
            k = k + 1;
            assert(out@ =~= start + u16_bytes(self.id, e) + u16_bytes(self.value@.len() as u16, e)
                + self.value@ + Seq::new(k as nat, |i: int| 0u8));
        }
        assert(out@ =~= start + attribute_bytes(self.id, self.value@, e));
    }

    /// Reads the attribute at `pos`, with the number of bytes it takes up.
    pub fn read(b: &[u8], pos: usize, e: Endian) -> (r: Option<(Attribute, usize)>)
        requires
            pos <= b@.len(),
        ensures
            match attribute_at(b@.skip(pos as int), e) {
                Some((id, value, size)) => r matches Some((a, n)) && a.id == id && a.value@ == value
                    && n == size,
                None => r is None,
            },
    {
        let ghost s = b@.skip(pos as int);
        let blen = b.len();
        if blen - pos < 4 {
            return None;
        }
        let id = match read_u16(b, pos, e) {
            Some(v) => v,
            None => return None,
        };
        let len = match read_u16(b, pos + 2, e) {
            Some(v) => v,
            None => return None,
        };
        assert(b@.skip(pos + 2) =~= s.skip(2));
        let n = len as usize;
        let size = 4 + n + (4 - n % 4) % 4;
        if size > blen - pos {
            return None;
        }
        let mut value: Vec<u8> = Vec::new();
        let mut k: usize = 0;
        while k < n
            invariant
                k <= n,
                pos + 4 + n <= blen,
                blen == b@.len(),
                value@ == b@.subrange(pos + 4, pos + 4 + k),
            decreases n - k,
        {
            value.push(b[pos + 4 + k]);
            k = k + 1;
            assert(value@ =~= b@.subrange(pos + 4, pos + 4 + k));
        }
        assert(value@ =~= s.subrange(4, 4 + n as int));
        Some((Attribute { id, value }, size))
    }
}

/// An attribute reads back as it was written, whatever follows it.
pub proof fn lemma_attribute_round_trip(id: u16, value: Seq<u8>, e: Endian, rest: Seq<u8>)
    requires
        value.len() <= 65535,
    ensures
        attribute_at(attribute_bytes(id, value, e) + rest, e) == Some(
            (id, value, attribute_size(value.len())),
        ),
        attribute_bytes(id, value, e).len() == attribute_size(value.len()),
        attribute_size(value.len()) % 4 == 0,
{
    let n = value.len();
    let b = attribute_bytes(id, value, e) + rest;
    let tail = value + Seq::new(pad4(n), |i: int| 0u8) + rest;
    assert(b =~= u16_bytes(id, e) + (u16_bytes(n as u16, e) + tail));
    lemma_u16_round_trip(id, e, u16_bytes(n as u16, e) + tail);
    assert(b.skip(2) =~= u16_bytes(n as u16, e) + tail);
    lemma_u16_round_trip(n as u16, e, tail);
    assert(b.subrange(4, 4 + n as int) =~= value);
}

} // verus!
