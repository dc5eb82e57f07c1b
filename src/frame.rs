//! The frame shared by every request: major opcode, minor opcode, body
//! length in 4-byte words, then the body.
use vstd::prelude::*;
use crate::wire::{read_u16, u16_at, u16_bytes, write_u16, lemma_u16_round_trip, Endian};

verus! {

/// The largest body a frame can carry: its length in words must fit a `u16`.
pub const MAX_BODY: usize = 262140;

/// A request on the wire, with its body still encoded.
#[derive(Debug)]
pub struct Frame {
    pub major_opcode: u8,
    pub minor_opcode: u8,
    pub body: Vec<u8>,
}

/// Whether a body can be framed: whole words, and not too many of them.
pub open spec fn body_ok(body: Seq<u8>) -> bool {
    body.len() % 4 == 0 && body.len() <= MAX_BODY
}

/// The bytes of a frame.
pub open spec fn frame_bytes(major: u8, minor: u8, body: Seq<u8>, e: Endian) -> Seq<u8> {
    seq![major, minor] + u16_bytes((body.len() / 4) as u16, e) + body
}

/// The frame at the start of `b`, with its length, if a whole one is there.
pub open spec fn frame_at(b: Seq<u8>, e: Endian) -> Option<(u8, u8, Seq<u8>, nat)> {
    if b.len() < 4 {
        None
    } else {
        let n = 4 * u16_at(b.skip(2), e) as nat;
        if 4 + n <= b.len() {
            Some((b[0], b[1], b.subrange(4, 4 + n as int), 4 + n))
        } else {
            None
        }
    }
}

impl Frame {
    /// The number of bytes this frame takes up.
    pub fn size(&self) -> (r: usize)
        requires
            body_ok(self.body@),
        ensures
            r == frame_bytes(self.major_opcode, self.minor_opcode, self.body@, Endian::Little).len(),
            (r - 4) % 4 == 0,
    {
        4 + self.body.len()
    }

    /// Appends this frame in the order `e`.
    pub fn write(&self, out: &mut Vec<u8>, e: Endian)
        requires
            body_ok(self.body@),
        ensures
            final(out)@ == old(out)@ + frame_bytes(self.major_opcode, self.minor_opcode, self.body@, e),
    {
        let ghost start = out@;
        out.push(self.major_opcode);
        out.push(self.minor_opcode);
        write_u16(out, (self.body.len() / 4) as u16, e);
        out.extend_from_slice(self.body.as_slice());
        assert(out@ =~= start + frame_bytes(self.major_opcode, self.minor_opcode, self.body@, e));
    }

    /// Reads the frame at `pos`, with the number of bytes it takes up.
    pub fn read(b: &[u8], pos: usize, e: Endian) -> (r: Option<(Frame, usize)>)
        requires
            pos <= b@.len(),
        ensures
            match frame_at(b@.skip(pos as int), e) {
                Some((major, minor, body, size)) => r matches Some((f, n)) && f.major_opcode == major
                    && f.minor_opcode == minor && f.body@ == body && n == size,
                None => r is None,
            },
    {
        let ghost s = b@.skip(pos as int);
        let blen = b.len();
        if blen - pos < 4 {
            return None;
        }
        let major = b[pos];
        let minor = b[pos + 1];
        let words = match read_u16(b, pos + 2, e) {
            Some(w) => w,
            None => return None,
        };
        assert(b@.skip(pos + 2) =~= s.skip(2));
        let n = 4 * (words as usize);
        if n > blen - pos - 4 {
            return None;
        }
        let mut body: Vec<u8> = Vec::new();
        let mut k: usize = 0;
        while k < n
            invariant
                k <= n,
                pos + 4 + n <= blen,
                blen == b@.len(),
                body@ == b@.subrange(pos + 4, pos + 4 + k),
            decreases n - k,
        {
            body.push(b[pos + 4 + k]);
            k = k + 1;
            assert(body@ =~= b@.subrange(pos + 4, pos + 4 + k));
        }
        assert(body@ =~= s.subrange(4, 4 + n as int));
        Some((Frame { major_opcode: major, minor_opcode: minor, body }, 4 + n))
    }
}

/// A frame reads back as it was written, whatever follows it; its size is
/// the number of bytes written, and a whole number of words.
pub proof fn lemma_frame_round_trip(major: u8, minor: u8, body: Seq<u8>, e: Endian, rest: Seq<u8>)
    requires
        body_ok(body),
    ensures
        frame_at(frame_bytes(major, minor, body, e) + rest, e) == Some(
            (major, minor, body, frame_bytes(major, minor, body, e).len()),
        ),
        (frame_bytes(major, minor, body, e).len() - 4) % 4 == 0,
{
    let words = (body.len() / 4) as u16;
    let b = frame_bytes(major, minor, body, e) + rest;
    assert(b.skip(2) =~= u16_bytes(words, e) + (body + rest));
    lemma_u16_round_trip(words, e, body + rest);
    assert(b.subrange(4, 4 + body.len() as int) =~= body);
}

} // verus!
