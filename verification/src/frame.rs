//! The framing layer: every message travels as a frame holding a 4-byte
//! big-endian length, a one-byte message-kind tag, and the payload. The
//! length counts the payload plus the tag byte, so a frame is well formed
//! only when its length field is at least one.

use vstd::prelude::*;

use crate::codec::{be_bytes, from_be, lemma_be_bytes_len, lemma_from_be_bytes, pow256, read_be_u32, write_be_u32};

verus! {

/// The longest payload a frame can carry: the length field must fit a
/// non-negative 32-bit signed value, and one unit is spent on the tag byte.
pub const MAX_FRAME_PAYLOAD: usize = 0x7FFFFFFE;

/// The frame encoding of a tagged payload.
pub open spec fn frame_bytes(code: u8, payload: Seq<u8>) -> Seq<u8> {
    be_bytes(payload.len() + 1, 4) + seq![code] + payload
}

/// Parses a complete frame: the length field must account for exactly the
/// bytes present and leave room for the tag byte.
pub open spec fn parse_frame(s: Seq<u8>) -> Option<(u8, Seq<u8>)> {
    if s.len() < 5 {
        None
    } else if from_be(s.subrange(0, 4)) == s.len() - 4 {
        Some((s[4], s.subrange(5, s.len() as int)))
    } else {
        None
    }
}

/// Builds the frame carrying `payload` under the message-kind tag `code`.
pub fn encode_frame(code: u8, payload: &[u8]) -> (r: Vec<u8>)
    requires
        payload@.len() <= MAX_FRAME_PAYLOAD,
    ensures
        r@ == frame_bytes(code, payload@),
{
    let mut out: Vec<u8> = Vec::new();
    write_be_u32(&mut out, payload.len() as u32 + 1);
    out.push(code);
    let mut i: usize = 0;
    while i < payload.len()
        invariant
            i <= payload@.len(),
            out@ == be_bytes(payload@.len() + 1, 4) + seq![code] + payload@.subrange(0, i as int),
        decreases payload@.len() - i,
    {
        out.push(payload[i]);
        i = i + 1;
        proof {
            assert(out@ =~= be_bytes(payload@.len() + 1, 4) + seq![code] + payload@.subrange(
                0,
                i as int,
            ));
        }
    }
    proof {
        assert(payload@.subrange(0, payload@.len() as int) =~= payload@);
        assert(out@ =~= frame_bytes(code, payload@));
    }
    out
}

/// Reads the length field of a frame header and yields the number of payload
/// bytes that follow the tag byte; `None` where the field cannot belong to a
/// well-formed frame.
pub fn frame_body_len(header: &[u8]) -> (r: Option<u32>)
    requires
        header@.len() == 4,
    ensures
        match r {
            Some(n) => from_be(header@) == n + 1,
            None => from_be(header@) == 0,
        },
{
    let len = read_be_u32(header);
    if len == 0 {
        None
    } else {
        Some(len - 1)
    }
}

/// Splits a complete frame into its message-kind tag and payload.
pub fn decode_frame(bytes: &[u8]) -> (r: Option<(u8, Vec<u8>)>)
    ensures
        match r {
            Some((code, payload)) => parse_frame(bytes@) == Some((code, payload@)),
            None => parse_frame(bytes@) is None,
        },
{
    if bytes.len() < 5 {
        None
    } else {
        let header = vstd::slice::slice_subrange(bytes, 0, 4);
        let len = read_be_u32(header);
        if len as usize == bytes.len() - 4 {
            let code = bytes[4];
            let payload = vstd::slice::slice_to_vec(
                vstd::slice::slice_subrange(bytes, 5, bytes.len()),
            );
            Some((code, payload))
        } else {
            proof {
                if from_be(bytes@.subrange(0, 4)) == bytes@.len() - 4 {
                    lemma_from_be_fits(bytes@.subrange(0, 4));
                }
            }
            None
        }
    }
}

/// The value of a 4-byte big-endian field fits in 32 bits.
proof fn lemma_from_be_fits(s: Seq<u8>)
    requires
        s.len() == 4,
    ensures
        from_be(s) < 0x100000000,
    decreases s.len(),
{
    lemma_from_be_bound(s);
    assert(pow256(4) == 0x100000000) by {
        reveal_with_fuel(pow256, 5);
    };
}

proof fn lemma_from_be_bound(s: Seq<u8>)
    ensures
        from_be(s) < pow256(s.len()),
    decreases s.len(),
{
    if s.len() > 0 {
        lemma_from_be_bound(s.drop_last());
    }
}

/// Decoding inverts framing: any payload no longer than the frame limit comes
/// back under the same tag, byte for byte.
pub proof fn lemma_frame_roundtrip(code: u8, payload: Seq<u8>)
    requires
        payload.len() <= MAX_FRAME_PAYLOAD,
    ensures
        parse_frame(frame_bytes(code, payload)) == Some((code, payload)),
{
    let s = frame_bytes(code, payload);
    lemma_be_bytes_len(payload.len() + 1, 4);
    assert(s.subrange(0, 4) =~= be_bytes(payload.len() + 1, 4));
    assert(payload.len() + 1 < pow256(4)) by {
        reveal_with_fuel(pow256, 5);
    };
    lemma_from_be_bytes(payload.len() + 1, 4);
    assert(s[4] == code);
    assert(s.subrange(5, s.len() as int) =~= payload);
}

} // verus!
