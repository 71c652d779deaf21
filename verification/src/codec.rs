//! Byte-level primitives of the wire format: big-endian fixed-width integers,
//! base-128 variable-length integers, and the zigzag mapping for signed
//! values. Each encoding is defined once as a spec function; the executable
//! encoders and decoders are proved exact against it, and round-trip lemmas
//! tie the two directions together.

use vstd::prelude::*;

verus! {

/// 256 raised to `n`: the number of values an `n`-byte big-endian field holds.
pub open spec fn pow256(n: nat) -> nat
    decreases n,
{
    if n == 0 {
        1
    } else {
        256 * pow256((n - 1) as nat)
    }
}

/// The `n`-byte big-endian encoding of `v` (most significant byte first).
pub open spec fn be_bytes(v: nat, n: nat) -> Seq<u8>
    decreases n,
{
    if n == 0 {
        Seq::empty()
    } else {
        be_bytes(v / 256, (n - 1) as nat) + seq![(v % 256) as u8]
    }
}

/// The value a big-endian byte string denotes.
pub open spec fn from_be(s: Seq<u8>) -> nat
    decreases s.len(),
{
    if s.len() == 0 {
        0
    } else {
        from_be(s.drop_last()) * 256 + s.last() as nat
    }
}

pub proof fn lemma_be_bytes_len(v: nat, n: nat)
    ensures
        be_bytes(v, n).len() == n,
    decreases n,
{
    if n > 0 {
        lemma_be_bytes_len(v / 256, (n - 1) as nat);
    }
}

/// Decoding inverts encoding: an `n`-byte big-endian field round-trips any
/// value below `256^n`.
pub proof fn lemma_from_be_bytes(v: nat, n: nat)
    requires
        v < pow256(n),
    ensures
        from_be(be_bytes(v, n)) == v,
    decreases n,
{
    if n == 0 {
    } else {
        let prefix = be_bytes(v / 256, (n - 1) as nat);
        let whole = be_bytes(v, n);
        lemma_be_bytes_len(v / 256, (n - 1) as nat);
        assert(whole.drop_last() =~= prefix);
        assert(whole.last() == (v % 256) as u8);
        assert(v / 256 < pow256((n - 1) as nat)) by {
            assert(pow256(n) == 256 * pow256((n - 1) as nat));
        };
        lemma_from_be_bytes(v / 256, (n - 1) as nat);
        assert(from_be(whole) == (v / 256) * 256 + v % 256);
    }
}

/// Appends the 4-byte big-endian encoding of `v` to `out`.
pub fn write_be_u32(out: &mut Vec<u8>, v: u32)
    ensures
        final(out)@ == old(out)@ + be_bytes(v as nat, 4),
{
    let t1: u32 = v / 256;
    let t2: u32 = t1 / 256;
    let t3: u32 = t2 / 256;
    out.push((t3 % 256) as u8);
    out.push((t2 % 256) as u8);
    out.push((t1 % 256) as u8);
    out.push((v % 256) as u8);
    proof {
        reveal_with_fuel(be_bytes, 5);
        assert(out@ =~= old(out)@ + be_bytes(v as nat, 4));
    }
}

/// Appends the 8-byte big-endian encoding of `v` to `out`.
pub fn write_be_u64(out: &mut Vec<u8>, v: u64)
    ensures
        final(out)@ == old(out)@ + be_bytes(v as nat, 8),
{
    let t1: u64 = v / 256;
    let t2: u64 = t1 / 256;
    let t3: u64 = t2 / 256;
    let t4: u64 = t3 / 256;
    let t5: u64 = t4 / 256;
    let t6: u64 = t5 / 256;
    let t7: u64 = t6 / 256;
    out.push((t7 % 256) as u8);
    out.push((t6 % 256) as u8);
    out.push((t5 % 256) as u8);
    out.push((t4 % 256) as u8);
    out.push((t3 % 256) as u8);
    out.push((t2 % 256) as u8);
    out.push((t1 % 256) as u8);
    out.push((v % 256) as u8);
    proof {
        reveal_with_fuel(be_bytes, 9);
        assert(out@ =~= old(out)@ + be_bytes(v as nat, 8));
    }
}

/// Reads the value of a 4-byte big-endian field.
pub fn read_be_u32(b: &[u8]) -> (r: u32)
    requires
        b@.len() == 4,
    ensures
        r as nat == from_be(b@),
{
    let r: u32 = (b[0] as u32) * 0x1000000 + (b[1] as u32) * 0x10000 + (b[2] as u32) * 0x100
        + (b[3] as u32);
    proof {
        let s = b@;
        let s3 = s.drop_last();
        let s2 = s3.drop_last();
        let s1 = s2.drop_last();
        let s0 = s1.drop_last();
        assert(s0 =~= Seq::<u8>::empty());
        assert(from_be(s0) == 0);
        assert(s1.last() == s[0] && s2.last() == s[1] && s3.last() == s[2] && s.last() == s[3]);
        assert(from_be(s1) == s[0]);
        assert(from_be(s2) == s[0] * 256 + s[1]);
        assert(from_be(s3) == (s[0] * 256 + s[1]) * 256 + s[2]);
        assert(from_be(s) == ((s[0] * 256 + s[1]) * 256 + s[2]) * 256 + s[3]);
    }
    r
}

/// Reads the value of an 8-byte big-endian field.
pub fn read_be_u64(b: &[u8]) -> (r: u64)
    requires
        b@.len() == 8,
    ensures
        r as nat == from_be(b@),
{
    let hi: u32 = read_be_u32(slice_first_four(b));
    let lo: u32 = read_be_u32(slice_last_four(b));
    let r: u64 = (hi as u64) * 0x100000000 + (lo as u64);
    proof {
        lemma_from_be_split(b@);
    }
    r
}

/// The first four bytes of an eight-byte slice.
fn slice_first_four(b: &[u8]) -> (r: &[u8])
    requires
        b@.len() == 8,
    ensures
        r@ == b@.subrange(0, 4),
{
    vstd::slice::slice_subrange(b, 0, 4)
}

/// The last four bytes of an eight-byte slice.
fn slice_last_four(b: &[u8]) -> (r: &[u8])
    requires
        b@.len() == 8,
    ensures
        r@ == b@.subrange(4, 8),
{
    vstd::slice::slice_subrange(b, 4, 8)
}

proof fn lemma_from_be_split(s: Seq<u8>)
    requires
        s.len() == 8,
    ensures
        from_be(s) == from_be(s.subrange(0, 4)) * 0x100000000 + from_be(s.subrange(4, 8)),
{
    let hi = s.subrange(0, 4);
    lemma_from_be_snoc_prefix(s, hi);
    assert(pow256(4) == 0x100000000) by {
        reveal_with_fuel(pow256, 5);
    };
}

/// Peeling trailing bytes off `s` one at a time relates `from_be(s)` to the
/// value of its first-four-bytes prefix.
proof fn lemma_from_be_snoc_prefix(s: Seq<u8>, hi: Seq<u8>)
    requires
        4 <= s.len() <= 8,
        hi == s.subrange(0, 4),
    ensures
        from_be(s) == from_be(hi) * pow256((s.len() - 4) as nat) + from_be(
            s.subrange(4, s.len() as int),
        ),
    decreases s.len(),
{
    if s.len() == 4 {
        assert(hi =~= s);
        assert(s.subrange(4, 4) =~= Seq::<u8>::empty());
        assert(from_be(s.subrange(4, 4)) == 0);
        assert(pow256(0) == 1);
        assert(from_be(hi) * 1 == from_be(hi));
    } else {
        let front = s.drop_last();
        assert(front.subrange(0, 4) =~= hi);
        lemma_from_be_snoc_prefix(front, hi);
        let tail = s.subrange(4, s.len() as int);
        assert(tail.drop_last() =~= front.subrange(4, front.len() as int));
        assert(tail.last() == s.last());
        assert(from_be(s) == from_be(front) * 256 + s.last());
        assert(from_be(tail) == from_be(tail.drop_last()) * 256 + tail.last());
        let k = (front.len() - 4) as nat;
        let a = from_be(hi);
        let b = from_be(tail.drop_last());
        let c = s.last() as nat;
        assert(from_be(s) == (a * pow256(k) + b) * 256 + c);
        assert((a * pow256(k) + b) * 256 + c == a * pow256(k) * 256 + (b * 256 + c))
            by (nonlinear_arith);
        assert(a * pow256(k) * 256 == a * (256 * pow256(k))) by (nonlinear_arith);
        assert(pow256((s.len() - 4) as nat) == 256 * pow256(k));
        assert(from_be(s) == a * pow256((s.len() - 4) as nat) + from_be(tail));
    }
}

/// The base-128 variable-length encoding: seven value bits per byte, least
/// significant group first, high bit set on every byte but the last.
pub open spec fn enc_varint(v: nat) -> Seq<u8>
    decreases v,
{
    if v < 128 {
        seq![v as u8]
    } else {
        seq![(128 + v % 128) as u8] + enc_varint(v / 128)
    }
}

/// Parses a variable-length integer from the front of `s`, yielding the value
/// and the number of bytes consumed.
pub open spec fn parse_varint(s: Seq<u8>) -> Option<(nat, nat)>
    decreases s.len(),
{
    if s.len() == 0 {
        None
    } else if s[0] < 128 {
        Some((s[0] as nat, 1))
    } else {
        match parse_varint(s.subrange(1, s.len() as int)) {
            None => None,
            Some((v, n)) => Some((((s[0] as int - 128) + 128 * v) as nat, (n + 1) as nat)),
        }
    }
}

/// Parsing inverts encoding, whatever bytes follow the encoded integer.
pub proof fn lemma_parse_enc_varint(v: nat, rest: Seq<u8>)
    ensures
        parse_varint(enc_varint(v) + rest) == Some::<(nat, nat)>((v, enc_varint(v).len())),
    decreases v,
{
    let s = enc_varint(v) + rest;
    if v < 128 {
        assert(s[0] == v as u8);
    } else {
        let tail = enc_varint(v / 128) + rest;
        assert(s.subrange(1, s.len() as int) =~= tail);
        lemma_parse_enc_varint(v / 128, rest);
        assert(s[0] == (128 + v % 128) as u8);
        assert((s[0] as int - 128) + 128 * (v / 128) == v % 128 + 128 * (v / 128));
        assert(v % 128 + 128 * (v / 128) == v) by {
            vstd::arithmetic::div_mod::lemma_fundamental_div_mod(v as int, 128);
        };
    }
}

/// Appends the variable-length encoding of `v` to `out`.
pub fn write_varint(out: &mut Vec<u8>, v: u64)
    ensures
        final(out)@ == old(out)@ + enc_varint(v as nat),
    decreases v,
{
    if v < 128 {
        out.push(v as u8);
    } else {
        out.push((128 + v % 128) as u8);
        write_varint(out, v / 128);
        proof {
            assert(out@ =~= old(out)@ + enc_varint(v as nat));
        }
    }
}

/// Reads a variable-length integer starting at `pos`, returning the value and
/// the position just past it. Returns `None` where no integer starts there or
/// where the encoded value does not fit in 64 bits.
pub fn read_varint(buf: &[u8], pos: usize) -> (r: Option<(u64, usize)>)
    requires
        pos <= buf@.len(),
    ensures
        match r {
            Some((v, p)) => {
                &&& pos < p <= buf@.len()
                &&& parse_varint(buf@.subrange(pos as int, buf@.len() as int)) == Some::<
                    (nat, nat),
                >((v as nat, (p - pos) as nat))
            },
            None => match parse_varint(buf@.subrange(pos as int, buf@.len() as int)) {
                None => true,
                Some((v, n)) => v > u64::MAX,
            },
        },
    decreases buf@.len() - pos,
{
    let ghost s = buf@.subrange(pos as int, buf@.len() as int);
    if pos >= buf.len() {
        assert(s.len() == 0);
        None
    } else {
        let b = buf[pos];
        assert(s[0] == b);
        if b < 128 {
            Some((b as u64, pos + 1))
        } else {
            let deeper = read_varint(buf, pos + 1);
            proof {
                assert(buf@.subrange(pos + 1 as int, buf@.len() as int) =~= s.subrange(
                    1,
                    s.len() as int,
                ));
            }
            match deeper {
                None => None,
                Some((v, p)) => {
                    if v <= (u64::MAX - 127) / 128 {
                        Some(((b - 128) as u64 + 128 * v, p))
                    } else {
                        None
                    }
                },
            }
        }
    }
}

/// The zigzag mapping from signed to unsigned values: non-negative `n` maps
/// to `2n`, negative `n` to `-2n - 1`, so small magnitudes stay small.
pub open spec fn zigzag(n: int) -> nat {
    if n >= 0 {
        (2 * n) as nat
    } else {
        (-2 * n - 1) as nat
    }
}

/// The inverse of the zigzag mapping.
pub open spec fn unzigzag(u: nat) -> int {
    if u % 2 == 0 {
        (u / 2) as int
    } else {
        -((u / 2) as int) - 1
    }
}

pub proof fn lemma_zigzag_roundtrip(n: int)
    ensures
        unzigzag(zigzag(n)) == n,
{
}

/// Maps a signed 64-bit value through zigzag.
pub fn zigzag_encode(v: i64) -> (r: u64)
    ensures
        r as nat == zigzag(v as int),
{
    if v >= 0 {
        2 * (v as u64)
    } else {
        2 * ((-(v + 1)) as u64) + 1
    }
}

/// Maps an unsigned value back through zigzag; total on all of `u64`.
pub fn zigzag_decode(u: u64) -> (r: i64)
    ensures
        r as int == unzigzag(u as nat),
{
    if u % 2 == 0 {
        (u / 2) as i64
    } else {
        -((u / 2) as i64) - 1
    }
}

} // verus!
