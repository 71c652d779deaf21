//! The response side of the message codec: the binary form of every
//! response message is defined once as a spec-level parser, and the
//! executable decoders are proved to return exactly what the parser yields.
//! A payload that the parser rejects decodes to a protocol error, never to a
//! made-up value.

use vstd::prelude::*;

use crate::codec::{parse_varint, read_varint, unzigzag, zigzag_decode};
use crate::ClientError;

verus! {

/// The tag byte of an unsigned-integer field.
pub open spec fn key_varint(field: nat) -> u8 {
    (8 * field) as u8
}

/// The tag byte of a length-delimited field.
pub open spec fn key_len_delim(field: nat) -> u8 {
    (8 * field + 2) as u8
}

/// Parses one unsigned-integer field at the front of `s`, yielding its value
/// and the bytes consumed.
pub open spec fn parse_varint_field(s: Seq<u8>, field: nat) -> Option<(nat, nat)> {
    if s.len() == 0 || s[0] != key_varint(field) {
        None
    } else {
        match parse_varint(s.skip(1)) {
            None => None,
            Some((v, n)) => Some((v, (n + 1) as nat)),
        }
    }
}

/// Parses one length-delimited field at the front of `s`, yielding its body
/// and the bytes consumed. The declared length must be covered by `s`.
pub open spec fn parse_len_delim(s: Seq<u8>, field: nat) -> Option<(Seq<u8>, nat)> {
    if s.len() == 0 || s[0] != key_len_delim(field) {
        None
    } else {
        match parse_varint(s.skip(1)) {
            None => None,
            Some((len, n)) => if 1 + n + len <= s.len() {
                Some((s.subrange((1 + n) as int, (1 + n + len) as int), (1 + n + len) as nat))
            } else {
                None
            },
        }
    }
}

/// Reads one unsigned-integer field starting at `pos`. Returns `None` where
/// the field is absent or malformed, or where its value does not fit in 64
/// bits (no value the protocol carries in such a field may exceed that).
pub fn read_varint_field(buf: &[u8], pos: usize, field: u8) -> (r: Option<(u64, usize)>)
    requires
        pos <= buf@.len(),
        field < 16,
    ensures
        match r {
            Some((v, p)) => {
                &&& pos < p <= buf@.len()
                &&& parse_varint_field(buf@.skip(pos as int), field as nat) == Some((
                    v as nat,
                    (p - pos) as nat,
                ))
            },
            None => match parse_varint_field(buf@.skip(pos as int), field as nat) {
                None => true,
                Some((v, n)) => v > u64::MAX,
            },
        },
{
    let ghost s = buf@.skip(pos as int);
    if pos >= buf.len() {
        None
    } else if buf[pos] != 8 * field {
        assert(s[0] != key_varint(field as nat));
        None
    } else {
        proof {
            assert(buf@.skip(pos + 1 as int) =~= s.skip(1));
        }
        match read_varint(buf, pos + 1) {
            None => None,
            Some((v, p)) => Some((v, p)),
        }
    }
}

/// Reads one length-delimited field starting at `pos`, yielding the body as
/// a borrowed slice and the position just past the field.
pub fn read_bytes_field<'a>(buf: &'a [u8], pos: usize, field: u8) -> (r: Option<(&'a [u8], usize)>)
    requires
        pos <= buf@.len(),
        field < 16,
    ensures
        match r {
            Some((body, p)) => {
                &&& pos < p <= buf@.len()
                &&& parse_len_delim(buf@.skip(pos as int), field as nat) == Some((
                    body@,
                    (p - pos) as nat,
                ))
            },
            None => parse_len_delim(buf@.skip(pos as int), field as nat) is None,
        },
{
    let ghost s = buf@.skip(pos as int);
    if pos >= buf.len() {
        None
    } else if buf[pos] != 8 * field + 2 {
        assert(s[0] != key_len_delim(field as nat));
        None
    } else {
        proof {
            assert(buf@.skip(pos + 1 as int) =~= s.skip(1));
        }
        match read_varint(buf, pos + 1) {
            None => {
                proof {
                    match parse_varint(s.skip(1)) {
                        None => {},
                        Some((len, n)) => {
                            assert(len > u64::MAX);
                            assert(1 + n + len > s.len());
                        },
                    }
                }
                None
            },
            Some((len, p)) => {
                if len <= (buf.len() - p) as u64 {
                    let body = vstd::slice::slice_subrange(buf, p, p + len as usize);
                    proof {
                        assert(body@ =~= s.subrange(
                            p - pos,
                            p - pos + len,
                        ));
                    }
                    Some((body, p + len as usize))
                } else {
                    None
                }
            },
        }
    }
}

/// Parses the tail of a message whose remaining grammar is one optional
/// 32-bit error code; the message ends with it.
pub open spec fn parse_errorcode_tail(s: Seq<u8>) -> Option<Option<nat>> {
    if s.len() == 0 {
        Some(None)
    } else {
        match parse_varint_field(s, 3) {
            None => None,
            Some((c, n)) => if c <= u32::MAX && n == s.len() {
                Some(Some(c))
            } else {
                None
            },
        }
    }
}

/// Reads the optional trailing error code.
pub(crate) fn read_errorcode_tail(buf: &[u8], pos: usize) -> (r: Result<Option<u32>, ClientError>)
    requires
        pos <= buf@.len(),
    ensures
        match r {
            Ok(c) => parse_errorcode_tail(buf@.skip(pos as int)) == Some(
                match c {
                    Some(v) => Some(v as nat),
                    None => None,
                },
            ),
            Err(e) => parse_errorcode_tail(buf@.skip(pos as int)) is None && e
                == ClientError::MalformedPayload,
        },
{
    let ghost s = buf@.skip(pos as int);
    if pos >= buf.len() {
        assert(s.len() == 0);
        Ok(None)
    } else {
        match read_varint_field(buf, pos, 3) {
            None => {
                proof {
                    match parse_varint_field(s, 3) {
                        None => {},
                        Some((v, n)) => {
                            assert(v > u64::MAX);
                        },
                    }
                }
                Err(ClientError::MalformedPayload)
            },
            Some((v, p)) => {
                if v <= 0xFFFFFFFF && p == buf.len() {
                    Ok(Some(v as u32))
                } else {
                    Err(ClientError::MalformedPayload)
                }
            },
        }
    }
}

/// A server error report: a message and a numeric code.
#[derive(Debug, PartialEq, Eq)]
pub struct ErrorResp {
    pub errmsg: Vec<u8>,
    pub errcode: u32,
}

/// The binary form of an error response: the message bytes, then the code.
pub open spec fn parse_error_resp(s: Seq<u8>) -> Option<(Seq<u8>, nat)> {
    match parse_len_delim(s, 1) {
        None => None,
        Some((msg, n)) => match parse_varint_field(s.skip(n as int), 2) {
            None => None,
            Some((c, n2)) => if c <= u32::MAX && n + n2 == s.len() {
                Some((msg, c))
            } else {
                None
            },
        },
    }
}

/// Decodes an error response.
pub fn decode_error_resp(payload: &[u8]) -> (r: Result<ErrorResp, ClientError>)
    ensures
        match r {
            Ok(m) => parse_error_resp(payload@) == Some((m.errmsg@, m.errcode as nat)),
            Err(e) => parse_error_resp(payload@) is None && e == ClientError::MalformedPayload,
        },
{
    proof {
        assert(payload@.skip(0) =~= payload@);
    }
    match read_bytes_field(payload, 0, 1) {
        None => Err(ClientError::MalformedPayload),
        Some((msg, p)) => {
            match read_varint_field(payload, p, 2) {
                None => {
                    proof {
                        match parse_varint_field(payload@.skip(p as int), 2) {
                            None => {},
                            Some((v, n)) => {
                                assert(v > u64::MAX);
                            },
                        }
                    }
                    Err(ClientError::MalformedPayload)
                },
                Some((v, p2)) => {
                    if v <= 0xFFFFFFFF && p2 == payload.len() {
                        Ok(ErrorResp { errmsg: vstd::slice::slice_to_vec(msg), errcode: v as u32 })
                    } else {
                        Err(ClientError::MalformedPayload)
                    }
                },
            }
        },
    }
}

/// The server's verdict on an update, commit or abort request.
#[derive(Debug, PartialEq, Eq)]
pub struct OperationResp {
    pub success: bool,
    pub errorcode: Option<u32>,
}

/// The binary form of an operation response: the success flag, then an
/// optional error code.
pub open spec fn parse_operation_resp(s: Seq<u8>) -> Option<(bool, Option<nat>)> {
    match parse_varint_field(s, 1) {
        None => None,
        Some((v, n)) => if v > 1 {
            None
        } else {
            match parse_errorcode_tail_at2(s.skip(n as int)) {
                None => None,
                Some(c) => Some((v == 1, c)),
            }
        },
    }
}

/// Like `parse_errorcode_tail`, for messages whose error code is field 2.
pub open spec fn parse_errorcode_tail_at2(s: Seq<u8>) -> Option<Option<nat>> {
    if s.len() == 0 {
        Some(None)
    } else {
        match parse_varint_field(s, 2) {
            None => None,
            Some((c, n)) => if c <= u32::MAX && n == s.len() {
                Some(Some(c))
            } else {
                None
            },
        }
    }
}

/// Reads the optional trailing error code carried in field 2.
fn read_errorcode_tail_at2(buf: &[u8], pos: usize) -> (r: Result<Option<u32>, ClientError>)
    requires
        pos <= buf@.len(),
    ensures
        match r {
            Ok(c) => parse_errorcode_tail_at2(buf@.skip(pos as int)) == Some(
                match c {
                    Some(v) => Some(v as nat),
                    None => None,
                },
            ),
            Err(e) => parse_errorcode_tail_at2(buf@.skip(pos as int)) is None && e
                == ClientError::MalformedPayload,
        },
{
    let ghost s = buf@.skip(pos as int);
    if pos >= buf.len() {
        assert(s.len() == 0);
        Ok(None)
    } else {
        match read_varint_field(buf, pos, 2) {
            None => {
                proof {
                    match parse_varint_field(s, 2) {
                        None => {},
                        Some((v, n)) => {
                            assert(v > u64::MAX);
                        },
                    }
                }
                Err(ClientError::MalformedPayload)
            },
            Some((v, p)) => {
                if v <= 0xFFFFFFFF && p == buf.len() {
                    Ok(Some(v as u32))
                } else {
                    Err(ClientError::MalformedPayload)
                }
            },
        }
    }
}

/// Decodes an operation response.
pub fn decode_operation_resp(payload: &[u8]) -> (r: Result<OperationResp, ClientError>)
    ensures
        match r {
            Ok(m) => parse_operation_resp(payload@) == Some(
                (
                    m.success,
                    match m.errorcode {
                        Some(v) => Some(v as nat),
                        None => None,
                    },
                ),
            ),
            Err(e) => parse_operation_resp(payload@) is None && e == ClientError::MalformedPayload,
        },
{
    proof {
        assert(payload@.skip(0) =~= payload@);
    }
    match read_varint_field(payload, 0, 1) {
        None => {
            proof {
                match parse_varint_field(payload@, 1) {
                    None => {},
                    Some((v, n)) => {
                        assert(v > 1);
                    },
                }
            }
            Err(ClientError::MalformedPayload)
        },
        Some((v, p)) => {
            if v > 1 {
                Err(ClientError::MalformedPayload)
            } else {
                match read_errorcode_tail_at2(payload, p) {
                    Ok(c) => Ok(OperationResp { success: v == 1, errorcode: c }),
                    Err(e) => Err(e),
                }
            }
        },
    }
}

/// The server's answer to a begin request: on success it carries the
/// transaction descriptor that every later request must echo.
#[derive(Debug, PartialEq, Eq)]
pub struct StartTransactionResp {
    pub success: bool,
    pub transaction_descriptor: Option<Vec<u8>>,
    pub errorcode: Option<u32>,
}

/// The binary form of a begin response: the success flag, an optional
/// descriptor, then an optional error code.
pub open spec fn parse_start_transaction_resp(s: Seq<u8>) -> Option<
    (bool, Option<Seq<u8>>, Option<nat>),
> {
    match parse_varint_field(s, 1) {
        None => None,
        Some((v, n)) => if v > 1 {
            None
        } else {
            let r1 = s.skip(n as int);
            if r1.len() > 0 && r1[0] == key_len_delim(2) {
                match parse_len_delim(r1, 2) {
                    None => None,
                    Some((d, n2)) => match parse_errorcode_tail(r1.skip(n2 as int)) {
                        None => None,
                        Some(c) => Some((v == 1, Some(d), c)),
                    },
                }
            } else {
                match parse_errorcode_tail(r1) {
                    None => None,
                    Some(c) => Some((v == 1, None, c)),
                }
            }
        },
    }
}

/// Decodes a begin response.
pub fn decode_start_transaction_resp(payload: &[u8]) -> (r: Result<
    StartTransactionResp,
    ClientError,
>)
    ensures
        match r {
            Ok(m) => parse_start_transaction_resp(payload@) == Some(
                (
                    m.success,
                    match m.transaction_descriptor {
                        Some(ref d) => Some(d@),
                        None => None,
                    },
                    match m.errorcode {
                        Some(v) => Some(v as nat),
                        None => None,
                    },
                ),
            ),
            Err(e) => parse_start_transaction_resp(payload@) is None && e
                == ClientError::MalformedPayload,
        },
{
    proof {
        assert(payload@.skip(0) =~= payload@);
    }
    match read_varint_field(payload, 0, 1) {
        None => {
            proof {
                match parse_varint_field(payload@, 1) {
                    None => {},
                    Some((v, n)) => {
                        assert(v > 1);
                    },
                }
            }
            Err(ClientError::MalformedPayload)
        },
        Some((v, p)) => {
            if v > 1 {
                Err(ClientError::MalformedPayload)
            } else {
                let ghost r1 = payload@.skip(p as int);
                if p < payload.len() && payload[p] == 8 * 2 + 2 {
                    assert(r1[0] == key_len_delim(2));
                    match read_bytes_field(payload, p, 2) {
                        None => Err(ClientError::MalformedPayload),
                        Some((d, p2)) => {
                            proof {
                                assert(payload@.skip(p2 as int) =~= r1.skip(p2 - p));
                            }
                            match read_errorcode_tail(payload, p2) {
                                Ok(c) => Ok(
                                    StartTransactionResp {
                                        success: v == 1,
                                        transaction_descriptor: Some(
                                            vstd::slice::slice_to_vec(d),
                                        ),
                                        errorcode: c,
                                    },
                                ),
                                Err(e) => Err(e),
                            }
                        },
                    }
                } else {
                    proof {
                        if r1.len() > 0 {
                            assert(r1[0] == payload@[p as int]);
                        }
                    }
                    match read_errorcode_tail(payload, p) {
                        Ok(c) => Ok(
                            StartTransactionResp {
                                success: v == 1,
                                transaction_descriptor: None,
                                errorcode: c,
                            },
                        ),
                        Err(e) => Err(e),
                    }
                }
            }
        },
    }
}

/// The server's answer to a commit request: on success it carries the new
/// causal commit timestamp.
#[derive(Debug, PartialEq, Eq)]
pub struct CommitResp {
    pub success: bool,
    pub commit_time: Option<Vec<u8>>,
    pub errorcode: Option<u32>,
}

/// The binary form of a commit response: the success flag, an optional
/// commit timestamp, then an optional error code.
pub open spec fn parse_commit_resp(s: Seq<u8>) -> Option<(bool, Option<Seq<u8>>, Option<nat>)> {
    parse_start_transaction_resp(s)
}

/// Decodes a commit response; it shares the begin response's field layout,
/// with the second field carrying the commit timestamp.
pub fn decode_commit_resp(payload: &[u8]) -> (r: Result<CommitResp, ClientError>)
    ensures
        match r {
            Ok(m) => parse_commit_resp(payload@) == Some(
                (
                    m.success,
                    match m.commit_time {
                        Some(ref t) => Some(t@),
                        None => None,
                    },
                    match m.errorcode {
                        Some(v) => Some(v as nat),
                        None => None,
                    },
                ),
            ),
            Err(e) => parse_commit_resp(payload@) is None && e == ClientError::MalformedPayload,
        },
{
    match decode_start_transaction_resp(payload) {
        Ok(m) => Ok(
            CommitResp {
                success: m.success,
                commit_time: m.transaction_descriptor,
                errorcode: m.errorcode,
            },
        ),
        Err(e) => Err(e),
    }
}

/// The binary form of a register snapshot: the stored byte buffer.
pub open spec fn parse_get_reg_resp(s: Seq<u8>) -> Option<Seq<u8>> {
    match parse_len_delim(s, 1) {
        None => None,
        Some((v, n)) => if n == s.len() {
            Some(v)
        } else {
            None
        },
    }
}

/// Decodes a register snapshot response.
pub fn decode_get_reg_resp(payload: &[u8]) -> (r: Result<Vec<u8>, ClientError>)
    ensures
        match r {
            Ok(v) => parse_get_reg_resp(payload@) == Some(v@),
            Err(e) => parse_get_reg_resp(payload@) is None && e == ClientError::MalformedPayload,
        },
{
    proof {
        assert(payload@.skip(0) =~= payload@);
    }
    match read_bytes_field(payload, 0, 1) {
        None => Err(ClientError::MalformedPayload),
        Some((v, p)) => {
            if p == payload.len() {
                Ok(vstd::slice::slice_to_vec(v))
            } else {
                Err(ClientError::MalformedPayload)
            }
        },
    }
}

/// The binary form of a counter snapshot: one signed 32-bit value through
/// the zigzag mapping.
pub open spec fn parse_get_counter_resp(s: Seq<u8>) -> Option<int> {
    match parse_varint_field(s, 1) {
        None => None,
        Some((v, n)) => if v <= u32::MAX && n == s.len() {
            Some(unzigzag(v))
        } else {
            None
        },
    }
}

/// Decodes a counter snapshot response.
pub fn decode_get_counter_resp(payload: &[u8]) -> (r: Result<i32, ClientError>)
    ensures
        match r {
            Ok(v) => parse_get_counter_resp(payload@) == Some(v as int),
            Err(e) => parse_get_counter_resp(payload@) is None && e
                == ClientError::MalformedPayload,
        },
{
    proof {
        assert(payload@.skip(0) =~= payload@);
    }
    match read_varint_field(payload, 0, 1) {
        None => {
            proof {
                match parse_varint_field(payload@, 1) {
                    None => {},
                    Some((v, n)) => {
                        assert(v > u32::MAX);
                    },
                }
            }
            Err(ClientError::MalformedPayload)
        },
        Some((v, p)) => {
            if v <= 0xFFFFFFFF && p == payload.len() {
                let w = zigzag_decode(v);
                assert(-0x80000000 <= w as int <= 0x7FFFFFFF);
                Ok(w as i32)
            } else {
                Err(ClientError::MalformedPayload)
            }
        },
    }
}

/// The binary form of a counter update: an optional signed delta.
pub open spec fn parse_counter_update(s: Seq<u8>) -> Option<Option<int>> {
    if s.len() == 0 {
        Some(None)
    } else {
        match parse_varint_field(s, 1) {
            None => None,
            Some((v, n)) => if v <= u64::MAX && n == s.len() {
                Some(Some(unzigzag(v)))
            } else {
                None
            },
        }
    }
}

/// Decodes a counter update message.
pub fn decode_counter_update(payload: &[u8]) -> (r: Result<Option<i64>, ClientError>)
    ensures
        match r {
            Ok(v) => parse_counter_update(payload@) == Some(
                match v {
                    Some(w) => Some(w as int),
                    None => None,
                },
            ),
            Err(e) => parse_counter_update(payload@) is None && e == ClientError::MalformedPayload,
        },
{
    proof {
        assert(payload@.skip(0) =~= payload@);
    }
    if payload.len() == 0 {
        Ok(None)
    } else {
        match read_varint_field(payload, 0, 1) {
            None => {
                proof {
                    match parse_varint_field(payload@, 1) {
                        None => {},
                        Some((v, n)) => {
                            assert(v > u64::MAX);
                        },
                    }
                }
                Err(ClientError::MalformedPayload)
            },
            Some((v, p)) => {
                if p == payload.len() {
                    Ok(Some(zigzag_decode(v)))
                } else {
                    Err(ClientError::MalformedPayload)
                }
            },
        }
    }
}

} // verus!
