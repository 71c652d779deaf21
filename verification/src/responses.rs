//! The structured read responses and the response dispatch. A per-object
//! read response holds at most one snapshot per CRDT family, and a map
//! snapshot nests further read responses, so the grammar recurs; the
//! dispatch keeps the closed mapping from a one-byte message-kind tag to the
//! exact type its payload must decode as.

use vstd::prelude::*;

use crate::crdt::{crdt_type_of_tag, crdt_of_tag, CrdtType, MapKey, SetOpKind};
use crate::decode::{
    key_len_delim, key_varint, parse_commit_resp, read_errorcode_tail, parse_error_resp, parse_errorcode_tail,
    parse_get_counter_resp, parse_get_reg_resp, parse_counter_update, parse_len_delim,
    parse_operation_resp, parse_start_transaction_resp, parse_varint_field, read_bytes_field,
    read_varint_field, CommitResp, ErrorResp, OperationResp, StartTransactionResp,
    decode_commit_resp, decode_counter_update, decode_error_resp, decode_get_counter_resp,
    decode_get_reg_resp, decode_operation_resp, decode_start_transaction_resp,
};
use crate::messages::{
    APB_COMMIT_RESP, APB_COUNTER_UPDATE, APB_ERROR_RESP, APB_GET_COUNTER_RESP, APB_GET_REG_RESP,
    APB_GET_SET_RESP, APB_OPERATION_RESP, APB_READ_OBJECTS_RESP, APB_READ_OBJECT_RESP,
    APB_SET_UPDATE, APB_START_TRANSACTION_RESP, APB_STATIC_READ_OBJECTS_RESP,
};
use crate::codec::parse_varint;
use crate::ClientError;

verus! {

broadcast use vstd::std_specs::vec::group_vec_axioms;

/// The ghost shape of one per-object read response.
pub ghost struct ReadRespV {
    pub counter: Option<int>,
    pub set: Option<Seq<Seq<u8>>>,
    pub reg: Option<Seq<u8>>,
    pub mvreg: Option<Seq<Seq<u8>>>,
    pub map: Option<Seq<MapEntryV>>,
    pub flag: Option<bool>,
}

/// The ghost shape of one map snapshot entry.
pub ghost struct MapEntryV {
    pub key: Seq<u8>,
    pub crdt_type: CrdtType,
    pub value: ReadRespV,
}

/// One per-object read response: at most one snapshot per CRDT family, the
/// populated field determined by the object's type.
#[derive(Debug)]
pub struct ReadObjectResp {
    pub counter: Option<i32>,
    pub set: Option<Vec<Vec<u8>>>,
    pub reg: Option<Vec<u8>>,
    pub mvreg: Option<Vec<Vec<u8>>>,
    pub map: Option<Vec<MapEntry>>,
    pub flag: Option<bool>,
}

/// One entry of a map snapshot: the nested key and its own read response.
#[derive(Debug)]
pub struct MapEntry {
    pub key: MapKey,
    pub value: ReadObjectResp,
}

/// The ghost shape a read response denotes.
pub open spec fn read_resp_view(m: ReadObjectResp) -> ReadRespV
    decreases m,
{
    ReadRespV {
        counter: match m.counter {
            Some(c) => Some(c as int),
            None => None,
        },
        set: match m.set {
            Some(v) => Some(v.deep_view()),
            None => None,
        },
        reg: match m.reg {
            Some(v) => Some(v@),
            None => None,
        },
        mvreg: match m.mvreg {
            Some(v) => Some(v.deep_view()),
            None => None,
        },
        map: match m.map {
            Some(es) => Some(map_entries_view(es@)),
            None => None,
        },
        flag: m.flag,
    }
}

/// The ghost shapes of a batch of map entries, in order.
pub open spec fn map_entries_view(es: Seq<MapEntry>) -> Seq<MapEntryV>
    decreases es,
{
    if es.len() == 0 {
        Seq::empty()
    } else {
        map_entries_view(es.drop_last()).push(map_entry_view(es.last()))
    }
}

/// The ghost shape of one map entry.
pub open spec fn map_entry_view(e: MapEntry) -> MapEntryV
    decreases e,
{
    MapEntryV { key: e.key.key@, crdt_type: e.key.crdt_type, value: read_resp_view(e.value) }
}

/// Zero or more repeated byte-string fields at the front of `s`: the
/// elements in order and the bytes they span. Total: the repetition ends at
/// the first byte that does not open another such field.
pub open spec fn parse_repeated_blobs(s: Seq<u8>, field: nat) -> (Seq<Seq<u8>>, nat)
    decreases s.len(),
{
    match parse_len_delim(s, field) {
        None => (Seq::empty(), 0),
        Some((b, n)) => {
            let (rest, m) = parse_repeated_blobs(s.skip(n as int), field);
            (seq![b] + rest, (n + m) as nat)
        },
    }
}

/// A message that is nothing but repeated byte strings under field 1: the
/// form of set and multi-value register snapshots.
pub open spec fn parse_blobs_message(s: Seq<u8>) -> Option<Seq<Seq<u8>>> {
    let (items, n) = parse_repeated_blobs(s, 1);
    if n == s.len() {
        Some(items)
    } else {
        None
    }
}

/// The binary form of a flag snapshot: one boolean.
pub open spec fn parse_get_flag_resp(s: Seq<u8>) -> Option<bool> {
    match parse_varint_field(s, 1) {
        None => None,
        Some((v, n)) => if v <= 1 && n == s.len() {
            Some(v == 1)
        } else {
            None
        },
    }
}

/// The binary form of a map key: the key bytes, then the CRDT type tag,
/// which must belong to the type vocabulary.
pub open spec fn parse_map_key(s: Seq<u8>) -> Option<(Seq<u8>, CrdtType)> {
    match parse_len_delim(s, 1) {
        None => None,
        Some((kb, n)) => match parse_varint_field(s.skip(n as int), 2) {
            None => None,
            Some((v, n2)) => if n + n2 == s.len() {
                match crdt_type_of_tag(v) {
                    None => None,
                    Some(ct) => Some((kb, ct)),
                }
            } else {
                None
            },
        },
    }
}

/// A per-object read response: each snapshot field optional, in field
/// order, the whole input consumed.
pub open spec fn parse_read_object_resp(s: Seq<u8>) -> Option<ReadRespV>
    decreases s.len(), 7int,
{
    parse_rr_counter(s)
}

/// The optional counter snapshot of a read response.
#[verifier::opaque]
pub open spec fn parse_rr_counter(s: Seq<u8>) -> Option<ReadRespV>
    decreases s.len(), 6int,
{
    if s.len() > 0 && s[0] == key_len_delim(1) {
        match parse_len_delim(s, 1) {
            None => None,
            Some((b, n)) => match parse_get_counter_resp(b) {
                None => None,
                Some(c) => parse_rr_set(Some(c), s.skip(n as int)),
            },
        }
    } else {
        parse_rr_set(None, s)
    }
}

/// The optional set snapshot of a read response.
pub open spec fn parse_rr_set(counter: Option<int>, s: Seq<u8>) -> Option<ReadRespV>
    decreases s.len(), 5int,
{
    if s.len() > 0 && s[0] == key_len_delim(2) {
        match parse_len_delim(s, 2) {
            None => None,
            Some((b, n)) => match parse_blobs_message(b) {
                None => None,
                Some(items) => parse_rr_reg(counter, Some(items), s.skip(n as int)),
            },
        }
    } else {
        parse_rr_reg(counter, None, s)
    }
}

/// The optional register snapshot of a read response.
pub open spec fn parse_rr_reg(
    counter: Option<int>,
    set: Option<Seq<Seq<u8>>>,
    s: Seq<u8>,
) -> Option<ReadRespV>
    decreases s.len(), 4int,
{
    if s.len() > 0 && s[0] == key_len_delim(3) {
        match parse_len_delim(s, 3) {
            None => None,
            Some((b, n)) => match parse_get_reg_resp(b) {
                None => None,
                Some(v) => parse_rr_mvreg(counter, set, Some(v), s.skip(n as int)),
            },
        }
    } else {
        parse_rr_mvreg(counter, set, None, s)
    }
}

/// The optional multi-value register snapshot of a read response.
pub open spec fn parse_rr_mvreg(
    counter: Option<int>,
    set: Option<Seq<Seq<u8>>>,
    reg: Option<Seq<u8>>,
    s: Seq<u8>,
) -> Option<ReadRespV>
    decreases s.len(), 3int,
{
    if s.len() > 0 && s[0] == key_len_delim(4) {
        match parse_len_delim(s, 4) {
            None => None,
            Some((b, n)) => match parse_blobs_message(b) {
                None => None,
                Some(items) => parse_rr_map(counter, set, reg, Some(items), s.skip(n as int)),
            },
        }
    } else {
        parse_rr_map(counter, set, reg, None, s)
    }
}

/// The optional map snapshot of a read response.
pub open spec fn parse_rr_map(
    counter: Option<int>,
    set: Option<Seq<Seq<u8>>>,
    reg: Option<Seq<u8>>,
    mvreg: Option<Seq<Seq<u8>>>,
    s: Seq<u8>,
) -> Option<ReadRespV>
    decreases s.len(), 2int,
{
    if s.len() > 0 && s[0] == key_len_delim(6) {
        match parse_len_delim(s, 6) {
            None => None,
            Some((b, n)) => match parse_map_entries(b) {
                None => None,
                Some((es, m)) => if m == b.len() {
                    parse_rr_flag(counter, set, reg, mvreg, Some(es), s.skip(n as int))
                } else {
                    None
                },
            },
        }
    } else {
        parse_rr_flag(counter, set, reg, mvreg, None, s)
    }
}

/// The optional flag snapshot of a read response; the input ends with it.
pub open spec fn parse_rr_flag(
    counter: Option<int>,
    set: Option<Seq<Seq<u8>>>,
    reg: Option<Seq<u8>>,
    mvreg: Option<Seq<Seq<u8>>>,
    map: Option<Seq<MapEntryV>>,
    s: Seq<u8>,
) -> Option<ReadRespV>
    decreases s.len(), 1int,
{
    if s.len() == 0 {
        Some(ReadRespV { counter, set, reg, mvreg, map, flag: None })
    } else if s[0] == key_len_delim(7) {
        match parse_len_delim(s, 7) {
            None => None,
            Some((b, n)) => match parse_get_flag_resp(b) {
                None => None,
                Some(v) => if n == s.len() {
                    Some(ReadRespV { counter, set, reg, mvreg, map, flag: Some(v) })
                } else {
                    None
                },
            },
        }
    } else {
        None
    }
}

/// Zero or more map entries at the front of `s`, each one a nested message
/// holding a map key and a nested read response.
pub open spec fn parse_map_entries(s: Seq<u8>) -> Option<(Seq<MapEntryV>, nat)>
    decreases s.len(), 8int,
{
    if s.len() > 0 && s[0] == key_len_delim(1) {
        match parse_len_delim(s, 1) {
            None => None,
            Some((b, n)) => match parse_map_entry(b) {
                None => None,
                Some(e) => match parse_map_entries(s.skip(n as int)) {
                    None => None,
                    Some((rest, m)) => Some((seq![e] + rest, (n + m) as nat)),
                },
            },
        }
    } else {
        Some((Seq::empty(), 0))
    }
}

/// One map entry: the nested key (field 1), then the nested read response
/// (field 2), nothing further.
pub open spec fn parse_map_entry(s: Seq<u8>) -> Option<MapEntryV>
    decreases s.len(), 9int,
{
    match parse_len_delim(s, 1) {
        None => None,
        Some((kb, n)) => match parse_map_key(kb) {
            None => None,
            Some((key, ct)) => match parse_len_delim(s.skip(n as int), 2) {
                None => None,
                Some((vb, n2)) => if n + n2 == s.len() {
                    match parse_read_object_resp(vb) {
                        None => None,
                        Some(v) => Some(MapEntryV { key, crdt_type: ct, value: v }),
                    }
                } else {
                    None
                },
            },
        },
    }
}

/// A batched read response: the success flag, one read response per object
/// in request order, then an optional error code.
pub open spec fn parse_read_objects_resp(s: Seq<u8>) -> Option<
    (bool, Seq<ReadRespV>, Option<nat>),
> {
    match parse_varint_field(s, 1) {
        None => None,
        Some((v, n)) => if v > 1 {
            None
        } else {
            match parse_objects_list(s.skip(n as int)) {
                None => None,
                Some((objs, m)) => match parse_errorcode_tail(s.skip((n + m) as int)) {
                    None => None,
                    Some(c) => Some((v == 1, objs, c)),
                },
            }
        },
    }
}

/// Zero or more nested read responses under field 2, in order.
pub open spec fn parse_objects_list(s: Seq<u8>) -> Option<(Seq<ReadRespV>, nat)>
    decreases s.len(),
{
    if s.len() > 0 && s[0] == key_len_delim(2) {
        match parse_len_delim(s, 2) {
            None => None,
            Some((b, n)) => match parse_read_object_resp(b) {
                None => None,
                Some(o) => match parse_objects_list(s.skip(n as int)) {
                    None => None,
                    Some((rest, m)) => Some((seq![o] + rest, (n + m) as nat)),
                },
            },
        }
    } else {
        Some((Seq::empty(), 0))
    }
}

/// The binary form of a set update: the operation kind, then the added and
/// removed elements.
pub open spec fn parse_set_update(s: Seq<u8>) -> Option<(SetOpKind, Seq<Seq<u8>>, Seq<Seq<u8>>)> {
    match parse_varint_field(s, 1) {
        None => None,
        Some((v, n)) => {
            let kind = if v == 1 {
                Some(SetOpKind::Add)
            } else if v == 2 {
                Some(SetOpKind::Remove)
            } else {
                None
            };
            match kind {
                None => None,
                Some(k) => {
                    let (adds, m) = parse_repeated_blobs(s.skip(n as int), 2);
                    let (rems, m2) = parse_repeated_blobs(s.skip((n + m) as int), 3);
                    if n + m + m2 == s.len() {
                        Some((k, adds, rems))
                    } else {
                        None
                    }
                },
            }
        },
    }
}

/// A decoded set update message.
#[derive(Debug)]
pub struct SetUpdateMsg {
    pub op_kind: SetOpKind,
    pub adds: Vec<Vec<u8>>,
    pub rems: Vec<Vec<u8>>,
}

/// A batched read response as decoded values.
#[derive(Debug)]
pub struct ReadObjectsResp {
    pub success: bool,
    pub objects: Vec<ReadObjectResp>,
    pub errorcode: Option<u32>,
}

/// The combined response to a static read: the batched read outcome and the
/// commit outcome.
#[derive(Debug)]
pub struct StaticReadObjectsResp {
    pub objects: ReadObjectsResp,
    pub committime: CommitResp,
}

/// The ghost shape of a batched read response.
pub open spec fn read_objects_resp_view(m: ReadObjectsResp) -> (bool, Seq<ReadRespV>, Option<nat>) {
    (
        m.success,
        objects_list_view(m.objects@),
        match m.errorcode {
            Some(v) => Some(v as nat),
            None => None,
        },
    )
}

/// The ghost shapes of a batch of read responses, in order.
pub open spec fn objects_list_view(os: Seq<ReadObjectResp>) -> Seq<ReadRespV>
    decreases os,
{
    if os.len() == 0 {
        Seq::empty()
    } else {
        objects_list_view(os.drop_last()).push(read_resp_view(os.last()))
    }
}

/// The ghost shape of a commit response.
pub open spec fn commit_resp_view(m: CommitResp) -> (bool, Option<Seq<u8>>, Option<nat>) {
    (
        m.success,
        match m.commit_time {
            Some(t) => Some(t@),
            None => None,
        },
        match m.errorcode {
            Some(v) => Some(v as nat),
            None => None,
        },
    )
}

/// Reads zero or more repeated byte-string fields starting at `pos`.
pub fn read_repeated_blobs(buf: &[u8], pos: usize, field: u8) -> (r: (Vec<Vec<u8>>, usize))
    requires
        pos <= buf@.len(),
        field < 16,
    ensures
        ({
            let (items, n) = parse_repeated_blobs(buf@.skip(pos as int), field as nat);
            &&& r.0.deep_view() == items
            &&& r.1 - pos == n
            &&& pos <= r.1 <= buf@.len()
        }),
{
    let mut items: Vec<Vec<u8>> = Vec::new();
    let mut cur: usize = pos;
    loop
        invariant
            pos <= cur <= buf@.len(),
            field < 16,
            ({
                let (all, n) = parse_repeated_blobs(buf@.skip(pos as int), field as nat);
                let (rest, m) = parse_repeated_blobs(buf@.skip(cur as int), field as nat);
                &&& all == items.deep_view() + rest
                &&& n == (cur - pos) + m
            }),
        decreases buf@.len() - cur,
    {
        let ghost (rest, m) = parse_repeated_blobs(buf@.skip(cur as int), field as nat);
        match read_bytes_field(buf, cur, field) {
            None => {
                proof {
                    assert(rest =~= Seq::<Seq<u8>>::empty());
                    assert(items.deep_view() + rest =~= items.deep_view());
                }
                return (items, cur);
            },
            Some((b, p2)) => {
                let ghost prev = items.deep_view();
                items.push(vstd::slice::slice_to_vec(b));
                proof {
                    assert(items.deep_view() =~~= prev.push(b@));
                    assert(buf@.skip(p2 as int) =~= buf@.skip(cur as int).skip(p2 - cur));
                    let (rest2, m2) = parse_repeated_blobs(buf@.skip(p2 as int), field as nat);
                    assert(rest == seq![b@] + rest2);
                    assert(prev.push(b@) + rest2 =~= prev + (seq![b@] + rest2));
                }
                cur = p2;
            },
        }
    }
}


/// Decodes a message that is repeated byte strings under field 1: the form
/// of set and multi-value register snapshots.
pub fn decode_blobs_message(payload: &[u8]) -> (r: Result<Vec<Vec<u8>>, ClientError>)
    ensures
        match r {
            Ok(items) => parse_blobs_message(payload@) == Some(items.deep_view()),
            Err(e) => parse_blobs_message(payload@) is None && e == ClientError::MalformedPayload,
        },
{
    proof {
        assert(payload@.skip(0) =~= payload@);
    }
    let (items, pos) = read_repeated_blobs(payload, 0, 1);
    if pos == payload.len() {
        Ok(items)
    } else {
        Err(ClientError::MalformedPayload)
    }
}

/// Decodes a flag snapshot.
pub fn decode_get_flag_resp(payload: &[u8]) -> (r: Result<bool, ClientError>)
    ensures
        match r {
            Ok(v) => parse_get_flag_resp(payload@) == Some(v),
            Err(e) => parse_get_flag_resp(payload@) is None && e == ClientError::MalformedPayload,
        },
{
    proof {
        assert(payload@.skip(0) =~= payload@);
    }
    match read_varint_field(payload, 0, 1) {
        None => {
            proof {
                match parse_varint_field(payload@, 1) {
                    None => {},
                    Some((v, n)) => {
                        assert(v > 1);
                    },
                }
            }
            Err(ClientError::MalformedPayload)
        },
        Some((v, p)) => {
            if v <= 1 && p == payload.len() {
                Ok(v == 1)
            } else {
                Err(ClientError::MalformedPayload)
            }
        },
    }
}

/// Decodes a map key.
pub fn decode_map_key(payload: &[u8]) -> (r: Result<MapKey, ClientError>)
    ensures
        match r {
            Ok(k) => parse_map_key(payload@) == Some((k.key@, k.crdt_type)),
            Err(e) => parse_map_key(payload@) is None && e == ClientError::MalformedPayload,
        },
{
    proof {
        assert(payload@.skip(0) =~= payload@);
    }
    match read_bytes_field(payload, 0, 1) {
        None => Err(ClientError::MalformedPayload),
        Some((kb, p)) => {
            match read_varint_field(payload, p, 2) {
                None => {
                    proof {
                        match parse_varint_field(payload@.skip(p as int), 2) {
                            None => {},
                            Some((v, n)) => {
                                assert(v > u64::MAX);
                                assert(crdt_type_of_tag(v) is None);
                            },
                        }
                    }
                    Err(ClientError::MalformedPayload)
                },
                Some((v, p2)) => {
                    if p2 != payload.len() {
                        Err(ClientError::MalformedPayload)
                    } else {
                        match crdt_of_tag(v) {
                            None => Err(ClientError::MalformedPayload),
                            Some(ct) => Ok(
                                MapKey { key: vstd::slice::slice_to_vec(kb), crdt_type: ct },
                            ),
                        }
                    }
                },
            }
        },
    }
}

/// The value a decoded optional counter snapshot denotes.
pub open spec fn opt_counter_view(o: Option<i32>) -> Option<int> {
    match o {
        Some(c) => Some(c as int),
        None => None,
    }
}

/// The value a decoded optional list-of-buffers snapshot denotes.
pub open spec fn opt_blobs_view(o: Option<Vec<Vec<u8>>>) -> Option<Seq<Seq<u8>>> {
    match o {
        Some(v) => Some(v.deep_view()),
        None => None,
    }
}

/// The value a decoded optional byte-buffer snapshot denotes.
pub open spec fn opt_buf_view(o: Option<Vec<u8>>) -> Option<Seq<u8>> {
    match o {
        Some(v) => Some(v@),
        None => None,
    }
}

/// The value a decoded optional map snapshot denotes.
pub open spec fn opt_entries_view(o: Option<Vec<MapEntry>>) -> Option<Seq<MapEntryV>> {
    match o {
        Some(es) => Some(map_entries_view(es@)),
        None => None,
    }
}

/// Decodes the optional leading counter snapshot of a read response.
fn decode_rr_counter_field(payload: &[u8]) -> (r: Result<(Option<i32>, usize), ClientError>)
    ensures
        match r {
            Ok((c, p)) => p <= payload@.len() && parse_rr_counter(payload@) == parse_rr_set(
                opt_counter_view(c),
                payload@.skip(p as int),
            ),
            Err(e) => parse_rr_counter(payload@) is None && e == ClientError::MalformedPayload,
        },
{
    proof {
        reveal(parse_rr_counter);
        assert(payload@.skip(0) =~= payload@);
    }
    if payload.len() > 0 && payload[0] == 10 {
        match read_bytes_field(payload, 0, 1) {
            None => Err(ClientError::MalformedPayload),
            Some((b, p2)) => {
                match decode_get_counter_resp(b) {
                    Err(_) => Err(ClientError::MalformedPayload),
                    Ok(c) => Ok((Some(c), p2)),
                }
            },
        }
    } else {
        Ok((None, 0))
    }
}

/// Decodes the optional set snapshot of a read response.
fn decode_rr_set_field(payload: &[u8], pos: usize) -> (r: Result<
    (Option<Vec<Vec<u8>>>, usize),
    ClientError,
>)
    requires
        pos <= payload@.len(),
    ensures
        match r {
            Ok((st, p)) => pos <= p <= payload@.len() && forall|cv: Option<int>|
                #[trigger] parse_rr_set(cv, payload@.skip(pos as int)) == parse_rr_reg(
                    cv,
                    opt_blobs_view(st),
                    payload@.skip(p as int),
                ),
            Err(e) => (forall|cv: Option<int>|
                #[trigger] parse_rr_set(cv, payload@.skip(pos as int)) is None) && e
                == ClientError::MalformedPayload,
        },
{
    let ghost s = payload@.skip(pos as int);
    if pos < payload.len() && payload[pos] == 18 {
        assert(s[0] == key_len_delim(2));
        match read_bytes_field(payload, pos, 2) {
            None => Err(ClientError::MalformedPayload),
            Some((b, p2)) => {
                match decode_blobs_message(b) {
                    Err(_) => Err(ClientError::MalformedPayload),
                    Ok(items) => {
                        proof {
                            assert(payload@.skip(p2 as int) =~= s.skip(p2 - pos));
                        }
                        Ok((Some(items), p2))
                    },
                }
            },
        }
    } else {
        proof {
            if s.len() > 0 {
                assert(s[0] == payload@[pos as int]);
            }
        }
        Ok((None, pos))
    }
}

/// Decodes the optional register snapshot of a read response.
fn decode_rr_reg_field(payload: &[u8], pos: usize) -> (r: Result<
    (Option<Vec<u8>>, usize),
    ClientError,
>)
    requires
        pos <= payload@.len(),
    ensures
        match r {
            Ok((rg, p)) => pos <= p <= payload@.len() && forall|
                cv: Option<int>,
                sv: Option<Seq<Seq<u8>>>,
            |
                #[trigger] parse_rr_reg(cv, sv, payload@.skip(pos as int)) == parse_rr_mvreg(
                    cv,
                    sv,
                    opt_buf_view(rg),
                    payload@.skip(p as int),
                ),
            Err(e) => (forall|cv: Option<int>, sv: Option<Seq<Seq<u8>>>|
                #[trigger] parse_rr_reg(cv, sv, payload@.skip(pos as int)) is None) && e
                == ClientError::MalformedPayload,
        },
{
    let ghost s = payload@.skip(pos as int);
    if pos < payload.len() && payload[pos] == 26 {
        assert(s[0] == key_len_delim(3));
        match read_bytes_field(payload, pos, 3) {
            None => Err(ClientError::MalformedPayload),
            Some((b, p2)) => {
                match decode_get_reg_resp(b) {
                    Err(_) => Err(ClientError::MalformedPayload),
                    Ok(v) => {
                        proof {
                            assert(payload@.skip(p2 as int) =~= s.skip(p2 - pos));
                        }
                        Ok((Some(v), p2))
                    },
                }
            },
        }
    } else {
        proof {
            if s.len() > 0 {
                assert(s[0] == payload@[pos as int]);
            }
        }
        Ok((None, pos))
    }
}

/// Decodes the leading optional counter, set and register snapshots of a
/// per-object read response.
fn decode_rr_head(payload: &[u8]) -> (r: Result<
    (Option<i32>, Option<Vec<Vec<u8>>>, Option<Vec<u8>>, usize),
    ClientError,
>)
    ensures
        match r {
            Ok((c, st, rg, pos)) => pos <= payload@.len() && parse_rr_counter(payload@)
                == parse_rr_mvreg(
                opt_counter_view(c),
                opt_blobs_view(st),
                opt_buf_view(rg),
                payload@.skip(pos as int),
            ),
            Err(e) => parse_rr_counter(payload@) is None && e == ClientError::MalformedPayload,
        },
{
    let (counter, p1) = match decode_rr_counter_field(payload) {
        Err(e) => {
            return Err(e);
        },
        Ok(t) => t,
    };
    let (set, p2) = match decode_rr_set_field(payload, p1) {
        Err(e) => {
            return Err(e);
        },
        Ok(t) => t,
    };
    let (reg, p3) = match decode_rr_reg_field(payload, p2) {
        Err(e) => {
            return Err(e);
        },
        Ok(t) => t,
    };
    Ok((counter, set, reg, p3))
}

/// Decodes the optional multi-value register snapshot of a read response.
fn decode_rr_mvreg_field(payload: &[u8], pos: usize) -> (r: Result<
    (Option<Vec<Vec<u8>>>, usize),
    ClientError,
>)
    requires
        pos <= payload@.len(),
    ensures
        match r {
            Ok((mv, p)) => pos <= p <= payload@.len() && forall|
                cv: Option<int>,
                sv: Option<Seq<Seq<u8>>>,
                rv: Option<Seq<u8>>,
            |
                #[trigger] parse_rr_mvreg(cv, sv, rv, payload@.skip(pos as int)) == parse_rr_map(
                    cv,
                    sv,
                    rv,
                    opt_blobs_view(mv),
                    payload@.skip(p as int),
                ),
            Err(e) => (forall|cv: Option<int>, sv: Option<Seq<Seq<u8>>>, rv: Option<Seq<u8>>|
                #[trigger] parse_rr_mvreg(cv, sv, rv, payload@.skip(pos as int)) is None) && e
                == ClientError::MalformedPayload,
        },
{
    let ghost s = payload@.skip(pos as int);
    if pos < payload.len() && payload[pos] == 34 {
        assert(s[0] == key_len_delim(4));
        match read_bytes_field(payload, pos, 4) {
            None => Err(ClientError::MalformedPayload),
            Some((b, p2)) => {
                match decode_blobs_message(b) {
                    Err(_) => Err(ClientError::MalformedPayload),
                    Ok(items) => {
                        proof {
                            assert(payload@.skip(p2 as int) =~= s.skip(p2 - pos));
                        }
                        Ok((Some(items), p2))
                    },
                }
            },
        }
    } else {
        proof {
            if s.len() > 0 {
                assert(s[0] == payload@[pos as int]);
            }
        }
        Ok((None, pos))
    }
}

/// Decodes the optional map snapshot of a read response.
fn decode_rr_map_field(payload: &[u8], pos: usize) -> (r: Result<
    (Option<Vec<MapEntry>>, usize),
    ClientError,
>)
    requires
        pos <= payload@.len(),
    ensures
        match r {
            Ok((mp, p)) => pos <= p <= payload@.len() && forall|
                cv: Option<int>,
                sv: Option<Seq<Seq<u8>>>,
                rv: Option<Seq<u8>>,
                mvv: Option<Seq<Seq<u8>>>,
            |
                #[trigger] parse_rr_map(cv, sv, rv, mvv, payload@.skip(pos as int))
                    == parse_rr_flag(
                    cv,
                    sv,
                    rv,
                    mvv,
                    opt_entries_view(mp),
                    payload@.skip(p as int),
                ),
            Err(e) => (forall|
                cv: Option<int>,
                sv: Option<Seq<Seq<u8>>>,
                rv: Option<Seq<u8>>,
                mvv: Option<Seq<Seq<u8>>>,
            |
                #[trigger] parse_rr_map(cv, sv, rv, mvv, payload@.skip(pos as int)) is None) && e
                == ClientError::MalformedPayload,
        },
    decreases payload@.len(), 6int,
{
    let ghost s = payload@.skip(pos as int);
    if pos < payload.len() && payload[pos] == 50 {
        assert(s[0] == key_len_delim(6));
        match read_bytes_field(payload, pos, 6) {
            None => Err(ClientError::MalformedPayload),
            Some((b, p2)) => {
                match decode_map_entries_list(b) {
                    Err(_) => Err(ClientError::MalformedPayload),
                    Ok((es, consumed)) => {
                        if consumed != b.len() {
                            return Err(ClientError::MalformedPayload);
                        }
                        proof {
                            assert(payload@.skip(p2 as int) =~= s.skip(p2 - pos));
                        }
                        Ok((Some(es), p2))
                    },
                }
            },
        }
    } else {
        proof {
            if s.len() > 0 {
                assert(s[0] == payload@[pos as int]);
            }
        }
        Ok((None, pos))
    }
}

/// Decodes the optional flag snapshot ending a read response.
fn decode_rr_flag_field(payload: &[u8], pos: usize) -> (r: Result<Option<bool>, ClientError>)
    requires
        pos <= payload@.len(),
    ensures
        match r {
            Ok(fl) => forall|
                cv: Option<int>,
                sv: Option<Seq<Seq<u8>>>,
                rv: Option<Seq<u8>>,
                mvv: Option<Seq<Seq<u8>>>,
                mpv: Option<Seq<MapEntryV>>,
            |
                #[trigger] parse_rr_flag(cv, sv, rv, mvv, mpv, payload@.skip(pos as int)) == Some(
                    ReadRespV { counter: cv, set: sv, reg: rv, mvreg: mvv, map: mpv, flag: fl },
                ),
            Err(e) => (forall|
                cv: Option<int>,
                sv: Option<Seq<Seq<u8>>>,
                rv: Option<Seq<u8>>,
                mvv: Option<Seq<Seq<u8>>>,
                mpv: Option<Seq<MapEntryV>>,
            |
                #[trigger] parse_rr_flag(cv, sv, rv, mvv, mpv, payload@.skip(pos as int))
                    is None) && e == ClientError::MalformedPayload,
        },
{
    let ghost s = payload@.skip(pos as int);
    if pos == payload.len() {
        assert(s.len() == 0);
        Ok(None)
    } else if payload[pos] == 58 {
        assert(s[0] == key_len_delim(7));
        match read_bytes_field(payload, pos, 7) {
            None => Err(ClientError::MalformedPayload),
            Some((b, p2)) => {
                if p2 != payload.len() {
                    return Err(ClientError::MalformedPayload);
                }
                match decode_get_flag_resp(b) {
                    Err(_) => Err(ClientError::MalformedPayload),
                    Ok(v) => Ok(Some(v)),
                }
            },
        }
    } else {
        proof {
            assert(s[0] == payload@[pos as int]);
        }
        Err(ClientError::MalformedPayload)
    }
}

/// Decodes one per-object read response.
#[verifier::rlimit(100)]
#[verifier::spinoff_prover]
pub fn decode_read_object_resp(payload: &[u8]) -> (r: Result<ReadObjectResp, ClientError>)
    ensures
        match r {
            Ok(m) => parse_read_object_resp(payload@) == Some(read_resp_view(m)),
            Err(e) => parse_read_object_resp(payload@) is None && e
                == ClientError::MalformedPayload,
        },
    decreases payload@.len(), 7int,
{
    let (counter, set, reg, p3) = match decode_rr_head(payload) {
        Err(e) => {
            return Err(e);
        },
        Ok(t) => t,
    };
    let (mvreg, p4) = match decode_rr_mvreg_field(payload, p3) {
        Err(e) => {
            return Err(e);
        },
        Ok(t) => t,
    };
    let (map, p5) = match decode_rr_map_field(payload, p4) {
        Err(e) => {
            return Err(e);
        },
        Ok(t) => t,
    };
    let flag = match decode_rr_flag_field(payload, p5) {
        Err(e) => {
            return Err(e);
        },
        Ok(fl) => fl,
    };
    let m = ReadObjectResp { counter, set, reg, mvreg, map, flag };
    proof {
        assert(read_resp_view(m) == ReadRespV {
            counter: opt_counter_view(m.counter),
            set: opt_blobs_view(m.set),
            reg: opt_buf_view(m.reg),
            mvreg: opt_blobs_view(m.mvreg),
            map: opt_entries_view(m.map),
            flag: m.flag,
        });
    }
    Ok(m)
}

/// Decodes zero or more map entries, yielding the entries and the bytes
/// they span.
#[verifier::rlimit(100)]
pub fn decode_map_entries_list(buf: &[u8]) -> (r: Result<(Vec<MapEntry>, usize), ClientError>)
    ensures
        match r {
            Ok((es, p)) => p <= buf@.len() && parse_map_entries(buf@) == Some((
                map_entries_view(es@),
                p as nat,
            )),
            Err(e) => parse_map_entries(buf@) is None && e == ClientError::MalformedPayload,
        },
    decreases buf@.len(), 8int,
{
    let mut es: Vec<MapEntry> = Vec::new();
    let mut cur: usize = 0;
    proof {
        assert(buf@.skip(0) =~= buf@);
    }
    loop
        invariant
            cur <= buf@.len(),
            ({
                let whole = parse_map_entries(buf@);
                let rest = parse_map_entries(buf@.skip(cur as int));
                whole == match rest {
                    None => None::<(Seq<MapEntryV>, nat)>,
                    Some((r2, m2)) => Some((map_entries_view(es@) + r2, (cur + m2) as nat)),
                }
            }),
        decreases buf@.len() - cur,
    {
        let ghost srest = buf@.skip(cur as int);
        if cur >= buf.len() || buf[cur] != 10 {
            proof {
                if srest.len() > 0 {
                    assert(srest[0] == buf@[cur as int]);
                }
                assert(parse_map_entries(srest) == Some((Seq::<MapEntryV>::empty(), 0nat)));
                assert(map_entries_view(es@) + Seq::<MapEntryV>::empty() =~= map_entries_view(
                    es@,
                ));
            }
            return Ok((es, cur));
        }
        assert(srest[0] == key_len_delim(1));
        match read_bytes_field(buf, cur, 1) {
            None => {
                return Err(ClientError::MalformedPayload);
            },
            Some((eb, p2)) => {
                match decode_map_entry(eb) {
                    Err(_) => {
                        return Err(ClientError::MalformedPayload);
                    },
                    Ok(e) => {
                        let ghost prev = es@;
                        es.push(e);
                        proof {
                            assert(buf@.skip(p2 as int) =~= srest.skip(p2 - cur));
                            assert(es@.drop_last() =~= prev);
                            match parse_map_entries(buf@.skip(p2 as int)) {
                                None => {},
                                Some((r2, m2)) => {
                                    assert(map_entries_view(es@) =~= map_entries_view(prev).push(
                                        map_entry_view(e),
                                    ));
                                    assert(map_entries_view(prev).push(map_entry_view(e)) + r2
                                        =~= map_entries_view(prev) + (seq![map_entry_view(e)]
                                        + r2));
                                },
                            }
                        }
                        cur = p2;
                    },
                }
            },
        }
    }
}

/// Decodes one map entry.
pub fn decode_map_entry(buf: &[u8]) -> (r: Result<MapEntry, ClientError>)
    ensures
        match r {
            Ok(e) => parse_map_entry(buf@) == Some(map_entry_view(e)),
            Err(e) => parse_map_entry(buf@) is None && e == ClientError::MalformedPayload,
        },
    decreases buf@.len(), 9int,
{
    proof {
        assert(buf@.skip(0) =~= buf@);
    }
    match read_bytes_field(buf, 0, 1) {
        None => Err(ClientError::MalformedPayload),
        Some((kb, p)) => {
            match decode_map_key(kb) {
                Err(_) => Err(ClientError::MalformedPayload),
                Ok(key) => {
                    match read_bytes_field(buf, p, 2) {
                        None => Err(ClientError::MalformedPayload),
                        Some((vb, p2)) => {
                            if p2 != buf.len() {
                                Err(ClientError::MalformedPayload)
                            } else {
                                match decode_read_object_resp(vb) {
                                    Err(_) => Err(ClientError::MalformedPayload),
                                    Ok(v) => Ok(MapEntry { key, value: v }),
                                }
                            }
                        },
                    }
                },
            }
        },
    }
}

/// Decodes a batched read response.
pub fn decode_read_objects_resp(payload: &[u8]) -> (r: Result<ReadObjectsResp, ClientError>)
    ensures
        match r {
            Ok(m) => parse_read_objects_resp(payload@) == Some(read_objects_resp_view(m)),
            Err(e) => parse_read_objects_resp(payload@) is None && e
                == ClientError::MalformedPayload,
        },
{
    proof {
        assert(payload@.skip(0) =~= payload@);
    }
    match read_varint_field(payload, 0, 1) {
        None => {
            proof {
                match parse_varint_field(payload@, 1) {
                    None => {},
                    Some((v, n)) => {
                        assert(v > 1);
                    },
                }
            }
            Err(ClientError::MalformedPayload)
        },
        Some((v, p)) => {
            if v > 1 {
                Err(ClientError::MalformedPayload)
            } else {
                match decode_objects_list(payload, p) {
                    Err(_) => Err(ClientError::MalformedPayload),
                    Ok((objects, p2)) => {
                        match read_errorcode_tail(payload, p2) {
                            Err(_) => Err(ClientError::MalformedPayload),
                            Ok(c) => Ok(ReadObjectsResp { success: v == 1, objects, errorcode: c }),
                        }
                    },
                }
            }
        },
    }
}

/// Decodes zero or more nested read responses under field 2, starting at
/// `pos`.
#[verifier::rlimit(100)]
#[verifier::spinoff_prover]
fn decode_objects_list(buf: &[u8], pos: usize) -> (r: Result<
    (Vec<ReadObjectResp>, usize),
    ClientError,
>)
    requires
        pos <= buf@.len(),
    ensures
        match r {
            Ok((os, p)) => pos <= p <= buf@.len() && parse_objects_list(buf@.skip(pos as int))
                == Some((objects_list_view(os@), (p - pos) as nat)),
            Err(e) => parse_objects_list(buf@.skip(pos as int)) is None && e
                == ClientError::MalformedPayload,
        },
{
    let mut os: Vec<ReadObjectResp> = Vec::new();
    let mut cur: usize = pos;
    loop
        invariant
            pos <= cur <= buf@.len(),
            ({
                let whole = parse_objects_list(buf@.skip(pos as int));
                let rest = parse_objects_list(buf@.skip(cur as int));
                whole == match rest {
                    None => None::<(Seq<ReadRespV>, nat)>,
                    Some((r2, m2)) => Some((objects_list_view(os@) + r2, (cur - pos + m2) as nat)),
                }
            }),
        decreases buf@.len() - cur,
    {
        let ghost srest = buf@.skip(cur as int);
        if cur >= buf.len() || buf[cur] != 18 {
            proof {
                if srest.len() > 0 {
                    assert(srest[0] == buf@[cur as int]);
                }
                assert(parse_objects_list(srest) == Some((Seq::<ReadRespV>::empty(), 0nat)));
                assert(objects_list_view(os@) + Seq::<ReadRespV>::empty() =~= objects_list_view(
                    os@,
                ));
            }
            return Ok((os, cur));
        }
        assert(srest[0] == key_len_delim(2));
        match read_bytes_field(buf, cur, 2) {
            None => {
                return Err(ClientError::MalformedPayload);
            },
            Some((ob, p2)) => {
                match decode_read_object_resp(ob) {
                    Err(_) => {
                        return Err(ClientError::MalformedPayload);
                    },
                    Ok(o) => {
                        let ghost prev = os@;
                        os.push(o);
                        proof {
                            assert(buf@.skip(p2 as int) =~= srest.skip(p2 - cur));
                            assert(os@.drop_last() =~= prev);
                            match parse_objects_list(buf@.skip(p2 as int)) {
                                None => {},
                                Some((r2, m2)) => {
                                    assert(objects_list_view(os@) =~= objects_list_view(
                                        prev,
                                    ).push(read_resp_view(o)));
                                    assert(objects_list_view(prev).push(read_resp_view(o)) + r2
                                        =~= objects_list_view(prev) + (seq![read_resp_view(o)]
                                        + r2));
                                },
                            }
                        }
                        cur = p2;
                    },
                }
            },
        }
    }
}

/// Decodes a set update message.
pub fn decode_set_update(payload: &[u8]) -> (r: Result<SetUpdateMsg, ClientError>)
    ensures
        match r {
            Ok(m) => parse_set_update(payload@) == Some(
                (m.op_kind, m.adds.deep_view(), m.rems.deep_view()),
            ),
            Err(e) => parse_set_update(payload@) is None && e == ClientError::MalformedPayload,
        },
{
    proof {
        assert(payload@.skip(0) =~= payload@);
    }
    match read_varint_field(payload, 0, 1) {
        None => {
            proof {
                match parse_varint_field(payload@, 1) {
                    None => {},
                    Some((v, n)) => {
                        assert(v > 2);
                    },
                }
            }
            Err(ClientError::MalformedPayload)
        },
        Some((v, p)) => {
            let kind: SetOpKind;
            if v == 1 {
                kind = SetOpKind::Add;
            } else if v == 2 {
                kind = SetOpKind::Remove;
            } else {
                return Err(ClientError::MalformedPayload);
            }
            let (adds, p2) = read_repeated_blobs(payload, p, 2);
            proof {
                assert(payload@.skip(p2 as int) =~= payload@.skip(p as int).skip(p2 - p));
            }
            let (rems, p3) = read_repeated_blobs(payload, p2, 3);
            if p3 == payload.len() {
                Ok(SetUpdateMsg { op_kind: kind, adds, rems })
            } else {
                Err(ClientError::MalformedPayload)
            }
        },
    }
}

/// Decodes the combined response to a static read.
pub fn decode_static_read_objects_resp(payload: &[u8]) -> (r: Result<
    StaticReadObjectsResp,
    ClientError,
>)
    ensures
        match r {
            Ok(m) => parse_static_read_objects_resp(payload@) == Some(
                (read_objects_resp_view(m.objects), commit_resp_view(m.committime)),
            ),
            Err(e) => parse_static_read_objects_resp(payload@) is None && e
                == ClientError::MalformedPayload,
        },
{
    proof {
        assert(payload@.skip(0) =~= payload@);
    }
    match read_bytes_field(payload, 0, 1) {
        None => Err(ClientError::MalformedPayload),
        Some((ob, p)) => {
            match decode_read_objects_resp(ob) {
                Err(_) => Err(ClientError::MalformedPayload),
                Ok(objects) => {
                    match read_bytes_field(payload, p, 2) {
                        None => Err(ClientError::MalformedPayload),
                        Some((cb, p2)) => {
                            if p2 != payload.len() {
                                Err(ClientError::MalformedPayload)
                            } else {
                                match decode_commit_resp(cb) {
                                    Err(_) => Err(ClientError::MalformedPayload),
                                    Ok(committime) => Ok(
                                        StaticReadObjectsResp { objects, committime },
                                    ),
                                }
                            }
                        },
                    }
                },
            }
        },
    }
}

/// The combined static read response: the batched read outcome under field
/// 1, the commit outcome under field 2, nothing further.
pub open spec fn parse_static_read_objects_resp(s: Seq<u8>) -> Option<
    ((bool, Seq<ReadRespV>, Option<nat>), (bool, Option<Seq<u8>>, Option<nat>)),
> {
    match parse_len_delim(s, 1) {
        None => None,
        Some((ob, n)) => match parse_read_objects_resp(ob) {
            None => None,
            Some(objs) => match parse_len_delim(s.skip(n as int), 2) {
                None => None,
                Some((cb, n2)) => if n + n2 == s.len() {
                    match parse_commit_resp(cb) {
                        None => None,
                        Some(ct) => Some((objs, ct)),
                    }
                } else {
                    None
                },
            },
        },
    }
}


/// One decoded response message: the closed vocabulary of shapes a payload
/// can decode as, chosen by its message-kind tag.
#[derive(Debug)]
pub enum DecodedMessage {
    Error(ErrorResp),
    GetRegResp(Vec<u8>),
    CounterUpdate(Option<i64>),
    GetCounterResp(i32),
    OperationResp(OperationResp),
    SetUpdate(SetUpdateMsg),
    GetSetResp(Vec<Vec<u8>>),
    StartTransactionResp(StartTransactionResp),
    ReadObjectResp(ReadObjectResp),
    ReadObjectsResp(ReadObjectsResp),
    CommitResp(CommitResp),
    StaticReadObjectsResp(StaticReadObjectsResp),
}

/// Whether a message-kind tag belongs to the vocabulary the client decodes.
pub open spec fn known_message_code(c: u8) -> bool {
    ||| c == APB_ERROR_RESP
    ||| c == APB_GET_REG_RESP
    ||| c == APB_COUNTER_UPDATE
    ||| c == APB_GET_COUNTER_RESP
    ||| c == APB_OPERATION_RESP
    ||| c == APB_SET_UPDATE
    ||| c == APB_GET_SET_RESP
    ||| c == APB_START_TRANSACTION_RESP
    ||| c == APB_READ_OBJECT_RESP
    ||| c == APB_READ_OBJECTS_RESP
    ||| c == APB_COMMIT_RESP
    ||| c == APB_STATIC_READ_OBJECTS_RESP
}

/// Decodes a payload as the type its message-kind tag demands. A tag
/// outside the vocabulary is an unknown-kind error; a payload the tag's
/// grammar rejects is a malformed-payload error.
pub fn parse_from_bytes(msgcode: u8, bytes: &[u8]) -> (r: Result<DecodedMessage, ClientError>)
    ensures
        !known_message_code(msgcode) ==> r == Err::<DecodedMessage, ClientError>(
            ClientError::UnknownMessageKind,
        ),
        r is Err ==> (r->Err_0 == ClientError::UnknownMessageKind <==> !known_message_code(
            msgcode,
        )),
        msgcode == APB_ERROR_RESP ==> (match r {
            Ok(m) => m is Error && parse_error_resp(bytes@) == Some(
                (m->Error_0.errmsg@, m->Error_0.errcode as nat),
            ),
            Err(e) => parse_error_resp(bytes@) is None,
        }),
        msgcode == APB_GET_REG_RESP ==> (match r {
            Ok(m) => m is GetRegResp && parse_get_reg_resp(bytes@) == Some(m->GetRegResp_0@),
            Err(e) => parse_get_reg_resp(bytes@) is None,
        }),
        msgcode == APB_COUNTER_UPDATE ==> (match r {
            Ok(m) => m is CounterUpdate && parse_counter_update(bytes@) == Some(
                match m->CounterUpdate_0 {
                    Some(w) => Some(w as int),
                    None => None,
                },
            ),
            Err(e) => parse_counter_update(bytes@) is None,
        }),
        msgcode == APB_GET_COUNTER_RESP ==> (match r {
            Ok(m) => m is GetCounterResp && parse_get_counter_resp(bytes@) == Some(
                m->GetCounterResp_0 as int,
            ),
            Err(e) => parse_get_counter_resp(bytes@) is None,
        }),
        msgcode == APB_OPERATION_RESP ==> (match r {
            Ok(m) => m is OperationResp && parse_operation_resp(bytes@) == Some(
                (
                    m->OperationResp_0.success,
                    match m->OperationResp_0.errorcode {
                        Some(v) => Some(v as nat),
                        None => None,
                    },
                ),
            ),
            Err(e) => parse_operation_resp(bytes@) is None,
        }),
        msgcode == APB_SET_UPDATE ==> (match r {
            Ok(m) => m is SetUpdate && parse_set_update(bytes@) == Some(
                (
                    m->SetUpdate_0.op_kind,
                    m->SetUpdate_0.adds.deep_view(),
                    m->SetUpdate_0.rems.deep_view(),
                ),
            ),
            Err(e) => parse_set_update(bytes@) is None,
        }),
        msgcode == APB_GET_SET_RESP ==> (match r {
            Ok(m) => m is GetSetResp && parse_blobs_message(bytes@) == Some(
                m->GetSetResp_0.deep_view(),
            ),
            Err(e) => parse_blobs_message(bytes@) is None,
        }),
        msgcode == APB_START_TRANSACTION_RESP ==> (match r {
            Ok(m) => m is StartTransactionResp && parse_start_transaction_resp(bytes@) == Some(
                (
                    m->StartTransactionResp_0.success,
                    match m->StartTransactionResp_0.transaction_descriptor {
                        Some(d) => Some(d@),
                        None => None,
                    },
                    match m->StartTransactionResp_0.errorcode {
                        Some(v) => Some(v as nat),
                        None => None,
                    },
                ),
            ),
            Err(e) => parse_start_transaction_resp(bytes@) is None,
        }),
        msgcode == APB_READ_OBJECT_RESP ==> (match r {
            Ok(m) => m is ReadObjectResp && parse_read_object_resp(bytes@) == Some(
                read_resp_view(m->ReadObjectResp_0),
            ),
            Err(e) => parse_read_object_resp(bytes@) is None,
        }),
        msgcode == APB_READ_OBJECTS_RESP ==> (match r {
            Ok(m) => m is ReadObjectsResp && parse_read_objects_resp(bytes@) == Some(
                read_objects_resp_view(m->ReadObjectsResp_0),
            ),
            Err(e) => parse_read_objects_resp(bytes@) is None,
        }),
        msgcode == APB_COMMIT_RESP ==> (match r {
            Ok(m) => m is CommitResp && parse_commit_resp(bytes@) == Some(
                commit_resp_view(m->CommitResp_0),
            ),
            Err(e) => parse_commit_resp(bytes@) is None,
        }),
        msgcode == APB_STATIC_READ_OBJECTS_RESP ==> (match r {
            Ok(m) => m is StaticReadObjectsResp && parse_static_read_objects_resp(bytes@) == Some(
                (
                    read_objects_resp_view(m->StaticReadObjectsResp_0.objects),
                    commit_resp_view(m->StaticReadObjectsResp_0.committime),
                ),
            ),
            Err(e) => parse_static_read_objects_resp(bytes@) is None,
        }),
{
    if msgcode == APB_ERROR_RESP {
        match decode_error_resp(bytes) {
            Ok(m) => Ok(DecodedMessage::Error(m)),
            Err(e) => Err(e),
        }
    } else if msgcode == APB_GET_REG_RESP {
        match decode_get_reg_resp(bytes) {
            Ok(m) => Ok(DecodedMessage::GetRegResp(m)),
            Err(e) => Err(e),
        }
    } else if msgcode == APB_COUNTER_UPDATE {
        match decode_counter_update(bytes) {
            Ok(m) => Ok(DecodedMessage::CounterUpdate(m)),
            Err(e) => Err(e),
        }
    } else if msgcode == APB_GET_COUNTER_RESP {
        match decode_get_counter_resp(bytes) {
            Ok(m) => Ok(DecodedMessage::GetCounterResp(m)),
            Err(e) => Err(e),
        }
    } else if msgcode == APB_OPERATION_RESP {
        match decode_operation_resp(bytes) {
            Ok(m) => Ok(DecodedMessage::OperationResp(m)),
            Err(e) => Err(e),
        }
    } else if msgcode == APB_SET_UPDATE {
        match decode_set_update(bytes) {
            Ok(m) => Ok(DecodedMessage::SetUpdate(m)),
            Err(e) => Err(e),
        }
    } else if msgcode == APB_GET_SET_RESP {
        match decode_blobs_message(bytes) {
            Ok(m) => Ok(DecodedMessage::GetSetResp(m)),
            Err(e) => Err(e),
        }
    } else if msgcode == APB_START_TRANSACTION_RESP {
        match decode_start_transaction_resp(bytes) {
            Ok(m) => Ok(DecodedMessage::StartTransactionResp(m)),
            Err(e) => Err(e),
        }
    } else if msgcode == APB_READ_OBJECT_RESP {
        match decode_read_object_resp(bytes) {
            Ok(m) => Ok(DecodedMessage::ReadObjectResp(m)),
            Err(e) => Err(e),
        }
    } else if msgcode == APB_READ_OBJECTS_RESP {
        match decode_read_objects_resp(bytes) {
            Ok(m) => Ok(DecodedMessage::ReadObjectsResp(m)),
            Err(e) => Err(e),
        }
    } else if msgcode == APB_COMMIT_RESP {
        match decode_commit_resp(bytes) {
            Ok(m) => Ok(DecodedMessage::CommitResp(m)),
            Err(e) => Err(e),
        }
    } else if msgcode == APB_STATIC_READ_OBJECTS_RESP {
        match decode_static_read_objects_resp(bytes) {
            Ok(m) => Ok(DecodedMessage::StaticReadObjectsResp(m)),
            Err(e) => Err(e),
        }
    } else {
        Err(ClientError::UnknownMessageKind)
    }
}


/// Codec coherence: a counter update message round-trips through the
/// codec's two directions — parsing the encoding of any signed delta yields
/// that delta back.
pub proof fn lemma_counter_update_roundtrip(inc: i64)
    ensures
        parse_counter_update(crate::messages::enc_counter_update(inc as int)) == Some(
            Some(inc as int),
        ),
{
    let zz = crate::codec::zigzag(inc as int);
    let s = crate::messages::enc_counter_update(inc as int);
    crate::codec::lemma_parse_enc_varint(zz, Seq::empty());
    assert(crate::codec::enc_varint(zz) + Seq::<u8>::empty() =~= crate::codec::enc_varint(zz));
    assert(s =~= seq![8u8] + crate::codec::enc_varint(zz));
    assert(s.skip(1) =~= crate::codec::enc_varint(zz));
    assert(s[0] == key_varint(1));
    assert(zz <= u64::MAX);
    crate::codec::lemma_zigzag_roundtrip(inc as int);
}


/// The first element of a repeated byte-string field leads its encoding.
proof fn lemma_enc_blob_fields_head(field: nat, items: Seq<Seq<u8>>)
    requires
        items.len() > 0,
    ensures
        crate::messages::enc_blob_fields(field, items) == crate::messages::enc_len_delim(
            field,
            items[0],
        ) + crate::messages::enc_blob_fields(field, items.drop_first()),
    decreases items.len(),
{
    let enc_ld = crate::messages::enc_len_delim(field, items[0]);
    if items.len() == 1 {
        assert(items.drop_last() =~= Seq::<Seq<u8>>::empty());
        assert(items.drop_first() =~= Seq::<Seq<u8>>::empty());
        assert(items.last() == items[0]);
        assert(Seq::<u8>::empty() + enc_ld =~= enc_ld);
        assert(enc_ld + Seq::<u8>::empty() =~= enc_ld);
    } else {
        let front = items.drop_last();
        lemma_enc_blob_fields_head(field, front);
        assert(front[0] == items[0]);
        assert(items.drop_first().drop_last() =~= front.drop_first());
        assert(items.drop_first().last() == items.last());
        let tail_enc = crate::messages::enc_blob_fields(field, front.drop_first());
        let last_enc = crate::messages::enc_len_delim(field, items.last());
        assert(crate::messages::enc_blob_fields(field, items.drop_first()) == tail_enc
            + last_enc);
        assert((enc_ld + tail_enc) + last_enc =~= enc_ld + (tail_enc + last_enc));
    }
}

/// Parsing inverts the encoding of one length-delimited field, whatever
/// bytes follow it.
proof fn lemma_parse_enc_len_delim(field: nat, body: Seq<u8>, rest: Seq<u8>)
    requires
        field < 16,
    ensures
        ({
            let enc = crate::messages::enc_len_delim(field, body);
            parse_len_delim(enc + rest, field) == Some((body, enc.len() as nat))
        }),
{
    let lenv = crate::codec::enc_varint(body.len());
    let enc = crate::messages::enc_len_delim(field, body);
    let s = enc + rest;
    assert(s[0] == key_len_delim(field));
    crate::codec::lemma_parse_enc_varint(body.len(), body + rest);
    assert(s.skip(1) =~= lenv + (body + rest));
    let n = lenv.len();
    assert(parse_varint(s.skip(1)) == Some((body.len(), n as nat)));
    assert(s.subrange((1 + n) as int, (1 + n + body.len()) as int) =~= body);
}

/// Parsing inverts the encoding of a whole repeated byte-string field, as
/// long as what follows does not open another entry of the same field.
proof fn lemma_parse_repeated_enc_blobs(field: nat, items: Seq<Seq<u8>>, rest: Seq<u8>)
    requires
        field < 16,
        rest.len() == 0 || rest[0] != key_len_delim(field),
    ensures
        ({
            let enc = crate::messages::enc_blob_fields(field, items);
            parse_repeated_blobs(enc + rest, field) == (items, enc.len() as nat)
        }),
    decreases items.len(),
{
    let enc = crate::messages::enc_blob_fields(field, items);
    if items.len() == 0 {
        assert(enc + rest =~= rest);
        assert(parse_len_delim(rest, field) is None);
        assert(items =~= Seq::<Seq<u8>>::empty());
    } else {
        lemma_enc_blob_fields_head(field, items);
        let head = crate::messages::enc_len_delim(field, items[0]);
        let tail = crate::messages::enc_blob_fields(field, items.drop_first());
        assert(enc + rest =~= head + (tail + rest));
        lemma_parse_enc_len_delim(field, items[0], tail + rest);
        lemma_parse_repeated_enc_blobs(field, items.drop_first(), rest);
        assert((enc + rest).skip(head.len() as int) =~= tail + rest);
        assert(seq![items[0]] + items.drop_first() =~= items);
    }
}

/// Codec coherence: a set update message round-trips through the codec's
/// two directions — parsing the encoding of any batch of added and removed
/// elements yields the batch back.
pub proof fn lemma_set_update_roundtrip(kind: SetOpKind, adds: Seq<Seq<u8>>, rems: Seq<Seq<u8>>)
    ensures
        parse_set_update(crate::messages::enc_set_update(kind, adds, rems)) == Some(
            (kind, adds, rems),
        ),
{
    let tag = crate::crdt::set_op_tag(kind);
    let tag_enc = crate::messages::enc_varint_field(1, tag);
    let adds_enc = crate::messages::enc_blob_fields(2, adds);
    let rems_enc = crate::messages::enc_blob_fields(3, rems);
    let s = crate::messages::enc_set_update(kind, adds, rems);
    assert(s =~= tag_enc + (adds_enc + rems_enc));
    assert(s[0] == key_varint(1));
    crate::codec::lemma_parse_enc_varint(tag, adds_enc + rems_enc);
    assert(crate::codec::enc_varint(tag) =~= seq![tag as u8]);
    assert(s.skip(1) =~= crate::codec::enc_varint(tag) + (adds_enc + rems_enc));
    assert(parse_varint(s.skip(1)) == Some((tag, 1nat)));
    if rems.len() > 0 {
        lemma_enc_blob_fields_head(3, rems);
        assert(rems_enc[0] == key_len_delim(3));
    }
    lemma_parse_repeated_enc_blobs(2, adds, rems_enc);
    assert(s.skip(2) =~= adds_enc + rems_enc);
    lemma_parse_repeated_enc_blobs(3, rems, Seq::empty());
    assert(rems_enc + Seq::<u8>::empty() =~= rems_enc);
    assert(s.skip((2 + adds_enc.len()) as int) =~= rems_enc);
}

} // verus!
