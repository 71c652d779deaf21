//! Transaction lifecycle scenarios, driven with scripted server responses:
//! the session functions are pure, so each exchange is a frame in and a
//! frame out.

use antidotedb::crdt::{
    BoundObject, Counter, CounterT, CrdtType, FatCounter, LWWReg, MVReg, MapNestedUpdate, MapT,
    Object, ObjectReset, Operation, RRMap, RegT, SetT, ORSet,
};
use antidotedb::projection::{project_read_resp, project_read_responses, ReadSnapshot};
use antidotedb::session::{start_transaction_request, start_transaction_response, Transaction};
use antidotedb::ClientError;

fn be64(v: u64) -> Vec<u8> {
    let mut out = Vec::new();
    antidotedb::codec::write_be_u64(&mut out, v);
    out
}

/// A length-delimited field as a server would encode it.
fn len_delim(field: u8, body: &[u8]) -> Vec<u8> {
    assert!(body.len() < 128);
    let mut out = vec![8 * field + 2, body.len() as u8];
    out.extend_from_slice(body);
    out
}

/// An unsigned-integer field with a single-byte value.
fn varint_field(field: u8, v: u8) -> Vec<u8> {
    assert!(v < 128);
    vec![8 * field, v]
}

/// A begin response granting the descriptor.
fn begin_ok(descriptor: &[u8]) -> Vec<u8> {
    let mut out = varint_field(1, 1);
    out.extend_from_slice(&len_delim(2, descriptor));
    out
}

/// A batched read response carrying the given per-object responses.
fn read_objects_ok(objects: &[Vec<u8>]) -> Vec<u8> {
    let mut out = varint_field(1, 1);
    for o in objects {
        out.extend_from_slice(&len_delim(2, o));
    }
    out
}

/// A per-object response carrying a counter snapshot.
fn counter_resp(zigzag: u8) -> Vec<u8> {
    len_delim(1, &varint_field(1, zigzag))
}

/// A per-object response carrying a register snapshot.
fn reg_resp(value: u64) -> Vec<u8> {
    len_delim(3, &len_delim(1, &be64(value)))
}

/// A per-object response carrying a multi-value register snapshot.
fn mvreg_resp(values: &[u64]) -> Vec<u8> {
    let mut body = Vec::new();
    for v in values {
        body.extend_from_slice(&len_delim(1, &be64(*v)));
    }
    len_delim(4, &body)
}

fn begin(snapshot: Option<&Vec<u8>>, descriptor: &[u8]) -> Transaction {
    let frame = start_transaction_request(snapshot).unwrap();
    assert_eq!(frame[4], 119);
    start_transaction_response(124, &begin_ok(descriptor)).unwrap()
}

fn read_one(t: &Transaction, obj: BoundObject, resp_payload: &[u8]) -> ReadSnapshot {
    let crdt_type = obj.crdt_type;
    let objects = vec![obj];
    let frame = t.read_request(&objects).unwrap();
    assert_eq!(frame[4], 116);
    let resps = t
        .read_response(126, &read_objects_ok(&[resp_payload.to_vec()]))
        .unwrap();
    assert_eq!(resps.len(), 1);
    project_read_resp(crdt_type, &resps[0]).unwrap()
}

fn update(t: &Transaction, ops: Vec<Operation>) {
    let frame = t.update_request(&ops).unwrap();
    assert_eq!(frame[4], 118);
    t.update_response(111, &varint_field(1, 1)).unwrap();
}

#[test]
fn transaction_isolation_scenario() {
    // Begin with no snapshot; reset a reset-capable counter, add one three
    // times and subtract five; the counter must read as the net value, the
    // commit timestamp must seed a later begin that still sees it.
    let ctr = FatCounter::new("cnt", "bkt");
    let t1 = begin(None, &[0xAB, 0xCD]);
    assert!(t1.active());
    update(
        &t1,
        vec![ctr.reset(), ctr.inc_one(), ctr.inc_one(), ctr.inc_one(), ctr.inc(-5)],
    );
    // zigzag(-2) = 3
    match read_one(&t1, ctr.get_object(), &counter_resp(3)) {
        ReadSnapshot::Counter(v) => assert_eq!(v, -2),
        other => panic!("wrong snapshot: {:?}", other),
    }
    let mut t1 = t1;
    let commit_frame = t1.commit_request().unwrap();
    assert_eq!(commit_frame[4], 121);
    let mut commit_payload = varint_field(1, 1);
    commit_payload.extend_from_slice(&len_delim(2, &[9, 8, 7]));
    let c = t1.commit_response(127, &commit_payload).unwrap();
    assert_eq!(c, vec![9, 8, 7]);
    assert!(!t1.active());
    // A second transaction begun at the commit timestamp sees the value.
    let t2 = begin(Some(&c), &[0xEE]);
    match read_one(&t2, ctr.get_object(), &counter_resp(3)) {
        ReadSnapshot::Counter(v) => assert_eq!(v, -2),
        other => panic!("wrong snapshot: {:?}", other),
    }
}

#[test]
fn abort_discards_writes_scenario() {
    // Update a register to 23 inside a transaction, read it back, abort;
    // a transaction begun from the earlier snapshot sees the old value.
    let reg = LWWReg::new("reg", "bkt");
    let snapshot = vec![1u8, 1, 1];
    let mut t = begin(Some(&snapshot), &[0x01]);
    update(&t, vec![reg.set(23)]);
    match read_one(&t, reg.get_object(), &reg_resp(23)) {
        ReadSnapshot::Register(v) => assert_eq!(v, 23),
        other => panic!("wrong snapshot: {:?}", other),
    }
    let abort_frame = t.abort_request().unwrap();
    assert_eq!(abort_frame[4], 120);
    t.abort_response(111, &varint_field(1, 1)).unwrap();
    assert!(!t.active());
    // The pre-update value is what a fresh transaction at the old snapshot
    // gets from the server.
    let t2 = begin(Some(&snapshot), &[0x02]);
    match read_one(&t2, reg.get_object(), &reg_resp(7)) {
        ReadSnapshot::Register(v) => {
            assert_eq!(v, 7);
            assert_ne!(v, 23);
        },
        other => panic!("wrong snapshot: {:?}", other),
    }
}

#[test]
fn multi_value_register_merge_scenario() {
    // Two values written concurrently from different snapshots both appear
    // in a later read; order carries no meaning, so compare as sets.
    let reg = MVReg::new("mv", "bkt");
    let t1 = begin(None, &[0x01]);
    update(&t1, vec![reg.set(2)]);
    let t2 = begin(None, &[0x02]);
    update(&t2, vec![reg.set(23)]);
    let t3 = begin(None, &[0x03]);
    match read_one(&t3, reg.get_object(), &mvreg_resp(&[23, 2])) {
        ReadSnapshot::MultiValue(values) => {
            let mut sorted = values.clone();
            sorted.sort();
            assert_eq!(sorted, vec![2, 23]);
        },
        other => panic!("wrong snapshot: {:?}", other),
    }
}

#[test]
fn batched_read_preserves_order_with_duplicates() {
    // Reading [A, B, A] yields snapshots in exactly that order, the
    // duplicate object present twice and independently valued.
    let a = Counter::new("a", "bkt");
    let b = Counter::new("b", "bkt");
    let t = begin(None, &[0x04]);
    let objects = vec![a.get_object(), b.get_object(), a.get_object()];
    let frame = t.read_request(&objects).unwrap();
    assert_eq!(frame[4], 116);
    // zigzag: 1 -> 2, 2 -> 4
    let payload = read_objects_ok(&[counter_resp(2), counter_resp(4), counter_resp(2)]);
    let resps = t.read_response(126, &payload).unwrap();
    assert_eq!(resps.len(), 3);
    let snaps = project_read_responses(&objects, &resps).unwrap();
    let values: Vec<i64> = snaps
        .iter()
        .map(|s| match s {
            ReadSnapshot::Counter(v) => *v,
            other => panic!("wrong snapshot: {:?}", other),
        })
        .collect();
    assert_eq!(values, vec![1, 2, 1]);
}

#[test]
fn map_projection_scenario() {
    // A map updated with nested counter, set and register keys in one call
    // projects to a mapping keyed by (key, nested type), each value
    // projected by its own type's rules.
    let map = RRMap::new("123", "rrmap_test");
    let t = begin(None, &[0x05]);
    update(
        &t,
        vec![map.update(
            vec![
                MapNestedUpdate { key: Counter::map_key("counter"), update: Counter::inc_op(2) },
                MapNestedUpdate { key: ORSet::map_key("orset"), update: ORSet::add_op(&[2, 1]) },
                MapNestedUpdate { key: LWWReg::map_key("lwwreg"), update: LWWReg::set_op(3) },
            ],
            Vec::new(),
        )],
    );
    // The server answers the read with one entry per nested key.
    let mut counter_key = len_delim(1, b"counter");
    counter_key.extend_from_slice(&varint_field(2, 3));
    let mut orset_key = len_delim(1, b"orset");
    orset_key.extend_from_slice(&varint_field(2, 4));
    let mut lww_key = len_delim(1, b"lwwreg");
    lww_key.extend_from_slice(&varint_field(2, 5));
    let mut set_body = Vec::new();
    set_body.extend_from_slice(&len_delim(1, &be64(1)));
    set_body.extend_from_slice(&len_delim(1, &be64(2)));
    let set_value = len_delim(2, &set_body);
    let mut entries = Vec::new();
    let mut e1 = len_delim(1, &counter_key);
    e1.extend_from_slice(&len_delim(2, &counter_resp(4)));
    entries.extend_from_slice(&len_delim(1, &e1));
    let mut e2 = len_delim(1, &orset_key);
    e2.extend_from_slice(&len_delim(2, &set_value));
    entries.extend_from_slice(&len_delim(1, &e2));
    let mut e3 = len_delim(1, &lww_key);
    e3.extend_from_slice(&len_delim(2, &reg_resp(3)));
    entries.extend_from_slice(&len_delim(1, &e3));
    let map_payload = len_delim(6, &entries);
    match read_one(&t, map.get_object(), &map_payload) {
        ReadSnapshot::MapEntries(es) => {
            assert_eq!(es.len(), 3);
            assert_eq!(es[0].key.key, b"counter".to_vec());
            assert_eq!(es[0].key.crdt_type, CrdtType::Counter);
            assert!(matches!(es[0].value, ReadSnapshot::Counter(2)));
            assert_eq!(es[1].key.key, b"orset".to_vec());
            assert_eq!(es[1].key.crdt_type, CrdtType::OrSet);
            match &es[1].value {
                ReadSnapshot::Elements(items) => {
                    assert_eq!(*items, vec![be64(1), be64(2)]);
                },
                other => panic!("wrong nested snapshot: {:?}", other),
            }
            assert_eq!(es[2].key.key, b"lwwreg".to_vec());
            assert_eq!(es[2].key.crdt_type, CrdtType::LwwReg);
            assert!(matches!(es[2].value, ReadSnapshot::Register(3)));
        },
        other => panic!("wrong snapshot: {:?}", other),
    }
}

#[test]
fn server_reported_failures_are_application_errors() {
    let t = begin(None, &[0x06]);
    assert_eq!(
        t.update_response(111, &varint_field(1, 0)),
        Err(ClientError::ApplicationFailure)
    );
    assert!(matches!(
        t.read_response(126, &varint_field(1, 0)),
        Err(ClientError::ApplicationFailure)
    ));
    assert!(matches!(
        start_transaction_response(124, &varint_field(1, 0)),
        Err(ClientError::ApplicationFailure)
    ));
}

#[test]
fn wrong_message_kind_is_a_protocol_error() {
    let t = begin(None, &[0x07]);
    assert_eq!(
        t.update_response(126, &varint_field(1, 1)),
        Err(ClientError::UnexpectedMessageKind)
    );
    assert!(matches!(
        t.read_response(111, &varint_field(1, 1)),
        Err(ClientError::UnexpectedMessageKind)
    ));
    assert!(matches!(
        start_transaction_response(0, &varint_field(1, 1)),
        Err(ClientError::UnexpectedMessageKind)
    ));
}

#[test]
fn commit_rejection_moves_to_terminal_failed_state() {
    let mut t = begin(None, &[0x08]);
    assert_eq!(
        t.commit_response(127, &varint_field(1, 0)),
        Err(ClientError::ApplicationFailure)
    );
    assert!(!t.active());
}

#[test]
fn projection_rejects_mismatched_snapshots() {
    let t = begin(None, &[0x09]);
    let ctr = Counter::new("c", "bkt");
    // A register response projected as a counter is a malformed payload.
    let objects = vec![ctr.get_object()];
    t.read_request(&objects).unwrap();
    let resps = t
        .read_response(126, &read_objects_ok(&[reg_resp(1)]))
        .unwrap();
    assert!(matches!(
        project_read_resp(CrdtType::Counter, &resps[0]),
        Err(ClientError::MalformedPayload)
    ));
    // A register buffer that is not eight bytes long does not project.
    let bad_reg = len_delim(3, &len_delim(1, &[1, 2, 3]));
    let resps = t
        .read_response(126, &read_objects_ok(&[bad_reg]))
        .unwrap();
    assert!(matches!(
        project_read_resp(CrdtType::LwwReg, &resps[0]),
        Err(ClientError::MalformedPayload)
    ));
}
