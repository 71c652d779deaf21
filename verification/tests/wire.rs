//! Wire-level tests: framing, integer encodings, request message bytes, and
//! response decoding.

use antidotedb::codec::{
    read_be_u32, read_be_u64, read_varint, write_be_u32, write_be_u64, write_varint,
    zigzag_decode, zigzag_encode,
};
use antidotedb::crdt::{crdt_tag, CounterT, CrdtType, Object, ObjectReset, RegT, SetOpKind, SetT};
use antidotedb::crdt::{Counter, FatCounter, LWWReg, ORSet};
use antidotedb::decode::{
    decode_commit_resp, decode_error_resp, decode_get_counter_resp, decode_get_reg_resp,
    decode_operation_resp, decode_start_transaction_resp,
};
use antidotedb::frame::{decode_frame, encode_frame, frame_body_len};
use antidotedb::messages::{
    encode_abort_transaction, encode_commit_transaction, encode_read_objects,
    encode_start_transaction, encode_update_objects,
};
use antidotedb::responses::{decode_blobs_message, decode_set_update, parse_from_bytes, DecodedMessage};
use antidotedb::ClientError;

fn be64(v: u64) -> Vec<u8> {
    let mut out = Vec::new();
    write_be_u64(&mut out, v);
    out
}

#[test]
fn be_u32_round_trip() {
    let mut out = Vec::new();
    write_be_u32(&mut out, 0x01020304);
    assert_eq!(out, vec![1, 2, 3, 4]);
    assert_eq!(read_be_u32(&out), 0x01020304);
}

#[test]
fn be_u64_round_trip() {
    let out = be64(23);
    assert_eq!(out, vec![0, 0, 0, 0, 0, 0, 0, 23]);
    assert_eq!(read_be_u64(&out), 23);
    let big = be64(u64::MAX);
    assert_eq!(big, vec![0xFF; 8]);
    assert_eq!(read_be_u64(&big), u64::MAX);
}

#[test]
fn varint_small_and_multibyte() {
    let mut out = Vec::new();
    write_varint(&mut out, 0);
    assert_eq!(out, vec![0]);
    let mut out = Vec::new();
    write_varint(&mut out, 300);
    assert_eq!(out, vec![0xAC, 0x02]);
    assert_eq!(read_varint(&out, 0), Some((300, 2)));
    let mut out = Vec::new();
    write_varint(&mut out, u64::MAX);
    assert_eq!(out.len(), 10);
    assert_eq!(read_varint(&out, 0), Some((u64::MAX, 10)));
}

#[test]
fn varint_rejects_truncated_input() {
    assert_eq!(read_varint(&[0x80], 0), None);
    assert_eq!(read_varint(&[], 0), None);
}

#[test]
fn zigzag_maps_small_magnitudes_to_small_values() {
    assert_eq!(zigzag_encode(0), 0);
    assert_eq!(zigzag_encode(-1), 1);
    assert_eq!(zigzag_encode(1), 2);
    assert_eq!(zigzag_encode(-2), 3);
    assert_eq!(zigzag_encode(2), 4);
    for v in [0i64, 1, -1, 5, -5, i64::MAX, i64::MIN] {
        assert_eq!(zigzag_decode(zigzag_encode(v)), v);
    }
}

#[test]
fn frame_round_trip_preserves_kind_and_payload() {
    let payload: Vec<u8> = (0..=255u8).collect();
    let frame = encode_frame(119, &payload);
    assert_eq!(frame.len(), payload.len() + 5);
    assert_eq!(&frame[0..4], &[0, 0, 1, 1]);
    let (code, decoded) = decode_frame(&frame).expect("complete frame");
    assert_eq!(code, 119);
    assert_eq!(decoded, payload);
}

#[test]
fn frame_round_trip_empty_payload() {
    let frame = encode_frame(121, &[]);
    assert_eq!(frame, vec![0, 0, 0, 1, 121]);
    let (code, payload) = decode_frame(&frame).expect("complete frame");
    assert_eq!(code, 121);
    assert!(payload.is_empty());
}

#[test]
fn frame_header_length() {
    assert_eq!(frame_body_len(&[0, 0, 0, 9]), Some(8));
    assert_eq!(frame_body_len(&[0, 0, 0, 1]), Some(0));
    assert_eq!(frame_body_len(&[0, 0, 0, 0]), None);
}

#[test]
fn frame_rejects_truncated_or_padded_input() {
    let frame = encode_frame(111, &[1, 2, 3]);
    assert!(decode_frame(&frame[..frame.len() - 1]).is_none());
    let mut padded = frame.clone();
    padded.push(0);
    assert!(decode_frame(&padded).is_none());
}

#[test]
fn start_transaction_request_bytes() {
    assert_eq!(encode_start_transaction(None), vec![0x12, 0x00]);
    let ts = vec![1u8, 2, 3];
    assert_eq!(
        encode_start_transaction(Some(&ts)),
        vec![0x0A, 3, 1, 2, 3, 0x12, 0x00]
    );
}

#[test]
fn commit_and_abort_request_bytes() {
    let d = vec![0xABu8, 0xCD];
    assert_eq!(encode_commit_transaction(&d), vec![0x0A, 2, 0xAB, 0xCD]);
    assert_eq!(encode_abort_transaction(&d), vec![0x0A, 2, 0xAB, 0xCD]);
}

#[test]
fn read_objects_request_bytes() {
    let reg = LWWReg::new("k", "b");
    let objects = vec![reg.get_object()];
    let d = vec![0x01u8];
    let bytes = encode_read_objects(&objects, &d);
    assert_eq!(
        bytes,
        vec![
            0x0A, 8, 0x0A, 1, b'k', 0x10, 5, 0x1A, 1, b'b', // bound object
            0x12, 1, 0x01, // descriptor
        ]
    );
}

#[test]
fn update_objects_request_counter_bytes() {
    let ctr = Counter::new("c", "b");
    let ops = vec![ctr.inc(2)];
    let d = vec![0x01u8];
    let bytes = encode_update_objects(&ops, &d);
    assert_eq!(
        bytes,
        vec![
            0x0A, 16, // update op
            0x0A, 8, 0x0A, 1, b'c', 0x10, 3, 0x1A, 1, b'b', // bound object
            0x12, 4, 0x0A, 2, 0x08, 4, // counterop: zigzag(2) = 4
            0x12, 1, 0x01, // descriptor
        ]
    );
}

#[test]
fn update_objects_request_reset_bytes() {
    let ctr = FatCounter::new("c", "b");
    let ops = vec![ctr.reset()];
    let d = vec![0x01u8];
    let bytes = encode_update_objects(&ops, &d);
    assert_eq!(
        bytes,
        vec![
            0x0A, 14, 0x0A, 8, 0x0A, 1, b'c', 0x10, 12, 0x1A, 1, b'b', // bound object
            0x12, 2, 0x32, 0, // resetop, empty
            0x12, 1, 0x01,
        ]
    );
}

#[test]
fn update_objects_request_register_bytes() {
    let reg = LWWReg::new("r", "b");
    let ops = vec![reg.set(23)];
    let d = vec![0x01u8];
    let bytes = encode_update_objects(&ops, &d);
    let mut expected = vec![
        0x0A, 24, 0x0A, 8, 0x0A, 1, b'r', 0x10, 5, 0x1A, 1, b'b', // bound object
        0x12, 12, 0x1A, 10, 0x0A, 8,
    ];
    expected.extend_from_slice(&be64(23));
    expected.extend_from_slice(&[0x12, 1, 0x01]);
    assert_eq!(bytes, expected);
}

#[test]
fn update_objects_request_set_add_bytes() {
    let set = ORSet::new("s", "b");
    let ops = vec![set.add(&[2])];
    let d = vec![0x01u8];
    let bytes = encode_update_objects(&ops, &d);
    let mut expected = vec![
        0x0A, 26, 0x0A, 8, 0x0A, 1, b's', 0x10, 4, 0x1A, 1, b'b', // bound object
        0x12, 14, 0x12, 12, 0x08, 1, 0x12, 8,
    ];
    expected.extend_from_slice(&be64(2));
    expected.extend_from_slice(&[0x12, 1, 0x01]);
    assert_eq!(bytes, expected);
}

#[test]
fn decode_start_transaction_resp_success() {
    let m = decode_start_transaction_resp(&[0x08, 1, 0x12, 2, 0xAB, 0xCD]).unwrap();
    assert!(m.success);
    assert_eq!(m.transaction_descriptor, Some(vec![0xAB, 0xCD]));
    assert_eq!(m.errorcode, None);
}

#[test]
fn decode_start_transaction_resp_failure_with_code() {
    let m = decode_start_transaction_resp(&[0x08, 0, 0x18, 7]).unwrap();
    assert!(!m.success);
    assert_eq!(m.transaction_descriptor, None);
    assert_eq!(m.errorcode, Some(7));
}

#[test]
fn decode_start_transaction_resp_rejects_junk() {
    assert_eq!(
        decode_start_transaction_resp(&[0xFF]),
        Err(ClientError::MalformedPayload)
    );
    assert_eq!(
        decode_start_transaction_resp(&[0x08, 1, 0x55]),
        Err(ClientError::MalformedPayload)
    );
}

#[test]
fn decode_operation_resp_both_outcomes() {
    assert!(decode_operation_resp(&[0x08, 1]).unwrap().success);
    let failed = decode_operation_resp(&[0x08, 0, 0x10, 3]).unwrap();
    assert!(!failed.success);
    assert_eq!(failed.errorcode, Some(3));
}

#[test]
fn decode_commit_resp_success() {
    let m = decode_commit_resp(&[0x08, 1, 0x12, 3, 9, 9, 9]).unwrap();
    assert!(m.success);
    assert_eq!(m.commit_time, Some(vec![9, 9, 9]));
}

#[test]
fn decode_counter_resp_negative() {
    assert_eq!(decode_get_counter_resp(&[0x08, 3]).unwrap(), -2);
    assert_eq!(decode_get_counter_resp(&[0x08, 4]).unwrap(), 2);
}

#[test]
fn decode_reg_resp_bytes() {
    let mut payload = vec![0x0A, 8];
    payload.extend_from_slice(&be64(23));
    assert_eq!(decode_get_reg_resp(&payload).unwrap(), be64(23));
}

#[test]
fn decode_error_resp_fields() {
    let m = decode_error_resp(&[0x0A, 2, b'n', b'o', 0x10, 1]).unwrap();
    assert_eq!(m.errmsg, b"no".to_vec());
    assert_eq!(m.errcode, 1);
}

#[test]
fn decode_set_resp_elements() {
    let mut payload = vec![0x0A, 8];
    payload.extend_from_slice(&be64(1));
    payload.push(0x0A);
    payload.push(8);
    payload.extend_from_slice(&be64(2));
    let items = decode_blobs_message(&payload).unwrap();
    assert_eq!(items, vec![be64(1), be64(2)]);
}

#[test]
fn decode_set_update_message() {
    let mut payload = vec![0x08, 1, 0x12, 8];
    payload.extend_from_slice(&be64(7));
    let m = decode_set_update(&payload).unwrap();
    assert_eq!(m.op_kind, SetOpKind::Add);
    assert_eq!(m.adds, vec![be64(7)]);
    assert!(m.rems.is_empty());
}

#[test]
fn dispatch_unknown_code_is_distinct_from_malformed() {
    assert!(matches!(
        parse_from_bytes(99, &[]),
        Err(ClientError::UnknownMessageKind)
    ));
    assert!(matches!(
        parse_from_bytes(111, &[0xFF]),
        Err(ClientError::MalformedPayload)
    ));
}

#[test]
fn dispatch_selects_type_by_code() {
    match parse_from_bytes(110, &[0x08, 3]).unwrap() {
        DecodedMessage::GetCounterResp(v) => assert_eq!(v, -2),
        other => panic!("wrong variant: {:?}", other),
    }
    match parse_from_bytes(124, &[0x08, 1, 0x12, 1, 0x42]).unwrap() {
        DecodedMessage::StartTransactionResp(m) => {
            assert_eq!(m.transaction_descriptor, Some(vec![0x42]));
        },
        other => panic!("wrong variant: {:?}", other),
    }
}

#[test]
fn crdt_type_tags_match_protocol_constants() {
    assert_eq!(crdt_tag(CrdtType::Counter), 3);
    assert_eq!(crdt_tag(CrdtType::OrSet), 4);
    assert_eq!(crdt_tag(CrdtType::LwwReg), 5);
    assert_eq!(crdt_tag(CrdtType::MvReg), 6);
    assert_eq!(crdt_tag(CrdtType::GMap), 8);
    assert_eq!(crdt_tag(CrdtType::RwSet), 10);
    assert_eq!(crdt_tag(CrdtType::RrMap), 11);
    assert_eq!(crdt_tag(CrdtType::FatCounter), 12);
    assert_eq!(crdt_tag(CrdtType::FlagEw), 13);
    assert_eq!(crdt_tag(CrdtType::FlagDw), 14);
}

use antidotedb::crdt::{FlagEW, FlagT, MVReg, MapT, RRMap};
use antidotedb::responses::decode_read_object_resp;

#[test]
fn update_objects_request_flag_bytes() {
    let flag = FlagEW::new("f", "b");
    let ops = vec![flag.enable()];
    let d = vec![0x01u8];
    let bytes = encode_update_objects(&ops, &d);
    assert_eq!(
        bytes,
        vec![
            0x0A, 16, 0x0A, 8, 0x0A, 1, b'f', 0x10, 13, 0x1A, 1, b'b', // bound object
            0x12, 4, 0x3A, 2, 0x08, 1, // flagop: true
            0x12, 1, 0x01,
        ]
    );
}

#[test]
fn update_objects_request_map_removed_keys_bytes() {
    let map = RRMap::new("m", "b");
    let ops = vec![map.update(Vec::new(), vec![MVReg::map_key("x")])];
    let d = vec![0x01u8];
    let bytes = encode_update_objects(&ops, &d);
    assert_eq!(
        bytes,
        vec![
            0x0A, 21, 0x0A, 8, 0x0A, 1, b'm', 0x10, 11, 0x1A, 1, b'b', // bound object
            0x12, 9, 0x2A, 7, 0x12, 5, 0x0A, 1, b'x', 0x10, 6, // mapop: removed key
            0x12, 1, 0x01,
        ]
    );
}

#[test]
fn decode_read_object_resp_flag() {
    let m = decode_read_object_resp(&[0x3A, 2, 0x08, 1]).unwrap();
    assert_eq!(m.flag, Some(true));
    assert!(m.counter.is_none());
    let m = decode_read_object_resp(&[0x3A, 2, 0x08, 0]).unwrap();
    assert_eq!(m.flag, Some(false));
}

#[test]
fn dispatch_static_read_objects_resp() {
    let payload = vec![
        0x0A, 2, 0x08, 1, // objects: success
        0x12, 5, 0x08, 1, 0x12, 1, 9, // committime: success, time [9]
    ];
    match parse_from_bytes(128, &payload).unwrap() {
        DecodedMessage::StaticReadObjectsResp(m) => {
            assert!(m.objects.success);
            assert!(m.objects.objects.is_empty());
            assert!(m.committime.success);
            assert_eq!(m.committime.commit_time, Some(vec![9]));
        },
        other => panic!("wrong variant: {:?}", other),
    }
}

#[test]
fn dispatch_counter_update() {
    match parse_from_bytes(109, &[0x08, 4]).unwrap() {
        DecodedMessage::CounterUpdate(v) => assert_eq!(v, Some(2)),
        other => panic!("wrong variant: {:?}", other),
    }
    match parse_from_bytes(109, &[]).unwrap() {
        DecodedMessage::CounterUpdate(v) => assert_eq!(v, None),
        other => panic!("wrong variant: {:?}", other),
    }
}
