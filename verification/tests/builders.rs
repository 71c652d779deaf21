//! Operation builder tests: each handle builds exactly the operation its
//! CRDT family supports, against the object it is bound to.

use antidotedb::crdt::{
    crdt_tag, Counter, CounterT, CrdtType, FatCounter, FlagDW, FlagEW, FlagT, GMap, LWWReg,
    MVReg, MapNestedUpdate, MapT, MapKey, ORSet, Object, ObjectReset, Operation,
    OperationPayload, RWSet, RegT, SetOpKind, SetT,
};

fn be64(v: u64) -> Vec<u8> {
    let mut out = Vec::new();
    antidotedb::codec::write_be_u64(&mut out, v);
    out
}

fn check_target(op: &Operation, key: &str, bucket: &str, t: CrdtType) {
    assert_eq!(op.boundobject.key, key.as_bytes().to_vec());
    assert_eq!(op.boundobject.bucket, bucket.as_bytes().to_vec());
    assert_eq!(op.boundobject.crdt_type, t);
}

#[test]
fn bound_object_carries_key_bucket_and_type() {
    let reg = LWWReg::new("123", "hello");
    let obj = reg.get_object();
    assert_eq!(obj.key, b"123".to_vec());
    assert_eq!(obj.bucket, b"hello".to_vec());
    assert_eq!(obj.crdt_type, CrdtType::LwwReg);
    assert_eq!(LWWReg::get_crdt_type(), CrdtType::LwwReg);
}

#[test]
fn bound_objects_compare_by_value() {
    let a = LWWReg::new("k", "b").get_object();
    let c = LWWReg::new("k", "b").get_object();
    assert_eq!(a, c);
    assert_ne!(a, MVReg::new("k", "b").get_object());
}

#[test]
fn register_set_encodes_value_big_endian() {
    let reg = LWWReg::new("r", "b");
    let op = reg.set(2);
    check_target(&op, "r", "b", CrdtType::LwwReg);
    match &op.operation {
        OperationPayload::RegisterSet { value } => assert_eq!(*value, be64(2)),
        other => panic!("wrong payload: {:?}", other),
    }
}

#[test]
fn mv_register_set_and_reset() {
    let reg = MVReg::new("r", "b");
    let op = reg.set(23);
    check_target(&op, "r", "b", CrdtType::MvReg);
    let reset = reg.reset();
    check_target(&reset, "r", "b", CrdtType::MvReg);
    assert!(matches!(reset.operation, OperationPayload::Reset));
}

#[test]
fn counter_increments() {
    let ctr = Counter::new("c", "b");
    match ctr.inc(5).operation {
        OperationPayload::CounterIncrement { inc } => assert_eq!(inc, 5),
        other => panic!("wrong payload: {:?}", other),
    }
    match ctr.inc(-5).operation {
        OperationPayload::CounterIncrement { inc } => assert_eq!(inc, -5),
        other => panic!("wrong payload: {:?}", other),
    }
    match ctr.inc_one().operation {
        OperationPayload::CounterIncrement { inc } => assert_eq!(inc, 1),
        other => panic!("wrong payload: {:?}", other),
    }
    match ctr.dec_one().operation {
        OperationPayload::CounterIncrement { inc } => assert_eq!(inc, -1),
        other => panic!("wrong payload: {:?}", other),
    }
}

#[test]
fn fat_counter_supports_reset_and_increment() {
    let ctr = FatCounter::new("c", "b");
    check_target(&ctr.inc(1), "c", "b", CrdtType::FatCounter);
    assert!(matches!(ctr.reset().operation, OperationPayload::Reset));
}

#[test]
fn set_add_and_remove_encode_elements() {
    let set = ORSet::new("s", "b");
    let op = set.add(&[2, 1]);
    check_target(&op, "s", "b", CrdtType::OrSet);
    match &op.operation {
        OperationPayload::SetUpdate { op_kind, adds, rems } => {
            assert_eq!(*op_kind, SetOpKind::Add);
            assert_eq!(*adds, vec![be64(2), be64(1)]);
            assert!(rems.is_empty());
        },
        other => panic!("wrong payload: {:?}", other),
    }
    let rw = RWSet::new("s", "b");
    let op = rw.rem(&[7]);
    check_target(&op, "s", "b", CrdtType::RwSet);
    match &op.operation {
        OperationPayload::SetUpdate { op_kind, adds, rems } => {
            assert_eq!(*op_kind, SetOpKind::Remove);
            assert!(adds.is_empty());
            assert_eq!(*rems, vec![be64(7)]);
        },
        other => panic!("wrong payload: {:?}", other),
    }
}

#[test]
fn flags_enable_and_disable() {
    let ew = FlagEW::new("f", "b");
    match ew.enable().operation {
        OperationPayload::FlagSet { value } => assert!(value),
        other => panic!("wrong payload: {:?}", other),
    }
    let dw = FlagDW::new("f", "b");
    check_target(&dw.disable(), "f", "b", CrdtType::FlagDw);
    match dw.disable().operation {
        OperationPayload::FlagSet { value } => assert!(!value),
        other => panic!("wrong payload: {:?}", other),
    }
    assert!(matches!(ew.reset().operation, OperationPayload::Reset));
}

#[test]
fn map_keys_carry_nested_type() {
    let k = Counter::map_key("counter");
    assert_eq!(k.key, b"counter".to_vec());
    assert_eq!(k.crdt_type, CrdtType::Counter);
    let k = RRMap::key("x", CrdtType::OrSet);
    assert_eq!(k.crdt_type, CrdtType::OrSet);
}

use antidotedb::crdt::RRMap;

#[test]
fn map_update_nests_payloads_of_the_same_grammar() {
    let map = RRMap::new("123", "rrmap_test");
    let updates = vec![
        MapNestedUpdate { key: Counter::map_key("counter"), update: Counter::inc_op(2) },
        MapNestedUpdate { key: ORSet::map_key("orset"), update: ORSet::add_op(&[2, 1]) },
        MapNestedUpdate { key: LWWReg::map_key("lwwreg"), update: LWWReg::set_op(3) },
    ];
    let removed: Vec<MapKey> = vec![MVReg::map_key("old")];
    let op = map.update(updates, removed);
    check_target(&op, "123", "rrmap_test", CrdtType::RrMap);
    match &op.operation {
        OperationPayload::MapUpdate { updates, removed_keys } => {
            assert_eq!(updates.len(), 3);
            assert_eq!(updates[0].key.key, b"counter".to_vec());
            assert!(matches!(
                updates[0].update,
                OperationPayload::CounterIncrement { inc: 2 }
            ));
            assert_eq!(updates[1].key.crdt_type, CrdtType::OrSet);
            assert_eq!(updates[2].key.crdt_type, CrdtType::LwwReg);
            assert_eq!(removed_keys.len(), 1);
            assert_eq!(removed_keys[0].key, b"old".to_vec());
        },
        other => panic!("wrong payload: {:?}", other),
    }
    assert!(matches!(map.reset().operation, OperationPayload::Reset));
}

#[test]
fn gmap_updates_but_has_no_reset() {
    // GMap implements the map operations; the reset capability is absent
    // from its type, so a reset against it cannot be written at all.
    let map = GMap::new("g", "b");
    let op = map.update(Vec::new(), Vec::new());
    check_target(&op, "g", "b", CrdtType::GMap);
}

#[test]
fn every_family_has_a_distinct_wire_tag() {
    let tags = [
        crdt_tag(CrdtType::Counter),
        crdt_tag(CrdtType::OrSet),
        crdt_tag(CrdtType::LwwReg),
        crdt_tag(CrdtType::MvReg),
        crdt_tag(CrdtType::GMap),
        crdt_tag(CrdtType::RwSet),
        crdt_tag(CrdtType::RrMap),
        crdt_tag(CrdtType::FatCounter),
        crdt_tag(CrdtType::FlagEw),
        crdt_tag(CrdtType::FlagDw),
    ];
    for i in 0..tags.len() {
        for j in 0..i {
            assert_ne!(tags[i], tags[j]);
        }
    }
}
