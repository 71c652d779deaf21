//! The request side of the message codec: the binary grammar of every
//! structured request message, written once as spec functions over the field
//! layout (tag byte, then varint or length-delimited body per field), and
//! executable encoders proved to produce exactly that grammar. Encoding is
//! total for every well-formed message, so the client never emits a
//! malformed request.

use vstd::prelude::*;

use crate::codec::{enc_varint, write_varint, zigzag, zigzag_encode};
use crate::crdt::{
    crdt_type_tag, set_op_tag, BoundObject, MapKey, MapNestedUpdate, Operation, OperationPayload,
    SetOpKind,
};
use crate::crdt::{crdt_tag, payload_is_map_update, set_op_kind_tag};

verus! {

broadcast use vstd::std_specs::vec::group_vec_axioms;

pub const APB_ERROR_RESP: u8 = 0;

pub const APB_GET_REG_RESP: u8 = 108;

pub const APB_COUNTER_UPDATE: u8 = 109;

pub const APB_GET_COUNTER_RESP: u8 = 110;

pub const APB_OPERATION_RESP: u8 = 111;

pub const APB_SET_UPDATE: u8 = 112;

pub const APB_GET_SET_RESP: u8 = 113;

pub const APB_READ_OBJECTS: u8 = 116;

pub const APB_UPDATE_OBJECTS: u8 = 118;

pub const APB_START_TRANSACTION: u8 = 119;

pub const APB_ABORT_TRANSACTION: u8 = 120;

pub const APB_COMMIT_TRANSACTION: u8 = 121;

pub const APB_START_TRANSACTION_RESP: u8 = 124;

pub const APB_READ_OBJECT_RESP: u8 = 125;

pub const APB_READ_OBJECTS_RESP: u8 = 126;

pub const APB_COMMIT_RESP: u8 = 127;

pub const APB_STATIC_READ_OBJECTS_RESP: u8 = 128;

/// A field holding an unsigned integer: its tag byte, then the varint value.
pub open spec fn enc_varint_field(field: nat, v: nat) -> Seq<u8> {
    seq![(8 * field) as u8] + enc_varint(v)
}

/// A length-delimited field: its tag byte, the body length as a varint, then
/// the body. Byte strings and nested messages both travel this way.
pub open spec fn enc_len_delim(field: nat, body: Seq<u8>) -> Seq<u8> {
    seq![(8 * field + 2) as u8] + enc_varint(body.len()) + body
}

/// The identifying triple of a replicated object: key, CRDT type, bucket.
pub open spec fn enc_bound_object(b: BoundObject) -> Seq<u8> {
    enc_len_delim(1, b.key@) + enc_varint_field(2, crdt_type_tag(b.crdt_type)) + enc_len_delim(
        3,
        b.bucket@,
    )
}

/// A key naming a nested object inside a map: key bytes, then CRDT type.
pub open spec fn enc_map_key(k: MapKey) -> Seq<u8> {
    enc_len_delim(1, k.key@) + enc_varint_field(2, crdt_type_tag(k.crdt_type))
}

/// A repeated byte-string field, one length-delimited entry per element, in
/// element order.
pub open spec fn enc_blob_fields(field: nat, items: Seq<Seq<u8>>) -> Seq<u8>
    decreases items.len(),
{
    if items.len() == 0 {
        Seq::empty()
    } else {
        enc_blob_fields(field, items.drop_last()) + enc_len_delim(field, items.last())
    }
}

/// A counter update: the signed delta, carried through the zigzag mapping.
pub open spec fn enc_counter_update(inc: int) -> Seq<u8> {
    enc_varint_field(1, zigzag(inc))
}

/// A register update: the stored byte buffer.
pub open spec fn enc_reg_update(value: Seq<u8>) -> Seq<u8> {
    enc_len_delim(1, value)
}

/// A set update: the operation kind, then the added and removed elements.
pub open spec fn enc_set_update(kind: SetOpKind, adds: Seq<Seq<u8>>, rems: Seq<Seq<u8>>) -> Seq<
    u8,
> {
    enc_varint_field(1, set_op_tag(kind)) + enc_blob_fields(2, adds) + enc_blob_fields(3, rems)
}

/// A flag update: the boolean value.
pub open spec fn enc_flag_update(value: bool) -> Seq<u8> {
    enc_varint_field(1, if value { 1nat } else { 0nat })
}

/// A repeated field of removed map keys.
pub open spec fn enc_removed_key_fields(ks: Seq<MapKey>) -> Seq<u8>
    decreases ks.len(),
{
    if ks.len() == 0 {
        Seq::empty()
    } else {
        enc_removed_key_fields(ks.drop_last()) + enc_len_delim(2, enc_map_key(ks.last()))
    }
}

/// The tagged operation body: one nested message under the field its
/// operation family owns.
pub open spec fn enc_operation_payload(p: OperationPayload) -> Seq<u8>
    decreases p,
{
    match p {
        OperationPayload::RegisterSet { value } => enc_len_delim(3, enc_reg_update(value@)),
        OperationPayload::CounterIncrement { inc } => enc_len_delim(
            1,
            enc_counter_update(inc as int),
        ),
        OperationPayload::SetUpdate { op_kind, adds, rems } => enc_len_delim(
            2,
            enc_set_update(op_kind, adds.deep_view(), rems.deep_view()),
        ),
        OperationPayload::FlagSet { value } => enc_len_delim(7, enc_flag_update(value)),
        OperationPayload::MapUpdate { updates, removed_keys } => enc_len_delim(
            5,
            enc_nested_update_fields(updates@) + enc_removed_key_fields(removed_keys@),
        ),
        OperationPayload::Reset => enc_len_delim(6, Seq::empty()),
    }
}

/// The repeated nested-update field of a map update, in batch order.
pub open spec fn enc_nested_update_fields(us: Seq<MapNestedUpdate>) -> Seq<u8>
    decreases us,
{
    if us.len() == 0 {
        Seq::empty()
    } else {
        enc_nested_update_fields(us.drop_last()) + enc_len_delim(
            1,
            enc_map_nested_update(us.last()),
        )
    }
}

/// One nested update: the nested key, then the payload applied under it.
pub open spec fn enc_map_nested_update(u: MapNestedUpdate) -> Seq<u8>
    decreases u,
{
    enc_len_delim(1, enc_map_key(u.key)) + enc_len_delim(2, enc_operation_payload(u.update))
}

/// One update operation: the bound object, then the operation body.
pub open spec fn enc_update_op(op: Operation) -> Seq<u8> {
    enc_len_delim(1, enc_bound_object(op.boundobject)) + enc_len_delim(
        2,
        enc_operation_payload(op.operation),
    )
}

/// Transaction properties; the client always requests the defaults.
pub open spec fn enc_txn_properties() -> Seq<u8> {
    Seq::empty()
}

/// A begin request: the causal snapshot to read since, if any, then the
/// (default) transaction properties.
pub open spec fn enc_start_transaction(ts: Option<Seq<u8>>) -> Seq<u8> {
    (match ts {
        Some(t) => enc_len_delim(1, t),
        None => Seq::empty(),
    }) + enc_len_delim(2, enc_txn_properties())
}

/// The repeated bound-object field of a batched read, in request order.
pub open spec fn enc_bound_object_fields(os: Seq<BoundObject>) -> Seq<u8>
    decreases os.len(),
{
    if os.len() == 0 {
        Seq::empty()
    } else {
        enc_bound_object_fields(os.drop_last()) + enc_len_delim(1, enc_bound_object(os.last()))
    }
}

/// A batched read request: the objects in order, then the descriptor.
pub open spec fn enc_read_objects(os: Seq<BoundObject>, descriptor: Seq<u8>) -> Seq<u8> {
    enc_bound_object_fields(os) + enc_len_delim(2, descriptor)
}

/// The repeated operation field of a batched update, in request order.
pub open spec fn enc_update_op_fields(ops: Seq<Operation>) -> Seq<u8>
    decreases ops.len(),
{
    if ops.len() == 0 {
        Seq::empty()
    } else {
        enc_update_op_fields(ops.drop_last()) + enc_len_delim(1, enc_update_op(ops.last()))
    }
}

/// A batched update request: the operations in order, then the descriptor.
pub open spec fn enc_update_objects(ops: Seq<Operation>, descriptor: Seq<u8>) -> Seq<u8> {
    enc_update_op_fields(ops) + enc_len_delim(2, descriptor)
}

/// A commit request: the descriptor alone.
pub open spec fn enc_commit_transaction(descriptor: Seq<u8>) -> Seq<u8> {
    enc_len_delim(1, descriptor)
}

/// An abort request: the descriptor alone.
pub open spec fn enc_abort_transaction(descriptor: Seq<u8>) -> Seq<u8> {
    enc_len_delim(1, descriptor)
}

/// Appends an unsigned-integer field.
fn write_varint_field(out: &mut Vec<u8>, field: u8, v: u64)
    requires
        field < 16,
    ensures
        final(out)@ == old(out)@ + enc_varint_field(field as nat, v as nat),
{
    out.push(8 * field);
    write_varint(out, v);
    proof {
        assert(out@ =~= old(out)@ + enc_varint_field(field as nat, v as nat));
    }
}

/// Appends a length-delimited field holding the given byte string.
fn write_bytes_field(out: &mut Vec<u8>, field: u8, body: &[u8])
    requires
        field < 16,
    ensures
        final(out)@ == old(out)@ + enc_len_delim(field as nat, body@),
{
    out.push(8 * field + 2);
    write_varint(out, body.len() as u64);
    let mut i: usize = 0;
    while i < body.len()
        invariant
            i <= body@.len(),
            out@ == old(out)@ + seq![(8 * (field as nat) + 2) as u8] + enc_varint(body@.len())
                + body@.subrange(0, i as int),
        decreases body@.len() - i,
    {
        out.push(body[i]);
        i = i + 1;
        proof {
            assert(out@ =~= old(out)@ + seq![(8 * (field as nat) + 2) as u8] + enc_varint(
                body@.len(),
            ) + body@.subrange(0, i as int));
        }
    }
    proof {
        assert(body@.subrange(0, body@.len() as int) =~= body@);
        assert(out@ =~= old(out)@ + enc_len_delim(field as nat, body@));
    }
}

/// Appends a length-delimited field holding an already-encoded nested body,
/// draining the scratch buffer it arrives in.
fn write_nested_field(out: &mut Vec<u8>, field: u8, body: &mut Vec<u8>)
    requires
        field < 16,
    ensures
        final(out)@ == old(out)@ + enc_len_delim(field as nat, old(body)@),
{
    out.push(8 * field + 2);
    write_varint(out, body.len() as u64);
    out.append(body);
    proof {
        assert(out@ =~= old(out)@ + enc_len_delim(field as nat, old(body)@));
    }
}

/// Appends the encoding of a bound object.
fn write_bound_object(out: &mut Vec<u8>, b: &BoundObject)
    ensures
        final(out)@ == old(out)@ + enc_bound_object(*b),
{
    write_bytes_field(out, 1, b.key.as_slice());
    write_varint_field(out, 2, crdt_tag(b.crdt_type) as u64);
    write_bytes_field(out, 3, b.bucket.as_slice());
    proof {
        assert(out@ =~= old(out)@ + enc_bound_object(*b));
    }
}

/// Appends the encoding of a map key.
fn write_map_key(out: &mut Vec<u8>, k: &MapKey)
    ensures
        final(out)@ == old(out)@ + enc_map_key(*k),
{
    write_bytes_field(out, 1, k.key.as_slice());
    write_varint_field(out, 2, crdt_tag(k.crdt_type) as u64);
    proof {
        assert(out@ =~= old(out)@ + enc_map_key(*k));
    }
}

/// Appends one repeated byte-string field per element.
fn write_blob_fields(out: &mut Vec<u8>, field: u8, items: &Vec<Vec<u8>>)
    requires
        field < 16,
    ensures
        final(out)@ == old(out)@ + enc_blob_fields(field as nat, items.deep_view()),
{
    let mut i: usize = 0;
    while i < items.len()
        invariant
            field < 16,
            i <= items@.len(),
            out@ == old(out)@ + enc_blob_fields(field as nat, items.deep_view().subrange(0, i as int)),
        decreases items@.len() - i,
    {
        write_bytes_field(out, field, items[i].as_slice());
        i = i + 1;
        proof {
            let dv = items.deep_view();
            assert(dv.subrange(0, i as int).drop_last() =~= dv.subrange(0, i - 1));
            assert(dv.subrange(0, i as int).last() == dv[i - 1]);
            assert(dv[i - 1] == items@[i - 1]@);
            assert(out@ =~= old(out)@ + enc_blob_fields(field as nat, dv.subrange(0, i as int)));
        }
    }
    proof {
        assert(items.deep_view().subrange(0, items@.len() as int) =~= items.deep_view());
    }
}

/// Appends the encoding of an operation body.
fn write_operation_payload(out: &mut Vec<u8>, p: &OperationPayload)
    ensures
        final(out)@ == old(out)@ + enc_operation_payload(*p),
    decreases *p,
{
    match p {
        OperationPayload::RegisterSet { value } => {
            let mut tmp: Vec<u8> = Vec::new();
            write_bytes_field(&mut tmp, 1, value.as_slice());
            write_nested_field(out, 3, &mut tmp);
        },
        OperationPayload::CounterIncrement { inc } => {
            let mut tmp: Vec<u8> = Vec::new();
            write_varint_field(&mut tmp, 1, zigzag_encode(*inc));
            write_nested_field(out, 1, &mut tmp);
        },
        OperationPayload::SetUpdate { op_kind, adds, rems } => {
            let mut tmp: Vec<u8> = Vec::new();
            write_varint_field(&mut tmp, 1, set_op_kind_tag(*op_kind) as u64);
            write_blob_fields(&mut tmp, 2, adds);
            write_blob_fields(&mut tmp, 3, rems);
            write_nested_field(out, 2, &mut tmp);
        },
        OperationPayload::FlagSet { value } => {
            let mut tmp: Vec<u8> = Vec::new();
            write_varint_field(&mut tmp, 1, if *value { 1 } else { 0 });
            write_nested_field(out, 7, &mut tmp);
        },
        OperationPayload::MapUpdate { updates, removed_keys } => {
            let mut tmp: Vec<u8> = Vec::new();
            let mut i: usize = 0;
            while i < updates.len()
                invariant
                    i <= updates@.len(),
                    payload_is_map_update(*p, *updates, *removed_keys),
                    tmp@ == enc_nested_update_fields(updates@.subrange(0, i as int)),
                decreases updates@.len() - i,
            {
                let mut u: Vec<u8> = Vec::new();
                write_map_nested_update(&mut u, &updates[i]);
                write_nested_field(&mut tmp, 1, &mut u);
                i = i + 1;
                proof {
                    assert(updates@.subrange(0, i as int).drop_last() =~= updates@.subrange(
                        0,
                        i - 1,
                    ));
                    assert(updates@.subrange(0, i as int).last() == updates@[i - 1]);
                }
            }
            proof {
                assert(updates@.subrange(0, updates@.len() as int) =~= updates@);
            }
            let mut j: usize = 0;
            while j < removed_keys.len()
                invariant
                    j <= removed_keys@.len(),
                    tmp@ == enc_nested_update_fields(updates@) + enc_removed_key_fields(
                        removed_keys@.subrange(0, j as int),
                    ),
                decreases removed_keys@.len() - j,
            {
                let mut k: Vec<u8> = Vec::new();
                write_map_key(&mut k, &removed_keys[j]);
                write_nested_field(&mut tmp, 2, &mut k);
                j = j + 1;
                proof {
                    assert(removed_keys@.subrange(0, j as int).drop_last()
                        =~= removed_keys@.subrange(0, j - 1));
                    assert(removed_keys@.subrange(0, j as int).last() == removed_keys@[j - 1]);
                }
            }
            proof {
                assert(removed_keys@.subrange(0, removed_keys@.len() as int) =~= removed_keys@);
            }
            write_nested_field(out, 5, &mut tmp);
        },
        OperationPayload::Reset => {
            let mut tmp: Vec<u8> = Vec::new();
            write_nested_field(out, 6, &mut tmp);
        },
    }
    proof {
        assert(out@ =~= old(out)@ + enc_operation_payload(*p));
    }
}

/// Appends the encoding of one nested map update.
fn write_map_nested_update(out: &mut Vec<u8>, u: &MapNestedUpdate)
    ensures
        final(out)@ == old(out)@ + enc_map_nested_update(*u),
    decreases *u,
{
    let mut k: Vec<u8> = Vec::new();
    write_map_key(&mut k, &u.key);
    write_nested_field(out, 1, &mut k);
    let mut p: Vec<u8> = Vec::new();
    write_operation_payload(&mut p, &u.update);
    write_nested_field(out, 2, &mut p);
    proof {
        assert(out@ =~= old(out)@ + enc_map_nested_update(*u));
    }
}

/// Appends the encoding of one update operation.
fn write_update_op(out: &mut Vec<u8>, op: &Operation)
    ensures
        final(out)@ == old(out)@ + enc_update_op(*op),
{
    let mut b: Vec<u8> = Vec::new();
    write_bound_object(&mut b, &op.boundobject);
    write_nested_field(out, 1, &mut b);
    let mut p: Vec<u8> = Vec::new();
    write_operation_payload(&mut p, &op.operation);
    write_nested_field(out, 2, &mut p);
    proof {
        assert(out@ =~= old(out)@ + enc_update_op(*op));
    }
}

/// The timestamp option as the byte string it carries, if any.
pub open spec fn opt_bytes_view(o: Option<&Vec<u8>>) -> Option<Seq<u8>> {
    match o {
        Some(v) => Some(v@),
        None => None,
    }
}

/// Encodes a begin request.
pub fn encode_start_transaction(timestamp: Option<&Vec<u8>>) -> (r: Vec<u8>)
    ensures
        r@ == enc_start_transaction(opt_bytes_view(timestamp)),
{
    let mut out: Vec<u8> = Vec::new();
    match timestamp {
        Some(v) => {
            write_bytes_field(&mut out, 1, v.as_slice());
        },
        None => {
        },
    }
    let mut props: Vec<u8> = Vec::new();
    write_nested_field(&mut out, 2, &mut props);
    proof {
        assert(out@ =~= enc_start_transaction(opt_bytes_view(timestamp)));
    }
    out
}

/// Encodes a batched read request: every requested object, in the caller's
/// order, tagged with the transaction descriptor.
pub fn encode_read_objects(objects: &Vec<BoundObject>, descriptor: &Vec<u8>) -> (r: Vec<u8>)
    ensures
        r@ == enc_read_objects(objects@, descriptor@),
{
    let mut out: Vec<u8> = Vec::new();
    let mut i: usize = 0;
    while i < objects.len()
        invariant
            i <= objects@.len(),
            out@ == enc_bound_object_fields(objects@.subrange(0, i as int)),
        decreases objects@.len() - i,
    {
        let mut b: Vec<u8> = Vec::new();
        write_bound_object(&mut b, &objects[i]);
        write_nested_field(&mut out, 1, &mut b);
        i = i + 1;
        proof {
            assert(objects@.subrange(0, i as int).drop_last() =~= objects@.subrange(0, i - 1));
            assert(objects@.subrange(0, i as int).last() == objects@[i - 1]);
        }
    }
    proof {
        assert(objects@.subrange(0, objects@.len() as int) =~= objects@);
    }
    write_bytes_field(&mut out, 2, descriptor.as_slice());
    out
}

/// Encodes a batched update request: every operation, in the caller's order,
/// tagged with the transaction descriptor.
pub fn encode_update_objects(operations: &Vec<Operation>, descriptor: &Vec<u8>) -> (r: Vec<u8>)
    ensures
        r@ == enc_update_objects(operations@, descriptor@),
{
    let mut out: Vec<u8> = Vec::new();
    let mut i: usize = 0;
    while i < operations.len()
        invariant
            i <= operations@.len(),
            out@ == enc_update_op_fields(operations@.subrange(0, i as int)),
        decreases operations@.len() - i,
    {
        let mut b: Vec<u8> = Vec::new();
        write_update_op(&mut b, &operations[i]);
        write_nested_field(&mut out, 1, &mut b);
        i = i + 1;
        proof {
            assert(operations@.subrange(0, i as int).drop_last() =~= operations@.subrange(
                0,
                i - 1,
            ));
            assert(operations@.subrange(0, i as int).last() == operations@[i - 1]);
        }
    }
    proof {
        assert(operations@.subrange(0, operations@.len() as int) =~= operations@);
    }
    write_bytes_field(&mut out, 2, descriptor.as_slice());
    out
}

/// Encodes a commit request.
pub fn encode_commit_transaction(descriptor: &Vec<u8>) -> (r: Vec<u8>)
    ensures
        r@ == enc_commit_transaction(descriptor@),
{
    let mut out: Vec<u8> = Vec::new();
    write_bytes_field(&mut out, 1, descriptor.as_slice());
    out
}

/// Encodes an abort request.
pub fn encode_abort_transaction(descriptor: &Vec<u8>) -> (r: Vec<u8>)
    ensures
        r@ == enc_abort_transaction(descriptor@),
{
    let mut out: Vec<u8> = Vec::new();
    write_bytes_field(&mut out, 1, descriptor.as_slice());
    out
}

} // verus!
