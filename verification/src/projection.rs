//! Response projection: turns a raw per-object read response into the typed
//! snapshot the object's CRDT type calls for. Registers decode their byte
//! buffers as big-endian 64-bit values, counters yield their signed value,
//! sets keep their elements byte for byte, flags yield a boolean, and maps
//! project every entry recursively by the entry's own nested type.

use vstd::prelude::*;

use crate::codec::{from_be, read_be_u64};
use crate::crdt::{CrdtType, MapKey};
use crate::responses::{map_entries_view, map_entry_view, read_resp_view, MapEntry, MapEntryV, ReadObjectResp, ReadRespV};
use crate::ClientError;

verus! {

broadcast use vstd::std_specs::vec::group_vec_axioms;

/// The ghost shape of a typed snapshot.
pub ghost enum SnapshotV {
    Register(nat),
    MultiValue(Seq<nat>),
    Elements(Seq<Seq<u8>>),
    Flag(bool),
    Counter(int),
    MapEntries(Seq<MapSnapEntryV>),
}

/// The ghost shape of one projected map entry.
pub ghost struct MapSnapEntryV {
    pub key: Seq<u8>,
    pub crdt_type: CrdtType,
    pub value: SnapshotV,
}

/// A typed snapshot of one replicated object, as the object's CRDT type
/// calls for.
#[derive(Debug)]
pub enum ReadSnapshot {
    Register(u64),
    MultiValue(Vec<u64>),
    Elements(Vec<Vec<u8>>),
    Flag(bool),
    Counter(i64),
    MapEntries(Vec<MapSnapshotEntry>),
}

/// One projected entry of a map snapshot: the nested key and the snapshot
/// projected by that key's own CRDT type.
#[derive(Debug)]
pub struct MapSnapshotEntry {
    pub key: MapKey,
    pub value: ReadSnapshot,
}

/// The ghost shape a snapshot denotes.
pub open spec fn snapshot_view(s: ReadSnapshot) -> SnapshotV
    decreases s,
{
    match s {
        ReadSnapshot::Register(v) => SnapshotV::Register(v as nat),
        ReadSnapshot::MultiValue(v) => SnapshotV::MultiValue(
            v@.map_values(|x: u64| x as nat),
        ),
        ReadSnapshot::Elements(v) => SnapshotV::Elements(v.deep_view()),
        ReadSnapshot::Flag(b) => SnapshotV::Flag(b),
        ReadSnapshot::Counter(c) => SnapshotV::Counter(c as int),
        ReadSnapshot::MapEntries(es) => SnapshotV::MapEntries(snap_entries_view(es@)),
    }
}

/// The ghost shapes of a batch of projected map entries, in order.
pub open spec fn snap_entries_view(es: Seq<MapSnapshotEntry>) -> Seq<MapSnapEntryV>
    decreases es,
{
    if es.len() == 0 {
        Seq::empty()
    } else {
        snap_entries_view(es.drop_last()).push(snap_entry_view(es.last()))
    }
}

/// The ghost shape of one projected map entry.
pub open spec fn snap_entry_view(e: MapSnapshotEntry) -> MapSnapEntryV
    decreases e,
{
    MapSnapEntryV { key: e.key.key@, crdt_type: e.key.crdt_type, value: snapshot_view(e.value) }
}

/// What projecting a read response under a CRDT type yields: the typed
/// snapshot, or nothing where the response does not carry the field the
/// type calls for (or a register buffer is not eight bytes).
pub open spec fn project_spec(t: CrdtType, v: ReadRespV) -> Option<SnapshotV>
    decreases v,
{
    match t {
        CrdtType::Counter | CrdtType::FatCounter => match v.counter {
            Some(c) => Some(SnapshotV::Counter(c)),
            None => None,
        },
        CrdtType::LwwReg => match v.reg {
            Some(b) => if b.len() == 8 {
                Some(SnapshotV::Register(from_be(b)))
            } else {
                None
            },
            None => None,
        },
        CrdtType::MvReg => match v.mvreg {
            Some(items) => if forall|i: int| 0 <= i < items.len() ==> #[trigger] items[i].len()
                == 8 {
                Some(SnapshotV::MultiValue(items.map_values(|b: Seq<u8>| from_be(b))))
            } else {
                None
            },
            None => None,
        },
        CrdtType::OrSet | CrdtType::RwSet => match v.set {
            Some(items) => Some(SnapshotV::Elements(items)),
            None => None,
        },
        CrdtType::FlagEw | CrdtType::FlagDw => match v.flag {
            Some(b) => Some(SnapshotV::Flag(b)),
            None => None,
        },
        CrdtType::GMap | CrdtType::RrMap => match v.map {
            Some(es) => match project_entries(es) {
                Some(out) => Some(SnapshotV::MapEntries(out)),
                None => None,
            },
            None => None,
        },
    }
}

/// Projects every entry of a map snapshot by its own nested type's rules,
/// keeping the server's entry order; fails if any entry fails.
pub open spec fn project_entries(es: Seq<MapEntryV>) -> Option<Seq<MapSnapEntryV>>
    decreases es,
{
    if es.len() == 0 {
        Some(Seq::empty())
    } else {
        match project_entries(es.drop_last()) {
            None => None,
            Some(init) => match project_spec(es.last().crdt_type, es.last().value) {
                None => None,
                Some(val) => Some(
                    init.push(
                        MapSnapEntryV {
                            key: es.last().key,
                            crdt_type: es.last().crdt_type,
                            value: val,
                        },
                    ),
                ),
            },
        }
    }
}

/// Map projection law: a projected map snapshot has one entry per map
/// entry, in order, keyed by the entry's (key, CRDT type), and each entry's
/// value is the projection of that entry's own response under that entry's
/// own type.
pub proof fn lemma_map_projection(es: Seq<MapEntryV>, out: Seq<MapSnapEntryV>)
    requires
        project_entries(es) == Some(out),
    ensures
        out.len() == es.len(),
        forall|i: int|
            0 <= i < es.len() ==> #[trigger] out[i].key == es[i].key && out[i].crdt_type
                == es[i].crdt_type && Some(out[i].value) == project_spec(
                es[i].crdt_type,
                es[i].value,
            ),
{
    lemma_project_entries_len(es, out);
    assert forall|i: int|
        #![trigger out[i]]
        0 <= i < es.len() implies out[i].key == es[i].key && out[i].crdt_type == es[i].crdt_type
        && Some(out[i].value) == project_spec(es[i].crdt_type, es[i].value) by {
        lemma_map_projection_at(es, out, i);
    }
}

proof fn lemma_project_entries_len(es: Seq<MapEntryV>, out: Seq<MapSnapEntryV>)
    requires
        project_entries(es) == Some(out),
    ensures
        out.len() == es.len(),
    decreases es.len(),
{
    if es.len() > 0 {
        lemma_project_entries_len(es.drop_last(), project_entries(es.drop_last())->Some_0);
    }
}

proof fn lemma_map_projection_at(es: Seq<MapEntryV>, out: Seq<MapSnapEntryV>, i: int)
    requires
        project_entries(es) == Some(out),
        0 <= i < es.len(),
    ensures
        out.len() == es.len(),
        out[i].key == es[i].key,
        out[i].crdt_type == es[i].crdt_type,
        Some(out[i].value) == project_spec(es[i].crdt_type, es[i].value),
    decreases es.len(),
{
    lemma_project_entries_len(es, out);
    let prefix = es.drop_last();
    let init = project_entries(prefix)->Some_0;
    let e = MapSnapEntryV {
        key: es.last().key,
        crdt_type: es.last().crdt_type,
        value: project_spec(es.last().crdt_type, es.last().value)->Some_0,
    };
    assert(out == init.push(e));
    if i < es.len() - 1 {
        lemma_map_projection_at(prefix, init, i);
        assert(out[i] == init[i]);
        assert(prefix[i] == es[i]);
    } else {
        assert(out[i] == e);
        assert(es[i] == es.last());
        assert(project_spec(es.last().crdt_type, es.last().value) is Some);
    }
}

/// One failing entry fails the whole map projection.
proof fn lemma_project_entries_none(es: Seq<MapEntryV>, i: int)
    requires
        0 <= i < es.len(),
        project_spec(es[i].crdt_type, es[i].value) is None,
    ensures
        project_entries(es) is None,
    decreases es.len(),
{
    if i < es.len() - 1 {
        lemma_project_entries_none(es.drop_last(), i);
    }
}

/// The views of a batch of map entries, element by element.
proof fn lemma_map_entries_view_index(es: Seq<MapEntry>)
    ensures
        map_entries_view(es).len() == es.len(),
        forall|i: int|
            0 <= i < es.len() ==> #[trigger] map_entries_view(es)[i] == map_entry_view(es[i]),
    decreases es.len(),
{
    if es.len() > 0 {
        lemma_map_entries_view_index(es.drop_last());
    }
}

/// Copies a list of byte buffers.
fn copy_blobs(v: &Vec<Vec<u8>>) -> (r: Vec<Vec<u8>>)
    ensures
        r.deep_view() == v.deep_view(),
{
    let mut out: Vec<Vec<u8>> = Vec::new();
    let mut i: usize = 0;
    while i < v.len()
        invariant
            i <= v@.len(),
            out@.len() == i,
            forall|j: int| 0 <= j < i ==> #[trigger] out@[j]@ == v@[j]@,
        decreases v@.len() - i,
    {
        out.push(vstd::slice::slice_to_vec(v[i].as_slice()));
        i = i + 1;
    }
    proof {
        assert(out.deep_view() =~~= v.deep_view());
    }
    out
}

/// Projects one read response under the given CRDT type.
#[verifier::rlimit(100)]
#[verifier::spinoff_prover]
pub fn project_read_resp(t: CrdtType, resp: &ReadObjectResp) -> (r: Result<
    ReadSnapshot,
    ClientError,
>)
    ensures
        match r {
            Ok(s) => project_spec(t, read_resp_view(*resp)) == Some(snapshot_view(s)),
            Err(e) => project_spec(t, read_resp_view(*resp)) is None && e
                == ClientError::MalformedPayload,
        },
    decreases *resp,
{
    match t {
        CrdtType::Counter | CrdtType::FatCounter => match &resp.counter {
            Some(c) => Ok(ReadSnapshot::Counter(*c as i64)),
            None => Err(ClientError::MalformedPayload),
        },
        CrdtType::LwwReg => match &resp.reg {
            Some(b) => {
                if b.len() == 8 {
                    Ok(ReadSnapshot::Register(read_be_u64(b.as_slice())))
                } else {
                    Err(ClientError::MalformedPayload)
                }
            },
            None => Err(ClientError::MalformedPayload),
        },
        CrdtType::MvReg => match &resp.mvreg {
            Some(items) => {
                let mut out: Vec<u64> = Vec::new();
                let mut i: usize = 0;
                while i < items.len()
                    invariant
                        i <= items@.len(),
                        out@.len() == i,
                        t == CrdtType::MvReg,
                        resp.mvreg == Some(*items),
                        forall|j: int|
                            0 <= j < i ==> #[trigger] items.deep_view()[j].len() == 8
                                && out@[j] as nat == from_be(items.deep_view()[j]),
                    decreases items@.len() - i,
                {
                    proof {
                        assert(items.deep_view()[i as int] == items@[i as int]@);
                    }
                    if items[i].len() != 8 {
                        proof {
                            assert(items.deep_view()[i as int].len() != 8);
                        }
                        return Err(ClientError::MalformedPayload);
                    }
                    out.push(read_be_u64(items[i].as_slice()));
                    i = i + 1;
                }
                proof {
                    assert(out@.map_values(|x: u64| x as nat) =~= items.deep_view().map_values(
                        |b: Seq<u8>| from_be(b),
                    ));
                }
                Ok(ReadSnapshot::MultiValue(out))
            },
            None => Err(ClientError::MalformedPayload),
        },
        CrdtType::OrSet | CrdtType::RwSet => match &resp.set {
            Some(items) => Ok(ReadSnapshot::Elements(copy_blobs(items))),
            None => Err(ClientError::MalformedPayload),
        },
        CrdtType::FlagEw | CrdtType::FlagDw => match &resp.flag {
            Some(b) => Ok(ReadSnapshot::Flag(*b)),
            None => Err(ClientError::MalformedPayload),
        },
        CrdtType::GMap | CrdtType::RrMap => match &resp.map {
            Some(es) => {
                let mut out: Vec<MapSnapshotEntry> = Vec::new();
                let mut i: usize = 0;
                proof {
                    lemma_map_entries_view_index(es@);
                }
                while i < es.len()
                    invariant
                        i <= es@.len(),
                        t == CrdtType::GMap || t == CrdtType::RrMap,
                        resp.map == Some(*es),
                        map_entries_view(es@).len() == es@.len(),
                        forall|k: int|
                            0 <= k < es@.len() ==> #[trigger] map_entries_view(es@)[k]
                                == map_entry_view(es@[k]),
                        project_entries(map_entries_view(es@).subrange(0, i as int)) == Some(
                            snap_entries_view(out@),
                        ),
                    decreases es@.len() - i,
                {
                    let entry_value = match project_read_resp(es[i].key.crdt_type, &es[i].value) {
                        Ok(v) => v,
                        Err(_) => {
                            proof {
                                lemma_project_entries_none(map_entries_view(es@), i as int);
                            }
                            return Err(ClientError::MalformedPayload);
                        },
                    };
                    let key = MapKey {
                        key: vstd::slice::slice_to_vec(es[i].key.key.as_slice()),
                        crdt_type: es[i].key.crdt_type,
                    };
                    let entry = MapSnapshotEntry { key, value: entry_value };
                    let ghost ev = snap_entry_view(entry);
                    let ghost prev = out@;
                    out.push(entry);
                    i = i + 1;
                    proof {
                        let mv = map_entries_view(es@);
                        assert(mv.subrange(0, i as int).drop_last() =~= mv.subrange(0, i - 1));
                        assert(mv.subrange(0, i as int).last() == mv[i - 1]);
                        assert(out@.drop_last() =~= prev);
                        assert(out@.last() == entry);
                        assert(snap_entries_view(out@) == snap_entries_view(prev).push(ev));
                        assert(ev == MapSnapEntryV {
                            key: mv[i - 1].key,
                            crdt_type: mv[i - 1].crdt_type,
                            value: snapshot_view(entry_value),
                        });
                    }
                }
                proof {
                    assert(map_entries_view(es@).subrange(0, es@.len() as int)
                        =~= map_entries_view(es@));
                }
                Ok(ReadSnapshot::MapEntries(out))
            },
            None => Err(ClientError::MalformedPayload),
        },
    }
}

/// Projects a batch of read responses: the snapshot at each position is the
/// response at that position projected under the object requested at that
/// position, so the batch keeps the request order.
pub fn project_read_responses(objects: &Vec<crate::crdt::BoundObject>, resps: &Vec<ReadObjectResp>)
    -> (r: Result<Vec<ReadSnapshot>, ClientError>)
    requires
        objects@.len() == resps@.len(),
    ensures
        match r {
            Ok(v) => v@.len() == objects@.len() && forall|i: int|
                0 <= i < objects@.len() ==> project_spec(
                    objects@[i].crdt_type,
                    read_resp_view(resps@[i]),
                ) == Some(snapshot_view(#[trigger] v@[i])),
            Err(e) => (exists|i: int|
                0 <= i < objects@.len() && project_spec(
                    #[trigger] objects@[i].crdt_type,
                    read_resp_view(resps@[i]),
                ) is None) && e == ClientError::MalformedPayload,
        },
{
    let mut out: Vec<ReadSnapshot> = Vec::new();
    let mut i: usize = 0;
    while i < objects.len()
        invariant
            i <= objects@.len(),
            objects@.len() == resps@.len(),
            out@.len() == i,
            forall|j: int|
                0 <= j < i ==> project_spec(objects@[j].crdt_type, read_resp_view(resps@[j]))
                    == Some(snapshot_view(#[trigger] out@[j])),
        decreases objects@.len() - i,
    {
        match project_read_resp(objects[i].crdt_type, &resps[i]) {
            Ok(s) => {
                out.push(s);
            },
            Err(_) => {
                return Err(ClientError::MalformedPayload);
            },
        }
        i = i + 1;
    }
    Ok(out)
}

} // verus!
