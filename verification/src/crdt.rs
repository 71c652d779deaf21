//! The bound object model and the typed operation builders. A replicated
//! object is identified by key, bucket and CRDT type; each concrete handle
//! fixes its own type at construction and exposes only the operations its
//! CRDT family supports, so an unsupported operation/object pairing cannot
//! be written down at all. Reset in particular is offered only by the
//! handles whose CRDT variant supports it.

use vstd::prelude::*;
use vstd::string::StrSliceExecFns;
use vstd::string::StringSliceAdditionalSpecFns;

use crate::codec::be_bytes;
use crate::codec::write_be_u64;

verus! {

/// The closed vocabulary of CRDT types the protocol speaks of.
#[derive(Clone, Copy, PartialEq, Eq, Structural, Debug)]
pub enum CrdtType {
    Counter,
    OrSet,
    LwwReg,
    MvReg,
    GMap,
    RwSet,
    RrMap,
    FatCounter,
    FlagEw,
    FlagDw,
}

/// The enumerated constant a CRDT type travels as on the wire.
pub open spec fn crdt_type_tag(t: CrdtType) -> nat {
    match t {
        CrdtType::Counter => 3,
        CrdtType::OrSet => 4,
        CrdtType::LwwReg => 5,
        CrdtType::MvReg => 6,
        CrdtType::GMap => 8,
        CrdtType::RwSet => 10,
        CrdtType::RrMap => 11,
        CrdtType::FatCounter => 12,
        CrdtType::FlagEw => 13,
        CrdtType::FlagDw => 14,
    }
}

/// The CRDT type a wire constant denotes, if any.
pub open spec fn crdt_type_of_tag(v: nat) -> Option<CrdtType> {
    if v == 3 {
        Some(CrdtType::Counter)
    } else if v == 4 {
        Some(CrdtType::OrSet)
    } else if v == 5 {
        Some(CrdtType::LwwReg)
    } else if v == 6 {
        Some(CrdtType::MvReg)
    } else if v == 8 {
        Some(CrdtType::GMap)
    } else if v == 10 {
        Some(CrdtType::RwSet)
    } else if v == 11 {
        Some(CrdtType::RrMap)
    } else if v == 12 {
        Some(CrdtType::FatCounter)
    } else if v == 13 {
        Some(CrdtType::FlagEw)
    } else if v == 14 {
        Some(CrdtType::FlagDw)
    } else {
        None
    }
}

pub fn crdt_tag(t: CrdtType) -> (r: u8)
    ensures
        r as nat == crdt_type_tag(t),
{
    match t {
        CrdtType::Counter => 3,
        CrdtType::OrSet => 4,
        CrdtType::LwwReg => 5,
        CrdtType::MvReg => 6,
        CrdtType::GMap => 8,
        CrdtType::RwSet => 10,
        CrdtType::RrMap => 11,
        CrdtType::FatCounter => 12,
        CrdtType::FlagEw => 13,
        CrdtType::FlagDw => 14,
    }
}

pub fn crdt_of_tag(v: u64) -> (r: Option<CrdtType>)
    ensures
        r == crdt_type_of_tag(v as nat),
{
    if v == 3 {
        Some(CrdtType::Counter)
    } else if v == 4 {
        Some(CrdtType::OrSet)
    } else if v == 5 {
        Some(CrdtType::LwwReg)
    } else if v == 6 {
        Some(CrdtType::MvReg)
    } else if v == 8 {
        Some(CrdtType::GMap)
    } else if v == 10 {
        Some(CrdtType::RwSet)
    } else if v == 11 {
        Some(CrdtType::RrMap)
    } else if v == 12 {
        Some(CrdtType::FatCounter)
    } else if v == 13 {
        Some(CrdtType::FlagEw)
    } else if v == 14 {
        Some(CrdtType::FlagDw)
    } else {
        None
    }
}

/// Identifies exactly one replicated object; immutable once built and
/// compared by value.
#[derive(Clone, PartialEq, Eq, Debug)]
pub struct BoundObject {
    pub key: Vec<u8>,
    pub bucket: Vec<u8>,
    pub crdt_type: CrdtType,
}

/// Identifies a nested object inside a map.
#[derive(Clone, PartialEq, Eq, Debug)]
pub struct MapKey {
    pub key: Vec<u8>,
    pub crdt_type: CrdtType,
}

/// Whether a set update adds or removes its elements.
#[derive(Clone, Copy, PartialEq, Eq, Structural, Debug)]
pub enum SetOpKind {
    Add,
    Remove,
}

/// The wire constant of a set operation kind.
pub open spec fn set_op_tag(k: SetOpKind) -> nat {
    match k {
        SetOpKind::Add => 1,
        SetOpKind::Remove => 2,
    }
}

pub fn set_op_kind_tag(k: SetOpKind) -> (r: u8)
    ensures
        r as nat == set_op_tag(k),
{
    match k {
        SetOpKind::Add => 1,
        SetOpKind::Remove => 2,
    }
}

/// The tagged operation grammar. A map update nests further payloads, so the
/// whole grammar of operations recurs inside it.
#[derive(Debug)]
pub enum OperationPayload {
    RegisterSet { value: Vec<u8> },
    CounterIncrement { inc: i64 },
    SetUpdate { op_kind: SetOpKind, adds: Vec<Vec<u8>>, rems: Vec<Vec<u8>> },
    FlagSet { value: bool },
    MapUpdate { updates: Vec<MapNestedUpdate>, removed_keys: Vec<MapKey> },
    Reset,
}

/// One nested update inside a map operation: the nested key and the payload
/// applied to the object it names.
#[derive(Debug)]
pub struct MapNestedUpdate {
    pub key: MapKey,
    pub update: OperationPayload,
}

/// One update operation: a payload aimed at one bound object.
#[derive(Debug)]
pub struct Operation {
    pub boundobject: BoundObject,
    pub operation: OperationPayload,
}

pub open spec fn payload_is_reset(p: OperationPayload) -> bool {
    p == OperationPayload::Reset
}

pub open spec fn payload_is_reg_set(p: OperationPayload, bytes: Seq<u8>) -> bool {
    match p {
        OperationPayload::RegisterSet { value } => value@ == bytes,
        _ => false,
    }
}

pub open spec fn payload_is_counter_inc(p: OperationPayload, delta: int) -> bool {
    match p {
        OperationPayload::CounterIncrement { inc } => inc == delta,
        _ => false,
    }
}

pub open spec fn payload_is_set_update(
    p: OperationPayload,
    kind: SetOpKind,
    add_elems: Seq<Seq<u8>>,
    rem_elems: Seq<Seq<u8>>,
) -> bool {
    match p {
        OperationPayload::SetUpdate { op_kind, adds, rems } => {
            &&& op_kind == kind
            &&& adds.deep_view() == add_elems
            &&& rems.deep_view() == rem_elems
        },
        _ => false,
    }
}

pub open spec fn payload_is_flag_set(p: OperationPayload, v: bool) -> bool {
    match p {
        OperationPayload::FlagSet { value } => value == v,
        _ => false,
    }
}

pub open spec fn payload_is_map_update(
    p: OperationPayload,
    ups: Vec<MapNestedUpdate>,
    removed: Vec<MapKey>,
) -> bool {
    match p {
        OperationPayload::MapUpdate { updates, removed_keys } => {
            &&& updates == ups
            &&& removed_keys == removed
        },
        _ => false,
    }
}

/// Whether a bound object value is the one a handle is bound to.
pub open spec fn is_object_of<T: Object>(b: BoundObject, o: T) -> bool {
    &&& b.key@ == o.obj_key()
    &&& b.bucket@ == o.obj_bucket()
    &&& b.crdt_type == T::obj_type()
}

/// The big-endian encoding convention register and counter style values use
/// for 64-bit integers carried in byte buffers.
pub fn be_bytes_list(values: &[u64]) -> (r: Vec<Vec<u8>>)
    ensures
        r.deep_view() == values@.map_values(|v: u64| be_bytes(v as nat, 8)),
{
    let mut out: Vec<Vec<u8>> = Vec::new();
    let mut i: usize = 0;
    while i < values.len()
        invariant
            i <= values@.len(),
            out@.len() == i,
            forall|j: int| 0 <= j < i ==> #[trigger] out@[j]@ == be_bytes(values@[j] as nat, 8),
        decreases values@.len() - i,
    {
        let mut buf: Vec<u8> = Vec::new();
        write_be_u64(&mut buf, values[i]);
        out.push(buf);
        i = i + 1;
    }
    proof {
        assert(out.deep_view() =~~= values@.map_values(|v: u64| be_bytes(v as nat, 8)));
    }
    out
}

/// A handle to one replicated object. Construction fixes the key, bucket and
/// CRDT type for the handle's lifetime; building an operation never touches
/// the network.
pub trait Object: Sized {
    /// The key this handle is bound to.
    spec fn obj_key(&self) -> Seq<u8>;

    /// The bucket this handle is bound to.
    spec fn obj_bucket(&self) -> Seq<u8>;

    /// The CRDT type every handle of this family carries.
    spec fn obj_type() -> CrdtType;

    fn new(key: &str, bucket: &str) -> (r: Self)
        ensures
            r.obj_key() == key.spec_bytes(),
            r.obj_bucket() == bucket.spec_bytes(),
    ;

    fn get_crdt_type() -> (r: CrdtType)
        ensures
            r == Self::obj_type(),
    ;

    fn get_object(&self) -> (r: BoundObject)
        ensures
            r.key@ == self.obj_key(),
            r.bucket@ == self.obj_bucket(),
            r.crdt_type == Self::obj_type(),
    ;

    /// Builds the identifying triple for a fresh binding.
    fn new_object(key: &str, bucket: &str) -> (r: BoundObject)
        ensures
            r.key@ == key.spec_bytes(),
            r.bucket@ == bucket.spec_bytes(),
            r.crdt_type == Self::obj_type(),
    {
        BoundObject {
            key: key.as_bytes_vec(),
            bucket: bucket.as_bytes_vec(),
            crdt_type: Self::get_crdt_type(),
        }
    }

    /// Builds a map key naming a nested object of this handle's CRDT type.
    fn map_key(key: &str) -> (r: MapKey)
        ensures
            r.key@ == key.spec_bytes(),
            r.crdt_type == Self::obj_type(),
    {
        MapKey { key: key.as_bytes_vec(), crdt_type: Self::get_crdt_type() }
    }
}

/// The reset capability: only CRDT variants whose merge rule supports reset
/// implement this trait, so a reset against any other handle is not
/// expressible.
pub trait ObjectReset: Object {
    fn reset(&self) -> (r: Operation)
        ensures
            is_object_of(r.boundobject, *self),
            payload_is_reset(r.operation),
    {
        Operation { boundobject: self.get_object(), operation: OperationPayload::Reset }
    }
}

/// Register operations: store a 64-bit value under the big-endian buffer
/// convention.
pub trait RegT: Object {
    fn set_op(value: u64) -> (r: OperationPayload)
        ensures
            payload_is_reg_set(r, be_bytes(value as nat, 8)),
    {
        let mut buffer: Vec<u8> = Vec::new();
        write_be_u64(&mut buffer, value);
        OperationPayload::RegisterSet { value: buffer }
    }

    fn set(&self, value: u64) -> (r: Operation)
        ensures
            is_object_of(r.boundobject, *self),
            payload_is_reg_set(r.operation, be_bytes(value as nat, 8)),
    {
        Operation { boundobject: self.get_object(), operation: Self::set_op(value) }
    }
}

/// Counter operations: increment by a signed delta.
pub trait CounterT: Object {
    /// A negative delta decrements.
    fn inc_op(val: i64) -> (r: OperationPayload)
        ensures
            payload_is_counter_inc(r, val as int),
    {
        OperationPayload::CounterIncrement { inc: val }
    }

    fn inc(&self, val: i64) -> (r: Operation)
        ensures
            is_object_of(r.boundobject, *self),
            payload_is_counter_inc(r.operation, val as int),
    {
        Operation { boundobject: self.get_object(), operation: Self::inc_op(val) }
    }

    fn inc_one(&self) -> (r: Operation)
        ensures
            is_object_of(r.boundobject, *self),
            payload_is_counter_inc(r.operation, 1),
    {
        self.inc(1)
    }

    fn dec_one(&self) -> (r: Operation)
        ensures
            is_object_of(r.boundobject, *self),
            payload_is_counter_inc(r.operation, -1),
    {
        self.inc(-1)
    }
}

/// Set operations: add or remove a batch of elements, each element carried
/// as a 64-bit value under the big-endian buffer convention.
pub trait SetT: Object {
    fn add_op(values: &[u64]) -> (r: OperationPayload)
        ensures
            payload_is_set_update(
                r,
                SetOpKind::Add,
                values@.map_values(|v: u64| be_bytes(v as nat, 8)),
                Seq::<Seq<u8>>::empty(),
            ),
    {
        let adds = be_bytes_list(values);
        let rems: Vec<Vec<u8>> = Vec::new();
        proof {
            assert(rems.deep_view() =~= Seq::<Seq<u8>>::empty());
        }
        OperationPayload::SetUpdate { op_kind: SetOpKind::Add, adds, rems }
    }

    fn add(&self, values: &[u64]) -> (r: Operation)
        ensures
            is_object_of(r.boundobject, *self),
            payload_is_set_update(
                r.operation,
                SetOpKind::Add,
                values@.map_values(|v: u64| be_bytes(v as nat, 8)),
                Seq::<Seq<u8>>::empty(),
            ),
    {
        Operation { boundobject: self.get_object(), operation: Self::add_op(values) }
    }

    fn rem_op(values: &[u64]) -> (r: OperationPayload)
        ensures
            payload_is_set_update(
                r,
                SetOpKind::Remove,
                Seq::<Seq<u8>>::empty(),
                values@.map_values(|v: u64| be_bytes(v as nat, 8)),
            ),
    {
        let rems = be_bytes_list(values);
        let adds: Vec<Vec<u8>> = Vec::new();
        proof {
            assert(adds.deep_view() =~= Seq::<Seq<u8>>::empty());
        }
        OperationPayload::SetUpdate { op_kind: SetOpKind::Remove, adds, rems }
    }

    fn rem(&self, values: &[u64]) -> (r: Operation)
        ensures
            is_object_of(r.boundobject, *self),
            payload_is_set_update(
                r.operation,
                SetOpKind::Remove,
                Seq::<Seq<u8>>::empty(),
                values@.map_values(|v: u64| be_bytes(v as nat, 8)),
            ),
    {
        Operation { boundobject: self.get_object(), operation: Self::rem_op(values) }
    }
}

/// Flag operations: set the boolean value.
pub trait FlagT: Object {
    /// `false` disables the flag.
    fn set_op(val: bool) -> (r: OperationPayload)
        ensures
            payload_is_flag_set(r, val),
    {
        OperationPayload::FlagSet { value: val }
    }

    fn set(&self, val: bool) -> (r: Operation)
        ensures
            is_object_of(r.boundobject, *self),
            payload_is_flag_set(r.operation, val),
    {
        Operation { boundobject: self.get_object(), operation: Self::set_op(val) }
    }

    fn enable(&self) -> (r: Operation)
        ensures
            is_object_of(r.boundobject, *self),
            payload_is_flag_set(r.operation, true),
    {
        self.set(true)
    }

    fn disable(&self) -> (r: Operation)
        ensures
            is_object_of(r.boundobject, *self),
            payload_is_flag_set(r.operation, false),
    {
        self.set(false)
    }
}

/// Map operations: update nested objects and remove nested keys in one
/// batch. Nested payloads are built by the same builders the top level uses,
/// so nested CRDTs reuse the identical operation grammar.
pub trait MapT: Object {
    /// Builds a map key naming a nested object of an arbitrary CRDT type.
    fn key(key: &str, crdt_type: CrdtType) -> (r: MapKey)
        ensures
            r.key@ == key.spec_bytes(),
            r.crdt_type == crdt_type,
    {
        MapKey { key: key.as_bytes_vec(), crdt_type }
    }

    fn update_op(updates: Vec<MapNestedUpdate>, removes: Vec<MapKey>) -> (r: OperationPayload)
        ensures
            payload_is_map_update(r, updates, removes),
    {
        OperationPayload::MapUpdate { updates, removed_keys: removes }
    }

    fn update(&self, updates: Vec<MapNestedUpdate>, removes: Vec<MapKey>) -> (r: Operation)
        ensures
            is_object_of(r.boundobject, *self),
            payload_is_map_update(r.operation, updates, removes),
    {
        Operation { boundobject: self.get_object(), operation: Self::update_op(updates, removes) }
    }
}

/// Last-writer-wins register.
#[derive(Clone, Debug)]
pub struct LWWReg {
    object: BoundObject,
}

impl Object for LWWReg {
    closed spec fn obj_key(&self) -> Seq<u8> {
        self.object.key@
    }

    closed spec fn obj_bucket(&self) -> Seq<u8> {
        self.object.bucket@
    }

    closed spec fn obj_type() -> CrdtType {
        CrdtType::LwwReg
    }

    fn new(key: &str, bucket: &str) -> Self {
        Self { object: Self::new_object(key, bucket) }
    }

    fn get_object(&self) -> BoundObject {
        BoundObject {
            key: vstd::slice::slice_to_vec(self.object.key.as_slice()),
            bucket: vstd::slice::slice_to_vec(self.object.bucket.as_slice()),
            crdt_type: Self::get_crdt_type(),
        }
    }

    fn get_crdt_type() -> CrdtType {
        CrdtType::LwwReg
    }
}

impl RegT for LWWReg {

}

/// Multi-value register.
#[derive(Clone, Debug)]
pub struct MVReg {
    object: BoundObject,
}

impl Object for MVReg {
    closed spec fn obj_key(&self) -> Seq<u8> {
        self.object.key@
    }

    closed spec fn obj_bucket(&self) -> Seq<u8> {
        self.object.bucket@
    }

    closed spec fn obj_type() -> CrdtType {
        CrdtType::MvReg
    }

    fn new(key: &str, bucket: &str) -> Self {
        Self { object: Self::new_object(key, bucket) }
    }

    fn get_object(&self) -> BoundObject {
        BoundObject {
            key: vstd::slice::slice_to_vec(self.object.key.as_slice()),
            bucket: vstd::slice::slice_to_vec(self.object.bucket.as_slice()),
            crdt_type: Self::get_crdt_type(),
        }
    }

    fn get_crdt_type() -> CrdtType {
        CrdtType::MvReg
    }
}

impl RegT for MVReg {

}

impl ObjectReset for MVReg {

}

/// Counter without reset.
#[derive(Clone, Debug)]
pub struct Counter {
    object: BoundObject,
}

impl Object for Counter {
    closed spec fn obj_key(&self) -> Seq<u8> {
        self.object.key@
    }

    closed spec fn obj_bucket(&self) -> Seq<u8> {
        self.object.bucket@
    }

    closed spec fn obj_type() -> CrdtType {
        CrdtType::Counter
    }

    fn new(key: &str, bucket: &str) -> Self {
        Self { object: Self::new_object(key, bucket) }
    }

    fn get_object(&self) -> BoundObject {
        BoundObject {
            key: vstd::slice::slice_to_vec(self.object.key.as_slice()),
            bucket: vstd::slice::slice_to_vec(self.object.bucket.as_slice()),
            crdt_type: Self::get_crdt_type(),
        }
    }

    fn get_crdt_type() -> CrdtType {
        CrdtType::Counter
    }
}

impl CounterT for Counter {

}

/// Counter with reset.
#[derive(Clone, Debug)]
pub struct FatCounter {
    object: BoundObject,
}

impl Object for FatCounter {
    closed spec fn obj_key(&self) -> Seq<u8> {
        self.object.key@
    }

    closed spec fn obj_bucket(&self) -> Seq<u8> {
        self.object.bucket@
    }

    closed spec fn obj_type() -> CrdtType {
        CrdtType::FatCounter
    }

    fn new(key: &str, bucket: &str) -> Self {
        Self { object: Self::new_object(key, bucket) }
    }

    fn get_object(&self) -> BoundObject {
        BoundObject {
            key: vstd::slice::slice_to_vec(self.object.key.as_slice()),
            bucket: vstd::slice::slice_to_vec(self.object.bucket.as_slice()),
            crdt_type: Self::get_crdt_type(),
        }
    }

    fn get_crdt_type() -> CrdtType {
        CrdtType::FatCounter
    }
}

impl CounterT for FatCounter {

}

impl ObjectReset for FatCounter {

}

/// Add-wins set.
#[derive(Clone, Debug)]
pub struct ORSet {
    object: BoundObject,
}

impl Object for ORSet {
    closed spec fn obj_key(&self) -> Seq<u8> {
        self.object.key@
    }

    closed spec fn obj_bucket(&self) -> Seq<u8> {
        self.object.bucket@
    }

    closed spec fn obj_type() -> CrdtType {
        CrdtType::OrSet
    }

    fn new(key: &str, bucket: &str) -> Self {
        Self { object: Self::new_object(key, bucket) }
    }

    fn get_object(&self) -> BoundObject {
        BoundObject {
            key: vstd::slice::slice_to_vec(self.object.key.as_slice()),
            bucket: vstd::slice::slice_to_vec(self.object.bucket.as_slice()),
            crdt_type: Self::get_crdt_type(),
        }
    }

    fn get_crdt_type() -> CrdtType {
        CrdtType::OrSet
    }
}

impl SetT for ORSet {

}

impl ObjectReset for ORSet {

}

/// Remove-wins set.
#[derive(Clone, Debug)]
pub struct RWSet {
    object: BoundObject,
}

impl Object for RWSet {
    closed spec fn obj_key(&self) -> Seq<u8> {
        self.object.key@
    }

    closed spec fn obj_bucket(&self) -> Seq<u8> {
        self.object.bucket@
    }

    closed spec fn obj_type() -> CrdtType {
        CrdtType::RwSet
    }

    fn new(key: &str, bucket: &str) -> Self {
        Self { object: Self::new_object(key, bucket) }
    }

    fn get_object(&self) -> BoundObject {
        BoundObject {
            key: vstd::slice::slice_to_vec(self.object.key.as_slice()),
            bucket: vstd::slice::slice_to_vec(self.object.bucket.as_slice()),
            crdt_type: Self::get_crdt_type(),
        }
    }

    fn get_crdt_type() -> CrdtType {
        CrdtType::RwSet
    }
}

impl SetT for RWSet {

}

impl ObjectReset for RWSet {

}

/// Enable-wins flag.
#[derive(Clone, Debug)]
pub struct FlagEW {
    object: BoundObject,
}

impl Object for FlagEW {
    closed spec fn obj_key(&self) -> Seq<u8> {
        self.object.key@
    }

    closed spec fn obj_bucket(&self) -> Seq<u8> {
        self.object.bucket@
    }

    closed spec fn obj_type() -> CrdtType {
        CrdtType::FlagEw
    }

    fn new(key: &str, bucket: &str) -> Self {
        Self { object: Self::new_object(key, bucket) }
    }

    fn get_object(&self) -> BoundObject {
        BoundObject {
            key: vstd::slice::slice_to_vec(self.object.key.as_slice()),
            bucket: vstd::slice::slice_to_vec(self.object.bucket.as_slice()),
            crdt_type: Self::get_crdt_type(),
        }
    }

    fn get_crdt_type() -> CrdtType {
        CrdtType::FlagEw
    }
}

impl FlagT for FlagEW {

}

impl ObjectReset for FlagEW {

}

/// Disable-wins flag.
#[derive(Clone, Debug)]
pub struct FlagDW {
    object: BoundObject,
}

impl Object for FlagDW {
    closed spec fn obj_key(&self) -> Seq<u8> {
        self.object.key@
    }

    closed spec fn obj_bucket(&self) -> Seq<u8> {
        self.object.bucket@
    }

    closed spec fn obj_type() -> CrdtType {
        CrdtType::FlagDw
    }

    fn new(key: &str, bucket: &str) -> Self {
        Self { object: Self::new_object(key, bucket) }
    }

    fn get_object(&self) -> BoundObject {
        BoundObject {
            key: vstd::slice::slice_to_vec(self.object.key.as_slice()),
            bucket: vstd::slice::slice_to_vec(self.object.bucket.as_slice()),
            crdt_type: Self::get_crdt_type(),
        }
    }

    fn get_crdt_type() -> CrdtType {
        CrdtType::FlagDw
    }
}

impl FlagT for FlagDW {

}

impl ObjectReset for FlagDW {

}

/// Grow-only map.
#[derive(Clone, Debug)]
pub struct GMap {
    object: BoundObject,
}

impl Object for GMap {
    closed spec fn obj_key(&self) -> Seq<u8> {
        self.object.key@
    }

    closed spec fn obj_bucket(&self) -> Seq<u8> {
        self.object.bucket@
    }

    closed spec fn obj_type() -> CrdtType {
        CrdtType::GMap
    }

    fn new(key: &str, bucket: &str) -> Self {
        Self { object: Self::new_object(key, bucket) }
    }

    fn get_object(&self) -> BoundObject {
        BoundObject {
            key: vstd::slice::slice_to_vec(self.object.key.as_slice()),
            bucket: vstd::slice::slice_to_vec(self.object.bucket.as_slice()),
            crdt_type: Self::get_crdt_type(),
        }
    }

    fn get_crdt_type() -> CrdtType {
        CrdtType::GMap
    }
}

impl MapT for GMap {

}

/// Recursive-remove map.
#[derive(Clone, Debug)]
pub struct RRMap {
    object: BoundObject,
}

impl Object for RRMap {
    closed spec fn obj_key(&self) -> Seq<u8> {
        self.object.key@
    }

    closed spec fn obj_bucket(&self) -> Seq<u8> {
        self.object.bucket@
    }

    closed spec fn obj_type() -> CrdtType {
        CrdtType::RrMap
    }

    fn new(key: &str, bucket: &str) -> Self {
        Self { object: Self::new_object(key, bucket) }
    }

    fn get_object(&self) -> BoundObject {
        BoundObject {
            key: vstd::slice::slice_to_vec(self.object.key.as_slice()),
            bucket: vstd::slice::slice_to_vec(self.object.bucket.as_slice()),
            crdt_type: Self::get_crdt_type(),
        }
    }

    fn get_crdt_type() -> CrdtType {
        CrdtType::RrMap
    }
}

impl MapT for RRMap {

}

impl ObjectReset for RRMap {

}

/// Maps a batch of handles to the bound objects they identify, in order.
pub fn bound_objects<T: Object>(objects: &[T]) -> (r: Vec<BoundObject>)
    ensures
        r@.len() == objects@.len(),
        forall|i: int| 0 <= i < objects@.len() ==> is_object_of(#[trigger] r@[i], objects@[i]),
{
    let mut out: Vec<BoundObject> = Vec::new();
    let mut i: usize = 0;
    while i < objects.len()
        invariant
            i <= objects@.len(),
            out@.len() == i,
            forall|j: int| 0 <= j < i ==> is_object_of(#[trigger] out@[j], objects@[j]),
        decreases objects@.len() - i,
    {
        out.push(objects[i].get_object());
        i = i + 1;
    }
    out
}

} // verus!
