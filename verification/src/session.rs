//! The transaction session: a client-visible state machine driving
//! begin, then reads and updates, then commit or abort. The session is pure:
//! request builders turn typed arguments into complete frames, response
//! handlers turn a received frame's tag and payload into results and state
//! transitions, and the transport that moves the frames stays outside.
//! A transaction holds the server-issued descriptor as its sole correlation
//! token and dies on its single transition to committed or aborted.

use vstd::prelude::*;

use crate::crdt::{BoundObject, Operation};
use crate::decode::{
    decode_operation_resp, decode_start_transaction_resp, parse_commit_resp,
    parse_operation_resp, parse_start_transaction_resp, decode_commit_resp,
};
use crate::frame::{encode_frame, frame_bytes, MAX_FRAME_PAYLOAD};
use crate::messages::{
    enc_abort_transaction, enc_commit_transaction, enc_read_objects, enc_start_transaction,
    enc_update_objects, encode_abort_transaction, encode_commit_transaction, encode_read_objects,
    encode_start_transaction, encode_update_objects, opt_bytes_view, APB_ABORT_TRANSACTION,
    APB_COMMIT_TRANSACTION, APB_OPERATION_RESP, APB_READ_OBJECTS, APB_READ_OBJECTS_RESP,
    APB_START_TRANSACTION, APB_START_TRANSACTION_RESP, APB_COMMIT_RESP, APB_UPDATE_OBJECTS,
};
use crate::responses::{
    decode_read_objects_resp, objects_list_view, parse_read_objects_resp, ReadObjectResp,
};
use crate::ClientError;

verus! {

/// The lifecycle of a transaction: it becomes active on a successful begin
/// and moves exactly once to committed or aborted, after which it is dead.
#[derive(Clone, Copy, PartialEq, Eq, Structural, Debug)]
pub enum TxnState {
    Active,
    Committed,
    Aborted,
}

/// A server-side transaction as the client sees it: the opaque descriptor
/// the server issued on begin, and the lifecycle state.
#[derive(Debug)]
pub struct Transaction {
    id: Vec<u8>,
    state: TxnState,
}

/// Wraps a message payload into a frame under its message-kind tag, or
/// reports that the payload exceeds what a frame's length field can say.
fn build_frame(code: u8, msg: Vec<u8>) -> (r: Result<Vec<u8>, ClientError>)
    ensures
        match r {
            Ok(f) => msg@.len() <= MAX_FRAME_PAYLOAD && f@ == frame_bytes(code, msg@),
            Err(e) => msg@.len() > MAX_FRAME_PAYLOAD && e == ClientError::FrameTooLarge,
        },
{
    if msg.len() > MAX_FRAME_PAYLOAD {
        Err(ClientError::FrameTooLarge)
    } else {
        Ok(encode_frame(code, msg.as_slice()))
    }
}

/// Builds the begin-transaction frame, carrying the causal snapshot to read
/// since if one is given, else requesting a fresh snapshot.
pub fn start_transaction_request(timestamp: Option<&Vec<u8>>) -> (r: Result<Vec<u8>, ClientError>)
    ensures
        match r {
            Ok(f) => f@ == frame_bytes(
                APB_START_TRANSACTION,
                enc_start_transaction(opt_bytes_view(timestamp)),
            ),
            Err(e) => enc_start_transaction(opt_bytes_view(timestamp)).len() > MAX_FRAME_PAYLOAD
                && e == ClientError::FrameTooLarge,
        },
{
    build_frame(APB_START_TRANSACTION, encode_start_transaction(timestamp))
}

/// Handles the begin response: a successful one yields an active
/// transaction holding the descriptor the server issued; a server-reported
/// failure and a response of the wrong shape or kind are kept apart.
pub fn start_transaction_response(code: u8, payload: &[u8]) -> (r: Result<
    Transaction,
    ClientError,
>)
    ensures
        code != APB_START_TRANSACTION_RESP ==> r == Err::<Transaction, ClientError>(
            ClientError::UnexpectedMessageKind,
        ),
        code == APB_START_TRANSACTION_RESP ==> (match parse_start_transaction_resp(payload@) {
            None => r == Err::<Transaction, ClientError>(ClientError::MalformedPayload),
            Some((success, descriptor, errorcode)) => {
                if success {
                    match descriptor {
                        Some(d) => r is Ok && r->Ok_0.descriptor() == d && r->Ok_0.is_active(),
                        None => r == Err::<Transaction, ClientError>(
                            ClientError::MalformedPayload,
                        ),
                    }
                } else {
                    r == Err::<Transaction, ClientError>(ClientError::ApplicationFailure)
                }
            },
        }),
{
    if code != APB_START_TRANSACTION_RESP {
        return Err(ClientError::UnexpectedMessageKind);
    }
    match decode_start_transaction_resp(payload) {
        Err(e) => Err(e),
        Ok(m) => {
            if !m.success {
                Err(ClientError::ApplicationFailure)
            } else {
                match m.transaction_descriptor {
                    None => Err(ClientError::MalformedPayload),
                    Some(d) => Ok(Transaction { id: d, state: TxnState::Active }),
                }
            }
        },
    }
}

impl Transaction {
    /// The descriptor correlating every request of this transaction.
    pub closed spec fn descriptor(&self) -> Seq<u8> {
        self.id@
    }

    /// The lifecycle state.
    pub closed spec fn state(&self) -> TxnState {
        self.state
    }

    /// Whether reads, updates, commit and abort are still permitted.
    pub open spec fn is_active(&self) -> bool {
        self.state() == TxnState::Active
    }

    /// Whether the transaction is still active; reads, updates, commit and
    /// abort are contract violations on one that is not.
    pub fn active(&self) -> (r: bool)
        ensures
            r == self.is_active(),
    {
        match self.state {
            TxnState::Active => true,
            _ => false,
        }
    }

    /// Builds the batched read frame naming every requested object, in the
    /// caller's order, tagged with this transaction's descriptor.
    pub fn read_request(&self, objects: &Vec<BoundObject>) -> (r: Result<Vec<u8>, ClientError>)
        requires
            self.is_active(),
        ensures
            match r {
                Ok(f) => f@ == frame_bytes(
                    APB_READ_OBJECTS,
                    enc_read_objects(objects@, self.descriptor()),
                ),
                Err(e) => enc_read_objects(objects@, self.descriptor()).len()
                    > MAX_FRAME_PAYLOAD && e == ClientError::FrameTooLarge,
            },
    {
        build_frame(APB_READ_OBJECTS, encode_read_objects(objects, &self.id))
    }

    /// Handles the batched read response: on success, one read response per
    /// requested object, in the requested order; a server-reported failure
    /// yields an explicit read failure with no partial results.
    pub fn read_response(&self, code: u8, payload: &[u8]) -> (r: Result<
        Vec<ReadObjectResp>,
        ClientError,
    >)
        requires
            self.is_active(),
        ensures
            code != APB_READ_OBJECTS_RESP ==> r == Err::<Vec<ReadObjectResp>, ClientError>(
                ClientError::UnexpectedMessageKind,
            ),
            code == APB_READ_OBJECTS_RESP ==> (match parse_read_objects_resp(payload@) {
                None => r == Err::<Vec<ReadObjectResp>, ClientError>(
                    ClientError::MalformedPayload,
                ),
                Some((success, objs, errorcode)) => {
                    if success {
                        r is Ok && objects_list_view(r->Ok_0@) == objs
                    } else {
                        r == Err::<Vec<ReadObjectResp>, ClientError>(
                            ClientError::ApplicationFailure,
                        )
                    }
                },
            }),
    {
        if code != APB_READ_OBJECTS_RESP {
            return Err(ClientError::UnexpectedMessageKind);
        }
        match decode_read_objects_resp(payload) {
            Err(e) => Err(e),
            Ok(m) => {
                if m.success {
                    Ok(m.objects)
                } else {
                    Err(ClientError::ApplicationFailure)
                }
            },
        }
    }

    /// Builds the batched update frame carrying every operation, in the
    /// caller's order, tagged with this transaction's descriptor.
    pub fn update_request(&self, operations: &Vec<Operation>) -> (r: Result<Vec<u8>, ClientError>)
        requires
            self.is_active(),
        ensures
            match r {
                Ok(f) => f@ == frame_bytes(
                    APB_UPDATE_OBJECTS,
                    enc_update_objects(operations@, self.descriptor()),
                ),
                Err(e) => enc_update_objects(operations@, self.descriptor()).len()
                    > MAX_FRAME_PAYLOAD && e == ClientError::FrameTooLarge,
            },
    {
        build_frame(APB_UPDATE_OBJECTS, encode_update_objects(operations, &self.id))
    }

    /// Handles the batched update response: the server applies the batch
    /// atomically, so the outcome is success or an explicit failure.
    pub fn update_response(&self, code: u8, payload: &[u8]) -> (r: Result<(), ClientError>)
        requires
            self.is_active(),
        ensures
            code != APB_OPERATION_RESP ==> r == Err::<(), ClientError>(
                ClientError::UnexpectedMessageKind,
            ),
            code == APB_OPERATION_RESP ==> (match parse_operation_resp(payload@) {
                None => r == Err::<(), ClientError>(ClientError::MalformedPayload),
                Some((success, errorcode)) => {
                    if success {
                        r is Ok
                    } else {
                        r == Err::<(), ClientError>(ClientError::ApplicationFailure)
                    }
                },
            }),
    {
        if code != APB_OPERATION_RESP {
            return Err(ClientError::UnexpectedMessageKind);
        }
        match decode_operation_resp(payload) {
            Err(e) => Err(e),
            Ok(m) => {
                if m.success {
                    Ok(())
                } else {
                    Err(ClientError::ApplicationFailure)
                }
            },
        }
    }

    /// Builds the commit frame.
    pub fn commit_request(&self) -> (r: Result<Vec<u8>, ClientError>)
        requires
            self.is_active(),
        ensures
            match r {
                Ok(f) => f@ == frame_bytes(
                    APB_COMMIT_TRANSACTION,
                    enc_commit_transaction(self.descriptor()),
                ),
                Err(e) => enc_commit_transaction(self.descriptor()).len() > MAX_FRAME_PAYLOAD
                    && e == ClientError::FrameTooLarge,
            },
    {
        build_frame(APB_COMMIT_TRANSACTION, encode_commit_transaction(&self.id))
    }

    /// Handles the commit response: success moves the transaction to
    /// committed and yields the new causal commit timestamp; a
    /// server-reported rejection moves it to its terminal failed state. A
    /// response of the wrong kind or shape leaves the state untouched.
    pub fn commit_response(&mut self, code: u8, payload: &[u8]) -> (r: Result<Vec<u8>, ClientError>)
        requires
            old(self).is_active(),
        ensures
            final(self).descriptor() == old(self).descriptor(),
            code != APB_COMMIT_RESP ==> r == Err::<Vec<u8>, ClientError>(
                ClientError::UnexpectedMessageKind,
            ) && final(self).state() == old(self).state(),
            code == APB_COMMIT_RESP ==> (match parse_commit_resp(payload@) {
                None => r == Err::<Vec<u8>, ClientError>(ClientError::MalformedPayload)
                    && final(self).state() == old(self).state(),
                Some((success, commit_time, errorcode)) => {
                    if success {
                        match commit_time {
                            Some(t) => r is Ok && r->Ok_0@ == t && final(self).state()
                                == TxnState::Committed,
                            None => r == Err::<Vec<u8>, ClientError>(
                                ClientError::MalformedPayload,
                            ) && final(self).state() == old(self).state(),
                        }
                    } else {
                        r == Err::<Vec<u8>, ClientError>(ClientError::ApplicationFailure)
                            && final(self).state() == TxnState::Aborted
                    }
                },
            }),
    {
        if code != APB_COMMIT_RESP {
            return Err(ClientError::UnexpectedMessageKind);
        }
        match decode_commit_resp(payload) {
            Err(e) => Err(e),
            Ok(m) => {
                if !m.success {
                    self.state = TxnState::Aborted;
                    Err(ClientError::ApplicationFailure)
                } else {
                    match m.commit_time {
                        None => Err(ClientError::MalformedPayload),
                        Some(t) => {
                            self.state = TxnState::Committed;
                            Ok(t)
                        },
                    }
                }
            },
        }
    }

    /// Builds the abort frame.
    pub fn abort_request(&self) -> (r: Result<Vec<u8>, ClientError>)
        requires
            self.is_active(),
        ensures
            match r {
                Ok(f) => f@ == frame_bytes(
                    APB_ABORT_TRANSACTION,
                    enc_abort_transaction(self.descriptor()),
                ),
                Err(e) => enc_abort_transaction(self.descriptor()).len() > MAX_FRAME_PAYLOAD && e
                    == ClientError::FrameTooLarge,
            },
    {
        build_frame(APB_ABORT_TRANSACTION, encode_abort_transaction(&self.id))
    }

    /// Handles the abort response: once the server has answered, the
    /// transaction is aborted and its updates are discarded; the result says
    /// whether the server acknowledged the abort. A response of the wrong
    /// kind or shape leaves the state untouched.
    pub fn abort_response(&mut self, code: u8, payload: &[u8]) -> (r: Result<(), ClientError>)
        requires
            old(self).is_active(),
        ensures
            final(self).descriptor() == old(self).descriptor(),
            code != APB_OPERATION_RESP ==> r == Err::<(), ClientError>(
                ClientError::UnexpectedMessageKind,
            ) && final(self).state() == old(self).state(),
            code == APB_OPERATION_RESP ==> (match parse_operation_resp(payload@) {
                None => r == Err::<(), ClientError>(ClientError::MalformedPayload)
                    && final(self).state() == old(self).state(),
                Some((success, errorcode)) => final(self).state() == TxnState::Aborted && (if success {
                    r is Ok
                } else {
                    r == Err::<(), ClientError>(ClientError::ApplicationFailure)
                }),
            }),
    {
        if code != APB_OPERATION_RESP {
            return Err(ClientError::UnexpectedMessageKind);
        }
        match decode_operation_resp(payload) {
            Err(e) => Err(e),
            Ok(m) => {
                self.state = TxnState::Aborted;
                if m.success {
                    Ok(())
                } else {
                    Err(ClientError::ApplicationFailure)
                }
            },
        }
    }
}

} // verus!
