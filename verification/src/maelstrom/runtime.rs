use std::collections::HashMap;

use vstd::prelude::*;

use crate::maelstrom::error::Error;
use crate::maelstrom::message::{Message, MessageBody, MessageId, MessagePayload};
use crate::maelstrom::{Node, NodeId};

verus! {

broadcast use vstd::std_specs::hash::group_hash_axioms;

/// The state of an initialized node: who it is, and the calls it has sent to
/// other nodes that still wait for their reply. Each waiting call is keyed by
/// the identifier of its request and holds a `W`, whatever will take the
/// reply to the caller.
pub struct Runtime<W> {
    pub node: Node,
    pub rpc: HashMap<u64, W>,
}

impl<W> Runtime<W> {
    /// The calls that wait for a reply, by the identifier of their request.
    pub open spec fn pending(&self) -> Map<u64, W> {
        self.rpc@
    }

    pub fn new(node: Node) -> (r: Self)
        ensures
            r.node == node,
            r.pending() == Map::<u64, W>::empty(),
    {
        Runtime { node, rpc: HashMap::new() }
    }

    /// Takes the waiting call that `msg` answers. A message that refers to no
    /// request, or to one that nobody waits for, is malformed, and then
    /// nothing changes.
    pub fn receive<T>(&mut self, msg: &Message<T>) -> (r: Result<W, Error>)
        ensures
            final(self).node == old(self).node,
            match msg.body.in_reply_to {
                Some(id) if old(self).pending().contains_key(id.0) => {
                    &&& r == Ok::<W, Error>(old(self).pending()[id.0])
                    &&& final(self).pending() == old(self).pending().remove(id.0)
                },
                _ => {
                    &&& r == Err::<W, Error>(Error::MalformedRequest)
                    &&& final(self).pending() == old(self).pending()
                },
            },
    {
        let reply = match msg.body.in_reply_to {
            Some(id) => id,
            None => {
                return Err(Error::MalformedRequest);
            },
        };
        match self.rpc.remove(&reply.0) {
            Some(waiter) => Ok(waiter),
            None => Err(Error::MalformedRequest),
        }
    }

    /// The reply of this node to the request `reply_id` that `dest` sent.
    pub fn reply_to<T>(
        &self,
        dest: NodeId,
        reply_id: MessageId,
        msg_id: Option<MessageId>,
        payload: MessagePayload<T>,
    ) -> (m: Message<T>)
        ensures
            m == (Message {
                src: self.node.id,
                dest,
                body: MessageBody { msg_id, in_reply_to: Some(reply_id), payload },
            }),
    {
        Message {
            src: self.node.id.clone(),
            dest,
            body: MessageBody { msg_id, in_reply_to: Some(reply_id), payload },
        }
    }

    /// The request of a call from this node to `dest`.
    pub fn call_msg<T>(&self, dest: NodeId, msg_id: MessageId, payload: T) -> (m: Message<T>)
        ensures
            m == (Message {
                src: self.node.id,
                dest,
                body: MessageBody {
                    msg_id: Some(msg_id),
                    in_reply_to: None,
                    payload: MessagePayload::Custom(payload),
                },
            }),
    {
        Message {
            src: self.node.id.clone(),
            dest,
            body: MessageBody {
                msg_id: Some(msg_id),
                in_reply_to: None,
                payload: MessagePayload::Custom(payload),
            },
        }
    }

    /// The identifier under which the reply to the call `msg` will come:
    /// a call without an identifier is malformed.
    pub fn call_id<T>(msg: &Message<T>) -> (r: Result<MessageId, Error>)
        ensures
            r == match msg.body.msg_id {
                Some(id) => Ok::<MessageId, Error>(id),
                None => Err::<MessageId, Error>(Error::MalformedRequest),
            },
    {
        match msg.body.msg_id {
            Some(id) => Ok(id),
            None => Err(Error::MalformedRequest),
        }
    }

    /// Records that a call with identifier `id` waits for its reply, to be
    /// handed to `waiter`. A call already waiting under the same identifier
    /// is replaced and handed back.
    pub fn await_reply(&mut self, id: MessageId, waiter: W) -> (r: Option<W>)
        ensures
            final(self).node == old(self).node,
            final(self).pending() == old(self).pending().insert(id.0, waiter),
            r == (if old(self).pending().contains_key(id.0) {
                Some(old(self).pending()[id.0])
            } else {
                None::<W>
            }),
    {
        self.rpc.insert(id.0, waiter)
    }

    /// What a call returns, given the reply it received: the workload payload
    /// of the reply, or the error that the reply reports.
    pub fn call_result<T>(response: Message<T>) -> (r: Result<T, Error>)
        requires
            response.body.payload is Error || response.body.payload is Custom,
        ensures
            match response.body.payload {
                MessagePayload::Error(p) => r == Err::<T, Error>(
                    crate::maelstrom::error::error_of_code(p.code, p.text),
                ),
                MessagePayload::Custom(t) => r == Ok::<T, Error>(t),
                _ => false,
            },
    {
        match response.body.payload {
            MessagePayload::Error(p) => Err(Error::from_code_message(p.code, p.text)),
            MessagePayload::Custom(t) => Ok(t),
            MessagePayload::Init(_) => {
                proof {
                    assert(false);
                }
                Err(Error::Crash)
            },
            MessagePayload::InitOk => {
                proof {
                    assert(false);
                }
                Err(Error::Crash)
            },
        }
    }
}

/// A reply reaches the call that waits for it, and only once: once a call
/// waits under `id` for `waiter`, a reply to `id` is handed `waiter`, and
/// after that a second reply to `id` finds no call. A call that was the only
/// one under its identifier leaves no trace once answered.
pub proof fn lemma_reply_reaches_call_once<W>(pending: Map<u64, W>, id: MessageId, waiter: W)
    ensures
        pending.insert(id.0, waiter).contains_key(id.0),
        pending.insert(id.0, waiter)[id.0] == waiter,
        !pending.insert(id.0, waiter).remove(id.0).contains_key(id.0),
        !pending.contains_key(id.0) ==> pending.insert(id.0, waiter).remove(id.0) == pending,
{
    if !pending.contains_key(id.0) {
        assert(pending.insert(id.0, waiter).remove(id.0) =~= pending);
    }
}

} // verus!
