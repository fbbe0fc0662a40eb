use vstd::prelude::*;

use crate::maelstrom::error::{error_of_code, Error};
use crate::maelstrom::NodeId;

verus! {

/// The identifier that a node gives to a message it sends.
#[derive(Debug, Clone, Copy, PartialEq, Eq, Hash, Structural)]
pub struct MessageId(pub u64);

impl MessageId {
    pub fn new(id: u64) -> (r: Self)
        ensures
            r.0 == id,
    {
        MessageId(id)
    }
}

impl From<u64> for MessageId {
    fn from(value: u64) -> (r: Self) {
        MessageId(value)
    }
}

impl vstd::std_specs::convert::FromSpecImpl<u64> for MessageId {
    open spec fn obeys_from_spec() -> bool {
        true
    }

    open spec fn from_spec(v: u64) -> MessageId {
        MessageId(v)
    }
}

/// A message between two nodes (or between a node and a client).
#[derive(Debug, Clone, PartialEq, Eq)]
pub struct Message<T> {
    /// The node this message came from.
    pub src: NodeId,
    /// The node this message is to.
    pub dest: NodeId,
    /// The payload of the message, with its identifiers.
    pub body: MessageBody<T>,
}

/// What a reply needs to know of the request it answers.
#[derive(Debug)]
pub struct MessageMeta {
    pub src: NodeId,
    pub dest: NodeId,
    pub msg_id: Option<MessageId>,
    pub in_reply_to: Option<MessageId>,
}

impl Clone for MessageMeta {
    fn clone(&self) -> (r: Self)
        ensures
            r == *self,
    {
        MessageMeta {
            src: self.src.clone(),
            dest: self.dest.clone(),
            msg_id: self.msg_id,
            in_reply_to: self.in_reply_to,
        }
    }
}

#[derive(Debug, Clone, PartialEq, Eq)]
pub struct MessageBody<T> {
    pub msg_id: Option<MessageId>,
    pub in_reply_to: Option<MessageId>,
    pub payload: MessagePayload<T>,
}

/// The payloads that every node understands, and the workload's own ones.
#[derive(Debug, Clone, PartialEq, Eq)]
pub enum MessagePayload<T> {
    Init(InitPayload),
    InitOk,
    Error(ErrorPayload),
    Custom(T),
}

#[derive(Debug, Clone, PartialEq, Eq)]
pub struct InitPayload {
    pub node_id: NodeId,
    pub node_ids: Vec<NodeId>,
}

#[derive(Debug, Clone, PartialEq, Eq)]
pub struct ErrorPayload {
    pub code: i32,
    pub text: String,
}

/// The reply to the request described by `source`: it goes back to the
/// request's sender, from the node the request was sent to, and refers to the
/// request's identifier.
pub open spec fn reply_message<T>(
    source: MessageMeta,
    msg_id: Option<MessageId>,
    payload: MessagePayload<T>,
) -> Message<T> {
    Message {
        src: source.dest,
        dest: source.src,
        body: MessageBody { msg_id, in_reply_to: source.msg_id, payload },
    }
}

impl<T> Message<T> {
    pub open spec fn spec_meta(&self) -> MessageMeta {
        MessageMeta {
            src: self.src,
            dest: self.dest,
            msg_id: self.body.msg_id,
            in_reply_to: self.body.in_reply_to,
        }
    }

    /// The addresses and identifiers of this message.
    pub fn meta(&self) -> (m: MessageMeta)
        ensures
            m == self.spec_meta(),
    {
        MessageMeta {
            src: self.src.clone(),
            dest: self.dest.clone(),
            msg_id: self.body.msg_id,
            in_reply_to: self.body.in_reply_to,
        }
    }

    /// Builds the reply to the request described by `source`.
    pub fn reply_to(source: &MessageMeta, msg_id: Option<MessageId>, payload: MessagePayload<T>) -> (m:
        Self)
        ensures
            m == reply_message(*source, msg_id, payload),
    {
        Message {
            src: source.dest.clone(),
            dest: source.src.clone(),
            body: MessageBody { msg_id, in_reply_to: source.msg_id, payload },
        }
    }
}

impl ErrorPayload {
    /// The payload carries the code and the description of `e`.
    pub open spec fn describes(self, e: Error) -> bool {
        self.code == e.spec_code() && self.text@ == e.spec_description()
    }
}

impl Error {
    /// The payload that reports this error to the requester.
    pub fn into(self) -> (p: ErrorPayload)
        ensures
            p.describes(self),
    {
        ErrorPayload { code: self.code(), text: self.description().to_owned() }
    }
}

/// An error reported in a payload reads back as the same error: its code
/// and description survive the trip, and a standard error comes back as
/// itself.
pub proof fn lemma_error_payload_round_trip(e: Error, p: ErrorPayload)
    requires
        e.wf(),
        p.describes(e),
    ensures
        error_of_code(p.code, p.text).spec_code() == e.spec_code(),
        error_of_code(p.code, p.text).spec_description() == e.spec_description(),
        !(e is Other) ==> error_of_code(p.code, p.text) == e,
{
}

/// The metadata of a message names its own sender, receiver and
/// identifiers, and a reply built from it goes from the receiver back to the
/// sender, refers to the message's identifier, and carries the given
/// identifier and payload.
pub proof fn lemma_reply_goes_back<T>(
    msg: Message<T>,
    msg_id: Option<MessageId>,
    payload: MessagePayload<T>,
)
    ensures
        msg.spec_meta().src == msg.src,
        msg.spec_meta().dest == msg.dest,
        msg.spec_meta().msg_id == msg.body.msg_id,
        msg.spec_meta().in_reply_to == msg.body.in_reply_to,
        reply_message(msg.spec_meta(), msg_id, payload).src == msg.dest,
        reply_message(msg.spec_meta(), msg_id, payload).dest == msg.src,
        reply_message(msg.spec_meta(), msg_id, payload).body.in_reply_to == msg.body.msg_id,
        reply_message(msg.spec_meta(), msg_id, payload).body.msg_id == msg_id,
        reply_message(msg.spec_meta(), msg_id, payload).body.payload == payload,
{
}

/// The payload that reports an error carries the error's code and its
/// description.
pub proof fn lemma_payload_reports_error(e: Error, p: ErrorPayload)
    requires
        p.describes(e),
    ensures
        p.code == e.spec_code(),
        p.text@ == e.spec_description(),
{
}

} // verus!
