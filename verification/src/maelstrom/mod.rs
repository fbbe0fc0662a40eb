pub mod error;
pub mod handler;
pub mod message;
pub mod runtime;

use vstd::prelude::*;

use crate::maelstrom::error::Error;
use crate::maelstrom::handler::Handler;
use crate::maelstrom::message::{reply_message, Message, MessageId, MessageMeta, MessagePayload};
use crate::maelstrom::runtime::Runtime;

verus! {

/// The name of a node in the cluster, such as `n1`.
#[derive(Debug)]
pub struct NodeId(pub String);

impl View for NodeId {
    type V = Seq<char>;

    open spec fn view(&self) -> Seq<char> {
        self.0@
    }
}

impl Clone for NodeId {
    fn clone(&self) -> (r: Self)
        ensures
            r == *self,
    {
        NodeId(self.0.clone())
    }
}

impl PartialEq for NodeId {
    fn eq(&self, other: &Self) -> (r: bool) {
        self.0 == other.0
    }
}

impl vstd::std_specs::cmp::PartialEqSpecImpl for NodeId {
    open spec fn obeys_eq_spec() -> bool {
        true
    }

    open spec fn eq_spec(&self, other: &NodeId) -> bool {
        self@ == other@
    }
}

impl Eq for NodeId {
}

impl NodeId {
    pub fn new(id: &str) -> (r: NodeId)
        ensures
            r@ == id@,
    {
        NodeId(id.to_string())
    }
}

/// The names of a sequence of nodes.
pub open spec fn ids_view(ids: Seq<NodeId>) -> Seq<Seq<char>> {
    ids.map_values(|n: NodeId| n@)
}

/// A node: its own name and the names of every node of the cluster.
#[derive(Debug, Clone, PartialEq, Eq)]
pub struct Node {
    pub id: NodeId,
    pub cluster: Vec<NodeId>,
}

impl Node {
    /// A node is well formed when its own name is one of the cluster's names.
    pub open spec fn well_formed(&self) -> bool {
        ids_view(self.cluster@).contains(self.id@)
    }
}

/// Whether `id` is one of `ids`.
pub fn contains_id(ids: &Vec<NodeId>, id: &NodeId) -> (b: bool)
    ensures
        b == ids_view(ids@).contains(id@),
{
    let mut i: usize = 0;
    while i < ids.len()
        invariant
            i <= ids.len(),
            forall|j: int| 0 <= j < i ==> ids@[j]@ != id@,
        decreases ids.len() - i,
    {
        if ids[i] == *id {
            assert(ids_view(ids@)[i as int] == id@);
            return true;
        }
        i = i + 1;
    }
    assert forall|j: int| 0 <= j < ids_view(ids@).len() implies ids_view(ids@)[j] != id@ by {
        assert(ids@[j]@ != id@);
    }
    false
}

/// What the node does with a message, beside changing its own state.
#[derive(Debug)]
pub enum Outcome<T, W> {
    /// Send this message.
    Send(Message<T>),
    /// Hand this reply to the call that waits for it.
    Deliver(W, Message<T>),
    /// Nothing is sent.
    Quiet,
}

/// Whether `m` is the reply that reports `e` to the sender of the request
/// described by `meta`.
pub open spec fn is_error_reply<T>(m: Message<T>, meta: MessageMeta, e: Error) -> bool {
    &&& m.src == meta.dest
    &&& m.dest == meta.src
    &&& m.body.msg_id is None
    &&& m.body.in_reply_to == meta.msg_id
    &&& m.body.payload matches MessagePayload::Error(p) && p.describes(e)
}

/// A node that serves a workload: the workload's handler, and the node's
/// runtime once the node has been initialized.
pub struct Serve<H: Handler, W> {
    pub handler: H,
    pub runtime: Option<Runtime<W>>,
}

impl<H: Handler, W> Serve<H, W> {
    /// An initialized node is one of its own cluster.
    pub open spec fn wf(&self) -> bool {
        self.runtime matches Some(rt) ==> rt.node.well_formed()
    }

    /// The node and its waiting calls, once initialized.
    pub open spec fn state(&self) -> Option<(Node, Map<u64, W>)> {
        match self.runtime {
            Some(rt) => Some((rt.node, rt.pending())),
            None => None,
        }
    }

    /// What the node answers, given what the handler returned for the
    /// request described by `meta`.
    pub open spec fn spec_answer(
        meta: MessageMeta,
        handled: Result<Option<(Option<MessageId>, H::T)>, Error>,
    ) -> Result<Outcome<H::T, W>, Error> {
        match handled {
            Err(e) => Err(e),
            Ok(None) => Ok(Outcome::Quiet),
            Ok(Some((msg_id, payload))) => Ok(
                Outcome::Send(reply_message(meta, msg_id, MessagePayload::Custom(payload))),
            ),
        }
    }

    /// How handling `msg` changes the node from `pre` to `post`, and what it
    /// yields. Before initialization only `init` is served; after it, a
    /// message to another node is malformed, a reply goes to the call that
    /// waits for it, and a workload payload goes to the handler.
    pub open spec fn request_handled(
        pre: Self,
        post: Self,
        msg: Message<H::T>,
        r: Result<Outcome<H::T, W>, Error>,
    ) -> bool {
        match pre.runtime {
            None => {
                &&& post.handler == pre.handler
                &&& match msg.body.payload {
                    MessagePayload::Init(init) => if ids_view(init.node_ids@).contains(init.node_id@) {
                        &&& r == Ok::<Outcome<H::T, W>, Error>(
                            Outcome::Send(reply_message(msg.spec_meta(), None, MessagePayload::InitOk)),
                        )
                        &&& post.state() == Some(
                            (Node { id: init.node_id, cluster: init.node_ids }, Map::<u64, W>::empty()),
                        )
                    } else {
                        &&& r == Err::<Outcome<H::T, W>, Error>(Error::MalformedRequest)
                        &&& post.runtime is None
                    },
                    _ => {
                        &&& r == Err::<Outcome<H::T, W>, Error>(Error::TemporarilyUnavailable)
                        &&& post.runtime is None
                    },
                }
            },
            Some(rt) => if msg.dest@ != rt.node.id@ {
                &&& r == Err::<Outcome<H::T, W>, Error>(Error::MalformedRequest)
                &&& post.handler == pre.handler
                &&& post.state() == pre.state()
            } else {
                match msg.body.in_reply_to {
                    Some(id) => {
                        &&& post.handler == pre.handler
                        &&& if rt.pending().contains_key(id.0) {
                            &&& r == Ok::<Outcome<H::T, W>, Error>(
                                Outcome::Deliver(rt.pending()[id.0], msg),
                            )
                            &&& post.state() == Some((rt.node, rt.pending().remove(id.0)))
                        } else {
                            &&& r == Err::<Outcome<H::T, W>, Error>(Error::MalformedRequest)
                            &&& post.state() == pre.state()
                        }
                    },
                    None => match msg.body.payload {
                        MessagePayload::Custom(payload) => {
                            &&& post.runtime == pre.runtime
                            &&& exists|h: Result<Option<(Option<MessageId>, H::T)>, Error>|
                                {
                                    &&& #[trigger] H::handled(
                                        pre.handler,
                                        post.handler,
                                        rt.node,
                                        msg.spec_meta(),
                                        payload,
                                        h,
                                    )
                                    &&& r == Self::spec_answer(msg.spec_meta(), h)
                                }
                        },
                        MessagePayload::Error(_) => {
                            &&& r == Err::<Outcome<H::T, W>, Error>(Error::MalformedRequest)
                            &&& post.handler == pre.handler
                            &&& post.state() == pre.state()
                        },
                        _ => {
                            &&& r == Err::<Outcome<H::T, W>, Error>(Error::Crash)
                            &&& post.handler == pre.handler
                            &&& post.state() == pre.state()
                        },
                    },
                }
            },
        }
    }

    pub fn new(handler: H) -> (s: Self)
        ensures
            s.handler == handler,
            s.runtime is None,
            s.wf(),
    {
        Serve { handler, runtime: None }
    }

    /// What the node answers, given what the handler returned for the
    /// request described by `meta`.
    pub fn answer(
        meta: &MessageMeta,
        handled: Result<Option<(Option<MessageId>, H::T)>, Error>,
    ) -> (r: Result<Outcome<H::T, W>, Error>)
        ensures
            r == Self::spec_answer(*meta, handled),
    {
        match handled {
            Err(e) => Err(e),
            Ok(None) => Ok(Outcome::Quiet),
            Ok(Some((msg_id, payload))) => Ok(
                Outcome::Send(Message::reply_to(meta, msg_id, MessagePayload::Custom(payload))),
            ),
        }
    }

    /// Handles one incoming message.
    pub fn handle_request(&mut self, msg: Message<H::T>) -> (r: Result<Outcome<H::T, W>, Error>)
        requires
            old(self).wf(),
        ensures
            final(self).wf(),
            Self::request_handled(*old(self), *final(self), msg, r),
    {
        let meta = msg.meta();
        if self.runtime.is_none() {
            match msg.body.payload {
                MessagePayload::Init(init) => {
                    if !contains_id(&init.node_ids, &init.node_id) {
                        return Err(Error::MalformedRequest);
                    }
                    let node = Node { id: init.node_id, cluster: init.node_ids };
                    self.runtime = Some(Runtime::new(node));
                    return Ok(Outcome::Send(Message::reply_to(&meta, None, MessagePayload::InitOk)));
                },
                _ => {
                    return Err(Error::TemporarilyUnavailable);
                },
            }
        }
        let addressed_here = match &self.runtime {
            Some(rt) => msg.dest == rt.node.id,
            None => false,
        };
        if !addressed_here {
            return Err(Error::MalformedRequest);
        }
        if msg.body.in_reply_to.is_some() {
            let taken = match &mut self.runtime {
                Some(rt) => rt.receive(&msg),
                None => Err(Error::MalformedRequest),
            };
            return match taken {
                Ok(waiter) => Ok(Outcome::Deliver(waiter, msg)),
                Err(e) => Err(e),
            };
        }
        match msg.body.payload {
            MessagePayload::Init(_) => Err(Error::Crash),
            MessagePayload::InitOk => Err(Error::Crash),
            MessagePayload::Error(_) => Err(Error::MalformedRequest),
            MessagePayload::Custom(payload) => {
                let for_handler = meta.clone();
                let ghost pre_handler = self.handler;
                let ghost sent = payload;
                match &self.runtime {
                    Some(rt) => {
                        let handled = self.handler.handle(rt, for_handler, payload);
                        assert(H::handled(pre_handler, self.handler, rt.node, meta, sent, handled));
                        Self::answer(&meta, handled)
                    },
                    None => Err(Error::Crash),
                }
            },
        }
    }
}

impl<H: Handler, W> Serve<H, W> {
    /// What the node sends for a handled request: the outcome itself, or
    /// the reply that reports the error.
    pub open spec fn responded(
        meta: MessageMeta,
        handled: Result<Outcome<H::T, W>, Error>,
        r: Outcome<H::T, W>,
    ) -> bool {
        match handled {
            Ok(o) => r == o,
            Err(e) => r matches Outcome::Send(m) && is_error_reply(m, meta, e),
        }
    }

    /// Serves one incoming message: handles it, and answers a refused request
    /// with the error. Every message the node sends in answer goes back to
    /// the sender of `msg` and refers to it, and once initialized the node
    /// stays initialized as the same node.
    pub fn process(&mut self, msg: Message<H::T>) -> (r: Outcome<H::T, W>)
        requires
            old(self).wf(),
        ensures
            final(self).wf(),
            exists|hr: Result<Outcome<H::T, W>, Error>|
                #[trigger] Self::request_handled(*old(self), *final(self), msg, hr)
                    && Self::responded(msg.spec_meta(), hr, r),
            r matches Outcome::Send(m) ==> {
                &&& m.dest == msg.src
                &&& m.src == msg.dest
                &&& m.body.in_reply_to == msg.body.msg_id
            },
            old(self).state() matches Some(s) ==> final(self).state() matches Some(t) && t.0 == s.0,
    {
        let request_meta = msg.meta();
        let handled = self.handle_request(msg);
        assert(Self::request_handled(*old(self), *self, msg, handled));
        match handled {
            Ok(outcome) => outcome,
            Err(e) => Outcome::Send(
                Message::reply_to(&request_meta, None, MessagePayload::Error(e.into())),
            ),
        }
    }
}

/// Laws of serving a message, stated over what `handle_request` and
/// `process` ensure of the node before and after, the message and the result.
impl<H: Handler, W> Serve<H, W> {
    /// A node that is not initialized accepts any `init` that names one of the
    /// cluster's nodes as its own: it answers `init_ok` to the sender and
    /// becomes that node, with the cluster in the order received and no
    /// waiting calls.
    pub proof fn lemma_init_initializes(
        pre: Self,
        post: Self,
        msg: Message<H::T>,
        r: Result<Outcome<H::T, W>, Error>,
    )
        requires
            Self::request_handled(pre, post, msg, r),
            pre.runtime is None,
            msg.body.payload matches MessagePayload::Init(init) && ids_view(init.node_ids@).contains(
                init.node_id@,
            ),
        ensures
            r matches Ok(Outcome::Send(m)) && {
                &&& m.src == msg.dest
                &&& m.dest == msg.src
                &&& m.body.msg_id is None
                &&& m.body.in_reply_to == msg.body.msg_id
                &&& m.body.payload is InitOk
            },
            ({
                &&& post.runtime matches Some(rt)
                &&& msg.body.payload matches MessagePayload::Init(init)
                &&& rt.node == (Node { id: init.node_id, cluster: init.node_ids })
                &&& rt.node.id@ == init.node_id@
                &&& ids_view(rt.node.cluster@) == ids_view(init.node_ids@)
                &&& rt.pending() == Map::<u64, W>::empty()
            }),
            post.handler == pre.handler,
    {
    }

    /// An `init` that does not name one of the cluster's nodes as the node's
    /// own is malformed, and the node stays uninitialized.
    pub proof fn lemma_init_outside_cluster_refused(
        pre: Self,
        post: Self,
        msg: Message<H::T>,
        r: Result<Outcome<H::T, W>, Error>,
    )
        requires
            Self::request_handled(pre, post, msg, r),
            pre.runtime is None,
            msg.body.payload matches MessagePayload::Init(init) && !ids_view(
                init.node_ids@,
            ).contains(init.node_id@),
        ensures
            r == Err::<Outcome<H::T, W>, Error>(Error::MalformedRequest),
            post.runtime is None,
            post.handler == pre.handler,
    {
    }

    /// Before `init`, every other message is refused as temporarily
    /// unavailable, and nothing changes.
    pub proof fn lemma_uninitialized_refuses(
        pre: Self,
        post: Self,
        msg: Message<H::T>,
        r: Result<Outcome<H::T, W>, Error>,
    )
        requires
            Self::request_handled(pre, post, msg, r),
            pre.runtime is None,
            !(msg.body.payload is Init),
        ensures
            r == Err::<Outcome<H::T, W>, Error>(Error::TemporarilyUnavailable),
            post.runtime is None,
            post.handler == pre.handler,
    {
    }

    /// An initialized node refuses a message addressed to another node as
    /// malformed, and nothing changes.
    pub proof fn lemma_other_destination_refused(
        pre: Self,
        post: Self,
        msg: Message<H::T>,
        r: Result<Outcome<H::T, W>, Error>,
    )
        requires
            Self::request_handled(pre, post, msg, r),
            pre.runtime matches Some(rt) && msg.dest@ != rt.node.id@,
        ensures
            r == Err::<Outcome<H::T, W>, Error>(Error::MalformedRequest),
            ({
                &&& pre.runtime matches Some(rt)
                &&& post.runtime matches Some(rt2)
                &&& rt2.node == rt.node
                &&& rt2.pending() == rt.pending()
            }),
            post.handler == pre.handler,
    {
    }

    /// An initialized node hands a reply addressed to it to the call that
    /// waits under the identifier the reply answers, whatever the reply
    /// carries (an error or a workload payload), and that call stops waiting.
    pub proof fn lemma_reply_is_delivered(
        pre: Self,
        post: Self,
        msg: Message<H::T>,
        r: Result<Outcome<H::T, W>, Error>,
    )
        requires
            Self::request_handled(pre, post, msg, r),
            ({
                &&& pre.runtime matches Some(rt)
                &&& msg.dest@ == rt.node.id@
                &&& msg.body.in_reply_to matches Some(id)
                &&& rt.pending().contains_key(id.0)
            }),
        ensures
            ({
                &&& pre.runtime matches Some(rt)
                &&& msg.body.in_reply_to matches Some(id)
                &&& r == Ok::<Outcome<H::T, W>, Error>(Outcome::Deliver(rt.pending()[id.0], msg))
                &&& post.runtime matches Some(rt2)
                &&& rt2.node == rt.node
                &&& rt2.pending() == rt.pending().remove(id.0)
                &&& !rt2.pending().contains_key(id.0)
            }),
            post.handler == pre.handler,
    {
    }

    /// A reply to a call that nobody waits for is malformed, and nothing
    /// changes.
    pub proof fn lemma_unknown_reply_refused(
        pre: Self,
        post: Self,
        msg: Message<H::T>,
        r: Result<Outcome<H::T, W>, Error>,
    )
        requires
            Self::request_handled(pre, post, msg, r),
            ({
                &&& pre.runtime matches Some(rt)
                &&& msg.dest@ == rt.node.id@
                &&& msg.body.in_reply_to matches Some(id)
                &&& !rt.pending().contains_key(id.0)
            }),
        ensures
            r == Err::<Outcome<H::T, W>, Error>(Error::MalformedRequest),
            ({
                &&& pre.runtime matches Some(rt)
                &&& post.runtime matches Some(rt2)
                &&& rt2.node == rt.node
                &&& rt2.pending() == rt.pending()
            }),
            post.handler == pre.handler,
    {
    }

    /// After initialization, a request that is not a reply and carries a
    /// protocol payload is refused: `init` and `init_ok` crash, an error is
    /// malformed; nothing changes.
    pub proof fn lemma_protocol_requests_refused(
        pre: Self,
        post: Self,
        msg: Message<H::T>,
        r: Result<Outcome<H::T, W>, Error>,
    )
        requires
            Self::request_handled(pre, post, msg, r),
            pre.runtime matches Some(rt) && msg.dest@ == rt.node.id@,
            msg.body.in_reply_to is None,
            !(msg.body.payload is Custom),
        ensures
            msg.body.payload is Error ==> r == Err::<Outcome<H::T, W>, Error>(
                Error::MalformedRequest,
            ),
            !(msg.body.payload is Error) ==> r == Err::<Outcome<H::T, W>, Error>(Error::Crash),
            ({
                &&& pre.runtime matches Some(rt)
                &&& post.runtime matches Some(rt2)
                &&& rt2.node == rt.node
                &&& rt2.pending() == rt.pending()
            }),
            post.handler == pre.handler,
    {
    }

    /// After initialization, a workload request addressed to the node goes to
    /// the handler, with the node and the request's metadata; the node's
    /// runtime does not change. The handler's error is the result, its
    /// silence sends nothing, and its answer goes back to the sender as a
    /// reply to the request.
    pub proof fn lemma_workload_request_handled(
        pre: Self,
        post: Self,
        msg: Message<H::T>,
        r: Result<Outcome<H::T, W>, Error>,
    )
        requires
            Self::request_handled(pre, post, msg, r),
            pre.runtime matches Some(rt) && msg.dest@ == rt.node.id@,
            msg.body.in_reply_to is None,
            msg.body.payload is Custom,
        ensures
            post.runtime == pre.runtime,
            exists|h: Result<Option<(Option<MessageId>, H::T)>, Error>|
                {
                    &&& #[trigger] H::handled(
                        pre.handler,
                        post.handler,
                        pre.runtime->Some_0.node,
                        msg.spec_meta(),
                        msg.body.payload->Custom_0,
                        h,
                    )
                    &&& (h matches Err(e) ==> r == Err::<Outcome<H::T, W>, Error>(e))
                    &&& (h matches Ok(None) ==> r matches Ok(Outcome::Quiet))
                    &&& (h matches Ok(Some((id, q))) ==> r matches Ok(Outcome::Send(m)) && {
                        &&& m.src == msg.dest
                        &&& m.dest == msg.src
                        &&& m.body.msg_id == id
                        &&& m.body.in_reply_to == msg.body.msg_id
                        &&& m.body.payload == MessagePayload::<H::T>::Custom(q)
                    })
                },
    {
        let rt = pre.runtime->Some_0;
        let p = msg.body.payload->Custom_0;
        let h = choose|h: Result<Option<(Option<MessageId>, H::T)>, Error>|
            {
                &&& #[trigger] H::handled(pre.handler, post.handler, rt.node, msg.spec_meta(), p, h)
                &&& r == Self::spec_answer(msg.spec_meta(), h)
            };
        assert(H::handled(pre.handler, post.handler, rt.node, msg.spec_meta(), p, h));
    }

    /// What the node sends for a handled request is the outcome itself when
    /// the request succeeded, and otherwise a reply to the sender that
    /// reports the error's code and description.
    pub proof fn lemma_refusal_is_reported(
        meta: MessageMeta,
        handled: Result<Outcome<H::T, W>, Error>,
        r: Outcome<H::T, W>,
    )
        requires
            Self::responded(meta, handled, r),
        ensures
            handled matches Ok(o) ==> r == o,
            handled matches Err(e) ==> r matches Outcome::Send(m) && {
                &&& m.src == meta.dest
                &&& m.dest == meta.src
                &&& m.body.msg_id is None
                &&& m.body.in_reply_to == meta.msg_id
                &&& m.body.payload matches MessagePayload::Error(p) && p.code == e.spec_code()
                    && p.text@ == e.spec_description()
            },
    {
    }
}

} // verus!
