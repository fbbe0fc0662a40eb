use std::collections::HashSet;

use vstd::prelude::*;
use vstd::std_specs::iter::IteratorSpec;

use crate::maelstrom::error::Error;
use crate::maelstrom::handler::{answer_id, lemma_counter_values_distinct, Handler};
use crate::maelstrom::message::{MessageId, MessageMeta};
use crate::maelstrom::runtime::Runtime;
use crate::maelstrom::{Node, NodeId};

verus! {

broadcast use vstd::std_specs::hash::group_hash_axioms;

/// The payloads of the broadcast workload.
#[derive(Debug, Clone, PartialEq, Eq)]
pub enum BroadcastPayload {
    /// A value to keep; each value that the workload broadcasts is unique.
    Broadcast { message: u64 },
    BroadcastOk,
    Read,
    ReadOk { messages: Vec<u64> },
    /// The neighbours of each node. All nodes can reach each other whatever
    /// the topology says.
    Topology { topology: Vec<(NodeId, Vec<NodeId>)> },
    TopologyOk,
}

/// Keeps the values it has been sent, and returns them on a read.
#[derive(Debug)]
pub struct BroadcastHandler {
    /// The identifier that the next answer gets.
    pub msg_id: u64,
    /// The values seen so far.
    pub messages: HashSet<u64>,
}

impl Default for BroadcastHandler {
    fn default() -> (r: Self)
        ensures
            r.msg_id == 0,
            r.messages@ == Set::<u64>::empty(),
    {
        BroadcastHandler { msg_id: 0, messages: HashSet::new() }
    }
}

/// Whether `listing` names each value of `values` once and nothing else.
pub open spec fn lists_exactly(listing: Seq<u64>, values: Set<u64>) -> bool {
    listing.no_duplicates() && listing.to_set() == values
}

impl BroadcastHandler {
    /// The values seen so far, each once, in no particular order.
    pub fn read_all(&self) -> (r: Vec<u64>)
        ensures
            lists_exactly(r@, self.messages@),
    {
        let ghost keys = vstd::std_specs::hash::spec_hash_keys_iter(&self.messages).remaining();
        let mut data: Vec<u64> = Vec::new();
        for x in it: self.messages.iter()
            invariant
                it.seq() == keys,
                data@.len() == it.index(),
                forall|j: int| 0 <= j < it.index() ==> data@[j] == *keys[j],
        {
            data.push(*x);
        }
        assert(data@ =~= keys.unref());
        data
    }
}

impl Handler for BroadcastHandler {
    type T = BroadcastPayload;

    /// Every request takes the next identifier. A broadcast value is kept, a
    /// read is answered with all values kept, a topology is acknowledged,
    /// and the answers themselves are refused.
    open spec fn handled(
        pre: Self,
        post: Self,
        node: Node,
        msg_meta: MessageMeta,
        payload: BroadcastPayload,
        r: Result<Option<(Option<MessageId>, BroadcastPayload)>, Error>,
    ) -> bool {
        &&& post.msg_id == pre.msg_id.wrapping_add(1)
        &&& match payload {
            BroadcastPayload::Broadcast { message } => {
                &&& post.messages@ == pre.messages@.insert(message)
                &&& r == Ok::<Option<(Option<MessageId>, BroadcastPayload)>, Error>(
                    Some((Some(MessageId(pre.msg_id)), BroadcastPayload::BroadcastOk)),
                )
            },
            BroadcastPayload::Read => {
                &&& post.messages@ == pre.messages@
                &&& r matches Ok(Some((Some(id), BroadcastPayload::ReadOk { messages })))
                &&& id == MessageId(pre.msg_id)
                &&& lists_exactly(messages@, pre.messages@)
            },
            BroadcastPayload::Topology { .. } => {
                &&& post.messages@ == pre.messages@
                &&& r == Ok::<Option<(Option<MessageId>, BroadcastPayload)>, Error>(
                    Some((Some(MessageId(pre.msg_id)), BroadcastPayload::TopologyOk)),
                )
            },
            _ => {
                &&& post.messages@ == pre.messages@
                &&& r == Err::<Option<(Option<MessageId>, BroadcastPayload)>, Error>(Error::Crash)
            },
        }
    }

    fn handle<W>(
        &mut self,
        runtime: &Runtime<W>,
        msg_meta: MessageMeta,
        payload: BroadcastPayload,
    ) -> (r: Result<Option<(Option<MessageId>, BroadcastPayload)>, Error>) {
        let msg_id = MessageId::new(self.msg_id);
        self.msg_id = self.msg_id.wrapping_add(1);
        match payload {
            BroadcastPayload::Broadcast { message } => {
                self.messages.insert(message);
                Ok(Some((Some(msg_id), BroadcastPayload::BroadcastOk)))
            },
            BroadcastPayload::Read => {
                let data = self.read_all();
                Ok(Some((Some(msg_id), BroadcastPayload::ReadOk { messages: data })))
            },
            BroadcastPayload::Topology { .. } => Ok(
                Some((Some(msg_id), BroadcastPayload::TopologyOk)),
            ),
            _ => Err(Error::Crash),
        }
    }
}

proof fn lemma_value_kept(
    node: Node,
    hs: Seq<BroadcastHandler>,
    metas: Seq<MessageMeta>,
    payloads: Seq<BroadcastPayload>,
    rs: Seq<Result<Option<(Option<MessageId>, BroadcastPayload)>, Error>>,
    i: int,
    k: int,
)
    requires
        hs.len() == rs.len() + 1,
        metas.len() == rs.len(),
        payloads.len() == rs.len(),
        forall|j: int|
            0 <= j < rs.len() ==> BroadcastHandler::handled(
                hs[j],
                hs[j + 1],
                node,
                metas[j],
                payloads[j],
                #[trigger] rs[j],
            ),
        0 <= i < k <= rs.len(),
        payloads[i] matches BroadcastPayload::Broadcast { message },
    ensures
        payloads[i] matches BroadcastPayload::Broadcast { message } && hs[k].messages@.contains(
            message,
        ),
    decreases k - i,
{
    assert(BroadcastHandler::handled(hs[k - 1], hs[k], node, metas[k - 1], payloads[k - 1], rs[k - 1]));
    if i < k - 1 {
        lemma_value_kept(node, hs, metas, payloads, rs, i, k - 1);
    }
}

/// A value broadcast to a node is returned by every later read of that node.
pub proof fn lemma_broadcast_values_are_read(
    node: Node,
    hs: Seq<BroadcastHandler>,
    metas: Seq<MessageMeta>,
    payloads: Seq<BroadcastPayload>,
    rs: Seq<Result<Option<(Option<MessageId>, BroadcastPayload)>, Error>>,
    i: int,
    k: int,
)
    requires
        hs.len() == rs.len() + 1,
        metas.len() == rs.len(),
        payloads.len() == rs.len(),
        forall|j: int|
            0 <= j < rs.len() ==> BroadcastHandler::handled(
                hs[j],
                hs[j + 1],
                node,
                metas[j],
                payloads[j],
                #[trigger] rs[j],
            ),
        0 <= i < k < rs.len(),
        payloads[i] matches BroadcastPayload::Broadcast { message },
        payloads[k] is Read,
    ensures
        payloads[i] matches BroadcastPayload::Broadcast { message } && rs[k] matches Ok(
            Some((_, BroadcastPayload::ReadOk { messages })),
        ) && messages@.contains(message),
{
    lemma_value_kept(node, hs, metas, payloads, rs, i, k);
    assert(BroadcastHandler::handled(hs[k], hs[k + 1], node, metas[k], payloads[k], rs[k]));
    let message = payloads[i]->Broadcast_message;
    let messages = rs[k]->Ok_0->Some_0.1->ReadOk_messages;
    assert(messages@.to_set().contains(message));
}

/// Every answer of the broadcast handler carries an identifier of its own: in a run
/// of no more requests than there are `u64` values, no two answers share one.
pub proof fn lemma_broadcast_answer_ids_distinct(
    node: Node,
    hs: Seq<BroadcastHandler>,
    metas: Seq<MessageMeta>,
    payloads: Seq<BroadcastPayload>,
    rs: Seq<Result<Option<(Option<MessageId>, BroadcastPayload)>, Error>>,
)
    requires
        hs.len() == rs.len() + 1,
        metas.len() == rs.len(),
        payloads.len() == rs.len(),
        rs.len() <= u64::MAX as int + 1,
        forall|j: int|
            0 <= j < rs.len() ==> BroadcastHandler::handled(
                hs[j],
                hs[j + 1],
                node,
                metas[j],
                payloads[j],
                #[trigger] rs[j],
            ),
    ensures
        forall|i: int, j: int|
            0 <= i < j < rs.len() && answer_id(#[trigger] rs[i]) is Some && answer_id(
                #[trigger] rs[j],
            ) is Some ==> answer_id(rs[i]) != answer_id(rs[j]),
{
    let ids = Seq::new(rs.len(), |i: int| hs[i].msg_id);
    assert forall|i: int| 0 <= i < ids.len() - 1 implies ids[i + 1] == #[trigger] ids[
        i
    ].wrapping_add(1) by {
        assert(BroadcastHandler::handled(hs[i], hs[i + 1], node, metas[i], payloads[i], rs[i]));
    }
    lemma_counter_values_distinct(ids);
    assert forall|i: int, j: int|
        0 <= i < j < rs.len() && answer_id(#[trigger] rs[i]) is Some && answer_id(
            #[trigger] rs[j],
        ) is Some implies answer_id(rs[i]) != answer_id(rs[j]) by {
        assert(BroadcastHandler::handled(hs[i], hs[i + 1], node, metas[i], payloads[i], rs[i]));
        assert(BroadcastHandler::handled(hs[j], hs[j + 1], node, metas[j], payloads[j], rs[j]));
        assert(ids[i] != ids[j]);
    }
}

/// The broadcast handler keeps every value it is sent and forgets none; a
/// read returns each kept value once and nothing else; a topology is
/// acknowledged; the workload's answers sent as requests crash. Every
/// request takes the next answer identifier, wrapping around after
/// `u64::MAX`, and only a broadcast changes the kept values.
pub proof fn lemma_broadcast_keeps_and_reads(
    pre: BroadcastHandler,
    post: BroadcastHandler,
    node: Node,
    msg_meta: MessageMeta,
    payload: BroadcastPayload,
    r: Result<Option<(Option<MessageId>, BroadcastPayload)>, Error>,
)
    requires
        BroadcastHandler::handled(pre, post, node, msg_meta, payload, r),
    ensures
        post.msg_id == (if pre.msg_id == u64::MAX {
            0
        } else {
            pre.msg_id + 1
        }),
        forall|v: u64| #[trigger]
            post.messages@.contains(v) <==> (pre.messages@.contains(v) || payload
                == BroadcastPayload::Broadcast { message: v }),
        payload is Broadcast ==> r == Ok::<Option<(Option<MessageId>, BroadcastPayload)>, Error>(
            Some((Some(MessageId(pre.msg_id)), BroadcastPayload::BroadcastOk)),
        ),
        payload is Read ==> ({
            &&& r matches Ok(Some((Some(id), BroadcastPayload::ReadOk { messages })))
            &&& id == MessageId(pre.msg_id)
            &&& forall|v: u64| #[trigger] messages@.contains(v) <==> pre.messages@.contains(v)
            &&& forall|i: int, j: int|
                0 <= i < j < messages@.len() ==> messages@[i] != messages@[j]
        }),
        payload is Topology ==> r == Ok::<Option<(Option<MessageId>, BroadcastPayload)>, Error>(
            Some((Some(MessageId(pre.msg_id)), BroadcastPayload::TopologyOk)),
        ),
        (payload is BroadcastOk || payload is ReadOk || payload is TopologyOk) ==> r == Err::<
            Option<(Option<MessageId>, BroadcastPayload)>,
            Error,
        >(Error::Crash),
{
    if payload is Read {
        let messages = r->Ok_0->Some_0.1->ReadOk_messages;
        assert forall|v: u64| #[trigger] messages@.contains(v) <==> pre.messages@.contains(v) by {
            if messages@.contains(v) {
                assert(messages@.to_set().contains(v));
            }
            if pre.messages@.contains(v) {
                assert(messages@.to_set().contains(v));
            }
        }
    }
}

/// A listing of a set of values names every value of the set, names nothing
/// else, and names no value twice.
pub proof fn lemma_listing_is_exact(listing: Seq<u64>, values: Set<u64>)
    requires
        lists_exactly(listing, values),
    ensures
        forall|v: u64| #[trigger] listing.contains(v) <==> values.contains(v),
        forall|i: int, j: int| 0 <= i < j < listing.len() ==> listing[i] != listing[j],
{
    assert forall|v: u64| #[trigger] listing.contains(v) <==> values.contains(v) by {
        if listing.contains(v) {
            assert(listing.to_set().contains(v));
        }
        if values.contains(v) {
            assert(listing.to_set().contains(v));
        }
    }
}

} // verus!
