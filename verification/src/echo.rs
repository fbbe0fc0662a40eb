use vstd::prelude::*;

use crate::maelstrom::error::Error;
use crate::maelstrom::handler::{answer_id, lemma_counter_values_distinct, Handler};
use crate::maelstrom::message::{MessageId, MessageMeta};
use crate::maelstrom::runtime::Runtime;
use crate::maelstrom::Node;

verus! {

/// The payloads of the echo workload.
#[derive(Debug, Clone, PartialEq, Eq)]
pub enum EchoPayload {
    Echo { echo: String },
    EchoOk { echo: String },
}

/// Answers every `echo` request with the same text.
#[derive(Debug)]
pub struct EchoHandler {
    /// The identifier that the next answer gets.
    pub msg_id: u64,
}

impl Default for EchoHandler {
    fn default() -> (r: Self)
        ensures
            r.msg_id == 0,
    {
        EchoHandler { msg_id: 0 }
    }
}

impl Handler for EchoHandler {
    type T = EchoPayload;

    /// Every request takes the next identifier; an `echo` is answered with
    /// its own text, an `echo_ok` is malformed.
    open spec fn handled(
        pre: Self,
        post: Self,
        node: Node,
        msg_meta: MessageMeta,
        payload: EchoPayload,
        r: Result<Option<(Option<MessageId>, EchoPayload)>, Error>,
    ) -> bool {
        &&& post.msg_id == pre.msg_id.wrapping_add(1)
        &&& r == match payload {
            EchoPayload::Echo { echo } => Ok::<Option<(Option<MessageId>, EchoPayload)>, Error>(
                Some((Some(MessageId(pre.msg_id)), EchoPayload::EchoOk { echo })),
            ),
            EchoPayload::EchoOk { .. } => Err(Error::MalformedRequest),
        }
    }

    fn handle<W>(&mut self, runtime: &Runtime<W>, msg_meta: MessageMeta, payload: EchoPayload) -> (r:
        Result<Option<(Option<MessageId>, EchoPayload)>, Error>) {
        let msg_id = self.msg_id;
        self.msg_id = self.msg_id.wrapping_add(1);
        match payload {
            EchoPayload::Echo { echo } => Ok(
                Some((Some(MessageId::new(msg_id)), EchoPayload::EchoOk { echo })),
            ),
            EchoPayload::EchoOk { .. } => Err(Error::MalformedRequest),
        }
    }
}

/// Every answer of the echo handler carries an identifier of its own: in a run
/// of no more requests than there are `u64` values, no two answers share one.
pub proof fn lemma_echo_answer_ids_distinct(
    node: Node,
    hs: Seq<EchoHandler>,
    metas: Seq<MessageMeta>,
    payloads: Seq<EchoPayload>,
    rs: Seq<Result<Option<(Option<MessageId>, EchoPayload)>, Error>>,
)
    requires
        hs.len() == rs.len() + 1,
        metas.len() == rs.len(),
        payloads.len() == rs.len(),
        rs.len() <= u64::MAX as int + 1,
        forall|j: int|
            0 <= j < rs.len() ==> EchoHandler::handled(
                hs[j],
                hs[j + 1],
                node,
                metas[j],
                payloads[j],
                #[trigger] rs[j],
            ),
    ensures
        forall|i: int, j: int|
            0 <= i < j < rs.len() && answer_id(#[trigger] rs[i]) is Some && answer_id(
                #[trigger] rs[j],
            ) is Some ==> answer_id(rs[i]) != answer_id(rs[j]),
{
    let ids = Seq::new(rs.len(), |i: int| hs[i].msg_id);
    assert forall|i: int| 0 <= i < ids.len() - 1 implies ids[i + 1] == #[trigger] ids[
        i
    ].wrapping_add(1) by {
        assert(EchoHandler::handled(hs[i], hs[i + 1], node, metas[i], payloads[i], rs[i]));
    }
    lemma_counter_values_distinct(ids);
    assert forall|i: int, j: int|
        0 <= i < j < rs.len() && answer_id(#[trigger] rs[i]) is Some && answer_id(
            #[trigger] rs[j],
        ) is Some implies answer_id(rs[i]) != answer_id(rs[j]) by {
        assert(EchoHandler::handled(hs[i], hs[i + 1], node, metas[i], payloads[i], rs[i]));
        assert(EchoHandler::handled(hs[j], hs[j + 1], node, metas[j], payloads[j], rs[j]));
        assert(ids[i] != ids[j]);
    }
}

/// The echo handler answers an `echo` with exactly the text it was sent,
/// under the next answer identifier, and refuses an `echo_ok` as malformed;
/// every request takes one identifier, wrapping around after `u64::MAX`.
pub proof fn lemma_echo_returns_the_text(
    pre: EchoHandler,
    post: EchoHandler,
    node: Node,
    msg_meta: MessageMeta,
    payload: EchoPayload,
    r: Result<Option<(Option<MessageId>, EchoPayload)>, Error>,
)
    requires
        EchoHandler::handled(pre, post, node, msg_meta, payload, r),
    ensures
        post.msg_id == (if pre.msg_id == u64::MAX {
            0
        } else {
            pre.msg_id + 1
        }),
        payload is Echo ==> ({
            &&& r matches Ok(Some((Some(id), EchoPayload::EchoOk { echo: e })))
            &&& id == MessageId(pre.msg_id)
            &&& e == payload->Echo_echo
            &&& e@ == payload->Echo_echo@
        }),
        payload is EchoOk ==> r == Err::<Option<(Option<MessageId>, EchoPayload)>, Error>(
            Error::MalformedRequest,
        ),
{
}

} // verus!
