use vstd::prelude::*;

use crate::maelstrom::error::Error;
use crate::maelstrom::message::{MessageId, MessageMeta};
use crate::maelstrom::runtime::Runtime;
use crate::maelstrom::Node;

verus! {

/// A workload: what a node does with the payloads of its own kind.
pub trait Handler: Sized {
    /// The payloads of the workload.
    type T;

    /// Relates the handler before and after handling `payload`, sent with
    /// `msg_meta` to the initialized `node`, to what the handling returned:
    /// an error, nothing to answer, or the identifier and payload of the
    /// answer.
    spec fn handled(
        pre: Self,
        post: Self,
        node: Node,
        msg_meta: MessageMeta,
        payload: Self::T,
        r: Result<Option<(Option<MessageId>, Self::T)>, Error>,
    ) -> bool;

    fn handle<W>(&mut self, runtime: &Runtime<W>, msg_meta: MessageMeta, payload: Self::T) -> (r:
        Result<Option<(Option<MessageId>, Self::T)>, Error>)
        requires
            runtime.node.well_formed(),
        ensures
            Self::handled(*old(self), *final(self), runtime.node, msg_meta, payload, r),
    ;
}

/// The identifier of the answer that a handler returned, if it returned one.
pub open spec fn answer_id<T>(r: Result<Option<(Option<MessageId>, T)>, Error>) -> Option<
    MessageId,
> {
    match r {
        Ok(Some((Some(id), _))) => Some(id),
        _ => None,
    }
}

/// Whether each value of `ids` follows the one before it, as a counter that
/// steps by one and wraps around from `u64::MAX` to 0.
pub open spec fn counts_up(ids: Seq<u64>) -> bool {
    forall|i: int| 0 <= i < ids.len() - 1 ==> ids[i + 1] == #[trigger] ids[i].wrapping_add(1)
}

proof fn lemma_counter_offset(ids: Seq<u64>, i: int, k: int)
    requires
        counts_up(ids),
        0 <= i <= k < ids.len(),
        k - i <= u64::MAX,
    ensures
        ids[k] == (if ids[i] + (k - i) <= u64::MAX {
            ids[i] + (k - i)
        } else {
            ids[i] + (k - i) - u64::MAX - 1
        }),
    decreases k - i,
{
    if k > i {
        lemma_counter_offset(ids, i, k - 1);
        assert(ids[k] == ids[k - 1].wrapping_add(1));
    }
}

/// Values taken from a counter that steps by one are all different within
/// any run no longer than the `u64` range.
pub proof fn lemma_counter_values_distinct(ids: Seq<u64>)
    requires
        counts_up(ids),
        ids.len() <= u64::MAX as int + 1,
    ensures
        forall|i: int, j: int| 0 <= i < j < ids.len() ==> ids[i] != ids[j],
{
    assert forall|i: int, j: int| 0 <= i < j < ids.len() implies ids[i] != ids[j] by {
        lemma_counter_offset(ids, i, j);
    }
}

} // verus!
