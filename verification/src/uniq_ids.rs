use vstd::prelude::*;

use crate::maelstrom::error::Error;
use crate::maelstrom::handler::{answer_id, lemma_counter_values_distinct, Handler};
use crate::maelstrom::message::{MessageId, MessageMeta};
use crate::maelstrom::runtime::Runtime;
use crate::maelstrom::{ids_view, Node};

verus! {

/// The payloads of the unique-id workload.
#[derive(Debug, Clone, PartialEq, Eq)]
pub enum UniqueIdPayload {
    Generate,
    GenerateOk { id: u64 },
}

/// Hands out identifiers that no other node of the cluster hands out.
///
/// The `u64` range is split into one partition per node of the cluster, in
/// the cluster's order, and each node counts up from the start of its own
/// partition. No node talks to another, so identifiers stay available while
/// the network is partitioned; the counter starts over when the node
/// restarts.
#[derive(Debug)]
pub struct UniqueIdHandler {
    /// The identifier that the next answer gets.
    pub msg_id: u64,
    /// The next identifier to hand out, once the first has been.
    pub counter: Option<u64>,
}

/// Whether `i` is the first place of `id` in `ids`.
pub open spec fn is_first_position(ids: Seq<Seq<char>>, id: Seq<char>, i: int) -> bool {
    &&& 0 <= i < ids.len()
    &&& ids[i] == id
    &&& forall|j: int| 0 <= j < i ==> ids[j] != id
}

/// The place of the node in its cluster: the first place of its own name.
pub open spec fn offset(node: Node) -> int {
    choose|i: int| is_first_position(ids_view(node.cluster@), node.id@, i)
}

/// How many identifiers each node of the cluster owns.
pub open spec fn partition_size(node: Node) -> int {
    u64::MAX as int / node.cluster@.len() as int
}

/// The first identifier of the node's partition.
pub open spec fn partition_start(node: Node) -> int {
    partition_size(node) * offset(node)
}

/// The identifier that `h` hands out next, on `node`.
pub open spec fn next_id(h: UniqueIdHandler, node: Node) -> u64 {
    match h.counter {
        Some(c) => c,
        None => partition_start(node) as u64,
    }
}

proof fn lemma_first_position_exists(ids: Seq<Seq<char>>, id: Seq<char>, bound: int)
    requires
        0 <= bound < ids.len(),
        ids[bound] == id,
    ensures
        exists|i: int| is_first_position(ids, id, i),
    decreases bound,
{
    if exists|j: int| 0 <= j < bound && ids[j] == id {
        let j = choose|j: int| 0 <= j < bound && ids[j] == id;
        lemma_first_position_exists(ids, id, j);
    } else {
        assert(is_first_position(ids, id, bound));
    }
}

/// A well-formed node has a place in its cluster, and it is unique.
pub proof fn lemma_offset(node: Node)
    requires
        node.well_formed(),
    ensures
        is_first_position(ids_view(node.cluster@), node.id@, offset(node)),
        forall|i: int| #[trigger]
            is_first_position(ids_view(node.cluster@), node.id@, i) ==> i == offset(node),
{
    let ids = ids_view(node.cluster@);
    let k = choose|k: int| 0 <= k < ids.len() && ids[k] == node.id@;
    lemma_first_position_exists(ids, node.id@, k);
    let o = offset(node);
    assert forall|i: int| #[trigger] is_first_position(ids, node.id@, i) implies i == o by {
        if i < o {
            assert(ids[i] == node.id@);
        } else if o < i {
            assert(ids[o] == node.id@);
        }
    }
}

proof fn lemma_partition_bounds(m: int, n: int, o: int)
    by (nonlinear_arith)
    requires
        0 <= m,
        0 < n,
        0 <= o < n,
    ensures
        0 <= (m / n) * o,
        (m / n) * o + m / n <= m,
{
    assert((m / n) * o + m / n == (m / n) * (o + 1));
    assert((m / n) * (o + 1) <= (m / n) * n);
    assert((m / n) * n <= m);
}

/// The place of the node in its cluster.
fn position_in_cluster(node: &Node) -> (i: usize)
    requires
        node.well_formed(),
    ensures
        i == offset(*node),
{
    proof {
        lemma_offset(*node);
    }
    let ghost ids = ids_view(node.cluster@);
    let mut i: usize = 0;
    while i < node.cluster.len()
        invariant
            ids == ids_view(node.cluster@),
            is_first_position(ids, node.id@, offset(*node)),
            forall|k: int| #[trigger] is_first_position(ids, node.id@, k) ==> k == offset(*node),
            i <= node.cluster.len(),
            forall|j: int| 0 <= j < i ==> ids[j] != node.id@,
        decreases node.cluster.len() - i,
    {
        if node.cluster[i] == node.id {
            assert(is_first_position(ids, node.id@, i as int));
            return i;
        }
        i = i + 1;
    }
    assert(ids[offset(*node)] == node.id@);
    i
}

/// The first identifier of the node's partition.
pub fn partition_start_of(node: &Node) -> (s: u64)
    requires
        node.well_formed(),
    ensures
        s == partition_start(*node),
{
    proof {
        lemma_offset(*node);
    }
    let offset = position_in_cluster(node);
    let cluster_size = node.cluster.len() as u64;
    let partition_size = u64::MAX / cluster_size;
    proof {
        lemma_partition_bounds(u64::MAX as int, cluster_size as int, offset as int);
    }
    partition_size * (offset as u64)
}

proof fn lemma_disjoint_ranges(p: int, x: int, y: int, k: int, l: int)
    by (nonlinear_arith)
    requires
        0 <= x,
        0 <= y,
        x != y,
        0 <= k < p,
        0 <= l < p,
    ensures
        p * x + k != p * y + l,
{
    if x < y {
        assert(p * x + k < p * (x + 1));
        assert(p * (x + 1) <= p * y);
    } else {
        assert(p * y + l < p * (y + 1));
        assert(p * (y + 1) <= p * x);
    }
}

/// Two different nodes of one cluster own disjoint partitions: the `k`-th
/// identifier of one is never the `l`-th identifier of the other, as long as
/// neither has handed out its whole partition.
pub proof fn lemma_nodes_never_share_ids(a: Node, b: Node, k: int, l: int)
    requires
        a.well_formed(),
        b.well_formed(),
        ids_view(a.cluster@) == ids_view(b.cluster@),
        a.id@ != b.id@,
        0 <= k < partition_size(a),
        0 <= l < partition_size(b),
    ensures
        partition_start(a) + k != partition_start(b) + l,
        0 <= partition_start(a) + k <= u64::MAX,
{
    lemma_offset(a);
    lemma_offset(b);
    let ids = ids_view(a.cluster@);
    assert(a.cluster@.len() == ids.len());
    assert(b.cluster@.len() == ids.len());
    assert(ids[offset(a)] == a.id@);
    assert(ids[offset(b)] == b.id@);
    lemma_partition_bounds(u64::MAX as int, ids.len() as int, offset(a));
    lemma_disjoint_ranges(partition_size(a), offset(a), offset(b), k, l);
}

proof fn lemma_counter_follows_partition(
    node: Node,
    hs: Seq<UniqueIdHandler>,
    metas: Seq<MessageMeta>,
    payloads: Seq<UniqueIdPayload>,
    rs: Seq<Result<Option<(Option<MessageId>, UniqueIdPayload)>, Error>>,
    i: int,
)
    requires
        node.well_formed(),
        hs.len() == rs.len() + 1,
        metas.len() == rs.len(),
        payloads.len() == rs.len(),
        hs[0].counter is None,
        rs.len() <= partition_size(node),
        forall|j: int|
            0 <= j < rs.len() ==> UniqueIdHandler::handled(
                hs[j],
                hs[j + 1],
                node,
                metas[j],
                payloads[j],
                #[trigger] rs[j],
            ),
        0 <= i <= rs.len(),
    ensures
        partition_start(node) + i <= u64::MAX,
        i > 0 ==> hs[i].counter == Some((partition_start(node) + i) as u64),
        i < rs.len() ==> next_id(hs[i], node) == partition_start(node) + i,
    decreases i,
{
    lemma_offset(node);
    assert(node.cluster@.len() == ids_view(node.cluster@).len());
    lemma_partition_bounds(u64::MAX as int, node.cluster@.len() as int, offset(node));
    if i > 0 {
        lemma_counter_follows_partition(node, hs, metas, payloads, rs, i - 1);
        assert(UniqueIdHandler::handled(
            hs[i - 1],
            hs[i],
            node,
            metas[i - 1],
            payloads[i - 1],
            rs[i - 1],
        ));
    }
}

/// The identifiers that a node hands out, from its first on, are those of
/// its partition in order, as long as it has handed out no more than its
/// partition holds.
pub proof fn lemma_ids_follow_partition(
    node: Node,
    hs: Seq<UniqueIdHandler>,
    metas: Seq<MessageMeta>,
    payloads: Seq<UniqueIdPayload>,
    rs: Seq<Result<Option<(Option<MessageId>, UniqueIdPayload)>, Error>>,
)
    requires
        node.well_formed(),
        hs.len() == rs.len() + 1,
        metas.len() == rs.len(),
        payloads.len() == rs.len(),
        hs[0].counter is None,
        rs.len() <= partition_size(node),
        forall|j: int|
            0 <= j < rs.len() ==> UniqueIdHandler::handled(
                hs[j],
                hs[j + 1],
                node,
                metas[j],
                payloads[j],
                #[trigger] rs[j],
            ),
    ensures
        forall|i: int|
            0 <= i < rs.len() ==> #[trigger] rs[i] == Ok::<
                Option<(Option<MessageId>, UniqueIdPayload)>,
                Error,
            >(
                Some(
                    (
                        Some(MessageId(hs[i].msg_id)),
                        UniqueIdPayload::GenerateOk { id: (partition_start(node) + i) as u64 },
                    ),
                ),
            ),
{
    assert forall|i: int| 0 <= i < rs.len() implies #[trigger] rs[i] == Ok::<
        Option<(Option<MessageId>, UniqueIdPayload)>,
        Error,
    >(
        Some(
            (
                Some(MessageId(hs[i].msg_id)),
                UniqueIdPayload::GenerateOk { id: (partition_start(node) + i) as u64 },
            ),
        ),
    ) by {
        lemma_counter_follows_partition(node, hs, metas, payloads, rs, i);
    }
}

impl UniqueIdHandler {
    pub fn new() -> (r: Self)
        ensures
            r.msg_id == 0,
            r.counter is None,
    {
        UniqueIdHandler { msg_id: 0, counter: None }
    }
}

impl Handler for UniqueIdHandler {
    type T = UniqueIdPayload;

    /// Every request takes the next identifier for its answer, and is
    /// answered with the next identifier of the node's partition.
    open spec fn handled(
        pre: Self,
        post: Self,
        node: Node,
        msg_meta: MessageMeta,
        payload: UniqueIdPayload,
        r: Result<Option<(Option<MessageId>, UniqueIdPayload)>, Error>,
    ) -> bool {
        let id = next_id(pre, node);
        &&& post.msg_id == pre.msg_id.wrapping_add(1)
        &&& post.counter == Some(id.wrapping_add(1))
        &&& r == Ok::<Option<(Option<MessageId>, UniqueIdPayload)>, Error>(
            Some((Some(MessageId(pre.msg_id)), UniqueIdPayload::GenerateOk { id })),
        )
    }

    fn handle<W>(
        &mut self,
        runtime: &Runtime<W>,
        msg_meta: MessageMeta,
        payload: UniqueIdPayload,
    ) -> (r: Result<Option<(Option<MessageId>, UniqueIdPayload)>, Error>) {
        let id = match self.counter {
            Some(c) => c,
            None => partition_start_of(&runtime.node),
        };
        self.counter = Some(id.wrapping_add(1));
        let msg_id = MessageId::new(self.msg_id);
        self.msg_id = self.msg_id.wrapping_add(1);
        Ok(Some((Some(msg_id), UniqueIdPayload::GenerateOk { id })))
    }
}

/// Every answer of the unique-id handler carries an identifier of its own: in a run
/// of no more requests than there are `u64` values, no two answers share one.
pub proof fn lemma_unique_id_answer_ids_distinct(
    node: Node,
    hs: Seq<UniqueIdHandler>,
    metas: Seq<MessageMeta>,
    payloads: Seq<UniqueIdPayload>,
    rs: Seq<Result<Option<(Option<MessageId>, UniqueIdPayload)>, Error>>,
)
    requires
        hs.len() == rs.len() + 1,
        metas.len() == rs.len(),
        payloads.len() == rs.len(),
        rs.len() <= u64::MAX as int + 1,
        forall|j: int|
            0 <= j < rs.len() ==> UniqueIdHandler::handled(
                hs[j],
                hs[j + 1],
                node,
                metas[j],
                payloads[j],
                #[trigger] rs[j],
            ),
    ensures
        forall|i: int, j: int|
            0 <= i < j < rs.len() && answer_id(#[trigger] rs[i]) is Some && answer_id(
                #[trigger] rs[j],
            ) is Some ==> answer_id(rs[i]) != answer_id(rs[j]),
{
    let ids = Seq::new(rs.len(), |i: int| hs[i].msg_id);
    assert forall|i: int| 0 <= i < ids.len() - 1 implies ids[i + 1] == #[trigger] ids[
        i
    ].wrapping_add(1) by {
        assert(UniqueIdHandler::handled(hs[i], hs[i + 1], node, metas[i], payloads[i], rs[i]));
    }
    lemma_counter_values_distinct(ids);
    assert forall|i: int, j: int|
        0 <= i < j < rs.len() && answer_id(#[trigger] rs[i]) is Some && answer_id(
            #[trigger] rs[j],
        ) is Some implies answer_id(rs[i]) != answer_id(rs[j]) by {
        assert(UniqueIdHandler::handled(hs[i], hs[i + 1], node, metas[i], payloads[i], rs[i]));
        assert(UniqueIdHandler::handled(hs[j], hs[j + 1], node, metas[j], payloads[j], rs[j]));
        assert(ids[i] != ids[j]);
    }
}

/// The unique-id handler answers every request with an identifier, under the
/// next answer identifier. Its first identifier is the first of the node's
/// partition: the `u64` range divided evenly by the cluster's size, times
/// the first place of the node's name in its cluster. After that it counts
/// up by one from the identifier it handed out last, wrapping around after
/// `u64::MAX`.
pub proof fn lemma_unique_id_answers(
    pre: UniqueIdHandler,
    post: UniqueIdHandler,
    node: Node,
    msg_meta: MessageMeta,
    payload: UniqueIdPayload,
    r: Result<Option<(Option<MessageId>, UniqueIdPayload)>, Error>,
)
    requires
        node.well_formed(),
        UniqueIdHandler::handled(pre, post, node, msg_meta, payload, r),
    ensures
        post.msg_id == (if pre.msg_id == u64::MAX {
            0
        } else {
            pre.msg_id + 1
        }),
        r matches Ok(Some((Some(id), UniqueIdPayload::GenerateOk { id: v }))) && id == MessageId(
            pre.msg_id,
        ) && post.counter == Some(
            if v == u64::MAX {
                0
            } else {
                (v + 1) as u64
            },
        ),
        pre.counter matches Some(c) ==> r == Ok::<
            Option<(Option<MessageId>, UniqueIdPayload)>,
            Error,
        >(Some((Some(MessageId(pre.msg_id)), UniqueIdPayload::GenerateOk { id: c }))),
        pre.counter is None ==> exists|p: int|
            {
                &&& 0 <= p < node.cluster@.len()
                &&& node.cluster@[p]@ == node.id@
                &&& forall|j: int| 0 <= j < p ==> node.cluster@[j]@ != node.id@
                &&& r == Ok::<Option<(Option<MessageId>, UniqueIdPayload)>, Error>(
                    Some(
                        (
                            Some(MessageId(pre.msg_id)),
                            UniqueIdPayload::GenerateOk {
                                id: ((u64::MAX as int / node.cluster@.len() as int) * p) as u64,
                            },
                        ),
                    ),
                )
                &&& (u64::MAX as int / node.cluster@.len() as int) * p <= u64::MAX
            },
{
    if pre.counter is None {
        lemma_offset(node);
        let p = offset(node);
        let ids = ids_view(node.cluster@);
        assert(node.cluster@.len() == ids.len());
        assert(ids[p] == node.cluster@[p]@);
        assert forall|j: int| 0 <= j < p implies node.cluster@[j]@ != node.id@ by {
            assert(ids[j] == node.cluster@[j]@);
        }
        lemma_partition_bounds(u64::MAX as int, node.cluster@.len() as int, p);
    }
}

/// The first identifier of a node's partition is the `u64` range divided
/// evenly by the cluster's size, times the first place of the node's name in
/// its cluster; the whole partition fits in the `u64` range.
pub proof fn lemma_partition_start_is_first_place(node: Node)
    requires
        node.well_formed(),
    ensures
        exists|p: int|
            {
                &&& 0 <= p < node.cluster@.len()
                &&& node.cluster@[p]@ == node.id@
                &&& forall|j: int| 0 <= j < p ==> node.cluster@[j]@ != node.id@
                &&& partition_start(node) == (u64::MAX as int / node.cluster@.len() as int) * p
            },
        0 <= partition_start(node),
        partition_start(node) + partition_size(node) <= u64::MAX,
        partition_size(node) == u64::MAX as int / node.cluster@.len() as int,
{
    lemma_offset(node);
    let p = offset(node);
    let ids = ids_view(node.cluster@);
    assert(node.cluster@.len() == ids.len());
    assert(ids[p] == node.cluster@[p]@);
    assert forall|j: int| 0 <= j < p implies node.cluster@[j]@ != node.id@ by {
        assert(ids[j] == node.cluster@[j]@);
    }
    lemma_partition_bounds(u64::MAX as int, node.cluster@.len() as int, p);
}

} // verus!
