use gossip_glomers::broadcast::{BroadcastHandler, BroadcastPayload};
use gossip_glomers::echo::{EchoHandler, EchoPayload};
use gossip_glomers::maelstrom::error::Error;
use gossip_glomers::maelstrom::handler::Handler;
use gossip_glomers::maelstrom::message::{Message, MessageBody, MessageId, MessageMeta, MessagePayload};
use gossip_glomers::maelstrom::runtime::Runtime;
use gossip_glomers::maelstrom::{Node, NodeId};
use gossip_glomers::uniq_ids::{partition_start_of, UniqueIdHandler, UniqueIdPayload};

fn node(id: &str, cluster: &[&str]) -> Node {
    Node { id: NodeId::new(id), cluster: cluster.iter().map(|n| NodeId::new(n)).collect() }
}

fn runtime(id: &str, cluster: &[&str]) -> Runtime<()> {
    Runtime::new(node(id, cluster))
}

fn meta() -> MessageMeta {
    let m: Message<()> = Message {
        src: NodeId::new("c1"),
        dest: NodeId::new("n1"),
        body: MessageBody { msg_id: Some(MessageId::new(1)), in_reply_to: None, payload: MessagePayload::Custom(()) },
    };
    m.meta()
}

#[test]
fn echo_answers_with_the_same_text() {
    let rt = runtime("n1", &["n1"]);
    let mut h = EchoHandler::default();
    let r = h.handle(&rt, meta(), EchoPayload::Echo { echo: "ping".to_string() });
    assert_eq!(r, Ok(Some((Some(MessageId::new(0)), EchoPayload::EchoOk { echo: "ping".to_string() }))));
    assert_eq!(h.msg_id, 1);
}

#[test]
fn echo_ok_is_malformed_but_takes_an_identifier() {
    let rt = runtime("n1", &["n1"]);
    let mut h = EchoHandler::default();
    let r = h.handle(&rt, meta(), EchoPayload::EchoOk { echo: "pong".to_string() });
    assert_eq!(r, Err(Error::MalformedRequest));
    assert_eq!(h.msg_id, 1);
}

#[test]
fn answer_identifiers_wrap_around() {
    let rt = runtime("n1", &["n1"]);
    let mut h = EchoHandler { msg_id: u64::MAX };
    let r = h.handle(&rt, meta(), EchoPayload::Echo { echo: "x".to_string() });
    assert_eq!(r.unwrap().unwrap().0, Some(MessageId::new(u64::MAX)));
    assert_eq!(h.msg_id, 0);
}

fn read(h: &mut BroadcastHandler, rt: &Runtime<()>) -> Vec<u64> {
    match h.handle(rt, meta(), BroadcastPayload::Read) {
        Ok(Some((_, BroadcastPayload::ReadOk { mut messages }))) => {
            messages.sort();
            messages
        },
        other => panic!("expected read_ok, got {:?}", other),
    }
}

#[test]
fn broadcast_values_are_read_back() {
    let rt = runtime("n1", &["n1", "n2"]);
    let mut h = BroadcastHandler::default();
    assert_eq!(read(&mut h, &rt), Vec::<u64>::new());
    for (i, v) in [5u64, 3, 5, 9].iter().enumerate() {
        let r = h.handle(&rt, meta(), BroadcastPayload::Broadcast { message: *v });
        assert_eq!(r, Ok(Some((Some(MessageId::new(i as u64 + 1)), BroadcastPayload::BroadcastOk))));
    }
    assert_eq!(read(&mut h, &rt), vec![3, 5, 9]);
    assert_eq!(h.msg_id, 6);
}

#[test]
fn read_all_lists_each_value_once() {
    let mut h = BroadcastHandler::default();
    h.messages.insert(1);
    h.messages.insert(2);
    let mut all = h.read_all();
    all.sort();
    assert_eq!(all, vec![1, 2]);
}

#[test]
fn topology_is_acknowledged() {
    let rt = runtime("n1", &["n1", "n2"]);
    let mut h = BroadcastHandler::default();
    let topology = vec![(NodeId::new("n1"), vec![NodeId::new("n2")]), (NodeId::new("n2"), vec![NodeId::new("n1")])];
    let r = h.handle(&rt, meta(), BroadcastPayload::Topology { topology });
    assert_eq!(r, Ok(Some((Some(MessageId::new(0)), BroadcastPayload::TopologyOk))));
    assert!(h.messages.is_empty());
}

#[test]
fn broadcast_answers_sent_as_requests_crash() {
    let rt = runtime("n1", &["n1"]);
    let mut h = BroadcastHandler::default();
    assert_eq!(h.handle(&rt, meta(), BroadcastPayload::BroadcastOk), Err(Error::Crash));
    assert_eq!(h.handle(&rt, meta(), BroadcastPayload::ReadOk { messages: vec![1] }), Err(Error::Crash));
    assert_eq!(h.handle(&rt, meta(), BroadcastPayload::TopologyOk), Err(Error::Crash));
    assert_eq!(h.msg_id, 3);
    assert!(h.messages.is_empty());
}

#[test]
fn partitions_split_the_range_in_cluster_order() {
    let cluster = ["n1", "n2", "n3"];
    assert_eq!(partition_start_of(&node("n1", &cluster)), 0);
    assert_eq!(partition_start_of(&node("n2", &cluster)), 6148914691236517205);
    assert_eq!(partition_start_of(&node("n3", &cluster)), 12297829382473034410);
    assert_eq!(partition_start_of(&node("n1", &["n1"])), 0);
}

#[test]
fn first_place_of_a_repeated_name_counts() {
    assert_eq!(partition_start_of(&node("n2", &["n2", "n1", "n2"])), 0);
}

fn generate(h: &mut UniqueIdHandler, rt: &Runtime<()>) -> u64 {
    match h.handle(rt, meta(), UniqueIdPayload::Generate) {
        Ok(Some((_, UniqueIdPayload::GenerateOk { id }))) => id,
        other => panic!("expected generate_ok, got {:?}", other),
    }
}

#[test]
fn unique_ids_count_up_from_the_partition_start() {
    let rt = runtime("n2", &["n1", "n2"]);
    let mut h = UniqueIdHandler::new();
    assert_eq!(h.counter, None);
    let start = u64::MAX / 2;
    assert_eq!(generate(&mut h, &rt), start);
    assert_eq!(generate(&mut h, &rt), start + 1);
    assert_eq!(generate(&mut h, &rt), start + 2);
    assert_eq!(h.counter, Some(start + 3));
    assert_eq!(h.msg_id, 3);
}

#[test]
fn nodes_of_one_cluster_never_share_ids() {
    let cluster = ["a", "b", "c"];
    let rts = [runtime("a", &cluster), runtime("b", &cluster), runtime("c", &cluster)];
    let mut seen = std::collections::HashSet::new();
    for rt in rts.iter() {
        let mut h = UniqueIdHandler::new();
        for _ in 0..100 {
            assert!(seen.insert(generate(&mut h, rt)));
        }
    }
    assert_eq!(seen.len(), 300);
}

#[test]
fn any_payload_generates_an_id() {
    let rt = runtime("n1", &["n1"]);
    let mut h = UniqueIdHandler::new();
    let r = h.handle(&rt, meta(), UniqueIdPayload::GenerateOk { id: 99 });
    assert_eq!(r, Ok(Some((Some(MessageId::new(0)), UniqueIdPayload::GenerateOk { id: 0 }))));
}
