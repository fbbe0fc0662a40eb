use gossip_glomers::echo::{EchoHandler, EchoPayload};
use gossip_glomers::maelstrom::error::Error;
use gossip_glomers::maelstrom::message::{
    ErrorPayload, InitPayload, Message, MessageBody, MessageId, MessagePayload,
};
use gossip_glomers::maelstrom::{contains_id, Node, NodeId, Outcome, Serve};

type EchoServe = Serve<EchoHandler, &'static str>;

fn msg(
    src: &str,
    dest: &str,
    msg_id: Option<u64>,
    in_reply_to: Option<u64>,
    payload: MessagePayload<EchoPayload>,
) -> Message<EchoPayload> {
    Message {
        src: NodeId::new(src),
        dest: NodeId::new(dest),
        body: MessageBody {
            msg_id: msg_id.map(MessageId::new),
            in_reply_to: in_reply_to.map(MessageId::new),
            payload,
        },
    }
}

fn init(node_id: &str, node_ids: &[&str]) -> MessagePayload<EchoPayload> {
    MessagePayload::Init(InitPayload {
        node_id: NodeId::new(node_id),
        node_ids: node_ids.iter().map(|n| NodeId::new(n)).collect(),
    })
}

fn echo(text: &str) -> MessagePayload<EchoPayload> {
    MessagePayload::Custom(EchoPayload::Echo { echo: text.to_string() })
}

fn sent(o: Outcome<EchoPayload, &'static str>) -> Message<EchoPayload> {
    match o {
        Outcome::Send(m) => m,
        other => panic!("expected a message to send, got {:?}", other),
    }
}

fn error_reply(code: i32, text: &str, to: &str, from: &str, in_reply_to: Option<u64>) -> Message<EchoPayload> {
    msg(
        from,
        to,
        None,
        in_reply_to,
        MessagePayload::Error(ErrorPayload { code, text: text.to_string() }),
    )
}

fn initialized() -> EchoServe {
    let mut s: EchoServe = Serve::new(EchoHandler::default());
    let r = s.process(msg("c0", "n1", Some(1), None, init("n1", &["n1", "n2", "n3"])));
    assert_eq!(sent(r), msg("n1", "c0", None, Some(1), MessagePayload::InitOk));
    s
}

#[test]
fn init_in_cluster_initializes_the_node() {
    let s = initialized();
    let rt = s.runtime.as_ref().unwrap();
    assert_eq!(
        rt.node,
        Node {
            id: NodeId::new("n1"),
            cluster: vec![NodeId::new("n1"), NodeId::new("n2"), NodeId::new("n3")],
        }
    );
    assert!(rt.rpc.is_empty());
}

#[test]
fn init_outside_the_cluster_is_malformed() {
    let mut s: EchoServe = Serve::new(EchoHandler::default());
    let r = s.process(msg("c0", "n9", Some(1), None, init("n9", &["n1", "n2"])));
    assert_eq!(sent(r), error_reply(12, "malformed-request", "c0", "n9", Some(1)));
    assert!(s.runtime.is_none());
}

#[test]
fn requests_before_init_are_temporarily_unavailable() {
    let mut s: EchoServe = Serve::new(EchoHandler::default());
    let r = s.process(msg("c1", "n1", Some(5), None, echo("hello")));
    assert_eq!(sent(r), error_reply(11, "temporarily-unavailable", "c1", "n1", Some(5)));
    assert!(s.runtime.is_none());
    assert_eq!(s.handler.msg_id, 0);
}

#[test]
fn echo_is_answered_by_the_handler() {
    let mut s = initialized();
    let r = s.process(msg("c1", "n1", Some(7), None, echo("hello")));
    assert_eq!(
        sent(r),
        msg(
            "n1",
            "c1",
            Some(0),
            Some(7),
            MessagePayload::Custom(EchoPayload::EchoOk { echo: "hello".to_string() })
        )
    );
    let r = s.process(msg("c1", "n1", Some(8), None, echo("again")));
    assert_eq!(sent(r).body.msg_id, Some(MessageId::new(1)));
}

#[test]
fn handler_errors_are_reported_to_the_sender() {
    let mut s = initialized();
    let payload = MessagePayload::Custom(EchoPayload::EchoOk { echo: "x".to_string() });
    let r = s.process(msg("c1", "n1", Some(2), None, payload));
    assert_eq!(sent(r), error_reply(12, "malformed-request", "c1", "n1", Some(2)));
}

#[test]
fn message_for_another_node_is_malformed() {
    let mut s = initialized();
    let r = s.process(msg("c1", "n2", Some(3), None, echo("hello")));
    assert_eq!(sent(r), error_reply(12, "malformed-request", "c1", "n2", Some(3)));
    assert_eq!(s.handler.msg_id, 0);
}

#[test]
fn init_after_init_crashes_and_keeps_the_node() {
    let mut s = initialized();
    let r = s.process(msg("c0", "n1", Some(4), None, init("n1", &["n1"])));
    assert_eq!(sent(r), error_reply(13, "crash", "c0", "n1", Some(4)));
    assert_eq!(s.runtime.as_ref().unwrap().node.cluster.len(), 3);
}

#[test]
fn init_ok_sent_to_a_node_crashes() {
    let mut s = initialized();
    let r = s.process(msg("c0", "n1", Some(4), None, MessagePayload::InitOk));
    assert_eq!(sent(r), error_reply(13, "crash", "c0", "n1", Some(4)));
}

#[test]
fn error_payload_sent_as_a_request_is_malformed() {
    let mut s = initialized();
    let payload = MessagePayload::Error(ErrorPayload { code: 0, text: "timeout".to_string() });
    let r = s.process(msg("c0", "n1", None, None, payload));
    assert_eq!(sent(r), error_reply(12, "malformed-request", "c0", "n1", None));
}

#[test]
fn reply_to_a_waiting_call_is_delivered_once() {
    let mut s = initialized();
    s.runtime.as_mut().unwrap().await_reply(MessageId::new(40), "caller");
    let reply = msg("n2", "n1", None, Some(40), echo("answer"));
    match s.process(reply.clone()) {
        Outcome::Deliver(w, m) => {
            assert_eq!(w, "caller");
            assert_eq!(m, reply);
        },
        other => panic!("expected a delivery, got {:?}", other),
    }
    let r = s.process(reply);
    assert_eq!(sent(r), error_reply(12, "malformed-request", "n2", "n1", None));
}

#[test]
fn handle_request_reports_errors_unwrapped() {
    let mut s: EchoServe = Serve::new(EchoHandler::default());
    let r = s.handle_request(msg("c1", "n1", Some(5), None, echo("hello")));
    assert_eq!(r.err(), Some(Error::TemporarilyUnavailable));
}

#[test]
fn answer_turns_handler_results_into_outcomes() {
    let meta = msg("c1", "n1", Some(5), None, echo("x")).meta();
    match EchoServe::answer(&meta, Ok(None)) {
        Ok(Outcome::Quiet) => {},
        other => panic!("expected nothing to send, got {:?}", other),
    }
    assert_eq!(EchoServe::answer(&meta, Err(Error::Abort)).err(), Some(Error::Abort));
    let r = EchoServe::answer(&meta, Ok(Some((None, EchoPayload::EchoOk { echo: "y".to_string() }))));
    assert_eq!(
        sent(r.unwrap()),
        msg("n1", "c1", None, Some(5), MessagePayload::Custom(EchoPayload::EchoOk { echo: "y".to_string() }))
    );
}

#[test]
fn contains_id_finds_names() {
    let ids = vec![NodeId::new("n1"), NodeId::new("n2")];
    assert!(contains_id(&ids, &NodeId::new("n2")));
    assert!(!contains_id(&ids, &NodeId::new("n3")));
    assert!(!contains_id(&vec![], &NodeId::new("n1")));
}
