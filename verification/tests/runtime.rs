use gossip_glomers::maelstrom::error::Error;
use gossip_glomers::maelstrom::message::{Message, MessageBody, MessageId, MessagePayload};
use gossip_glomers::maelstrom::runtime::Runtime;
use gossip_glomers::maelstrom::{Node, NodeId};

fn node() -> Node {
    Node { id: NodeId::new("n1"), cluster: vec![NodeId::new("n1"), NodeId::new("n2")] }
}

fn reply(in_reply_to: Option<u64>, payload: MessagePayload<u32>) -> Message<u32> {
    Message {
        src: NodeId::new("n2"),
        dest: NodeId::new("n1"),
        body: MessageBody { msg_id: None, in_reply_to: in_reply_to.map(MessageId::new), payload },
    }
}

#[test]
fn new_runtime_waits_for_nothing() {
    let mut rt: Runtime<&str> = Runtime::new(node());
    assert_eq!(rt.node, node());
    assert!(rt.rpc.is_empty());
    assert_eq!(rt.receive(&reply(Some(1), MessagePayload::Custom(5))), Err(Error::MalformedRequest));
}

#[test]
fn receive_without_reference_is_malformed() {
    let mut rt: Runtime<&str> = Runtime::new(node());
    rt.await_reply(MessageId::new(1), "caller");
    assert_eq!(rt.receive(&reply(None, MessagePayload::Custom(5))), Err(Error::MalformedRequest));
    assert_eq!(rt.rpc.len(), 1);
}

#[test]
fn reply_reaches_its_call_once() {
    let mut rt: Runtime<&str> = Runtime::new(node());
    assert_eq!(rt.await_reply(MessageId::new(1), "first"), None);
    assert_eq!(rt.await_reply(MessageId::new(2), "second"), None);
    assert_eq!(rt.receive(&reply(Some(2), MessagePayload::Custom(5))), Ok("second"));
    assert_eq!(rt.receive(&reply(Some(2), MessagePayload::Custom(5))), Err(Error::MalformedRequest));
    assert_eq!(rt.receive(&reply(Some(1), MessagePayload::Custom(6))), Ok("first"));
    assert!(rt.rpc.is_empty());
}

#[test]
fn waiting_again_under_one_identifier_replaces_the_call() {
    let mut rt: Runtime<&str> = Runtime::new(node());
    assert_eq!(rt.await_reply(MessageId::new(4), "old"), None);
    assert_eq!(rt.await_reply(MessageId::new(4), "new"), Some("old"));
    assert_eq!(rt.receive(&reply(Some(4), MessagePayload::Custom(1))), Ok("new"));
}

#[test]
fn runtime_reply_comes_from_this_node() {
    let rt: Runtime<()> = Runtime::new(node());
    let m = rt.reply_to(NodeId::new("c3"), MessageId::new(8), Some(MessageId::new(9)), MessagePayload::Custom(1u8));
    assert_eq!(
        m,
        Message {
            src: NodeId::new("n1"),
            dest: NodeId::new("c3"),
            body: MessageBody {
                msg_id: Some(MessageId::new(9)),
                in_reply_to: Some(MessageId::new(8)),
                payload: MessagePayload::Custom(1u8),
            },
        }
    );
}

#[test]
fn call_message_carries_its_identifier() {
    let rt: Runtime<()> = Runtime::new(node());
    let m = rt.call_msg(NodeId::new("n2"), MessageId::new(3), 11u32);
    assert_eq!(m.src, NodeId::new("n1"));
    assert_eq!(m.dest, NodeId::new("n2"));
    assert_eq!(m.body.msg_id, Some(MessageId::new(3)));
    assert_eq!(m.body.in_reply_to, None);
    assert_eq!(m.body.payload, MessagePayload::Custom(11u32));
    assert_eq!(Runtime::<()>::call_id(&m), Ok(MessageId::new(3)));
}

#[test]
fn call_without_identifier_is_malformed() {
    let m = reply(None, MessagePayload::Custom(1));
    assert_eq!(Runtime::<()>::call_id(&m), Err(Error::MalformedRequest));
}

#[test]
fn call_result_is_the_payload_or_the_reported_error() {
    assert_eq!(Runtime::<()>::call_result(reply(Some(1), MessagePayload::Custom(5))), Ok(5));
    let failed = reply(
        Some(1),
        MessagePayload::Error(Error::KeyDoesNotExist.into()),
    );
    assert_eq!(Runtime::<()>::call_result(failed), Err(Error::KeyDoesNotExist));
}
