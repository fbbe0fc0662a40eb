use gossip_glomers::maelstrom::error::Error;
use gossip_glomers::maelstrom::message::{
    ErrorPayload, Message, MessageBody, MessageId, MessagePayload,
};
use gossip_glomers::maelstrom::NodeId;

fn request(msg_id: Option<u64>) -> Message<()> {
    Message {
        src: NodeId::new("c1"),
        dest: NodeId::new("n1"),
        body: MessageBody {
            msg_id: msg_id.map(MessageId::new),
            in_reply_to: None,
            payload: MessagePayload::Custom(()),
        },
    }
}

#[test]
fn message_id_new_and_from_agree() {
    assert_eq!(MessageId::new(42), MessageId::from(42u64));
    assert_eq!(MessageId::new(7).0, 7);
    assert_ne!(MessageId::new(1), MessageId::new(2));
}

#[test]
fn node_id_holds_its_name() {
    assert_eq!(NodeId::new("n0").0, "n0");
    assert_eq!(NodeId::new("n0"), NodeId::new("n0"));
    assert_ne!(NodeId::new("n0"), NodeId::new("n1"));
}

#[test]
fn meta_copies_addresses_and_identifiers() {
    let mut m = request(Some(3));
    m.body.in_reply_to = Some(MessageId::new(9));
    let meta = m.meta();
    assert_eq!(meta.src, NodeId::new("c1"));
    assert_eq!(meta.dest, NodeId::new("n1"));
    assert_eq!(meta.msg_id, Some(MessageId::new(3)));
    assert_eq!(meta.in_reply_to, Some(MessageId::new(9)));
}

#[test]
fn reply_goes_back_to_the_sender() {
    let meta = request(Some(3)).meta();
    let reply = Message::reply_to(&meta, Some(MessageId::new(10)), MessagePayload::Custom(()));
    assert_eq!(
        reply,
        Message {
            src: NodeId::new("n1"),
            dest: NodeId::new("c1"),
            body: MessageBody {
                msg_id: Some(MessageId::new(10)),
                in_reply_to: Some(MessageId::new(3)),
                payload: MessagePayload::Custom(()),
            },
        }
    );
}

#[test]
fn reply_to_a_request_without_identifier_refers_to_nothing() {
    let meta = request(None).meta();
    let reply: Message<()> = Message::reply_to(&meta, None, MessagePayload::InitOk);
    assert_eq!(reply.body.in_reply_to, None);
    assert_eq!(reply.body.msg_id, None);
    assert_eq!(reply.body.payload, MessagePayload::InitOk);
}

#[test]
fn standard_errors_have_their_codes_and_names() {
    let table = vec![
        (Error::Timeout, 0, "timeout"),
        (Error::NodeNotFound, 1, "node-not-found"),
        (Error::NotSupported, 10, "not-supported"),
        (Error::TemporarilyUnavailable, 11, "temporarily-unavailable"),
        (Error::MalformedRequest, 12, "malformed-request"),
        (Error::Crash, 13, "crash"),
        (Error::Abort, 14, "abort"),
        (Error::KeyDoesNotExist, 20, "key-does-not-exist"),
        (Error::KeyAlreadyExists, 21, "key-already-exists"),
        (Error::PreconditionFailed, 22, "precondition-failed"),
        (Error::TxnConflict, 30, "txn-conflict"),
    ];
    for (e, code, name) in table {
        assert_eq!(e.code(), code);
        assert_eq!(e.description(), name);
        assert_eq!(Error::from_code_message(code, "whatever".to_string()), e);
    }
}

#[test]
fn unknown_code_keeps_code_and_text() {
    let e = Error::from_code_message(1000, "custom failure".to_string());
    assert_eq!(e, Error::Other { code: 1000, text: "custom failure".to_string() });
    assert_eq!(e.code(), 1000);
    assert_eq!(e.description(), "custom failure");
}

#[test]
fn error_becomes_payload_with_code_and_name() {
    assert_eq!(
        Error::Timeout.into(),
        ErrorPayload { code: 0, text: "timeout".to_string() }
    );
    assert_eq!(
        Error::MalformedRequest.into(),
        ErrorPayload { code: 12, text: "malformed-request".to_string() }
    );
}

#[test]
fn error_payload_reads_back_as_the_same_error() {
    let errors = vec![
        Error::Timeout,
        Error::Crash,
        Error::TxnConflict,
        Error::Other { code: 77, text: "odd".to_string() },
    ];
    for e in errors {
        let p: ErrorPayload = e.clone().into();
        assert_eq!(Error::from_code_message(p.code, p.text), e);
    }
}
