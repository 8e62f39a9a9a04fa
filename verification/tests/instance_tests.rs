use trackway::instance::{
    announce_message, json_escape, Instance, InstanceError, NewInstanceMessage,
};
use trackway::proto::{Message, MessageBuilder, MessageCode, MessageType};

fn eval_request(source: &str) -> Message {
    let mut object = serde_json::Map::new();
    object.insert(
        "source_code".to_string(),
        serde_json::Value::String(source.to_string()),
    );
    let payload = serde_json::to_vec(&serde_json::Value::Object(object)).unwrap();
    MessageBuilder::new()
        .message_type(MessageType::MessagePipe)
        .code("call")
        .data(&payload)
        .build()
}

fn bye() -> Message {
    MessageBuilder::new().code("bye").build()
}

#[test]
fn slot_pipelining_round_trip() {
    // poll with one inbound source-text message yields slot id 0 awaiting
    // execution; completing it with 42 and polling again emits the pipe
    // frame carrying 42 and retires the slot
    let mut inst = Instance::new();

    let flushed = inst.poll_flush(None);
    assert!(flushed.is_none());
    let id = inst.poll_accept(&eval_request("6 * 7")).unwrap().unwrap();
    assert_eq!(id, 0);
    assert_eq!(inst.pending_source(0).unwrap(), "6 * 7");

    // the evaluator (driven by the caller) produced 42
    assert!(inst.complete(0, "42"));

    let out = inst.poll_flush(Some(0)).unwrap();
    assert!(out.is_pipe());
    assert_eq!(out.code(), MessageCode::Okay);
    assert_eq!(out.data, b"{\"json_value\":42}".to_vec());
    let value: serde_json::Value = serde_json::from_slice(&out.data).unwrap();
    assert_eq!(value["json_value"].as_i64(), Some(42));

    // the slot no longer exists
    assert!(inst.pending_source(0).is_none());
    assert!(inst.poll_flush(Some(0)).is_none());
}

#[test]
fn slot_ids_increase_and_are_never_reused() {
    let mut inst = Instance::new();
    let a = inst.poll_accept(&eval_request("1")).unwrap().unwrap();
    let b = inst.poll_accept(&eval_request("2")).unwrap().unwrap();
    assert!(inst.complete(a, "1"));
    inst.poll_flush(Some(a)).unwrap();
    // even after slot `a` is retired, its id is not handed out again
    let c = inst.poll_accept(&eval_request("3")).unwrap().unwrap();
    assert_eq!((a, b, c), (0, 1, 2));
}

#[test]
fn completing_twice_is_a_no_op() {
    let mut inst = Instance::new();
    let id = inst.poll_accept(&eval_request("1 + 1")).unwrap().unwrap();
    assert!(inst.complete(id, "2"));
    assert!(!inst.complete(id, "3"));
    let out = inst.poll_flush(Some(id)).unwrap();
    assert_eq!(out.data, b"{\"json_value\":2}".to_vec());
}

#[test]
fn flushing_a_pending_slot_changes_nothing() {
    let mut inst = Instance::new();
    let id = inst.poll_accept(&eval_request("1")).unwrap().unwrap();
    assert!(inst.poll_flush(Some(id)).is_none());
    assert_eq!(inst.pending_source(id).unwrap(), "1");
}

#[test]
fn termination_frame_yields_no_slot() {
    let mut inst = Instance::new();
    assert_eq!(inst.poll_accept(&bye()).unwrap(), None);
}

#[test]
fn malformed_payload_is_an_error() {
    let mut inst = Instance::new();
    let garbage = MessageBuilder::new()
        .message_type(MessageType::MessagePipe)
        .code("call")
        .data(b"not json at all")
        .build();
    assert_eq!(
        inst.poll_accept(&garbage).unwrap_err(),
        InstanceError::MalformedPayload
    );
    let wrong_shape = MessageBuilder::new()
        .message_type(MessageType::MessagePipe)
        .code("call")
        .data(b"{\"other\":1}")
        .build();
    assert!(inst.poll_accept(&wrong_shape).is_err());
}

#[test]
fn decoding_reads_the_source_code_field() {
    // the payload decoder must actually parse the request, not hand the
    // bytes back: the stored source is the field's value alone
    let mut inst = Instance::new();
    let frame = MessageBuilder::new()
        .message_type(MessageType::MessagePipe)
        .code("call")
        .data(b"{\"source_code\":\"a + b\",\"noise\":true}")
        .build();
    let id = inst.poll_accept(&frame).unwrap().unwrap();
    assert_eq!(inst.pending_source(id).unwrap(), "a + b");

    let not_an_object = MessageBuilder::new()
        .message_type(MessageType::MessagePipe)
        .code("call")
        .data(b"[1,2,3]")
        .build();
    assert!(inst.poll_accept(&not_an_object).is_err());
}

#[test]
fn announcement_is_valid_json_with_escaping() {
    let msg = NewInstanceMessage {
        task_name: "Audit".to_string(),
        task_description: "says \"hi\"\nand more\\".to_string(),
        task_context: "type A = string;\nfunction f(_: A): A;".to_string(),
    };
    let frame = announce_message(&msg);
    assert!(frame.is_control());
    assert_eq!(frame.code, "task");
    let value: serde_json::Value = serde_json::from_slice(&frame.data).unwrap();
    assert_eq!(value["task_name"], "Audit");
    assert_eq!(value["task_description"], "says \"hi\"\nand more\\");
    assert_eq!(value["task_context"], "type A = string;\nfunction f(_: A): A;");
}

#[test]
fn json_escape_handles_control_bytes() {
    assert_eq!(json_escape("plain"), b"plain".to_vec());
    assert_eq!(json_escape("a\"b"), b"a\\\"b".to_vec());
    assert_eq!(json_escape("a\\b"), b"a\\\\b".to_vec());
    assert_eq!(json_escape("a\nb\tc\r"), b"a\\nb\\tc\\r".to_vec());
    assert_eq!(json_escape("\u{01}"), b"\\u0001".to_vec());
    assert_eq!(json_escape("\u{1f}"), b"\\u001f".to_vec());
    // multi-byte characters pass through as their UTF-8 bytes
    assert_eq!(json_escape("ä"), "ä".as_bytes().to_vec());
}
