use trackway::proto::{Message, MessageBuilder, MessageCode, MessageType};
use trackway::session::{
    dispatch_message, handshake_step, run_handshake, Dispatch, HandshakeAction, HandshakeState,
};

#[test]
fn exact_sequence_establishes_the_session() {
    // feeding `hello, hello, send_token, ok` after opening completes the
    // handshake in the established state
    let codes = vec![
        MessageCode::Hello,
        MessageCode::Hello,
        MessageCode::SendToken,
        MessageCode::Okay,
    ];
    assert_eq!(run_handshake(&codes), HandshakeState::Established);
}

#[test]
fn reordered_sequence_fails_without_hanging() {
    // send_token before the hello acknowledgment is fatal
    let codes = vec![
        MessageCode::Hello,
        MessageCode::SendToken,
        MessageCode::Hello,
        MessageCode::Okay,
    ];
    assert_eq!(run_handshake(&codes), HandshakeState::HandshakeFailed);
}

#[test]
fn wrong_code_fails_the_handshake() {
    let codes = vec![
        MessageCode::Hello,
        MessageCode::Ready,
        MessageCode::SendToken,
        MessageCode::Okay,
    ];
    assert_eq!(run_handshake(&codes), HandshakeState::HandshakeFailed);
}

#[test]
fn failure_is_absorbing() {
    let (s, _) = handshake_step(HandshakeState::HandshakeFailed, MessageCode::Hello);
    assert_eq!(s, HandshakeState::HandshakeFailed);
    let (s, _) = handshake_step(HandshakeState::Established, MessageCode::Bye);
    assert_eq!(s, HandshakeState::Established);
}

#[test]
fn token_request_triggers_the_token_send() {
    let (s, a) = handshake_step(HandshakeState::AwaitSendToken, MessageCode::SendToken);
    assert_eq!(s, HandshakeState::AwaitOkay);
    assert_eq!(a, HandshakeAction::SendTokenNow);
    let (_, a) = handshake_step(HandshakeState::AwaitHello, MessageCode::Hello);
    assert_eq!(a, HandshakeAction::DoNothing);
}

#[test]
fn message_codes_decode_exactly() {
    assert_eq!(MessageCode::parse("hello"), MessageCode::Hello);
    assert_eq!(MessageCode::parse("send_token"), MessageCode::SendToken);
    assert_eq!(MessageCode::parse("send_exports"), MessageCode::SendExports);
    assert_eq!(MessageCode::parse("exports"), MessageCode::Exports);
    assert_eq!(MessageCode::parse("ready"), MessageCode::Ready);
    assert_eq!(MessageCode::parse("call"), MessageCode::Call);
    assert_eq!(MessageCode::parse("ok"), MessageCode::Okay);
    assert_eq!(MessageCode::parse("err"), MessageCode::Failed);
    assert_eq!(MessageCode::parse("bye"), MessageCode::Bye);
    assert_eq!(MessageCode::parse("HELLO"), MessageCode::Unknown);
    assert_eq!(MessageCode::parse("anything"), MessageCode::Unknown);
    assert_eq!(MessageCode::parse(""), MessageCode::Unknown);
}

#[test]
fn code_strings_round_trip() {
    for c in [
        MessageCode::Hello,
        MessageCode::SendToken,
        MessageCode::SendExports,
        MessageCode::Exports,
        MessageCode::Ready,
        MessageCode::Call,
        MessageCode::Okay,
        MessageCode::Failed,
        MessageCode::Unknown,
        MessageCode::Bye,
    ] {
        assert_eq!(MessageCode::parse(c.as_str()), c);
    }
}

#[test]
fn builder_assembles_frames() {
    let m = MessageBuilder::new()
        .message_type(MessageType::MessagePipe)
        .code("ok")
        .data(&[1u8, 2, 3])
        .build();
    assert_eq!(m.message_type, MessageType::MessagePipe);
    assert_eq!(m.code, "ok");
    assert_eq!(m.data, vec![1u8, 2, 3]);
    assert!(m.is_pipe());
    assert!(!m.is_control());
    assert!(!m.is_prompt());
    assert_eq!(m.code(), MessageCode::Okay);
    assert!(!m.is_bye());
}

#[test]
fn hello_frame_and_bye_detection() {
    let hello = MessageBuilder::hello();
    assert!(hello.is_control());
    assert_eq!(hello.code, "hello");
    assert!(hello.data.is_empty());

    let bye = MessageBuilder::new().code("bye").build();
    assert!(bye.is_bye());
    let pipe_bye = Message {
        message_type: MessageType::MessagePipe,
        code: "bye".to_string(),
        data: Vec::new(),
    };
    assert!(!pipe_bye.is_bye());
}

#[test]
fn from_existing_amends_a_frame() {
    let m = MessageBuilder::hello();
    let m2 = MessageBuilder::from_existing(m).code("ready").build();
    assert_eq!(m2.code, "ready");
    assert_eq!(m2.message_type, MessageType::MessageControl);
}

#[test]
fn established_sessions_route_frames_by_plane_and_code() {
    let ctl = |code: &str| MessageBuilder::new().code(code).build();
    assert_eq!(dispatch_message(&ctl("bye")), Dispatch::Terminate);
    assert_eq!(dispatch_message(&ctl("ready")), Dispatch::ControlReady);
    assert_eq!(dispatch_message(&ctl("exports")), Dispatch::ControlExports);
    assert_eq!(dispatch_message(&ctl("send_exports")), Dispatch::ControlExports);
    assert_eq!(dispatch_message(&ctl("call")), Dispatch::ControlCall);
    assert_eq!(dispatch_message(&ctl("whatever")), Dispatch::ControlOther);
    let pipe = MessageBuilder::new()
        .message_type(MessageType::MessagePipe)
        .code("ok")
        .build();
    assert_eq!(dispatch_message(&pipe), Dispatch::PipeData);
    let prompt = MessageBuilder::new()
        .message_type(MessageType::MessagePrompt)
        .build();
    assert_eq!(dispatch_message(&prompt), Dispatch::PromptData);
}
