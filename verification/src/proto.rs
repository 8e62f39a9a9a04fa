//! The wire-message model: one frame of the bidirectional channel, the
//! control-code vocabulary, and a builder for assembling frames.

use vstd::prelude::*;
use vstd::string::StringExecFns;

verus! {

/// The plane a wire frame belongs to: control messages steer the session,
/// pipe messages carry remote code and results, prompt messages carry
/// console traffic.
#[derive(Clone, Copy, PartialEq, Eq, Structural, Debug)]
pub enum MessageType {
    MessageControl,
    MessagePipe,
    MessagePrompt,
}

/// The recognized control codes.  Any unrecognized code string decodes to
/// `Unknown` rather than failing.
#[derive(Clone, Copy, PartialEq, Eq, Structural, Debug)]
pub enum MessageCode {
    Hello,
    SendToken,
    SendExports,
    Exports,
    Ready,
    Call,
    Okay,
    Failed,
    Unknown,
    Bye,
}

/// The canonical code string of each control code.
pub open spec fn code_str(c: MessageCode) -> Seq<char> {
    match c {
        MessageCode::Hello => "hello"@,
        MessageCode::SendToken => "send_token"@,
        MessageCode::SendExports => "send_exports"@,
        MessageCode::Exports => "exports"@,
        MessageCode::Ready => "ready"@,
        MessageCode::Call => "call"@,
        MessageCode::Okay => "ok"@,
        MessageCode::Failed => "err"@,
        MessageCode::Unknown => "unknown"@,
        MessageCode::Bye => "bye"@,
    }
}

/// How a code string decodes: the exact, case-sensitive strings of the wire
/// vocabulary; everything else is `Unknown`.
pub open spec fn code_of(s: Seq<char>) -> MessageCode {
    if s == "hello"@ {
        MessageCode::Hello
    } else if s == "send_token"@ {
        MessageCode::SendToken
    } else if s == "send_exports"@ {
        MessageCode::SendExports
    } else if s == "exports"@ {
        MessageCode::Exports
    } else if s == "ready"@ {
        MessageCode::Ready
    } else if s == "call"@ {
        MessageCode::Call
    } else if s == "ok"@ {
        MessageCode::Okay
    } else if s == "err"@ {
        MessageCode::Failed
    } else if s == "bye"@ {
        MessageCode::Bye
    } else {
        MessageCode::Unknown
    }
}

impl MessageCode {
    /// Decode a code string; unrecognized strings give `Unknown`.
    pub fn parse(s: &str) -> (r: MessageCode)
        ensures
            r == code_of(s@),
    {
        let owned = s.to_owned();
        if owned == String::from_str("hello") {
            MessageCode::Hello
        } else if owned == String::from_str("send_token") {
            MessageCode::SendToken
        } else if owned == String::from_str("send_exports") {
            MessageCode::SendExports
        } else if owned == String::from_str("exports") {
            MessageCode::Exports
        } else if owned == String::from_str("ready") {
            MessageCode::Ready
        } else if owned == String::from_str("call") {
            MessageCode::Call
        } else if owned == String::from_str("ok") {
            MessageCode::Okay
        } else if owned == String::from_str("err") {
            MessageCode::Failed
        } else if owned == String::from_str("bye") {
            MessageCode::Bye
        } else {
            MessageCode::Unknown
        }
    }

    /// The canonical string of this code, as it travels on the wire.
    pub fn as_str(&self) -> (r: &'static str)
        ensures
            r@ == code_str(*self),
    {
        match self {
            MessageCode::Hello => "hello",
            MessageCode::SendToken => "send_token",
            MessageCode::SendExports => "send_exports",
            MessageCode::Exports => "exports",
            MessageCode::Ready => "ready",
            MessageCode::Call => "call",
            MessageCode::Okay => "ok",
            MessageCode::Failed => "err",
            MessageCode::Unknown => "unknown",
            MessageCode::Bye => "bye",
        }
    }
}

/// Decoding the canonical string of a code gives the code back: the wire
/// vocabulary is unambiguous.  (`Unknown`'s canonical string is itself not a
/// recognized code, so it too decodes to `Unknown`.)
pub proof fn lemma_code_roundtrip(c: MessageCode)
    ensures
        code_of(code_str(c)) == c,
{
    reveal_strlit("hello");
    reveal_strlit("send_token");
    reveal_strlit("send_exports");
    reveal_strlit("exports");
    reveal_strlit("ready");
    reveal_strlit("call");
    reveal_strlit("ok");
    reveal_strlit("err");
    reveal_strlit("unknown");
    reveal_strlit("bye");
    assert("hello"@.len() == 5);
    assert("send_token"@.len() == 10);
    assert("send_exports"@.len() == 12);
    assert("exports"@.len() == 7);
    assert("ready"@.len() == 5);
    assert("call"@.len() == 4);
    assert("ok"@.len() == 2);
    assert("err"@.len() == 3);
    assert("unknown"@.len() == 7);
    assert("bye"@.len() == 3);
    assert("ready"@[0] != "hello"@[0]);
    assert("call"@[0] != "err"@[0] && "call"@[0] != "bye"@[0]);
    assert("err"@[0] != "bye"@[0]);
    assert("exports"@[0] != "unknown"@[0]);
    assert(!("send_token"@ == "hello"@));
    assert(!("send_exports"@ == "hello"@) && !("send_exports"@ == "send_token"@));
    assert(!("exports"@ == "hello"@) && !("exports"@ == "send_token"@) && !("exports"@
        == "send_exports"@));
    assert(!("ready"@ == "hello"@) && !("ready"@ == "send_token"@) && !("ready"@
        == "send_exports"@) && !("ready"@ == "exports"@));
    assert(!("call"@ == "hello"@) && !("call"@ == "send_token"@) && !("call"@
        == "send_exports"@) && !("call"@ == "exports"@) && !("call"@ == "ready"@));
    assert(!("ok"@ == "hello"@) && !("ok"@ == "send_token"@) && !("ok"@ == "send_exports"@) && !(
    "ok"@ == "exports"@) && !("ok"@ == "ready"@) && !("ok"@ == "call"@));
    assert(!("err"@ == "hello"@) && !("err"@ == "send_token"@) && !("err"@ == "send_exports"@) && !(
    "err"@ == "exports"@) && !("err"@ == "ready"@) && !("err"@ == "call"@) && !("err"@ == "ok"@));
    assert(!("bye"@ == "hello"@) && !("bye"@ == "send_token"@) && !("bye"@ == "send_exports"@) && !(
    "bye"@ == "exports"@) && !("bye"@ == "ready"@) && !("bye"@ == "call"@) && !("bye"@ == "ok"@)
        && !("bye"@ == "err"@));
    assert(!("unknown"@ == "hello"@) && !("unknown"@ == "send_token"@) && !("unknown"@
        == "send_exports"@) && !("unknown"@ == "exports"@) && !("unknown"@ == "ready"@) && !(
    "unknown"@ == "call"@) && !("unknown"@ == "ok"@) && !("unknown"@ == "err"@) && !("unknown"@
        == "bye"@));
}

/// One frame of the wire: its plane, its code string and its payload bytes.
#[derive(Debug)]
pub struct Message {
    pub message_type: MessageType,
    pub code: String,
    pub data: Vec<u8>,
}

impl Message {
    pub fn is_control(&self) -> (r: bool)
        ensures
            r == (self.message_type is MessageControl),
    {
        matches!(self.message_type, MessageType::MessageControl)
    }

    pub fn is_pipe(&self) -> (r: bool)
        ensures
            r == (self.message_type is MessagePipe),
    {
        matches!(self.message_type, MessageType::MessagePipe)
    }

    pub fn is_prompt(&self) -> (r: bool)
        ensures
            r == (self.message_type is MessagePrompt),
    {
        matches!(self.message_type, MessageType::MessagePrompt)
    }

    /// The decoded control code of this frame.
    pub fn code(&self) -> (r: MessageCode)
        ensures
            r == code_of(self.code@),
    {
        MessageCode::parse(self.code.as_str())
    }

    /// A termination frame: a control frame whose code decodes to `Bye`.
    pub fn is_bye(&self) -> (r: bool)
        ensures
            r == (self.message_type is MessageControl && code_of(self.code@) is Bye),
    {
        self.is_control() && matches!(self.code(), MessageCode::Bye)
    }
}

/// Assembles a frame step by step; every build starts from a control frame
/// with an empty code and no payload.
pub struct MessageBuilder {
    pub message: Message,
}

impl MessageBuilder {
    /// Start from the empty control frame.
    pub fn new() -> (r: Self)
        ensures
            r.message.message_type is MessageControl,
            r.message.code@ == Seq::<char>::empty(),
            r.message.data@ == Seq::<u8>::empty(),
    {
        MessageBuilder {
            message: Message {
                message_type: MessageType::MessageControl,
                code: String::new(),
                data: Vec::new(),
            },
        }
    }

    /// Start from an existing frame, to amend it.
    pub fn from_existing(message: Message) -> (r: Self)
        ensures
            r.message == message,
    {
        MessageBuilder { message }
    }

    /// Set the frame's plane; everything else is kept.
    pub fn message_type(self, message_type: MessageType) -> (r: Self)
        ensures
            r.message.message_type == message_type,
            r.message.code == self.message.code,
            r.message.data == self.message.data,
    {
        let mut message = self.message;
        message.message_type = message_type;
        MessageBuilder { message }
    }

    /// Set the frame's code string; everything else is kept.
    pub fn code(self, code: &str) -> (r: Self)
        ensures
            r.message.message_type == self.message.message_type,
            r.message.code@ == code@,
            r.message.data == self.message.data,
    {
        let mut message = self.message;
        message.code = code.to_owned();
        MessageBuilder { message }
    }

    /// Set the frame's payload bytes; everything else is kept.
    pub fn data(self, data: &[u8]) -> (r: Self)
        ensures
            r.message.message_type == self.message.message_type,
            r.message.code == self.message.code,
            r.message.data@ == data@,
    {
        let mut message = self.message;
        message.data = vstd::slice::slice_to_vec(data);
        MessageBuilder { message }
    }

    /// The assembled frame.
    pub fn build(self) -> (r: Message)
        ensures
            r == self.message,
    {
        self.message
    }

    /// The handshake opener: a control frame coded `hello` with no payload.
    pub fn hello() -> (r: Message)
        ensures
            r.message_type is MessageControl,
            r.code@ == code_str(MessageCode::Hello),
            r.data@ == Seq::<u8>::empty(),
    {
        MessageBuilder::new().code(MessageCode::Hello.as_str()).build()
    }
}

} // verus!
