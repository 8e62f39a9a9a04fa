//! The slot execution bridge: per task instance, a table of pending and
//! completed units of remote-issued work.
//!
//! The caller drives a pipelined poll/run/report loop: `poll_flush` turns a
//! previously completed slot into the outbound result frame and retires the
//! slot, `poll_accept` files the next inbound frame as a fresh slot,
//! `pending_source` hands the caller the source text to evaluate, and
//! `complete` records the evaluator's result.  The evaluator itself and all
//! sends and receives stay with the caller.

use vstd::prelude::*;
use vstd::string::{StrSliceExecFns, StringExecFns, StringSliceAdditionalSpecFns};
use vstd::utf8::encode_utf8;
use crate::proto::{code_of, Message, MessageBuilder, MessageType};

verus! {

/// The numeric name of one unit of work; monotonically increasing within an
/// instance and never reused.
pub type SlotId = u64;

/// One pending or completed unit of remote-issued work: either source text
/// waiting to be evaluated, or the evaluator's result (as JSON text).
#[derive(Debug)]
pub enum Slot {
    AwaitingExecution(String),
    Completed(String),
}

/// The mathematical shadow of a `Slot`: the same two states over character
/// sequences.
pub ghost enum SlotModel {
    Awaiting(Seq<char>),
    Done(Seq<char>),
}

impl Slot {
    pub open spec fn model(self) -> SlotModel {
        match self {
            Slot::AwaitingExecution(s) => SlotModel::Awaiting(s@),
            Slot::Completed(v) => SlotModel::Done(v@),
        }
    }
}

/// Why an inbound frame could not be filed as a slot.
#[derive(Clone, Copy, PartialEq, Eq, Structural, Debug)]
pub enum InstanceError {
    MalformedPayload,
}

/// What the payload of an evaluation request decodes to: the `source_code`
/// field of its JSON object, if the payload is such an object.  The decoding
/// is a function of the bytes alone.
pub uninterp spec fn eval_source_of(data: Seq<u8>) -> Option<Seq<char>>;

/// The payload of an evaluation request: source text for the evaluator.
pub struct EvaluateScriptMessage {
    pub source_code: String,
}

/// Relies on `serde_json::from_slice` to parse the payload as a JSON object,
/// and on `serde_json::Value::get` / `Value::as_str` to read its
/// `source_code` string field; parsing a byte sequence is a function of the
/// bytes alone, here named `eval_source_of`.
#[verifier::external_body]
pub(crate) fn decode_eval_script(data: &[u8]) -> (r: Option<EvaluateScriptMessage>)
    ensures
        match r {
            Some(m) => eval_source_of(data@) == Some(m.source_code@),
            None => eval_source_of(data@) is None,
        },
{
    let value: serde_json::Value = serde_json::from_slice(data).ok()?;
    let source_code = value.get("source_code")?.as_str()?.to_string();
    Some(EvaluateScriptMessage { source_code })
}

/// The hexadecimal digit (lower case) for `n`, as an ASCII byte.
pub open spec fn hex_digit_byte(n: int) -> u8 {
    if n < 10 {
        (0x30 + n) as u8
    } else {
        (0x57 + n) as u8
    }
}

fn hex_digit(n: u8) -> (r: u8)
    requires
        n < 16,
    ensures
        r == hex_digit_byte(n as int),
{
    if n < 10 {
        0x30 + n
    } else {
        0x57 + n
    }
}

/// How one byte of a string is written inside a JSON string literal: quote,
/// backslash and the common control characters get two-character escapes,
/// the remaining control bytes get a `\u00..` escape, and every other byte
/// (including every byte of a multi-byte UTF-8 character) stands as itself.
pub open spec fn json_escape_byte(b: u8) -> Seq<u8> {
    if b == 0x22 {
        seq![0x5cu8, 0x22u8]
    } else if b == 0x5c {
        seq![0x5cu8, 0x5cu8]
    } else if b == 0x0a {
        seq![0x5cu8, 0x6eu8]
    } else if b == 0x0d {
        seq![0x5cu8, 0x72u8]
    } else if b == 0x09 {
        seq![0x5cu8, 0x74u8]
    } else if b < 0x20 {
        seq![0x5cu8, 0x75u8, 0x30u8, 0x30u8, hex_digit_byte(b as int / 16), hex_digit_byte(
            b as int % 16,
        )]
    } else {
        seq![b]
    }
}

/// The JSON string-literal escaping of a whole byte sequence.
pub open spec fn json_escape_bytes(s: Seq<u8>) -> Seq<u8>
    decreases s.len(),
{
    if s.len() == 0 {
        seq![]
    } else {
        json_escape_byte(s[0]) + json_escape_bytes(s.drop_first())
    }
}

/// Escaping distributes over concatenation.
pub proof fn lemma_json_escape_bytes_append(a: Seq<u8>, b: Seq<u8>)
    ensures
        json_escape_bytes(a + b) == json_escape_bytes(a) + json_escape_bytes(b),
    decreases a.len(),
{
    if a.len() == 0 {
        assert(a + b =~= b);
        assert(json_escape_bytes(a) + json_escape_bytes(b) =~= json_escape_bytes(b));
    } else {
        assert((a + b).drop_first() =~= a.drop_first() + b);
        lemma_json_escape_bytes_append(a.drop_first(), b);
        assert(json_escape_byte(a[0]) + (json_escape_bytes(a.drop_first()) + json_escape_bytes(b))
            =~= (json_escape_byte(a[0]) + json_escape_bytes(a.drop_first())) + json_escape_bytes(
            b,
        ));
        assert((a + b)[0] == a[0]);
    }
}

/// Escape the bytes of a string for splicing into a JSON string literal.
pub fn json_escape(s: &str) -> (r: Vec<u8>)
    ensures
        r@ == json_escape_bytes(s.spec_bytes()),
{
    let bytes = s.as_bytes_vec();
    let mut out: Vec<u8> = Vec::new();
    let mut i: usize = 0;
    proof {
        assert(bytes@.take(0) =~= Seq::<u8>::empty());
    }
    while i < bytes.len()
        invariant
            0 <= i <= bytes@.len(),
            out@ == json_escape_bytes(bytes@.take(i as int)),
        decreases bytes@.len() - i,
    {
        let b = bytes[i];
        let ghost out0 = out@;
        if b == 0x22 {
            out.push(0x5c);
            out.push(0x22);
        } else if b == 0x5c {
            out.push(0x5c);
            out.push(0x5c);
        } else if b == 0x0a {
            out.push(0x5c);
            out.push(0x6e);
        } else if b == 0x0d {
            out.push(0x5c);
            out.push(0x72);
        } else if b == 0x09 {
            out.push(0x5c);
            out.push(0x74);
        } else if b < 0x20 {
            out.push(0x5c);
            out.push(0x75);
            out.push(0x30);
            out.push(0x30);
            out.push(hex_digit(b / 16));
            out.push(hex_digit(b % 16));
        } else {
            out.push(b);
        }
        proof {
            assert(out@ =~= out0 + json_escape_byte(b));
            assert(bytes@.take(i + 1) =~= bytes@.take(i as int) + seq![bytes@[i as int]]);
            lemma_json_escape_bytes_append(bytes@.take(i as int), seq![bytes@[i as int]]);
            assert(seq![bytes@[i as int]].drop_first() =~= Seq::<u8>::empty());
            assert(json_escape_bytes(Seq::<u8>::empty()) =~= Seq::<u8>::empty());
            assert(json_escape_bytes(seq![bytes@[i as int]]) == json_escape_byte(bytes@[i as int])
                + json_escape_bytes(Seq::<u8>::empty()));
            assert(json_escape_byte(bytes@[i as int]) + Seq::<u8>::empty() =~= json_escape_byte(
                bytes@[i as int],
            ));
        }
        i = i + 1;
    }
    proof {
        assert(bytes@.take(bytes@.len() as int) =~= bytes@);
    }
    out
}

/// The announcement of a task to the peer: name, description and the
/// rendered context document.
pub struct NewInstanceMessage {
    pub task_name: String,
    pub task_description: String,
    pub task_context: String,
}

/// The JSON object announcing a task, over the UTF-8 bytes of its three
/// fields.
pub open spec fn announce_payload(name: Seq<u8>, description: Seq<u8>, context: Seq<u8>) -> Seq<
    u8,
> {
    encode_utf8("{\"task_name\":\""@) + json_escape_bytes(name) + encode_utf8(
        "\",\"task_description\":\""@,
    ) + json_escape_bytes(description) + encode_utf8("\",\"task_context\":\""@) + json_escape_bytes(
        context,
    ) + encode_utf8("\"}"@)
}

/// The control frame that announces a task: code `task`, payload the JSON
/// object of the announcement.
pub fn announce_message(msg: &NewInstanceMessage) -> (r: Message)
    ensures
        r.message_type is MessageControl,
        r.code@ == "task"@,
        r.data@ == announce_payload(
            encode_utf8(msg.task_name@),
            encode_utf8(msg.task_description@),
            encode_utf8(msg.task_context@),
        ),
{
    let mut data: Vec<u8> = ("{\"task_name\":\"").as_bytes_vec();
    let mut piece = json_escape(msg.task_name.as_str());
    data.append(&mut piece);
    let mut piece = ("\",\"task_description\":\"").as_bytes_vec();
    data.append(&mut piece);
    let mut piece = json_escape(msg.task_description.as_str());
    data.append(&mut piece);
    let mut piece = ("\",\"task_context\":\"").as_bytes_vec();
    data.append(&mut piece);
    let mut piece = json_escape(msg.task_context.as_str());
    data.append(&mut piece);
    let mut piece = ("\"}").as_bytes_vec();
    data.append(&mut piece);
    MessageBuilder::new().code("task").data(data.as_slice()).build()
}

/// The result frame for a completed slot: the JSON object `{"json_value":v}`
/// over the value's own JSON text `v`.
pub open spec fn json_value_payload(v: Seq<char>) -> Seq<char> {
    "{\"json_value\":"@ + v + "}"@
}

/// A task's live execution state: the table of pending and completed slots
/// and the next slot id to hand out.  Slot ids in the table are unique and
/// all below `next_slot`, so a fresh id can never collide with a live one.
pub struct Instance {
    pub slots: Vec<(SlotId, Slot)>,
    pub next_slot: SlotId,
}

impl Instance {
    /// The slot table as a mathematical sequence of (id, state) pairs.
    pub open spec fn table(self) -> Seq<(SlotId, SlotModel)> {
        self.slots@.map_values(|p: (SlotId, Slot)| (p.0, p.1.model()))
    }

    /// Well-formedness: ids unique, and all below the counter.
    pub open spec fn wf(self) -> bool {
        &&& forall|i: int, j: int|
            0 <= i < j < self.slots@.len() ==> (#[trigger] self.slots@[i]).0 != (
            #[trigger] self.slots@[j]).0
        &&& forall|i: int|
            0 <= i < self.slots@.len() ==> (#[trigger] self.slots@[i]).0 < self.next_slot
    }

    pub open spec fn has_slot(self, id: SlotId) -> bool {
        exists|i: int| 0 <= i < self.slots@.len() && (#[trigger] self.slots@[i]).0 == id
    }

    pub open spec fn spec_index_of(self, id: SlotId) -> int {
        choose|i: int| 0 <= i < self.slots@.len() && (#[trigger] self.slots@[i]).0 == id
    }

    /// The state of the slot named `id` (meaningful when `has_slot`).
    pub open spec fn slot_model(self, id: SlotId) -> SlotModel {
        self.slots@[self.spec_index_of(id)].1.model()
    }

    /// A fresh instance: empty table, ids starting at zero.
    pub fn new() -> (r: Instance)
        ensures
            r.wf(),
            r.slots@.len() == 0,
            r.next_slot == 0,
    {
        Instance { slots: Vec::new(), next_slot: 0 }
    }

    /// Where the slot named `id` sits in the table.
    fn find_index(&self, id: SlotId) -> (r: Option<usize>)
        requires
            self.wf(),
        ensures
            match r {
                Some(i) => self.has_slot(id) && 0 <= i < self.slots@.len() && self.slots@[
                    i as int
                ].0 == id && i as int == self.spec_index_of(id),
                None => !self.has_slot(id),
            },
    {
        let mut i: usize = 0;
        while i < self.slots.len()
            invariant
                0 <= i <= self.slots@.len(),
                self.wf(),
                forall|j: int| 0 <= j < i ==> (#[trigger] self.slots@[j]).0 != id,
            decreases self.slots@.len() - i,
        {
            if self.slots[i].0 == id {
                proof {
                    let w = self.spec_index_of(id);
                    assert(0 <= w < self.slots@.len() && self.slots@[w].0 == id);
                    assert(w == i as int);
                }
                return Some(i);
            }
            i = i + 1;
        }
        None
    }

    /// Flush the previously polled slot: if it is completed, produce the
    /// pipe frame carrying its value and retire the slot; a slot still
    /// awaiting execution, an unknown id, or no id at all changes nothing.
    pub fn poll_flush(&mut self, prev: Option<SlotId>) -> (r: Option<Message>)
        requires
            old(self).wf(),
        ensures
            final(self).wf(),
            final(self).next_slot == old(self).next_slot,
            match prev {
                None => r is None && *final(self) == *old(self),
                Some(id) => {
                    if old(self).has_slot(id) && old(self).slot_model(id) is Done {
                        &&& r is Some
                        &&& r->0.message_type is MessagePipe
                        &&& code_of(r->0.code@) is Okay
                        &&& r->0.data@ == encode_utf8(
                            json_value_payload(old(self).slot_model(id)->Done_0),
                        )
                        &&& final(self).table() == old(self).table().remove(
                            old(self).spec_index_of(id),
                        )
                    } else {
                        r is None && *final(self) == *old(self)
                    }
                },
            },
    {
        let id = match prev {
            None => {
                return None;
            },
            Some(id) => id,
        };
        let idx = match self.find_index(id) {
            None => {
                return None;
            },
            Some(idx) => idx,
        };
        let is_done = matches!(self.slots[idx].1, Slot::Completed(_));
        if !is_done {
            return None;
        }
        let ghost pre = *self;
        let (_, slot) = self.slots.remove(idx);
        let value = match slot {
            Slot::Completed(value) => value,
            Slot::AwaitingExecution(_) => {
                proof {
                    assert(false);
                }
                String::new()
            },
        };
        proof {
            assert(final(self).table() =~= pre.table().remove(pre.spec_index_of(id)));
        }
        proof {
            reveal_strlit("hello");
            reveal_strlit("send_token");
            reveal_strlit("send_exports");
            reveal_strlit("exports");
            reveal_strlit("ready");
            reveal_strlit("call");
            reveal_strlit("ok");
            assert("ok"@.len() == 2);
            assert("hello"@.len() == 5);
            assert("send_token"@.len() == 10);
            assert("send_exports"@.len() == 12);
            assert("exports"@.len() == 7);
            assert("ready"@.len() == 5);
            assert("call"@.len() == 4);
            assert(code_of("ok"@) is Okay);
        }
        let mut payload = String::from_str("{\"json_value\":");
        payload.append(value.as_str());
        payload.append("}");
        let data = payload.as_str().as_bytes_vec();
        Some(
            MessageBuilder::new().message_type(MessageType::MessagePipe).code("ok").data(
                data.as_slice(),
            ).build(),
        )
    }

    /// File an inbound frame: a termination frame yields no further slot; a
    /// well-formed evaluation request is stored as a fresh slot awaiting
    /// execution, under the next unused id; a payload that does not decode
    /// is an error and changes nothing.
    pub fn poll_accept(&mut self, message: &Message) -> (r: Result<
        Option<SlotId>,
        InstanceError,
    >)
        requires
            old(self).wf(),
            old(self).next_slot < SlotId::MAX,
        ensures
            final(self).wf(),
            ({
                if message.message_type is MessageControl && code_of(message.code@) is Bye {
                    r == Ok::<Option<SlotId>, InstanceError>(None) && *final(self) == *old(self)
                } else {
                    match eval_source_of(message.data@) {
                        Some(src) => {
                            &&& r == Ok::<Option<SlotId>, InstanceError>(
                                Some(old(self).next_slot),
                            )
                            &&& final(self).next_slot == old(self).next_slot + 1
                            &&& final(self).table() == old(self).table().push(
                                (old(self).next_slot, SlotModel::Awaiting(src)),
                            )
                        },
                        None => {
                            r == Err::<Option<SlotId>, InstanceError>(
                                InstanceError::MalformedPayload,
                            ) && *final(self) == *old(self)
                        },
                    }
                }
            }),
    {
        if message.is_bye() {
            return Ok(None);
        }
        let script = match decode_eval_script(message.data.as_slice()) {
            None => {
                return Err(InstanceError::MalformedPayload);
            },
            Some(script) => script,
        };
        let ghost pre = *self;
        let id = self.next_slot;
        self.slots.push((id, Slot::AwaitingExecution(script.source_code)));
        self.next_slot = id + 1;
        proof {
            assert(final(self).table() =~= pre.table().push(
                (pre.next_slot, SlotModel::Awaiting(eval_source_of(message.data@)->Some_0)),
            ));
        }
        Ok(Some(id))
    }

    /// The source text the caller must evaluate for this slot, if the slot
    /// is awaiting execution.
    pub fn pending_source(&self, slot_id: SlotId) -> (r: Option<String>)
        requires
            self.wf(),
        ensures
            match r {
                Some(s) => self.has_slot(slot_id) && self.slot_model(slot_id)
                    == SlotModel::Awaiting(s@),
                None => !self.has_slot(slot_id) || self.slot_model(slot_id) is Done,
            },
    {
        let idx = match self.find_index(slot_id) {
            None => {
                return None;
            },
            Some(idx) => idx,
        };
        match &self.slots[idx].1 {
            Slot::AwaitingExecution(s) => Some(s.clone()),
            Slot::Completed(_) => None,
        }
    }

    /// Record the evaluator's result: a slot awaiting execution becomes
    /// completed with the given value; a slot already completed is left as
    /// it is (running it again is a no-op).
    pub fn complete(&mut self, slot_id: SlotId, value: &str) -> (r: bool)
        requires
            old(self).wf(),
            old(self).has_slot(slot_id),
        ensures
            final(self).wf(),
            final(self).next_slot == old(self).next_slot,
            ({
                if old(self).slot_model(slot_id) is Awaiting {
                    r && final(self).table() == old(self).table().update(
                        old(self).spec_index_of(slot_id),
                        (slot_id, SlotModel::Done(value@)),
                    )
                } else {
                    !r && *final(self) == *old(self)
                }
            }),
    {
        let idx = match self.find_index(slot_id) {
            None => {
                proof {
                    assert(false);
                }
                return false;
            },
            Some(idx) => idx,
        };
        let is_awaiting = matches!(self.slots[idx].1, Slot::AwaitingExecution(_));
        if !is_awaiting {
            return false;
        }
        let ghost pre = *self;
        self.slots.set(idx, (slot_id, Slot::Completed(value.to_owned())));
        proof {
            assert(final(self).table() =~= pre.table().update(
                pre.spec_index_of(slot_id),
                (slot_id, SlotModel::Done(value@)),
            ));
        }
        true
    }
}

/// Slot ids are never reused: in a well-formed instance every live slot id
/// lies below `next_slot`, and `poll_accept` hands out exactly `next_slot`
/// before raising it, so an id handed out later is greater than every id
/// handed out or still live earlier.
pub proof fn lemma_fresh_slot_id(inst: Instance, id: SlotId)
    requires
        inst.wf(),
        id >= inst.next_slot,
    ensures
        !inst.has_slot(id),
{
}

} // verus!
