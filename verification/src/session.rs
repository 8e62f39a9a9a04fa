//! The handshake state machine of a session.
//!
//! A session opens with the local side sending `hello` and then expects, in
//! strict order, an inbound `hello` acknowledgment, an inbound `send_token`
//! request (answered by sending the bearer token) and an inbound `ok`
//! acknowledgment.  Any deviation from that exact sequence fails the
//! handshake; there is no retry at this layer.  The machine here is pure:
//! the caller performs the sends and receives and feeds each code in.

use vstd::prelude::*;
use crate::proto::{code_of, Message, MessageCode};

verus! {

/// Where a session stands in its handshake.  `Connecting` is before the
/// local `hello` has gone out; each `Await` state names the next code the
/// peer owes us; `Established` is a completed handshake; `HandshakeFailed`
/// is fatal and absorbing.
#[derive(Clone, Copy, PartialEq, Eq, Structural, Debug)]
pub enum HandshakeState {
    Connecting,
    AwaitHello,
    AwaitSendToken,
    AwaitOkay,
    Established,
    HandshakeFailed,
}

/// What the driver must do after a step: nothing, or send the bearer token
/// (in answer to the peer's `send_token` request).
#[derive(Clone, Copy, PartialEq, Eq, Structural, Debug)]
pub enum HandshakeAction {
    DoNothing,
    SendTokenNow,
}

/// The transition relation of the handshake.  The first code fed is the
/// local `hello` going out; after that each fed code is the next inbound
/// message's.  Exactly the sequence `hello, hello, send_token, ok`
/// establishes the session; any other code in any waiting state fails it,
/// and a failed or established machine no longer moves.
pub open spec fn spec_handshake_step(s: HandshakeState, c: MessageCode) -> (
    HandshakeState,
    HandshakeAction,
) {
    match s {
        HandshakeState::Connecting => if c is Hello {
            (HandshakeState::AwaitHello, HandshakeAction::DoNothing)
        } else {
            (HandshakeState::HandshakeFailed, HandshakeAction::DoNothing)
        },
        HandshakeState::AwaitHello => if c is Hello {
            (HandshakeState::AwaitSendToken, HandshakeAction::DoNothing)
        } else {
            (HandshakeState::HandshakeFailed, HandshakeAction::DoNothing)
        },
        HandshakeState::AwaitSendToken => if c is SendToken {
            (HandshakeState::AwaitOkay, HandshakeAction::SendTokenNow)
        } else {
            (HandshakeState::HandshakeFailed, HandshakeAction::DoNothing)
        },
        HandshakeState::AwaitOkay => if c is Okay {
            (HandshakeState::Established, HandshakeAction::DoNothing)
        } else {
            (HandshakeState::HandshakeFailed, HandshakeAction::DoNothing)
        },
        HandshakeState::Established => (HandshakeState::Established, HandshakeAction::DoNothing),
        HandshakeState::HandshakeFailed => (
            HandshakeState::HandshakeFailed,
            HandshakeAction::DoNothing,
        ),
    }
}

/// Feed one code to the machine.
pub fn handshake_step(s: HandshakeState, c: MessageCode) -> (r: (HandshakeState, HandshakeAction))
    ensures
        r == spec_handshake_step(s, c),
{
    match s {
        HandshakeState::Connecting => if matches!(c, MessageCode::Hello) {
            (HandshakeState::AwaitHello, HandshakeAction::DoNothing)
        } else {
            (HandshakeState::HandshakeFailed, HandshakeAction::DoNothing)
        },
        HandshakeState::AwaitHello => if matches!(c, MessageCode::Hello) {
            (HandshakeState::AwaitSendToken, HandshakeAction::DoNothing)
        } else {
            (HandshakeState::HandshakeFailed, HandshakeAction::DoNothing)
        },
        HandshakeState::AwaitSendToken => if matches!(c, MessageCode::SendToken) {
            (HandshakeState::AwaitOkay, HandshakeAction::SendTokenNow)
        } else {
            (HandshakeState::HandshakeFailed, HandshakeAction::DoNothing)
        },
        HandshakeState::AwaitOkay => if matches!(c, MessageCode::Okay) {
            (HandshakeState::Established, HandshakeAction::DoNothing)
        } else {
            (HandshakeState::HandshakeFailed, HandshakeAction::DoNothing)
        },
        HandshakeState::Established => (HandshakeState::Established, HandshakeAction::DoNothing),
        HandshakeState::HandshakeFailed => (
            HandshakeState::HandshakeFailed,
            HandshakeAction::DoNothing,
        ),
    }
}

/// The state after feeding a whole sequence of codes, first element first.
pub open spec fn spec_run_handshake(s: HandshakeState, codes: Seq<MessageCode>) -> HandshakeState
    decreases codes.len(),
{
    if codes.len() == 0 {
        s
    } else {
        spec_run_handshake(spec_handshake_step(s, codes[0]).0, codes.drop_first())
    }
}

/// Feed a whole sequence of codes from the start state.
pub fn run_handshake(codes: &Vec<MessageCode>) -> (r: HandshakeState)
    ensures
        r == spec_run_handshake(HandshakeState::Connecting, codes@),
{
    let mut s = HandshakeState::Connecting;
    let mut i: usize = 0;
    proof {
        assert(codes@.skip(0) =~= codes@);
    }
    while i < codes.len()
        invariant
            0 <= i <= codes@.len(),
            spec_run_handshake(s, codes@.skip(i as int)) == spec_run_handshake(
                HandshakeState::Connecting,
                codes@,
            ),
        decreases codes@.len() - i,
    {
        proof {
            assert(codes@.skip(i as int).drop_first() =~= codes@.skip(i + 1));
        }
        s = handshake_step(s, codes[i]).0;
        i = i + 1;
    }
    proof {
        assert(codes@.skip(codes@.len() as int) =~= Seq::<MessageCode>::empty());
    }
    s
}

/// Feeding exactly `hello, hello, send_token, ok` after opening completes
/// the handshake, and no other four-code sequence does: any reordering or
/// wrong code fails it (the machine never hangs — every step is total).
pub proof fn lemma_handshake_exact_sequence(c0: MessageCode, c1: MessageCode, c2: MessageCode, c3: MessageCode)
    ensures
        spec_run_handshake(HandshakeState::Connecting, seq![c0, c1, c2, c3])
            == HandshakeState::Established <==> (c0 is Hello && c1 is Hello && c2 is SendToken
            && c3 is Okay),
{
    reveal_with_fuel(spec_run_handshake, 5);
    let codes = seq![c0, c1, c2, c3];
    assert(codes.drop_first() =~= seq![c1, c2, c3]);
    assert(seq![c1, c2, c3].drop_first() =~= seq![c2, c3]);
    assert(seq![c2, c3].drop_first() =~= seq![c3]);
    assert(seq![c3].drop_first() =~= Seq::<MessageCode>::empty());
}

/// A deviation is fatal and final: a wrong code in any waiting state moves
/// the machine to `HandshakeFailed`, and from `HandshakeFailed` no code
/// leads anywhere else.
pub proof fn lemma_handshake_deviation_fails(s: HandshakeState, c: MessageCode)
    ensures
        s is Connecting && !(c is Hello) ==> spec_handshake_step(s, c).0 is HandshakeFailed,
        s is AwaitHello && !(c is Hello) ==> spec_handshake_step(s, c).0 is HandshakeFailed,
        s is AwaitSendToken && !(c is SendToken) ==> spec_handshake_step(s, c).0
            is HandshakeFailed,
        s is AwaitOkay && !(c is Okay) ==> spec_handshake_step(s, c).0 is HandshakeFailed,
        s is HandshakeFailed ==> spec_handshake_step(s, c).0 is HandshakeFailed,
{
}

/// Where an inbound frame of an established session is routed: the control
/// plane (session-ready, capability inquiry, remote-call request,
/// termination, or an unhandled control code), or the data planes (pipe
/// traffic for the execution bridge, prompt traffic for the console).  The
/// caller also fans every inbound frame out to all broadcast subscribers,
/// whatever this decides.
#[derive(Clone, Copy, PartialEq, Eq, Structural, Debug)]
pub enum Dispatch {
    ControlReady,
    ControlExports,
    ControlCall,
    Terminate,
    ControlOther,
    PipeData,
    PromptData,
}

pub open spec fn spec_dispatch(m: Message) -> Dispatch {
    if m.message_type is MessageControl {
        match code_of(m.code@) {
            MessageCode::Bye => Dispatch::Terminate,
            MessageCode::Ready => Dispatch::ControlReady,
            MessageCode::Exports => Dispatch::ControlExports,
            MessageCode::SendExports => Dispatch::ControlExports,
            MessageCode::Call => Dispatch::ControlCall,
            _ => Dispatch::ControlOther,
        }
    } else if m.message_type is MessagePipe {
        Dispatch::PipeData
    } else {
        Dispatch::PromptData
    }
}

/// Route one inbound frame of an established session.  A `bye` control
/// frame ends the serve loop (it is not an error); pipe and prompt frames
/// go to whichever local consumer asked for them.
pub fn dispatch_message(m: &Message) -> (r: Dispatch)
    ensures
        r == spec_dispatch(*m),
{
    match m.message_type {
        crate::proto::MessageType::MessageControl => match m.code() {
            MessageCode::Bye => Dispatch::Terminate,
            MessageCode::Ready => Dispatch::ControlReady,
            MessageCode::Exports => Dispatch::ControlExports,
            MessageCode::SendExports => Dispatch::ControlExports,
            MessageCode::Call => Dispatch::ControlCall,
            _ => Dispatch::ControlOther,
        },
        crate::proto::MessageType::MessagePipe => Dispatch::PipeData,
        crate::proto::MessageType::MessagePrompt => Dispatch::PromptData,
    }
}

} // verus!
