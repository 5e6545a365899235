//! The interactive pass-through mode, as a pure decision core.
//!
//! The I/O layer runs the loop: a background reader tails the session up to
//! a protocol-specific delimiter and prints each chunk, while the
//! foreground prompts for lines. This module decides everything that is not
//! I/O: the delimiter, the optional subscription command sent on entry, and
//! what each prompt event means for the loop.

use vstd::prelude::*;
use crate::dispatch::{register_events_line, spec_register_events_line};
use crate::session::Protocol;

verus! {

/// The delimiter up to which the background reader captures device output:
/// carriage return on the text protocol, line feed on the HEOS protocol.
pub open spec fn spec_delimiter(p: Protocol) -> u8 {
    match p {
        Protocol::Text => 0x0d,
        Protocol::Heos => 0x0a,
    }
}

/// The background reader's delimiter for a protocol.
pub fn delimiter(p: Protocol) -> (r: u8)
    ensures
        r == spec_delimiter(p),
{
    match p {
        Protocol::Text => 0x0d,
        Protocol::Heos => 0x0a,
    }
}

/// The line sent once on entry, before the loop starts: only the HEOS mode
/// with the subscribe flag set registers for change events.
pub fn setup_line(p: Protocol, subscribe: bool) -> (r: Option<String>)
    ensures
        (p == Protocol::Heos && subscribe) ==> (r matches Some(l) && l@
            == spec_register_events_line()),
        !(p == Protocol::Heos && subscribe) ==> r is None,
{
    if subscribe {
        match p {
            Protocol::Heos => Some(register_events_line()),
            Protocol::Text => None,
        }
    } else {
        None
    }
}

/// What the foreground prompt produced.
#[derive(Debug)]
pub enum PromptEvent {
    /// A line of user input.
    Line(String),
    /// The prompt reached end-of-input.
    EndOfInput,
    /// The prompt itself failed.
    Failed,
}

/// What the bridge does with a prompt event.
#[derive(Debug)]
pub enum BridgeAction {
    /// Write this line to the session.
    Send(String),
    /// Leave the loop, reporting success.
    ExitOk,
    /// Leave the loop, reporting the prompt failure.
    ExitErr,
}

/// Mathematical model of a prompt event.
pub ghost enum GPromptEvent {
    Line(Seq<char>),
    EndOfInput,
    Failed,
}

/// Mathematical model of a bridge action.
pub ghost enum GBridgeAction {
    Send(Seq<char>),
    ExitOk,
    ExitErr,
}

impl View for PromptEvent {
    type V = GPromptEvent;

    open spec fn view(&self) -> GPromptEvent {
        match self {
            PromptEvent::Line(l) => GPromptEvent::Line(l@),
            PromptEvent::EndOfInput => GPromptEvent::EndOfInput,
            PromptEvent::Failed => GPromptEvent::Failed,
        }
    }
}

impl View for BridgeAction {
    type V = GBridgeAction;

    open spec fn view(&self) -> GBridgeAction {
        match self {
            BridgeAction::Send(l) => GBridgeAction::Send(l@),
            BridgeAction::ExitOk => GBridgeAction::ExitOk,
            BridgeAction::ExitErr => GBridgeAction::ExitErr,
        }
    }
}

/// One step of the foreground loop: a line goes to the session verbatim
/// with a line feed, end-of-input ends the session cleanly, a prompt
/// failure ends it with an error.
pub open spec fn spec_bridge_step(e: GPromptEvent) -> GBridgeAction {
    match e {
        GPromptEvent::Line(l) => GBridgeAction::Send(l + "\n"@),
        GPromptEvent::EndOfInput => GBridgeAction::ExitOk,
        GPromptEvent::Failed => GBridgeAction::ExitErr,
    }
}

/// Decides what one prompt event means for the loop.
pub fn bridge_step(e: PromptEvent) -> (r: BridgeAction)
    ensures
        r@ == spec_bridge_step(e@),
{
    match e {
        PromptEvent::Line(l) => BridgeAction::Send(l.concat("\n")),
        PromptEvent::EndOfInput => BridgeAction::ExitOk,
        PromptEvent::Failed => BridgeAction::ExitErr,
    }
}

/// Law: end-of-input on the foreground prompt ends the session with
/// success. The decision is a function of the prompt event alone, so it
/// holds whatever state the background reader is in.
pub proof fn lemma_bridge_eof_clean()
    ensures
        spec_bridge_step(GPromptEvent::EndOfInput) == GBridgeAction::ExitOk,
{
}

} // verus!