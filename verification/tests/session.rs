use denounce::bridge::{BridgeAction, PromptEvent, bridge_step, delimiter, setup_line};
use denounce::error::HeosError;
use denounce::session::{Denon, Protocol, SessionAction, port};

#[test]
fn ports_are_fixed() {
    assert_eq!(port(Protocol::Text), 23);
    assert_eq!(port(Protocol::Heos), 1255);
}

#[test]
fn sessions_are_opened_lazily_and_reused() {
    let mut d = Denon::with_host(String::from("192.168.0.209"));
    assert_eq!(d.host, "192.168.0.209");
    // nothing is connected yet: both protocols ask for a connection
    assert_eq!(
        d.ensure_action(Protocol::Text),
        SessionAction::Connect { port: 23 }
    );
    assert_eq!(
        d.ensure_action(Protocol::Heos),
        SessionAction::Connect { port: 1255 }
    );
    // the text session attaches; from then on it is always the same handle
    d.attach(Protocol::Text, 5);
    assert_eq!(
        d.ensure_action(Protocol::Text),
        SessionAction::Use { handle: 5 }
    );
    assert_eq!(
        d.ensure_action(Protocol::Text),
        SessionAction::Use { handle: 5 }
    );
    // the other protocol still has none, and attaching it leaves text alone
    assert_eq!(
        d.ensure_action(Protocol::Heos),
        SessionAction::Connect { port: 1255 }
    );
    d.attach(Protocol::Heos, 8);
    assert_eq!(
        d.ensure_action(Protocol::Text),
        SessionAction::Use { handle: 5 }
    );
    assert_eq!(
        d.ensure_action(Protocol::Heos),
        SessionAction::Use { handle: 8 }
    );
}

#[test]
fn bridge_delimiters_follow_the_protocol() {
    assert_eq!(delimiter(Protocol::Text), b'\r');
    assert_eq!(delimiter(Protocol::Heos), b'\n');
}

#[test]
fn bridge_subscribes_only_in_heos_mode() {
    assert_eq!(
        setup_line(Protocol::Heos, true),
        Some(String::from(
            "heos://system/register_for_change_events?enable=on\n"
        ))
    );
    assert_eq!(setup_line(Protocol::Heos, false), None);
    assert_eq!(setup_line(Protocol::Text, true), None);
    assert_eq!(setup_line(Protocol::Text, false), None);
}

#[test]
fn bridge_forwards_lines_verbatim() {
    match bridge_step(PromptEvent::Line(String::from("heos://x"))) {
        BridgeAction::Send(l) => assert_eq!(l, "heos://x\n"),
        other => panic!("expected a send, got {:?}", other),
    }
}

#[test]
fn bridge_ends_cleanly_on_end_of_input() {
    assert!(matches!(
        bridge_step(PromptEvent::EndOfInput),
        BridgeAction::ExitOk
    ));
    assert!(matches!(
        bridge_step(PromptEvent::Failed),
        BridgeAction::ExitErr
    ));
}

#[test]
fn errors_describe_themselves() {
    assert_eq!(
        HeosError::Connection.describe(),
        "could not connect to the receiver"
    );
    assert_eq!(
        HeosError::Decode.describe(),
        "could not decode the response"
    );
    assert_eq!(
        HeosError::Protocol {
            message: String::from("oops")
        }
        .describe(),
        "command failed: oops"
    );
    assert_eq!(
        HeosError::NotFound.describe(),
        "no players were returned from heos"
    );
}
