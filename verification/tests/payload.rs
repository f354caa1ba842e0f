use shard_core::forward::{parse, ParseError};
use shard_core::worker::{decode, step, Command, DecodeError, Signal, State};
use twilight_model::gateway::event::Event;

const ROLE_DELETE: &str =
    r#"{"t":"GUILD_ROLE_DELETE","s":7,"op":0,"d":{"guild_id":"1","role_id":"2"}}"#;

#[test]
fn a_relayed_payload_is_parsed() {
    match parse(ROLE_DELETE) {
        Ok(Some(Event::RoleDelete(role))) => {
            assert_eq!(role.guild_id.get(), 1);
            assert_eq!(role.role_id.get(), 2);
        }
        other => panic!("{other:?}"),
    }
}

#[test]
fn a_payload_of_another_event_type_is_skipped_unread() {
    let typing = r#"{"t":"TYPING_START","s":8,"op":0,"d":"not even an object"}"#;
    assert!(matches!(parse(typing), Ok(None)));
    let heartbeat = r#"{"op":1,"d":null}"#;
    assert!(matches!(parse(heartbeat), Ok(None)));
    let hello = r#"{"t":null,"s":null,"op":10,"d":{"heartbeat_interval":41250}}"#;
    assert!(matches!(parse(hello), Ok(None)));
}

#[test]
fn a_payload_without_opcode_is_refused() {
    assert!(matches!(parse(r#"{"t":"GUILD_ROLE_DELETE","d":{}}"#), Err(ParseError::MissingOpcode)));
    assert!(matches!(parse(""), Err(ParseError::MissingOpcode)));
    assert!(matches!(parse(r#"{"op":"zero"}"#), Err(ParseError::MissingOpcode)));
}

#[test]
fn a_payload_with_an_unknown_opcode_is_refused() {
    assert!(matches!(
        parse(r#"{"t":"GUILD_ROLE_DELETE","s":1,"op":5,"d":{}}"#),
        Err(ParseError::UnknownOpcode)
    ));
    assert!(matches!(parse(r#"{"op":12,"d":null}"#), Err(ParseError::UnknownOpcode)));
    assert!(matches!(parse(r#"{"op":255,"d":null}"#), Err(ParseError::UnknownOpcode)));
}

#[test]
fn a_payload_without_event_type_is_refused() {
    assert!(matches!(parse(r#"{"op":0,"s":1,"d":{}}"#), Err(ParseError::MissingEventType)));
    assert!(matches!(
        parse(r#"{"t":"NO_SUCH_EVENT","s":1,"op":0,"d":{}}"#),
        Err(ParseError::MissingEventType)
    ));
    assert!(matches!(parse(r#"{"t":null,"op":2,"d":{}}"#), Err(ParseError::MissingEventType)));
}

#[test]
fn a_relayed_payload_that_does_not_deserialize_is_malformed() {
    let broken = r#"{"t":"GUILD_ROLE_DELETE","s":7,"op":0,"d":{"guild_id":"1"}}"#;
    assert!(matches!(parse(broken), Err(ParseError::Malformed(_))));
    let cut = r#"{"t":"GUILD_ROLE_DELETE","s":7,"op":0,"d":{"guild_id":"1","role_id":"2"}"#;
    assert!(matches!(parse(cut), Err(ParseError::Malformed(_))));
}

#[test]
fn the_worker_decodes_what_was_relayed() {
    match decode(ROLE_DELETE) {
        Ok(Event::RoleDelete(role)) => assert_eq!(role.role_id.get(), 2),
        other => panic!("{other:?}"),
    }
}

#[test]
fn the_worker_tells_unrecognized_from_malformed() {
    assert!(matches!(decode("hello"), Err(DecodeError::Unrecognized)));
    assert!(matches!(decode(r#"{"t":"GUILD_ROLE_DELETE"}"#), Err(DecodeError::Unrecognized)));
    let broken = r#"{"t":"GUILD_ROLE_DELETE","s":7,"op":0,"d":{"guild_id":"1"}}"#;
    assert!(matches!(decode(broken), Err(DecodeError::Malformed(_))));
    assert!(matches!(decode(r#"{"op":2,"d":{}}"#), Err(DecodeError::Malformed(_))));
}

#[test]
fn the_worker_decodes_event_types_that_the_gateway_would_not_relay() {
    let heartbeat = r#"{"t":null,"s":null,"op":1,"d":null}"#;
    assert!(matches!(decode(heartbeat), Ok(Event::GatewayHeartbeat)));
}

#[test]
fn the_worker_tells_the_gateway_once_and_handles_until_the_end() {
    assert!(!State::Active.is_shutdown());
    assert!(State::Shutdown.is_shutdown());
    assert_eq!(step(State::Active, Signal::Shutdown), (State::Shutdown, Command::Close));
    assert_eq!(step(State::Shutdown, Signal::Shutdown), (State::Shutdown, Command::Idle));
    for state in [State::Active, State::Shutdown] {
        assert_eq!(step(state, Signal::Text), (state, Command::Handle));
        assert_eq!(step(state, Signal::Other), (state, Command::Idle));
        assert_eq!(step(state, Signal::ReceiveError), (state, Command::Report));
        assert_eq!(step(state, Signal::StreamEnded), (state, Command::Finish));
    }
}
