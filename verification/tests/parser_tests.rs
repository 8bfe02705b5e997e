use slackbot::parser::{parse_event, parse_payload, RawEvent};

fn message_event(text: &str) -> RawEvent {
    RawEvent {
        event_type: Some("message".to_owned()),
        text: Some(text.to_owned()),
        user: Some("U123".to_owned()),
        channel: Some("C456".to_owned()),
    }
}

#[test]
fn non_message_event_yields_no_command() {
    let mut event = message_event("!bot echo hi");
    event.event_type = Some("presence_change".to_owned());
    assert!(parse_event("bot", &event).is_none());
}

#[test]
fn missing_type_yields_no_command() {
    let mut event = message_event("!bot echo hi");
    event.event_type = None;
    assert!(parse_event("bot", &event).is_none());
}

#[test]
fn unprefixed_text_yields_no_command() {
    let event = message_event("hello world");
    assert!(parse_event("bot", &event).is_none());
}

#[test]
fn other_prefix_yields_no_command() {
    let event = message_event("!elsewhere echo hi");
    assert!(parse_event("bot", &event).is_none());
}

#[test]
fn missing_text_yields_no_command() {
    let mut event = message_event("!bot echo hi");
    event.text = None;
    assert!(parse_event("bot", &event).is_none());
}

#[test]
fn missing_user_yields_no_command() {
    let mut event = message_event("!bot echo hi");
    event.user = None;
    assert!(parse_event("bot", &event).is_none());
}

#[test]
fn missing_channel_yields_no_command() {
    let mut event = message_event("!bot echo hi");
    event.channel = None;
    assert!(parse_event("bot", &event).is_none());
}

#[test]
fn empty_user_yields_no_command() {
    let mut event = message_event("!bot echo hi");
    event.user = Some(String::new());
    assert!(parse_event("bot", &event).is_none());
}

#[test]
fn empty_channel_yields_no_command() {
    let mut event = message_event("!bot echo hi");
    event.channel = Some(String::new());
    assert!(parse_event("bot", &event).is_none());
}

#[test]
fn empty_user_in_payload_yields_no_command() {
    let raw = "{\"type\":\"message\",\"text\":\"!bot ping\",\"user\":\"\",\"channel\":\"C7\"}";
    assert!(parse_payload("bot", raw).is_none());
}

#[test]
fn prefix_only_defaults_to_help() {
    let event = message_event("!bot");
    let command = parse_event("bot", &event).unwrap();
    assert_eq!(command.name, "help");
    assert!(command.args.is_empty());
    assert_eq!(command.user_id, "U123");
    assert_eq!(command.channel_id, "C456");
}

#[test]
fn echo_command_with_args() {
    let event = message_event("!bot echo hello world");
    let command = parse_event("bot", &event).unwrap();
    assert_eq!(command.name, "echo");
    assert_eq!(command.args, vec!["hello".to_owned(), "world".to_owned()]);
    assert_eq!(command.user_id, "U123");
    assert_eq!(command.channel_id, "C456");
}

#[test]
fn runs_of_whitespace_are_single_separators() {
    let event = message_event("!bot   echo \t one\n  two  ");
    let command = parse_event("bot", &event).unwrap();
    assert_eq!(command.name, "echo");
    assert_eq!(command.args, vec!["one".to_owned(), "two".to_owned()]);
}

#[test]
fn unicode_whitespace_separates_tokens() {
    let event = message_event("!bot\u{00A0}echo one\u{2003}two");
    let command = parse_event("bot", &event).unwrap();
    assert_eq!(command.name, "echo");
    assert_eq!(command.args, vec!["one".to_owned(), "two".to_owned()]);
}

#[test]
fn prefix_match_has_no_word_boundary() {
    // A bot named "bot" also matches text beginning "!bots": the first
    // whitespace token is skipped whatever it is, so "x" names the command.
    let event = message_event("!bots x");
    let command = parse_event("bot", &event).unwrap();
    assert_eq!(command.name, "x");
    assert!(command.args.is_empty());
}

#[test]
fn command_name_is_case_sensitive_as_received() {
    let event = message_event("!bot Echo hi");
    let command = parse_event("bot", &event).unwrap();
    assert_eq!(command.name, "Echo");
}

#[test]
fn parsing_twice_yields_equal_commands() {
    let event = message_event("!bot echo once more");
    let first = parse_event("bot", &event).unwrap();
    let second = parse_event("bot", &event).unwrap();
    assert_eq!(first.name, second.name);
    assert_eq!(first.args, second.args);
    assert_eq!(first.user_id, second.user_id);
    assert_eq!(first.channel_id, second.channel_id);
}

#[test]
fn json_payload_parses_to_command() {
    let raw = "{\"type\":\"message\",\"text\":\"!bot ping now\",\"user\":\"U9\",\"channel\":\"C7\"}";
    let command = parse_payload("bot", raw).unwrap();
    assert_eq!(command.name, "ping");
    assert_eq!(command.args, vec!["now".to_owned()]);
    assert_eq!(command.user_id, "U9");
    assert_eq!(command.channel_id, "C7");
}

#[test]
fn json_payload_parsed_twice_yields_equal_commands() {
    let raw = "{\"type\":\"message\",\"text\":\"!bot ping\",\"user\":\"U9\",\"channel\":\"C7\"}";
    let first = parse_payload("bot", raw).unwrap();
    let second = parse_payload("bot", raw).unwrap();
    assert_eq!(first.name, second.name);
    assert_eq!(first.args, second.args);
    assert_eq!(first.user_id, second.user_id);
    assert_eq!(first.channel_id, second.channel_id);
}

#[test]
fn invalid_json_yields_no_command() {
    assert!(parse_payload("bot", "{not json").is_none());
}

#[test]
fn non_object_json_yields_no_command() {
    assert!(parse_payload("bot", "42").is_none());
}

#[test]
fn non_string_fields_yield_no_command() {
    let raw = "{\"type\":\"message\",\"text\":7,\"user\":\"U9\",\"channel\":\"C7\"}";
    assert!(parse_payload("bot", raw).is_none());
}
