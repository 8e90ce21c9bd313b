use relay_hub::protocol::{
    encode_envelope, parse_client_command, prefixed_channel, session_action, SessionAction,
};
use relay_hub::relay::RedisMessage;

fn msg(channel: &str, data: &str) -> RedisMessage {
    RedisMessage::new(channel.to_string(), data.to_string())
}

#[test]
fn parses_subscribe_command() {
    let cmd = parse_client_command("{\"type\":\"SUBSCRIBE\",\"channel\":\"job:42\"}").unwrap();
    assert_eq!(cmd.command_type, "SUBSCRIBE");
    assert_eq!(cmd.channel, Some("job:42".to_string()));
}

#[test]
fn parses_with_whitespace_and_any_member_order() {
    let cmd =
        parse_client_command(" {\n\t\"channel\" : \"job:7\" ,  \"type\" : \"SUBSCRIBE\" }\r\n")
            .unwrap();
    assert_eq!(cmd.command_type, "SUBSCRIBE");
    assert_eq!(cmd.channel, Some("job:7".to_string()));
}

#[test]
fn parses_unsubscribe_without_channel() {
    let cmd = parse_client_command("{\"type\":\"UNSUBSCRIBE\"}").unwrap();
    assert_eq!(cmd.command_type, "UNSUBSCRIBE");
    assert_eq!(cmd.channel, None);
}

#[test]
fn extra_string_members_are_tolerated() {
    let cmd = parse_client_command(
        "{\"id\":\"77\",\"type\":\"SUBSCRIBE\",\"channel\":\"job:1\",\"note\":\"\"}",
    )
    .unwrap();
    assert_eq!(cmd.command_type, "SUBSCRIBE");
    assert_eq!(cmd.channel, Some("job:1".to_string()));
}

#[test]
fn extra_members_of_any_value_kind_are_tolerated() {
    let cmd = parse_client_command(
        "{\"id\":7,\"type\":\"SUBSCRIBE\",\"flags\":[true,null,-1.5e3],\"channel\":\"job:9\",\"meta\":{\"a\":{\"b\":[[]]}}}",
    )
    .unwrap();
    assert_eq!(cmd.command_type, "SUBSCRIBE");
    assert_eq!(cmd.channel, Some("job:9".to_string()));
    // repeated unknown keys are tolerated too, as their values are never read
    let cmd = parse_client_command("{\"x\":\"1\",\"x\":2,\"type\":\"UNSUBSCRIBE\"}").unwrap();
    assert_eq!(cmd.command_type, "UNSUBSCRIBE");
    assert_eq!(cmd.channel, None);
}

#[test]
fn type_and_channel_must_be_strings_and_unrepeated() {
    // a non-string channel is not a command
    assert!(parse_client_command("{\"type\":\"SUBSCRIBE\",\"channel\":5}").is_none());
    // a repeated channel member is ambiguous and rejected
    assert!(
        parse_client_command("{\"type\":\"S\",\"channel\":\"a\",\"channel\":\"b\"}").is_none()
    );
    // skipped values must still be well-formed JSON
    assert!(parse_client_command("{\"type\":\"S\",\"n\":--3}").is_none());
    assert!(parse_client_command("{\"type\":\"S\",\"n\":[1,}").is_none());
    assert!(parse_client_command("{\"type\":\"S\",\"n\":truth}").is_none());
    assert!(parse_client_command("{\"type\":\"S\",\"n\":007}").is_none());
}

#[test]
fn string_escapes_are_decoded() {
    let cmd =
        parse_client_command("{\"type\":\"SUBSCRIBE\",\"channel\":\"a\\\"b\\\\c\\n\\t\\/\"}")
            .unwrap();
    assert_eq!(cmd.channel, Some("a\"b\\c\n\t/".to_string()));
}

#[test]
fn malformed_frames_are_rejected() {
    assert!(parse_client_command("").is_none());
    assert!(parse_client_command("SUBSCRIBE job:42").is_none());
    assert!(parse_client_command("{\"type\":\"SUBSCRIBE\"").is_none());
    assert!(parse_client_command("{\"type\":\"SUBSCRIBE\",}").is_none());
    assert!(parse_client_command("{\"type\":42,\"channel\":\"x\"}").is_none());
    assert!(parse_client_command("{\"type\":\"S\"} trailing").is_none());
    assert!(parse_client_command("[\"type\",\"SUBSCRIBE\"]").is_none());
    // a frame without a type member is not a command
    assert!(parse_client_command("{\"channel\":\"job:42\"}").is_none());
    // a repeated type member is ambiguous and rejected
    assert!(parse_client_command("{\"type\":\"A\",\"type\":\"B\"}").is_none());
    // unicode escapes are not part of this protocol's format
    assert!(parse_client_command("{\"type\":\"SUBSCRIBE\",\"channel\":\"\\u0041\"}").is_none());
    // unescaped control characters are rejected
    assert!(parse_client_command("{\"type\":\"SUB\nSCRIBE\"}").is_none());
}

#[test]
fn session_action_subscribes_with_prefix() {
    assert_eq!(
        session_action("{\"type\":\"SUBSCRIBE\",\"channel\":\"job:42\"}"),
        SessionAction::Subscribe("ws_channel:job:42".to_string())
    );
}

#[test]
fn session_action_unsubscribes() {
    assert_eq!(session_action("{\"type\":\"UNSUBSCRIBE\"}"), SessionAction::Unsubscribe);
    // a channel member is tolerated and ignored
    assert_eq!(
        session_action("{\"type\":\"UNSUBSCRIBE\",\"channel\":\"job:1\"}"),
        SessionAction::Unsubscribe
    );
}

#[test]
fn session_action_ignores_unknown_and_malformed() {
    assert_eq!(session_action("{\"type\":\"PING\",\"channel\":\"x\"}"), SessionAction::Ignore);
    assert_eq!(session_action("{\"type\":\"SUBSCRIBE\"}"), SessionAction::Ignore);
    assert_eq!(session_action("not json"), SessionAction::Ignore);
    // command types are case-sensitive
    assert_eq!(
        session_action("{\"type\":\"subscribe\",\"channel\":\"x\"}"),
        SessionAction::Ignore
    );
}

#[test]
fn prefixed_channel_prepends_the_bus_namespace() {
    assert_eq!(prefixed_channel("job:42"), "ws_channel:job:42");
    assert_eq!(prefixed_channel(""), "ws_channel:");
}

#[test]
fn encode_envelope_exact_text() {
    let t = encode_envelope(&msg("ws_channel:job:42", "{\"status\":\"done\"}"));
    assert_eq!(t, "{\"channel\":\"ws_channel:job:42\",\"data\":\"{\\\"status\\\":\\\"done\\\"}\"}");
}

#[test]
fn encode_envelope_escapes_controls() {
    let t = encode_envelope(&msg("c", "a\nb\t\\\"\u{1}"));
    assert_eq!(t, "{\"channel\":\"c\",\"data\":\"a\\nb\\t\\\\\\\"\\u0001\"}");
}

#[test]
fn encode_envelope_agrees_with_a_json_parser() {
    let original = msg("ws_channel:job:9", "line1\nline2 \"quoted\" \\slash");
    let t = encode_envelope(&original);
    let v: serde_json::Value = serde_json::from_str(&t).unwrap();
    assert_eq!(v.get("channel").unwrap().as_str().unwrap(), original.channel);
    assert_eq!(v.get("data").unwrap().as_str().unwrap(), original.data);
}

#[test]
fn encode_envelope_matches_serde_json_output() {
    let m = msg("ws_channel:job:1", "payload with \"quotes\" and \n newline");
    let mut obj = serde_json::Map::new();
    obj.insert("channel".to_string(), serde_json::Value::String(m.channel.clone()));
    obj.insert("data".to_string(), serde_json::Value::String(m.data.clone()));
    let reference = serde_json::to_string(&serde_json::Value::Object(obj)).unwrap();
    assert_eq!(encode_envelope(&m), reference);
}
