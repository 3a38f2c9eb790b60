use taurus_bridge::protocol::{
    classify, get_body, is_bridge, parse_server, split_incoming_msg, BridgeChat, InboundLine,
    LineError,
};

#[test]
fn parse_server_reads_the_three_parts() {
    assert_eq!(
        parse_server("[smp] <Steve> hello there"),
        Some(("smp", "Steve", "hello there"))
    );
}

#[test]
fn parse_server_keeps_what_the_parts_hold() {
    assert_eq!(
        parse_server("[a b] <x y> =1 + 2 > 3 ] ["),
        Some(("a b", "x y", "=1 + 2 > 3 ] ["))
    );
    assert_eq!(parse_server("[] <> "), Some(("", "", "")));
    assert_eq!(parse_server("[s]<u>m"), Some(("s", "u", "m")));
    assert_eq!(parse_server("[s]  \t<u>   m  "), Some(("s", "u", "m  ")));
}

#[test]
fn parse_server_handles_text_beyond_ascii() {
    assert_eq!(
        parse_server("[sm\u{e9}] <St\u{e8}ve> h\u{e9}llo \u{1f600}"),
        Some(("sm\u{e9}", "St\u{e8}ve", "h\u{e9}llo \u{1f600}"))
    );
}

#[test]
fn parse_server_fails_without_closing_bracket() {
    assert_eq!(parse_server("[smp <Steve> hello"), None);
}

#[test]
fn parse_server_fails_without_closing_angle() {
    assert_eq!(parse_server("[smp] <Steve hello"), None);
}

#[test]
fn parse_server_fails_on_other_shapes() {
    assert_eq!(parse_server(""), None);
    assert_eq!(parse_server("smp] <Steve> hello"), None);
    assert_eq!(parse_server(" [smp] <Steve> hello"), None);
    assert_eq!(parse_server("[smp] Steve> hello"), None);
    assert_eq!(parse_server("[smp]"), None);
    assert_eq!(parse_server("[smp] x <Steve> hello"), None);
}

#[test]
fn split_incoming_msg_splits_at_the_first_space() {
    assert_eq!(split_incoming_msg("MSG [s] <u> m"), Some(("MSG", "[s] <u> m")));
    assert_eq!(split_incoming_msg("LIST "), Some(("LIST", "")));
    assert_eq!(split_incoming_msg(" x"), Some(("", "x")));
    assert_eq!(split_incoming_msg("PONG"), None);
    assert_eq!(split_incoming_msg(""), None);
    assert_eq!(split_incoming_msg("A\tB"), None);
}

#[test]
fn is_bridge_goes_by_the_verb() {
    assert!(is_bridge("MSG [s] <u> m"));
    assert!(is_bridge("MSG anything"));
    assert!(!is_bridge("MSG"));
    assert!(!is_bridge("MSGS x"));
    assert!(!is_bridge("msg x"));
    assert!(!is_bridge("LIST a b"));
}

#[test]
fn get_body_reads_what_follows_the_user_name() {
    assert_eq!(get_body("MSG [s] <u> hello"), Some("hello"));
    assert_eq!(get_body("MSG [s] <u> "), Some(""));
    assert_eq!(get_body("MSG [s] <u>"), None);
    assert_eq!(get_body("MSG [s] u hello"), None);
    assert_eq!(get_body("LIST [s] <u> hello"), None);
    assert_eq!(get_body("MSG"), None);
}

#[test]
fn classify_sorts_lines_by_shape() {
    assert_eq!(
        classify("MSG [smp] <Steve> hi"),
        Ok(InboundLine::BridgeChat(BridgeChat {
            server: "smp".to_string(),
            username: "Steve".to_string(),
            message: "hi".to_string(),
        }))
    );
    assert_eq!(
        classify("LIST_SESSIONS abc"),
        Ok(InboundLine::CommandResponse {
            tag: "LIST_SESSIONS".to_string(),
            payload: "LIST_SESSIONS abc".to_string(),
        })
    );
}

#[test]
fn classify_names_the_lines_without_shape() {
    assert_eq!(classify("PONG"), Err(LineError::NoVerb));
    assert_eq!(classify(""), Err(LineError::NoVerb));
    assert_eq!(classify("MSG hello"), Err(LineError::MalformedChat));
    assert_eq!(classify("MSG [smp] <Steve hi"), Err(LineError::MalformedChat));
}
