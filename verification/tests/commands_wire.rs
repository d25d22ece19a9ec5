use freeswitch_esl_tokio::command::{
    parse_api_body, CommandBuilder, EslCommand, EslResponse, ReplyStatus,
};
use freeswitch_esl_tokio::dptools::AppCommand;
use freeswitch_esl_tokio::error::EslError;
use freeswitch_esl_tokio::event::{EslEvent, EslEventType};
use freeswitch_esl_tokio::protocol::{EslParser, MessageType};
use indexmap::IndexMap;

#[test]
fn test_command_builder() {
    let cmd = CommandBuilder::new("api status")
        .header("Custom-Header", "value")
        .unwrap()
        .body("test body")
        .build();

    assert!(cmd.contains("api status"));
    assert!(cmd.contains("Custom-Header: value"));
    assert!(cmd.contains("Content-Length: 9"));
    assert!(cmd.contains("test body"));
}

#[test]
fn test_esl_commands() {
    let auth = EslCommand::Auth {
        password: "test".to_string(),
    };
    assert_eq!(
        auth.to_wire_format()
            .unwrap(),
        "auth test\n\n"
    );

    let api = EslCommand::Api {
        command: "status".to_string(),
    };
    assert_eq!(
        api.to_wire_format()
            .unwrap(),
        "api status\n\n"
    );

    let events = EslCommand::Events {
        format: "plain".to_string(),
        events: "ALL".to_string(),
    };
    assert_eq!(
        events
            .to_wire_format()
            .unwrap(),
        "event plain ALL\n\n"
    );
}

#[test]
fn test_app_commands() {
    let answer = AppCommand::answer()
        .to_wire_format()
        .unwrap();
    assert!(answer.contains("execute-app-name: answer"));

    let hangup = AppCommand::hangup(Some("NORMAL_CLEARING"))
        .to_wire_format()
        .unwrap();
    assert!(hangup.contains("execute-app-name: hangup"));
    assert!(hangup.contains("execute-app-arg: NORMAL_CLEARING"));
}

#[test]
fn test_myevents_wire_format() {
    let cmd = EslCommand::MyEvents {
        format: "plain".to_string(),
        uuid: None,
    };
    assert_eq!(
        cmd.to_wire_format()
            .unwrap(),
        "myevents plain\n\n"
    );
}

#[test]
fn test_myevents_uuid_wire_format() {
    let cmd = EslCommand::MyEvents {
        format: "json".to_string(),
        uuid: Some("abc-123".to_string()),
    };
    assert_eq!(
        cmd.to_wire_format()
            .unwrap(),
        "myevents abc-123 json\n\n"
    );
}

#[test]
fn test_linger_wire_format() {
    let cmd = EslCommand::Linger { timeout: None };
    assert_eq!(
        cmd.to_wire_format()
            .unwrap(),
        "linger\n\n"
    );
}

#[test]
fn test_linger_timeout_wire_format() {
    let cmd = EslCommand::Linger { timeout: Some(600) };
    assert_eq!(
        cmd.to_wire_format()
            .unwrap(),
        "linger 600\n\n"
    );
}

#[test]
fn test_nolinger_wire_format() {
    let cmd = EslCommand::NoLinger;
    assert_eq!(
        cmd.to_wire_format()
            .unwrap(),
        "nolinger\n\n"
    );
}

#[test]
fn test_resume_wire_format() {
    let cmd = EslCommand::Resume;
    assert_eq!(
        cmd.to_wire_format()
            .unwrap(),
        "resume\n\n"
    );
}

#[test]
fn test_sendevent_wire_format() {
    let mut event = EslEvent::with_type(EslEventType::Custom);
    event.set_header("Event-Name", "CUSTOM");
    event.set_header("Event-Subclass", "my::test_event");

    let cmd = EslCommand::SendEvent { event };
    let wire = cmd
        .to_wire_format()
        .unwrap();

    assert!(wire.starts_with("sendevent CUSTOM\n"));
    assert!(wire.contains("Event-Name: CUSTOM\n"));
    assert!(wire.contains("Event-Subclass: my::test_event\n"));
    assert!(wire.ends_with("\n\n"));
}

#[test]
fn test_sendevent_wire_format_with_body() {
    let mut event = EslEvent::with_type(EslEventType::Custom);
    event.set_header("Event-Name", "CUSTOM");
    event.set_body("hello world".to_string());

    let cmd = EslCommand::SendEvent { event };
    let wire = cmd
        .to_wire_format()
        .unwrap();

    assert!(wire.starts_with("sendevent CUSTOM\n"));
    assert!(wire.contains("Content-Length: 11\n"));
    assert!(wire.ends_with("hello world"));
}

#[test]
fn test_nixevent_wire_format() {
    let cmd = EslCommand::NixEvent {
        events: "CHANNEL_CREATE CHANNEL_DESTROY".to_string(),
    };
    assert_eq!(
        cmd.to_wire_format()
            .unwrap(),
        "nixevent CHANNEL_CREATE CHANNEL_DESTROY\n\n"
    );
}

#[test]
fn test_noevents_wire_format() {
    let cmd = EslCommand::NoEvents;
    assert_eq!(
        cmd.to_wire_format()
            .unwrap(),
        "noevents\n\n"
    );
}

#[test]
fn test_filter_delete_wire_format() {
    let cmd = EslCommand::FilterDelete {
        header: "Event-Name".to_string(),
        value: None,
    };
    assert_eq!(
        cmd.to_wire_format()
            .unwrap(),
        "filter delete Event-Name\n\n"
    );
}

#[test]
fn test_filter_delete_value_wire_format() {
    let cmd = EslCommand::FilterDelete {
        header: "Event-Name".to_string(),
        value: Some("CHANNEL_CREATE".to_string()),
    };
    assert_eq!(
        cmd.to_wire_format()
            .unwrap(),
        "filter delete Event-Name CHANNEL_CREATE\n\n"
    );
}

#[test]
fn test_filter_delete_all_wire_format() {
    let cmd = EslCommand::FilterDelete {
        header: "all".to_string(),
        value: None,
    };
    assert_eq!(
        cmd.to_wire_format()
            .unwrap(),
        "filter delete all\n\n"
    );
}

#[test]
fn test_divert_events_wire_format() {
    let cmd_on = EslCommand::DivertEvents { on: true };
    assert_eq!(
        cmd_on
            .to_wire_format()
            .unwrap(),
        "divert_events on\n\n"
    );

    let cmd_off = EslCommand::DivertEvents { on: false };
    assert_eq!(
        cmd_off
            .to_wire_format()
            .unwrap(),
        "divert_events off\n\n"
    );
}

#[test]
fn test_getvar_wire_format() {
    let cmd = EslCommand::GetVar {
        name: "caller_id_name".to_string(),
    };
    assert_eq!(
        cmd.to_wire_format()
            .unwrap(),
        "getvar caller_id_name\n\n"
    );
}

#[test]
fn test_connect_wire_format() {
    let cmd = EslCommand::Connect;
    assert_eq!(
        cmd.to_wire_format()
            .unwrap(),
        "connect\n\n"
    );
}

#[test]
fn test_sendevent_no_event_type() {
    let mut event = EslEvent::new();
    event.set_header("Event-Name", "CUSTOM");

    let cmd = EslCommand::SendEvent { event };
    let wire = cmd
        .to_wire_format()
        .unwrap();
    assert!(wire.starts_with("sendevent CUSTOM\n"));

    let bare_event = EslEvent::new();
    let cmd2 = EslCommand::SendEvent { event: bare_event };
    let wire2 = cmd2
        .to_wire_format()
        .unwrap();
    assert!(wire2.starts_with("sendevent CUSTOM\n"));
}

#[test]
fn test_newline_injection_rejected() {
    let api = EslCommand::Api {
        command: "status\n\nevent plain ALL".to_string(),
    };
    assert!(api
        .to_wire_format()
        .is_err());

    let auth = EslCommand::Auth {
        password: "test\napi status".to_string(),
    };
    assert!(auth
        .to_wire_format()
        .is_err());

    let filter = EslCommand::Filter {
        header: "Event-Name\r\n".to_string(),
        value: "CHANNEL_CREATE".to_string(),
    };
    assert!(filter
        .to_wire_format()
        .is_err());
}

#[test]
fn command_test_reply_status_ok() {
    let headers: IndexMap<String, String> =
        [("Reply-Text".into(), "+OK accepted".into())].into();
    let resp = EslResponse::new(headers, None);
    assert_eq!(resp.reply_status(), ReplyStatus::Success);
    assert!(resp.is_success());
    assert!(resp
        .into_result()
        .is_ok());
}

#[test]
fn command_test_reply_status_ok_prefix_only() {
    let headers: IndexMap<String, String> = [("Reply-Text".into(), "+OK".into())].into();
    let resp = EslResponse::new(headers, None);
    assert_eq!(resp.reply_status(), ReplyStatus::Success);
    assert!(resp.is_success());
}

#[test]
fn command_test_reply_status_empty() {
    let headers: IndexMap<String, String> = [("Reply-Text".into(), String::new())].into();
    let resp = EslResponse::new(headers, None);
    assert_eq!(resp.reply_status(), ReplyStatus::Success);
    assert!(resp.is_success());
}

#[test]
fn command_test_reply_status_missing_header() {
    let resp = EslResponse::new(IndexMap::new(), None);
    assert_eq!(resp.reply_status(), ReplyStatus::Success);
    assert!(resp.is_success());
}

#[test]
fn command_test_reply_status_err() {
    let headers: IndexMap<String, String> =
        [("Reply-Text".into(), "-ERR invalid command".into())].into();
    let resp = EslResponse::new(headers, None);
    assert_eq!(resp.reply_status(), ReplyStatus::Error);
    assert!(!resp.is_success());
    let err = resp
        .into_result()
        .unwrap_err();
    assert!(
        matches!(err, EslError::CommandFailed { ref reply_text } if reply_text == "-ERR invalid command")
    );
}

#[test]
fn command_test_reply_status_err_bare() {
    let headers: IndexMap<String, String> = [("Reply-Text".into(), "-ERR".into())].into();
    let resp = EslResponse::new(headers, None);
    assert_eq!(resp.reply_status(), ReplyStatus::Error);
    assert!(!resp.is_success());
}

#[test]
fn command_test_reply_status_other_getvar() {
    let headers: IndexMap<String, String> =
        [("Reply-Text".into(), "sip_from_user".into())].into();
    let resp = EslResponse::new(headers, None);
    assert_eq!(resp.reply_status(), ReplyStatus::Other);
    assert!(!resp.is_success());
    let err = resp
        .into_result()
        .unwrap_err();
    assert!(
        matches!(err, EslError::UnexpectedReply { ref reply_text } if reply_text == "sip_from_user")
    );
}

#[test]
fn command_test_reply_status_other_random() {
    let headers: IndexMap<String, String> =
        [("Reply-Text".into(), "something unexpected".into())].into();
    let resp = EslResponse::new(headers, None);
    assert_eq!(resp.reply_status(), ReplyStatus::Other);
    assert!(!resp.is_success());
}

#[test]
fn test_header_newline_rejected() {
    let result = CommandBuilder::new("test").header("X-Bad\n", "value");
    assert!(result.is_err());

    let result = CommandBuilder::new("test").header("X-Key", "bad\nvalue");
    assert!(result.is_err());
}

#[test]
fn test_event_uuid_from_sendevent_reply() {
    let headers: IndexMap<String, String> = [(
        "Reply-Text".into(),
        "+OK 7d54c1e6-4a31-11e9-b1e3-001a4a160100".into(),
    )]
    .into();
    let resp = EslResponse::new(headers, None);
    assert_eq!(
        resp.event_uuid(),
        Some("7d54c1e6-4a31-11e9-b1e3-001a4a160100")
    );
}

#[test]
fn test_event_uuid_none_for_plain_ok() {
    let headers: IndexMap<String, String> = [("Reply-Text".into(), "+OK".into())].into();
    let resp = EslResponse::new(headers, None);
    assert_eq!(resp.event_uuid(), None);
}

#[test]
fn response_test_reply_status_ok() {
    let headers: IndexMap<String, String> =
        [("Reply-Text".into(), "+OK accepted".into())].into();
    let resp = EslResponse::new(headers, None);
    assert_eq!(resp.reply_status(), ReplyStatus::Success);
    assert!(resp.is_success());
    assert!(resp
        .into_result()
        .is_ok());
}

#[test]
fn response_test_reply_status_ok_prefix_only() {
    let headers: IndexMap<String, String> = [("Reply-Text".into(), "+OK".into())].into();
    let resp = EslResponse::new(headers, None);
    assert_eq!(resp.reply_status(), ReplyStatus::Success);
    assert!(resp.is_success());
}

#[test]
fn response_test_reply_status_empty() {
    let headers: IndexMap<String, String> = [("Reply-Text".into(), String::new())].into();
    let resp = EslResponse::new(headers, None);
    assert_eq!(resp.reply_status(), ReplyStatus::Success);
    assert!(resp.is_success());
}

#[test]
fn response_test_reply_status_missing_header() {
    let resp = EslResponse::new(IndexMap::new(), None);
    assert_eq!(resp.reply_status(), ReplyStatus::Success);
    assert!(resp.is_success());
}

#[test]
fn response_test_reply_status_err() {
    let headers: IndexMap<String, String> =
        [("Reply-Text".into(), "-ERR invalid command".into())].into();
    let resp = EslResponse::new(headers, None);
    assert_eq!(resp.reply_status(), ReplyStatus::Error);
    assert!(!resp.is_success());
    let err = resp
        .into_result()
        .unwrap_err();
    assert!(
        matches!(err, EslError::CommandFailed { ref reply_text } if reply_text == "-ERR invalid command")
    );
}

#[test]
fn response_test_reply_status_err_bare() {
    let headers: IndexMap<String, String> = [("Reply-Text".into(), "-ERR".into())].into();
    let resp = EslResponse::new(headers, None);
    assert_eq!(resp.reply_status(), ReplyStatus::Error);
    assert!(!resp.is_success());
}

#[test]
fn response_test_reply_status_other_getvar() {
    let headers: IndexMap<String, String> =
        [("Reply-Text".into(), "sip_from_user".into())].into();
    let resp = EslResponse::new(headers, None);
    assert_eq!(resp.reply_status(), ReplyStatus::Other);
    assert!(!resp.is_success());
    let err = resp
        .into_result()
        .unwrap_err();
    assert!(
        matches!(err, EslError::UnexpectedReply { ref reply_text } if reply_text == "sip_from_user")
    );
}

#[test]
fn response_test_reply_status_other_random() {
    let headers: IndexMap<String, String> =
        [("Reply-Text".into(), "something unexpected".into())].into();
    let resp = EslResponse::new(headers, None);
    assert_eq!(resp.reply_status(), ReplyStatus::Other);
    assert!(!resp.is_success());
}

#[test]
fn parse_api_body_ok_with_data() {
    let data = parse_api_body("+OK d4f3a2b1-1234-5678-abcd-ef0123456789\n").unwrap();
    assert_eq!(data, "d4f3a2b1-1234-5678-abcd-ef0123456789");
}

#[test]
fn parse_api_body_ok_no_data() {
    let data = parse_api_body("+OK\n").unwrap();
    assert_eq!(data, "");
}

#[test]
fn parse_api_body_ok_bare() {
    let data = parse_api_body("+OK").unwrap();
    assert_eq!(data, "");
}

#[test]
fn parse_api_body_err() {
    let err = parse_api_body("-ERR invalid command\n").unwrap_err();
    assert!(matches!(
        err,
        EslError::CommandFailed { ref reply_text } if reply_text == "-ERR invalid command"
    ));
}

#[test]
fn parse_api_body_usage() {
    let err = parse_api_body("-USAGE: originate <call_url> <exten>\n").unwrap_err();
    assert!(matches!(err, EslError::CommandFailed { .. }));
}

#[test]
fn parse_api_body_raw_json() {
    let data = parse_api_body(r#"{"row_count":2,"rows":[]}"#).unwrap();
    assert_eq!(data, r#"{"row_count":2,"rows":[]}"#);
}

#[test]
fn parse_api_body_raw_value() {
    let data = parse_api_body("hello_world\n").unwrap();
    assert_eq!(data, "hello_world");
}

#[test]
fn parse_api_body_raw_multiline() {
    let dump = "Variable-Name: value\nOther-Name: other\n";
    let data = parse_api_body(dump).unwrap();
    assert_eq!(data, "Variable-Name: value\nOther-Name: other");
}

#[test]
fn parse_api_body_empty() {
    let err = parse_api_body("").unwrap_err();
    assert!(matches!(err, EslError::ProtocolError { .. }));
}

#[test]
fn parse_api_body_whitespace_only() {
    // Only trailing \n is stripped; other whitespace is preserved verbatim
    let data = parse_api_body("  \n").unwrap();
    assert_eq!(data, "  ");
}

#[test]
fn api_result_delegates_to_parse() {
    let headers: IndexMap<String, String> = [("Reply-Text".into(), "+OK".into())].into();
    let resp = EslResponse::new(headers, Some("+OK uuid-123\n".into()));
    assert_eq!(
        resp.api_result()
            .unwrap(),
        "uuid-123"
    );
}

#[test]
fn api_result_no_body() {
    let headers: IndexMap<String, String> = [("Reply-Text".into(), "+OK".into())].into();
    let resp = EslResponse::new(headers, None);
    assert!(matches!(
        resp.api_result()
            .unwrap_err(),
        EslError::ProtocolError { .. }
    ));
}

#[test]
fn api_result_reports_denial_from_reply_text() {
    let headers: IndexMap<String, String> =
        [("Reply-Text".into(), "-ERR permission denied".into())].into();
    let resp = EslResponse::new(headers, None);
    let err = resp
        .api_result()
        .unwrap_err();
    assert!(
        matches!(err, EslError::CommandFailed { .. }),
        "expected CommandFailed, got: {err:?}"
    );
    assert!(err.is_permission_denied());
}

#[test]
fn api_result_keeps_unprefixed_reply_text_non_fatal() {
    let headers: IndexMap<String, String> =
        [("Reply-Text".into(), "some-variable-value".into())].into();
    let resp = EslResponse::new(headers, Some("body-payload\n".into()));
    assert_eq!(
        resp.api_result()
            .unwrap(),
        "body-payload"
    );
}

#[test]
fn response_test_parse_connect_response() {
    let mut parser = EslParser::new();

    // FreeSWITCH serializes the outbound `connect` response with
    // switch_event_serialize(SWITCH_TRUE): every value is percent-encoded,
    // including the channel data. The parser must percent-decode them.
    let data = "Content-Type: command/reply\n\
         Reply-Text: +OK\n\
         Socket-Mode: async\n\
         Control: full\n\
         Event-Name: CHANNEL_DATA\n\
         Channel-Name: sofia/internal/1000%40example.com\n\
         Unique-ID: abcd-1234\n\
         Caller-Caller-ID-Name: Test%20User\n\
         \n";

    parser
        .add_data(data.as_bytes())
        .unwrap();
    let message = parser
        .parse_message()
        .unwrap()
        .unwrap();

    assert_eq!(message.message_type, MessageType::CommandReply);
    assert_eq!(
        message
            .headers
            .get("Channel-Name")
            .map(|s| s.as_str()),
        Some("sofia/internal/1000@example.com")
    );
    assert_eq!(
        message
            .headers
            .get("Caller-Caller-ID-Name")
            .map(|s| s.as_str()),
        Some("Test User")
    );
    assert_eq!(
        message
            .headers
            .get("Socket-Mode")
            .map(|s| s.as_str()),
        Some("async")
    );
    assert_eq!(
        message
            .headers
            .get("Control")
            .map(|s| s.as_str()),
        Some("full")
    );

    let response = message.into_response();
    assert!(response.is_success());
    assert_eq!(response.reply_text(), Some("+OK"));
    assert!(response
        .lossy_values()
        .is_empty());
}

#[test]
fn test_connect_response_non_utf8_value_lossy() {
    // A channel-data value that is not valid UTF-8 after percent-decoding
    // (a Latin-1 caller name) is decoded lossily by default and surfaced
    // on the response, not a hard error.
    let mut parser = EslParser::new();
    let data = "Content-Type: command/reply\n\
         Reply-Text: +OK\n\
         Caller-Caller-ID-Name: Andr%E9\n\
         \n";
    parser
        .add_data(data.as_bytes())
        .unwrap();
    let response = (parser
            .parse_message()
            .unwrap()
            .unwrap()).into_response();

    assert!(response.is_success());
    assert_eq!(
        response.header("Caller-Caller-ID-Name"),
        Some("Andr\u{FFFD}")
    );
    let lossy = response.lossy_values();
    assert_eq!(
        lossy
            .iter()
            .count(),
        1
    );
    let entry = lossy
        .iter()
        .next()
        .unwrap();
    assert_eq!(entry.key, "Caller-Caller-ID-Name");
    assert_eq!(entry.raw_value, "Andr%E9");
}

#[test]
fn test_api_response_non_utf8_body_raw_body() {
    let mut parser = EslParser::new();
    let mut data = b"Content-Type: api/response\nContent-Length: 4\n\n".to_vec();
    data.extend_from_slice(b"caf\xE9");
    parser
        .add_data(&data)
        .unwrap();
    let response = (parser
            .parse_message()
            .unwrap()
            .unwrap()).into_response();

    assert_eq!(response.body(), Some("caf\u{FFFD}"));
    assert_eq!(response.raw_body(), Some(&b"caf\xE9"[..]));
}

#[test]
fn test_debug_redacts_password() {
    let auth = EslCommand::Auth {
        password: "secret".to_string(),
    };
    let debug_str = auth.redacted_text();
    assert!(!debug_str.contains("secret"));
    assert!(debug_str.contains("REDACTED"));

    let user_auth = EslCommand::UserAuth {
        user: "admin@default".to_string(),
        password: "secret".to_string(),
    };
    let debug_str = user_auth.redacted_text();
    assert!(!debug_str.contains("secret"));
    assert!(debug_str.contains("admin@default"));
    assert!(debug_str.contains("REDACTED"));
}

#[test]
fn esl_response_header_lookup_is_case_insensitive() {
    let mut headers = IndexMap::new();
    headers.insert("Reply-Text".to_string(), "+OK".to_string());
    let r = EslResponse::new(headers, None);
    assert_eq!(r.header("Reply-Text"), Some("+OK"));
    assert_eq!(r.header("reply-text"), Some("+OK"));
    assert_eq!(r.header("REPLY-TEXT"), Some("+OK"));
}

#[test]
fn esl_response_underscored_keys_preserve_case() {
    let mut headers = IndexMap::new();
    headers.insert("variable_sip_h_X-MixedCase-Hdr".to_string(), "value".to_string());
    headers.insert("variable_MyVar".to_string(), "vv".to_string());
    let r = EslResponse::new(headers, None);

    assert_eq!(r.header("variable_sip_h_X-MixedCase-Hdr"), Some("value"));
    assert_eq!(r.header("variable_MyVar"), Some("vv"));
    assert_eq!(r.header("variable_sip_h_x-mixedcase-hdr"), None);
    assert_eq!(r.header("VARIABLE_SIP_H_X-MIXEDCASE-HDR"), None);
    assert_eq!(r.header("variable_myvar"), None);
}
