use freeswitch_esl_tokio::constants::MAX_MESSAGE_SIZE;
use freeswitch_esl_tokio::event::{EslEvent, EslEventType, EventFormat};
use freeswitch_esl_tokio::headers::EventHeader;
use freeswitch_esl_tokio::protocol::{EslMessage, EslParser, MessageType};
use indexmap::IndexMap;
use percent_encoding::{percent_encode, NON_ALPHANUMERIC};

fn parse_wire_split(data: &[u8], split: usize, format: EventFormat) -> EslEvent {
    let mut parser = EslParser::new();
    parser.add_data(&data[..split]).unwrap();
    let mut message = parser.parse_message().unwrap();
    assert!(message.is_none(), "frame must be incomplete at split {split}");
    parser.add_data(&data[split..]).unwrap();
    message = parser.parse_message().unwrap();
    let message =
        message.unwrap_or_else(|| panic!("frame incomplete after both chunks (split {split})"));
    parser.parse_event(message, format).unwrap()
}

#[test]
fn protocol_test_parse_headers() {
    let parser = EslParser::new();
    let headers_str = "Content-Type: auth/request\r\nContent-Length: 0";
    let headers = parser
        .parse_headers(headers_str)
        .unwrap();

    assert_eq!(
        headers
            .get("Content-Type")
            .map(|s| s.as_str()),
        Some("auth/request")
    );
    assert_eq!(
        headers
            .get("Content-Length")
            .map(|s| s.as_str()),
        Some("0")
    );
}

#[test]
fn protocol_parsed_headers_preserve_insertion_order() {
    let parser = EslParser::new();
    let headers_str = "Alpha: 1\r\nBravo: 2\r\nCharlie: 3\r\nDelta: 4";
    let headers = parser
        .parse_headers(headers_str)
        .unwrap();
    let keys: Vec<&str> = headers
        .keys()
        .map(|s| s.as_str())
        .collect();
    assert_eq!(keys, vec!["Alpha", "Bravo", "Charlie", "Delta"]);
}

#[test]
fn protocol_test_parse_auth_request() {
    let mut parser = EslParser::new();
    let data = b"Content-Type: auth/request\n\n";

    parser
        .add_data(data)
        .unwrap();
    let message = parser
        .parse_message()
        .unwrap()
        .unwrap();

    assert_eq!(message.message_type, MessageType::AuthRequest);
    assert!(message
        .body
        .is_none());
}

#[test]
fn protocol_test_parse_api_response() {
    let mut parser = EslParser::new();
    let data = b"Content-Type: api/response\nContent-Length: 2\n\nOK";

    parser
        .add_data(data)
        .unwrap();
    let message = parser
        .parse_message()
        .unwrap()
        .unwrap();

    assert_eq!(message.message_type, MessageType::ApiResponse);
    assert_eq!(message.body, Some("OK".to_string()));
}

#[test]
fn protocol_test_parse_event_plain() {
    let mut parser = EslParser::new();
    // Correct two-part wire format: outer envelope + body with event headers
    let body = "Event-Name: CHANNEL_ANSWER\nUnique-ID: test-uuid\n\n";
    let envelope = format!(
        "Content-Length: {}\nContent-Type: text/event-plain\n\n",
        body.len()
    );
    let data = format!("{}{}", envelope, body);

    parser
        .add_data(data.as_bytes())
        .unwrap();
    let message = parser
        .parse_message()
        .unwrap()
        .unwrap();
    let event = parser
        .parse_event(message, EventFormat::Plain)
        .unwrap();

    assert_eq!(event.event_type(), Some(EslEventType::ChannelAnswer));
    assert_eq!(event.unique_id(), Some("test-uuid"));
}

#[test]
fn protocol_test_parse_event_plain_percent_decoding() {
    let mut parser = EslParser::new();
    let body = "Event-Name: HEARTBEAT\nUp-Time: 0%20years%2C%200%20days\nEvent-Info: System%20Ready\n\n";
    let envelope = format!(
        "Content-Length: {}\nContent-Type: text/event-plain\n\n",
        body.len()
    );
    let data = format!("{}{}", envelope, body);

    parser
        .add_data(data.as_bytes())
        .unwrap();
    let message = parser
        .parse_message()
        .unwrap()
        .unwrap();
    let event = parser
        .parse_event(message, EventFormat::Plain)
        .unwrap();

    assert_eq!(event.event_type(), Some(EslEventType::Heartbeat));
    assert_eq!(event.header("Up-Time"), Some("0 years, 0 days"));
    assert_eq!(event.header("Event-Info"), Some("System Ready"));
}

#[test]
fn protocol_test_parse_event_plain_with_inner_body() {
    let mut parser = EslParser::new();
    // Event with inner body (e.g., BACKGROUND_JOB result)
    let inner_body = "+OK Status\n";
    let event_headers = format!(
        "Event-Name: BACKGROUND_JOB\nJob-UUID: abc-123\nContent-Length: {}\n",
        inner_body.len()
    );
    let body = format!("{}\n{}", event_headers, inner_body);
    let envelope = format!(
        "Content-Length: {}\nContent-Type: text/event-plain\n\n",
        body.len()
    );
    let data = format!("{}{}", envelope, body);

    parser
        .add_data(data.as_bytes())
        .unwrap();
    let message = parser
        .parse_message()
        .unwrap()
        .unwrap();
    let event = parser
        .parse_event(message, EventFormat::Plain)
        .unwrap();

    assert_eq!(event.event_type(), Some(EslEventType::BackgroundJob));
    assert_eq!(event.header(EventHeader::JobUuid.as_str()), Some("abc-123"));
    assert_eq!(event.body(), Some("+OK Status\n"));
}

/// log/data uses single-level framing: metadata in outer envelope,
/// raw log text as body. This matches mod_event_socket.c's output.
#[test]
fn protocol_test_parse_log_data_event() {
    let mut parser = EslParser::new();
    let log_text = "2024-01-01 00:00:00.000000 [INFO] mod_sofia.c:1234 Registration ok\n";
    let envelope = format!(
        "Content-Type: log/data\nContent-Length: {}\nLog-Level: 6\nText-Channel: 0\nLog-File: mod_sofia.c\nLog-Func: sofia_reg_handle\nLog-Line: 1234\nUser-Data: \n\n{}",
        log_text.len(),
        log_text,
    );

    parser
        .add_data(envelope.as_bytes())
        .unwrap();
    let message = parser
        .parse_message()
        .unwrap()
        .unwrap();

    assert_eq!(message.message_type, MessageType::Event);

    let event = parser
        .parse_event(message, EventFormat::Plain)
        .unwrap();

    assert_eq!(event.event_type(), Some(EslEventType::Log));
    assert_eq!(event.header("Log-Level"), Some("6"));
    assert_eq!(event.header("Content-Type"), Some("log/data"));
    assert_eq!(event.header("Log-File"), Some("mod_sofia.c"));
    assert_eq!(event.header("Log-Func"), Some("sofia_reg_handle"));
    assert_eq!(event.header("Log-Line"), Some("1234"));
    assert_eq!(event.body(), Some(log_text));
}

#[test]
fn protocol_test_incomplete_message() {
    let mut parser = EslParser::new();
    let data = b"Content-Type: api/response\nContent-Length: 10\n\ntest"; // Only 4 bytes instead of 10

    parser
        .add_data(data)
        .unwrap();
    let result = parser
        .parse_message()
        .unwrap();

    assert!(result.is_none()); // Should return None for incomplete message
}

#[test]
fn protocol_test_notify_in_event_with_pl_data() {
    let mut parser = EslParser::new();
    // NOTIFY_IN event with percent-encoded pl_data containing JSON
    let json_payload = r#"{"Invite":"INVITE urn:service:sos SIP/2.0","InviteTimestamp":"2025-01-15T12:00:00Z"}"#;
    let encoded_payload =
        percent_encoding::utf8_percent_encode(json_payload, percent_encoding::NON_ALPHANUMERIC)
            .to_string();
    let body = format!(
        "Event-Name: NOTIFY_IN\nevent: emergency-AbandonedCall\npl_data: {}\nsip_content_type: application%2Fjson\ngateway_name: ng911-bcf\n\n",
        encoded_payload
    );
    let envelope = format!(
        "Content-Length: {}\nContent-Type: text/event-plain\n\n",
        body.len()
    );
    let data = format!("{}{}", envelope, body);

    parser
        .add_data(data.as_bytes())
        .unwrap();
    let message = parser
        .parse_message()
        .unwrap()
        .unwrap();
    let event = parser
        .parse_event(message, EventFormat::Plain)
        .unwrap();

    assert_eq!(event.event_type(), Some(EslEventType::NotifyIn));
    assert_eq!(event.header("event"), Some("emergency-AbandonedCall"));
    // pl_data must be percent-decoded back to raw JSON
    assert_eq!(event.header("pl_data"), Some(json_payload));
    assert_eq!(
        event.header("sip_content_type"),
        Some("application/json")
    );
    assert_eq!(event.header("gateway_name"), Some("ng911-bcf"));
}

#[test]
fn protocol_test_parse_event_xml_heartbeat() {
    let mut parser = EslParser::new();
    let xml_body = "\
<event>\n\
<headers>\n\
<Event-Name>HEARTBEAT</Event-Name>\n\
<Core-UUID>abc-123</Core-UUID>\n\
<Up-Time>0 years, 1 day</Up-Time>\n\
</headers>\n\
</event>";
    let envelope = format!(
        "Content-Length: {}\nContent-Type: text/event-xml\n\n",
        xml_body.len()
    );
    let data = format!("{}{}", envelope, xml_body);

    parser
        .add_data(data.as_bytes())
        .unwrap();
    let message = parser
        .parse_message()
        .unwrap()
        .unwrap();
    let event = parser
        .parse_event(message, EventFormat::Xml)
        .unwrap();

    assert_eq!(event.event_type(), Some(EslEventType::Heartbeat));
    assert_eq!(event.header(EventHeader::CoreUuid.as_str()), Some("abc-123"));
    assert_eq!(event.header("Up-Time"), Some("0 years, 1 day"));
}

#[test]
fn protocol_test_parse_event_xml_with_body() {
    let mut parser = EslParser::new();
    let xml_body = "\
<event>\n\
<headers>\n\
<Event-Name>BACKGROUND_JOB</Event-Name>\n\
<Job-UUID>def-456</Job-UUID>\n\
</headers>\n\
<body>+OK result data</body>\n\
</event>";
    let envelope = format!(
        "Content-Length: {}\nContent-Type: text/event-xml\n\n",
        xml_body.len()
    );
    let data = format!("{}{}", envelope, xml_body);

    parser
        .add_data(data.as_bytes())
        .unwrap();
    let message = parser
        .parse_message()
        .unwrap()
        .unwrap();
    let event = parser
        .parse_event(message, EventFormat::Xml)
        .unwrap();

    assert_eq!(event.event_type(), Some(EslEventType::BackgroundJob));
    assert_eq!(event.header(EventHeader::JobUuid.as_str()), Some("def-456"));
    assert_eq!(event.body(), Some("+OK result data"));
}

#[test]
fn protocol_test_crlf_header_terminator_not_matched() {
    // ESL uses \n\n, not \r\n\r\n. If something injects \r\n line endings,
    // the parser must not hang — but it won't find the terminator either.
    // This documents the current behavior: \r\n\r\n is NOT recognized as
    // a header terminator, so the message stays incomplete.
    let mut parser = EslParser::new();
    let data = b"Content-Type: auth/request\r\n\r\n";

    parser
        .add_data(data)
        .unwrap();
    let result = parser
        .parse_message()
        .unwrap();
    assert!(
        result.is_none(),
        "\\r\\n\\r\\n should not match \\n\\n terminator"
    );
}

#[test]
fn protocol_test_crlf_in_header_values_parsed_correctly() {
    // If \r\n appears within a \n\n-framed message, parse_headers()
    // uses .lines() which strips \r, so header values stay clean.
    let mut parser = EslParser::new();
    let data = b"Content-Type: auth/request\r\nSome-Header: some-value\n\n";

    parser
        .add_data(data)
        .unwrap();
    let message = parser
        .parse_message()
        .unwrap()
        .unwrap();
    assert_eq!(message.message_type, MessageType::AuthRequest);
    assert_eq!(
        message
            .headers
            .get("Some-Header")
            .map(|s| s.as_str()),
        Some("some-value")
    );
}

#[test]
fn protocol_test_oversized_content_length_rejected() {
    let mut parser = EslParser::new();
    let data = format!(
        "Content-Type: api/response\nContent-Length: {}\n\n",
        MAX_MESSAGE_SIZE + 1
    );

    parser
        .add_data(data.as_bytes())
        .unwrap();
    let result = parser.parse_message();
    assert!(
        result.is_err(),
        "Content-Length exceeding MAX_MESSAGE_SIZE must be rejected"
    );
}

#[test]
fn protocol_test_undersized_content_length_corrupts_next_message() {
    // Content-Length: 2 but body is "Hello" (5 bytes). The parser trusts
    // Content-Length and reads only 2 bytes, leaving "llo" in the buffer.
    // The next parse attempt sees "llo" as the start of a new message,
    // which won't have a valid header terminator — so it returns None.
    let mut parser = EslParser::new();
    let data = b"Content-Type: api/response\nContent-Length: 2\n\nHello";

    parser
        .add_data(data)
        .unwrap();
    let message = parser
        .parse_message()
        .unwrap()
        .unwrap();
    assert_eq!(message.message_type, MessageType::ApiResponse);
    assert_eq!(message.body, Some("He".to_string()));

    // Leftover "llo" is now junk in the buffer — next parse finds nothing
    let next = parser
        .parse_message()
        .unwrap();
    assert!(
        next.is_none(),
        "Leftover bytes should not form a valid message"
    );
}

#[test]
fn protocol_test_undersized_content_length_followed_by_valid_message() {
    // Same scenario but a valid second message follows the junk.
    // The leftover bytes merge with the next message's headers,
    // making recovery impossible without reconnecting.
    let mut parser = EslParser::new();
    let msg1 = b"Content-Type: api/response\nContent-Length: 2\n\nHello";
    let msg2 = b"Content-Type: auth/request\n\n";

    parser
        .add_data(msg1)
        .unwrap();
    let first = parser
        .parse_message()
        .unwrap()
        .unwrap();
    assert_eq!(first.body, Some("He".to_string()));

    parser
        .add_data(msg2)
        .unwrap();
    let second = parser.parse_message();
    // "llo" + msg2 bytes = "lloContent-Type: auth/request\n\n"
    // The parser finds \n\n and parses "lloContent-Type: auth/request"
    // as key="lloContent-Type" value="auth/request". No real Content-Type
    // header exists, so the parser returns a protocol error — signaling
    // the caller to disconnect.
    assert!(
        second.is_err(),
        "Desync must be detected as a protocol error"
    );
}

#[test]
fn protocol_test_non_numeric_content_length_rejected() {
    let mut parser = EslParser::new();
    let data = b"Content-Type: api/response\nContent-Length: abc\n\n";

    parser
        .add_data(data)
        .unwrap();
    let result = parser.parse_message();
    assert!(
        result.is_err(),
        "Non-numeric Content-Length must be rejected"
    );
}

#[test]
fn protocol_test_parse_headers_percent_decodes_values() {
    let parser = EslParser::new();
    let headers = parser
        .parse_headers("Content-Type: command%2Freply\nReply-Text: %2BOK")
        .unwrap();

    assert_eq!(
        headers
            .get("Content-Type")
            .map(|s| s.as_str()),
        Some("command/reply")
    );
    assert_eq!(
        headers
            .get("Reply-Text")
            .map(|s| s.as_str()),
        Some("+OK")
    );
}

#[test]
fn test_parse_headers_noop_for_plain_values() {
    let parser = EslParser::new();
    let headers = parser
        .parse_headers("Content-Type: command/reply\nReply-Text: +OK")
        .unwrap();

    assert_eq!(
        headers
            .get("Content-Type")
            .map(|s| s.as_str()),
        Some("command/reply")
    );
    assert_eq!(
        headers
            .get("Reply-Text")
            .map(|s| s.as_str()),
        Some("+OK")
    );
}

#[test]
fn test_parse_headers_invalid_percent_sequence() {
    let parser = EslParser::new();
    let headers = parser
        .parse_headers("X-Bad: %ZZinvalid\nX-Good: clean")
        .unwrap();

    assert_eq!(
        headers
            .get("X-Bad")
            .map(|s| s.as_str()),
        Some("%ZZinvalid"),
        "Invalid percent sequence passes through as-is (still valid UTF-8)"
    );
    assert_eq!(
        headers
            .get("X-Good")
            .map(|s| s.as_str()),
        Some("clean")
    );
}

#[test]
fn test_parse_headers_invalid_utf8_is_error() {
    let parser = EslParser::new();
    // %FF decodes to byte 0xFF which is invalid UTF-8
    let result = parser.parse_headers("X-Bad: %FF");
    assert!(
        result.is_err(),
        "invalid UTF-8 after percent-decode must be an error"
    );
    let err = result.unwrap_err();
    assert!(
        err.to_string()
            .contains("invalid UTF-8"),
        "error should mention invalid UTF-8: {:?}",
        err
    );
}

#[test]
fn test_parse_plain_event_invalid_utf8_is_error() {
    let parser = EslParser::new();
    let body = "Event-Name: HEARTBEAT\nX-Bad: %FF\n\n";
    let msg = EslMessage::new(
        MessageType::Event,
        {
            let mut h = IndexMap::new();
            h.insert("Content-Type".to_string(), "text/event-plain".to_string());
            h
        },
        Some(body.to_string()),
    );
    let result = parser.parse_event(msg, EventFormat::Plain);
    assert!(
        result.is_err(),
        "invalid UTF-8 in event header must be an error"
    );
}

#[test]
fn protocol_test_parse_connect_response() {

    let mut parser = EslParser::new();

    // Simulate FreeSWITCH's connect response: switch_event_serialize()
    // encodes ALL values, sent as a flat blob (no outer envelope wrapper).
    let headers = [
        ("Content-Type", "command/reply"),
        ("Reply-Text", "+OK"),
        ("Socket-Mode", "async"),
        ("Control", "full"),
        ("Event-Name", "CHANNEL_DATA"),
        ("Channel-Name", "sofia/internal/1000@example.com"),
        ("Unique-ID", "abcd-1234"),
        ("Caller-Caller-ID-Name", "Test User"),
    ];

    let mut data = String::new();
    for (key, value) in &headers {
        data.push_str(&format!(
            "{}: {}\n",
            key,
            percent_encode(value.as_bytes(), NON_ALPHANUMERIC)
        ));
    }
    data.push('\n');

    parser
        .add_data(data.as_bytes())
        .unwrap();
    let message = parser
        .parse_message()
        .unwrap()
        .unwrap();

    assert_eq!(message.message_type, MessageType::CommandReply);
    assert_eq!(
        message
            .headers
            .get("Channel-Name")
            .map(|s| s.as_str()),
        Some("sofia/internal/1000@example.com")
    );
    assert_eq!(
        message
            .headers
            .get("Caller-Caller-ID-Name")
            .map(|s| s.as_str()),
        Some("Test User")
    );
    assert_eq!(
        message
            .headers
            .get("Socket-Mode")
            .map(|s| s.as_str()),
        Some("async")
    );
    assert_eq!(
        message
            .headers
            .get("Control")
            .map(|s| s.as_str()),
        Some("full")
    );

    let response = message.into_response();
    assert!(response.is_success());
    assert_eq!(response.reply_text(), Some("+OK"));
}

#[test]
fn protocol_test_parse_json_event_body_key() {
    let parser = EslParser::new();
    let json = r#"{"Event-Name":"BACKGROUND_JOB","Job-UUID":"abc-123","_body":"+OK result"}"#;
    let msg = EslMessage::new(
        MessageType::Event,
        {
            let mut h = IndexMap::new();
            h.insert("Content-Type".to_string(), "text/event-json".to_string());
            h
        },
        Some(json.to_string()),
    );
    let event = parser
        .parse_event(msg, EventFormat::Json)
        .unwrap();
    assert_eq!(event.event_type(), Some(EslEventType::BackgroundJob));
    assert_eq!(event.body(), Some("+OK result"));
    assert!(
        event
            .header("_body")
            .is_none(),
        "_body must be mapped to event body, not stored as a header"
    );
}

#[test]
fn protocol_test_json_event_end_to_end() {
    let mut parser = EslParser::new();
    let json_body = r#"{"Event-Name":"CHANNEL_CREATE","Unique-ID":"test-uuid-123","Channel-Name":"sofia/internal/1000@example.com","variable_sip_call_id":"call-456"}"#;
    let envelope = format!(
        "Content-Length: {}\nContent-Type: text/event-json\n\n",
        json_body.len()
    );
    let data = format!("{}{}", envelope, json_body);

    parser
        .add_data(data.as_bytes())
        .unwrap();
    let message = parser
        .parse_message()
        .unwrap()
        .unwrap();
    assert_eq!(message.message_type, MessageType::Event);

    let event = parser
        .parse_event(message, EventFormat::Json)
        .unwrap();
    assert_eq!(event.event_type(), Some(EslEventType::ChannelCreate));
    assert_eq!(event.unique_id(), Some("test-uuid-123"));
    assert_eq!(
        event.header("Channel-Name"),
        Some("sofia/internal/1000@example.com")
    );
    assert_eq!(event.variable("sip_call_id"), Some("call-456"));
}

#[test]
fn protocol_test_json_event_with_body_end_to_end() {
    let mut parser = EslParser::new();
    let json_body = r#"{"Event-Name":"BACKGROUND_JOB","Job-UUID":"job-789","_body":"+OK result data\nline 2"}"#;
    let envelope = format!(
        "Content-Length: {}\nContent-Type: text/event-json\n\n",
        json_body.len()
    );
    let data = format!("{}{}", envelope, json_body);

    parser
        .add_data(data.as_bytes())
        .unwrap();
    let message = parser
        .parse_message()
        .unwrap()
        .unwrap();
    let event = parser
        .parse_event(message, EventFormat::Json)
        .unwrap();
    assert_eq!(event.event_type(), Some(EslEventType::BackgroundJob));
    assert!(event
        .body()
        .is_some());
    assert!(event
        .header("_body")
        .is_none());
}

#[test]
fn protocol_test_parse_event_xml_ampersand_escaped() {
    let mut parser = EslParser::new();
    let xml_body = "\
<event>\n\
<headers>\n\
<Event-Name>CHANNEL_CREATE</Event-Name>\n\
<Caller-Caller-ID-Name>Smith &amp; Jones</Caller-Caller-ID-Name>\n\
<variable_sip_h_Subject>Test &lt;1&gt; &amp; Test &lt;2&gt;</variable_sip_h_Subject>\n\
</headers>\n\
</event>";
    let envelope = format!(
        "Content-Length: {}\nContent-Type: text/event-xml\n\n",
        xml_body.len()
    );
    let data = format!("{}{}", envelope, xml_body);

    parser
        .add_data(data.as_bytes())
        .unwrap();
    let message = parser
        .parse_message()
        .unwrap()
        .unwrap();
    let event = parser
        .parse_event(message, EventFormat::Xml)
        .unwrap();

    assert_eq!(event.event_type(), Some(EslEventType::ChannelCreate));
    assert_eq!(
        event.header("Caller-Caller-ID-Name"),
        Some("Smith & Jones")
    );
    assert_eq!(
        event.variable("sip_h_Subject"),
        Some("Test <1> & Test <2>")
    );
}

#[test]
fn protocol_test_waiting_for_body_multi_chunk() {
    let mut parser = EslParser::new();

    // Send headers first (with body length)
    let headers = b"Content-Type: api/response\nContent-Length: 20\n\n";
    parser
        .add_data(headers)
        .unwrap();

    // Parser transitions to WaitingForBody, returns None
    let result = parser
        .parse_message()
        .unwrap();
    assert!(result.is_none(), "should be waiting for body data");

    // Send first chunk (10 of 20 bytes)
    parser
        .add_data(b"0123456789")
        .unwrap();
    let result = parser
        .parse_message()
        .unwrap();
    assert!(result.is_none(), "still waiting for remaining body data");

    // Send remaining 10 bytes
    parser
        .add_data(b"abcdefghij")
        .unwrap();
    let message = parser
        .parse_message()
        .unwrap()
        .unwrap();
    assert_eq!(message.message_type, MessageType::ApiResponse);
    assert_eq!(message.body, Some("0123456789abcdefghij".to_string()));
}

#[test]
fn protocol_test_rude_rejection_message_type() {
    let mt = MessageType::from_content_type("text/rude-rejection");
    assert_eq!(mt, MessageType::RudeRejection);
}

#[test]
fn protocol_test_to_plain_format_round_trip() {

    let mut original = EslEvent::with_type(EslEventType::Heartbeat);
    original.set_header("Event-Name", "HEARTBEAT");
    original.set_header("Core-UUID", "abc-123");
    original.set_header("Up-Time", "0 years, 0 days, 1 hour");
    original.set_header("Event-Info", "System Ready");

    let plain1 = original.to_plain_format();

    let msg1 = EslMessage::new(
        MessageType::Event,
        {
            let mut h = IndexMap::new();
            h.insert("Content-Type".to_string(), "text/event-plain".to_string());
            h
        },
        Some(plain1.clone()),
    );
    let parsed1 = EslParser::new()
        .parse_event(msg1, EventFormat::Plain)
        .unwrap();

    assert_eq!(parsed1.event_type(), original.event_type());
    assert_eq!(parsed1.headers(), original.headers());
    assert_eq!(parsed1.body(), original.body());

    let plain2 = parsed1.to_plain_format();
    let msg2 = EslMessage::new(
        MessageType::Event,
        {
            let mut h = IndexMap::new();
            h.insert("Content-Type".to_string(), "text/event-plain".to_string());
            h
        },
        Some(plain2),
    );
    let parsed2 = EslParser::new()
        .parse_event(msg2, EventFormat::Plain)
        .unwrap();

    assert_eq!(parsed2.event_type(), original.event_type());
    assert_eq!(parsed2.headers(), original.headers());
    assert_eq!(parsed2.body(), original.body());
}

#[test]
fn protocol_test_to_plain_format_wire_round_trip() {

    // Realistic wire payload as FreeSWITCH would send it (percent-encoded
    // values, headers in FS emission order)
    let wire_body = "\
Event-Name: CHANNEL_CREATE\n\
Core-UUID: 2bde6598-0f10-4b90-b70e-d21f4c9e270f\n\
FreeSWITCH-Hostname: fs01%2Eexample%2Ecom\n\
FreeSWITCH-IPv4: 10%2E0%2E0%2E1\n\
Event-Date-Local: 2025-06-15%2010%3A30%3A00\n\
Unique-ID: a1b2c3d4-5678-9abc-def0-123456789abc\n\
Channel-Name: sofia%2Finternal%2F1000%40example.com\n\
Caller-Caller-ID-Name: J%C3%A9r%C3%B4me%20Poulin\n\
Call-Direction: inbound\n\
Channel-State: CS_INIT\n\
\n";

    let msg = EslMessage::new(
        MessageType::Event,
        {
            let mut h = IndexMap::new();
            h.insert("Content-Type".to_string(), "text/event-plain".to_string());
            h
        },
        Some(wire_body.to_string()),
    );
    let event = EslParser::new()
        .parse_event(msg, EventFormat::Plain)
        .unwrap();

    assert_eq!(
        event.header("FreeSWITCH-Hostname"),
        Some("fs01.example.com")
    );
    assert_eq!(
        event.header(EventHeader::CallerCallerIdName.as_str()),
        Some("Jérôme Poulin")
    );

    let regenerated = event.to_plain_format();

    // Parse the regenerated output back and compare
    let msg2 = EslMessage::new(
        MessageType::Event,
        {
            let mut h = IndexMap::new();
            h.insert("Content-Type".to_string(), "text/event-plain".to_string());
            h
        },
        Some(regenerated.clone()),
    );
    let reparsed = EslParser::new()
        .parse_event(msg2, EventFormat::Plain)
        .unwrap();
    assert_eq!(event.headers(), reparsed.headers());
    assert_eq!(event.body(), reparsed.body());

    // Verify header order is preserved (wire order, not alphabetical)
    let keys: Vec<&str> = regenerated
        .lines()
        .filter(|l| !l.is_empty())
        .map(|l| {
            l.split(':')
                .next()
                .unwrap()
        })
        .collect();
    assert_eq!(keys[0], "Event-Name");
    assert_eq!(keys[1], "Core-UUID");
    assert_eq!(keys[2], "FreeSWITCH-Hostname");
    assert_eq!(keys[3], "FreeSWITCH-IPv4");
}

#[test]
fn protocol_test_to_plain_format_round_trip_with_body() {

    let body_text = "+OK Status\nLine 2\n";
    let mut original = EslEvent::with_type(EslEventType::BackgroundJob);
    original.set_header("Event-Name", "BACKGROUND_JOB");
    original.set_header("Job-UUID", "job-789");
    original.set_header_owned(
        "Content-Length".to_string(),
        body_text
            .len()
            .to_string(),
    );
    original.set_body(body_text.to_string());

    let plain = original.to_plain_format();
    let msg = EslMessage::new(
        MessageType::Event,
        {
            let mut h = IndexMap::new();
            h.insert("Content-Type".to_string(), "text/event-plain".to_string());
            h
        },
        Some(plain),
    );
    let parsed = EslParser::new()
        .parse_event(msg, EventFormat::Plain)
        .unwrap();

    assert_eq!(parsed.event_type(), original.event_type());
    assert_eq!(parsed.headers(), original.headers());
    assert_eq!(parsed.body(), original.body());
}

#[test]
fn plain_event_frame_split_all_points() {
    // Inner body included so splits land mid-envelope-header, between the
    // two terminator \n bytes, mid-event-header, and mid-inner-body.
    let inner_body = "+OK result\n";
    let body = format!(
        "Event-Name: BACKGROUND_JOB\nJob-UUID: abc-123\nContent-Length: {}\n\n{}",
        inner_body.len(),
        inner_body
    );
    let data = format!(
        "Content-Length: {}\nContent-Type: text/event-plain\n\n{}",
        body.len(),
        body
    )
    .into_bytes();

    for split in 1..data.len() {
        let event = parse_wire_split(&data, split, EventFormat::Plain);
        assert_eq!(
            event.event_type(),
            Some(EslEventType::BackgroundJob),
            "split {split}"
        );
        assert_eq!(
            event.header(EventHeader::JobUuid.as_str()),
            Some("abc-123"),
            "split {split}"
        );
        assert_eq!(event.body(), Some(inner_body), "split {split}");
    }
}

#[test]
fn json_event_frame_split_all_points() {
    let json_body =
        r#"{"Event-Name":"BACKGROUND_JOB","Job-UUID":"abc-123","_body":"+OK result"}"#;
    let data = format!(
        "Content-Length: {}\nContent-Type: text/event-json\n\n{}",
        json_body.len(),
        json_body
    )
    .into_bytes();

    for split in 1..data.len() {
        let event = parse_wire_split(&data, split, EventFormat::Json);
        assert_eq!(
            event.event_type(),
            Some(EslEventType::BackgroundJob),
            "split {split}"
        );
        assert_eq!(event.body(), Some("+OK result"), "split {split}");
    }
}

#[test]
fn xml_event_frame_split_all_points() {
    let xml_body = "<event>\n  <headers>\n    <Event-Name>BACKGROUND_JOB</Event-Name>\n    <Job-UUID>abc-123</Job-UUID>\n  </headers>\n  <body>+OK result</body>\n</event>";
    let data = format!(
        "Content-Length: {}\nContent-Type: text/event-xml\n\n{}",
        xml_body.len(),
        xml_body
    )
    .into_bytes();

    for split in 1..data.len() {
        let event = parse_wire_split(&data, split, EventFormat::Xml);
        assert_eq!(
            event.event_type(),
            Some(EslEventType::BackgroundJob),
            "split {split}"
        );
        assert_eq!(event.body(), Some("+OK result"), "split {split}");
    }
}

#[test]
fn multiple_event_frames_in_single_read() {
    let mut parser = EslParser::new();

    let bodies = [
        "Event-Name: CHANNEL_CREATE\nUnique-ID: uuid-1\n\n",
        "Event-Name: CHANNEL_ANSWER\nUnique-ID: uuid-2\n\n",
        "Event-Name: CHANNEL_DESTROY\nUnique-ID: uuid-3\n\n",
    ];
    let mut data = Vec::new();
    for body in &bodies {
        data.extend_from_slice(
            format!(
                "Content-Length: {}\nContent-Type: text/event-plain\n\n{}",
                body.len(),
                body
            )
            .as_bytes(),
        );
    }

    parser
        .add_data(&data)
        .unwrap();

    let expected = [
        (EslEventType::ChannelCreate, "uuid-1"),
        (EslEventType::ChannelAnswer, "uuid-2"),
        (EslEventType::ChannelDestroy, "uuid-3"),
    ];
    for (event_type, uuid) in expected {
        let message = parser
            .parse_message()
            .unwrap()
            .expect("all frames arrived in one read");
        let event = parser
            .parse_event(message, EventFormat::Plain)
            .unwrap();
        assert_eq!(event.event_type(), Some(event_type));
        assert_eq!(event.unique_id(), Some(uuid));
    }
    assert!(parser
        .parse_message()
        .unwrap()
        .is_none());
}

#[test]
fn event_format_test_parse_event_plain() {
    let mut parser = EslParser::new();
    // Correct two-part wire format: outer envelope + body with event headers
    let body = "Event-Name: CHANNEL_ANSWER\nUnique-ID: test-uuid\n\n";
    let envelope = format!(
        "Content-Length: {}\nContent-Type: text/event-plain\n\n",
        body.len()
    );
    let data = format!("{}{}", envelope, body);

    parser
        .add_data(data.as_bytes())
        .unwrap();
    let message = parser
        .parse_message()
        .unwrap()
        .unwrap();
    let event = parser
        .parse_event(message, EventFormat::Plain)
        .unwrap();

    assert_eq!(event.event_type(), Some(EslEventType::ChannelAnswer));
    assert_eq!(event.unique_id(), Some("test-uuid"));
}

#[test]
fn event_format_test_parse_event_plain_percent_decoding() {
    let mut parser = EslParser::new();
    let body = "Event-Name: HEARTBEAT\nUp-Time: 0%20years%2C%200%20days\nEvent-Info: System%20Ready\n\n";
    let envelope = format!(
        "Content-Length: {}\nContent-Type: text/event-plain\n\n",
        body.len()
    );
    let data = format!("{}{}", envelope, body);

    parser
        .add_data(data.as_bytes())
        .unwrap();
    let message = parser
        .parse_message()
        .unwrap()
        .unwrap();
    let event = parser
        .parse_event(message, EventFormat::Plain)
        .unwrap();

    assert_eq!(event.event_type(), Some(EslEventType::Heartbeat));
    assert_eq!(event.header("Up-Time"), Some("0 years, 0 days"));
    assert_eq!(event.header("Event-Info"), Some("System Ready"));
}

#[test]
fn event_format_test_parse_event_plain_with_inner_body() {
    let mut parser = EslParser::new();
    // Event with inner body (e.g., BACKGROUND_JOB result)
    let inner_body = "+OK Status\n";
    let event_headers = format!(
        "Event-Name: BACKGROUND_JOB\nJob-UUID: abc-123\nContent-Length: {}\n",
        inner_body.len()
    );
    let body = format!("{}\n{}", event_headers, inner_body);
    let envelope = format!(
        "Content-Length: {}\nContent-Type: text/event-plain\n\n",
        body.len()
    );
    let data = format!("{}{}", envelope, body);

    parser
        .add_data(data.as_bytes())
        .unwrap();
    let message = parser
        .parse_message()
        .unwrap()
        .unwrap();
    let event = parser
        .parse_event(message, EventFormat::Plain)
        .unwrap();

    assert_eq!(event.event_type(), Some(EslEventType::BackgroundJob));
    assert_eq!(event.header(EventHeader::JobUuid.as_str()), Some("abc-123"));
    assert_eq!(event.body(), Some("+OK Status\n"));
}

/// log/data uses single-level framing: metadata in outer envelope,
/// raw log text as body. This matches mod_event_socket.c's output.
#[test]
fn event_format_test_parse_log_data_event() {
    let mut parser = EslParser::new();
    let log_text = "2024-01-01 00:00:00.000000 [INFO] mod_sofia.c:1234 Registration ok\n";
    let envelope = format!(
        "Content-Type: log/data\nContent-Length: {}\nLog-Level: 6\nText-Channel: 0\nLog-File: mod_sofia.c\nLog-Func: sofia_reg_handle\nLog-Line: 1234\nUser-Data: \n\n{}",
        log_text.len(),
        log_text,
    );

    parser
        .add_data(envelope.as_bytes())
        .unwrap();
    let message = parser
        .parse_message()
        .unwrap()
        .unwrap();

    assert_eq!(message.message_type, MessageType::Event);

    let event = parser
        .parse_event(message, EventFormat::Plain)
        .unwrap();

    assert_eq!(event.event_type(), Some(EslEventType::Log));
    assert_eq!(event.header("Log-Level"), Some("6"));
    assert_eq!(event.header("Content-Type"), Some("log/data"));
    assert_eq!(event.header("Log-File"), Some("mod_sofia.c"));
    assert_eq!(event.header("Log-Func"), Some("sofia_reg_handle"));
    assert_eq!(event.header("Log-Line"), Some("1234"));
    assert_eq!(event.body(), Some(log_text));
}

#[test]
fn event_format_test_notify_in_event_with_pl_data() {
    let mut parser = EslParser::new();
    // NOTIFY_IN event with percent-encoded pl_data containing JSON
    let json_payload = r#"{"Invite":"INVITE urn:service:sos SIP/2.0","InviteTimestamp":"2025-01-15T12:00:00Z"}"#;
    let encoded_payload =
        percent_encoding::utf8_percent_encode(json_payload, percent_encoding::NON_ALPHANUMERIC)
            .to_string();
    let body = format!(
        "Event-Name: NOTIFY_IN\nevent: emergency-AbandonedCall\npl_data: {}\nsip_content_type: application%2Fjson\ngateway_name: ng911-bcf\n\n",
        encoded_payload
    );
    let envelope = format!(
        "Content-Length: {}\nContent-Type: text/event-plain\n\n",
        body.len()
    );
    let data = format!("{}{}", envelope, body);

    parser
        .add_data(data.as_bytes())
        .unwrap();
    let message = parser
        .parse_message()
        .unwrap()
        .unwrap();
    let event = parser
        .parse_event(message, EventFormat::Plain)
        .unwrap();

    assert_eq!(event.event_type(), Some(EslEventType::NotifyIn));
    assert_eq!(event.header("event"), Some("emergency-AbandonedCall"));
    // pl_data must be percent-decoded back to raw JSON
    assert_eq!(event.header("pl_data"), Some(json_payload));
    assert_eq!(
        event.header("sip_content_type"),
        Some("application/json")
    );
    assert_eq!(event.header("gateway_name"), Some("ng911-bcf"));
}

#[test]
fn event_format_test_parse_json_event_body_key() {
    let parser = EslParser::new();
    let json = r#"{"Event-Name":"BACKGROUND_JOB","Job-UUID":"abc-123","_body":"+OK result"}"#;
    let msg = EslMessage::new(
        MessageType::Event,
        {
            let mut h = IndexMap::new();
            h.insert("Content-Type".to_string(), "text/event-json".to_string());
            h
        },
        Some(json.to_string()),
    );
    let event = parser
        .parse_event(msg, EventFormat::Json)
        .unwrap();
    assert_eq!(event.event_type(), Some(EslEventType::BackgroundJob));
    assert_eq!(event.body(), Some("+OK result"));
    assert!(
        event
            .header("_body")
            .is_none(),
        "_body must be mapped to event body, not stored as a header"
    );
}

#[test]
fn event_format_test_json_event_end_to_end() {
    let mut parser = EslParser::new();
    let json_body = r#"{"Event-Name":"CHANNEL_CREATE","Unique-ID":"test-uuid-123","Channel-Name":"sofia/internal/1000@example.com","variable_sip_call_id":"call-456"}"#;
    let envelope = format!(
        "Content-Length: {}\nContent-Type: text/event-json\n\n",
        json_body.len()
    );
    let data = format!("{}{}", envelope, json_body);

    parser
        .add_data(data.as_bytes())
        .unwrap();
    let message = parser
        .parse_message()
        .unwrap()
        .unwrap();
    assert_eq!(message.message_type, MessageType::Event);

    let event = parser
        .parse_event(message, EventFormat::Json)
        .unwrap();
    assert_eq!(event.event_type(), Some(EslEventType::ChannelCreate));
    assert_eq!(event.unique_id(), Some("test-uuid-123"));
    assert_eq!(
        event.header("Channel-Name"),
        Some("sofia/internal/1000@example.com")
    );
    assert_eq!(event.variable("sip_call_id"), Some("call-456"));
}

#[test]
fn event_format_test_json_event_with_body_end_to_end() {
    let mut parser = EslParser::new();
    let json_body = r#"{"Event-Name":"BACKGROUND_JOB","Job-UUID":"job-789","_body":"+OK result data\nline 2"}"#;
    let envelope = format!(
        "Content-Length: {}\nContent-Type: text/event-json\n\n",
        json_body.len()
    );
    let data = format!("{}{}", envelope, json_body);

    parser
        .add_data(data.as_bytes())
        .unwrap();
    let message = parser
        .parse_message()
        .unwrap()
        .unwrap();
    let event = parser
        .parse_event(message, EventFormat::Json)
        .unwrap();
    assert_eq!(event.event_type(), Some(EslEventType::BackgroundJob));
    assert!(event
        .body()
        .is_some());
    assert!(event
        .header("_body")
        .is_none());
}

#[test]
fn event_format_test_to_plain_format_round_trip() {

    let mut original = EslEvent::with_type(EslEventType::Heartbeat);
    original.set_header("Event-Name", "HEARTBEAT");
    original.set_header("Core-UUID", "abc-123");
    original.set_header("Up-Time", "0 years, 0 days, 1 hour");
    original.set_header("Event-Info", "System Ready");

    let plain1 = original.to_plain_format();

    let msg1 = EslMessage::new(
        MessageType::Event,
        {
            let mut h = IndexMap::new();
            h.insert("Content-Type".to_string(), "text/event-plain".to_string());
            h
        },
        Some(plain1.clone()),
    );
    let parsed1 = EslParser::new()
        .parse_event(msg1, EventFormat::Plain)
        .unwrap();

    assert_eq!(parsed1.event_type(), original.event_type());
    assert_eq!(parsed1.headers(), original.headers());
    assert_eq!(parsed1.body(), original.body());

    let plain2 = parsed1.to_plain_format();
    let msg2 = EslMessage::new(
        MessageType::Event,
        {
            let mut h = IndexMap::new();
            h.insert("Content-Type".to_string(), "text/event-plain".to_string());
            h
        },
        Some(plain2),
    );
    let parsed2 = EslParser::new()
        .parse_event(msg2, EventFormat::Plain)
        .unwrap();

    assert_eq!(parsed2.event_type(), original.event_type());
    assert_eq!(parsed2.headers(), original.headers());
    assert_eq!(parsed2.body(), original.body());
}

#[test]
fn event_format_test_to_plain_format_wire_round_trip() {

    // Realistic wire payload as FreeSWITCH would send it (percent-encoded
    // values, headers in FS emission order)
    let wire_body = "\
Event-Name: CHANNEL_CREATE\n\
Core-UUID: 2bde6598-0f10-4b90-b70e-d21f4c9e270f\n\
FreeSWITCH-Hostname: fs01%2Eexample%2Ecom\n\
FreeSWITCH-IPv4: 10%2E0%2E0%2E1\n\
Event-Date-Local: 2025-06-15%2010%3A30%3A00\n\
Unique-ID: a1b2c3d4-5678-9abc-def0-123456789abc\n\
Channel-Name: sofia%2Finternal%2F1000%40example.com\n\
Caller-Caller-ID-Name: J%C3%A9r%C3%B4me%20Poulin\n\
Call-Direction: inbound\n\
Channel-State: CS_INIT\n\
\n";

    let msg = EslMessage::new(
        MessageType::Event,
        {
            let mut h = IndexMap::new();
            h.insert("Content-Type".to_string(), "text/event-plain".to_string());
            h
        },
        Some(wire_body.to_string()),
    );
    let event = EslParser::new()
        .parse_event(msg, EventFormat::Plain)
        .unwrap();

    assert_eq!(
        event.header("FreeSWITCH-Hostname"),
        Some("fs01.example.com")
    );
    assert_eq!(
        event.header(EventHeader::CallerCallerIdName.as_str()),
        Some("Jérôme Poulin")
    );

    let regenerated = event.to_plain_format();

    // Parse the regenerated output back and compare
    let msg2 = EslMessage::new(
        MessageType::Event,
        {
            let mut h = IndexMap::new();
            h.insert("Content-Type".to_string(), "text/event-plain".to_string());
            h
        },
        Some(regenerated.clone()),
    );
    let reparsed = EslParser::new()
        .parse_event(msg2, EventFormat::Plain)
        .unwrap();
    assert_eq!(event.headers(), reparsed.headers());
    assert_eq!(event.body(), reparsed.body());

    // Verify header order is preserved (wire order, not alphabetical)
    let keys: Vec<&str> = regenerated
        .lines()
        .filter(|l| !l.is_empty())
        .map(|l| {
            l.split(':')
                .next()
                .unwrap()
        })
        .collect();
    assert_eq!(keys[0], "Event-Name");
    assert_eq!(keys[1], "Core-UUID");
    assert_eq!(keys[2], "FreeSWITCH-Hostname");
    assert_eq!(keys[3], "FreeSWITCH-IPv4");
}

#[test]
fn event_format_test_to_plain_format_round_trip_with_body() {

    let body_text = "+OK Status\nLine 2\n";
    let mut original = EslEvent::with_type(EslEventType::BackgroundJob);
    original.set_header("Event-Name", "BACKGROUND_JOB");
    original.set_header("Job-UUID", "job-789");
    original.set_header_owned(
        "Content-Length".to_string(),
        body_text
            .len()
            .to_string(),
    );
    original.set_body(body_text.to_string());

    let plain = original.to_plain_format();
    let msg = EslMessage::new(
        MessageType::Event,
        {
            let mut h = IndexMap::new();
            h.insert("Content-Type".to_string(), "text/event-plain".to_string());
            h
        },
        Some(plain),
    );
    let parsed = EslParser::new()
        .parse_event(msg, EventFormat::Plain)
        .unwrap();

    assert_eq!(parsed.event_type(), original.event_type());
    assert_eq!(parsed.headers(), original.headers());
    assert_eq!(parsed.body(), original.body());
}

#[test]
fn xml_test_parse_event_xml_heartbeat() {
    let mut parser = EslParser::new();
    let xml_body = "\
<event>\n\
<headers>\n\
<Event-Name>HEARTBEAT</Event-Name>\n\
<Core-UUID>abc-123</Core-UUID>\n\
<Up-Time>0 years, 1 day</Up-Time>\n\
</headers>\n\
</event>";
    let envelope = format!(
        "Content-Length: {}\nContent-Type: text/event-xml\n\n",
        xml_body.len()
    );
    let data = format!("{}{}", envelope, xml_body);

    parser
        .add_data(data.as_bytes())
        .unwrap();
    let message = parser
        .parse_message()
        .unwrap()
        .unwrap();
    let event = parser
        .parse_event(message, EventFormat::Xml)
        .unwrap();

    assert_eq!(event.event_type(), Some(EslEventType::Heartbeat));
    assert_eq!(event.header(EventHeader::CoreUuid.as_str()), Some("abc-123"));
    assert_eq!(event.header("Up-Time"), Some("0 years, 1 day"));
}

#[test]
fn xml_test_parse_event_xml_with_body() {
    let mut parser = EslParser::new();
    let xml_body = "\
<event>\n\
<headers>\n\
<Event-Name>BACKGROUND_JOB</Event-Name>\n\
<Job-UUID>def-456</Job-UUID>\n\
</headers>\n\
<body>+OK result data</body>\n\
</event>";
    let envelope = format!(
        "Content-Length: {}\nContent-Type: text/event-xml\n\n",
        xml_body.len()
    );
    let data = format!("{}{}", envelope, xml_body);

    parser
        .add_data(data.as_bytes())
        .unwrap();
    let message = parser
        .parse_message()
        .unwrap()
        .unwrap();
    let event = parser
        .parse_event(message, EventFormat::Xml)
        .unwrap();

    assert_eq!(event.event_type(), Some(EslEventType::BackgroundJob));
    assert_eq!(event.header(EventHeader::JobUuid.as_str()), Some("def-456"));
    assert_eq!(event.body(), Some("+OK result data"));
}

#[test]
fn xml_test_parse_event_xml_ampersand_escaped() {
    let mut parser = EslParser::new();
    let xml_body = "\
<event>\n\
<headers>\n\
<Event-Name>CHANNEL_CREATE</Event-Name>\n\
<Caller-Caller-ID-Name>Smith &amp; Jones</Caller-Caller-ID-Name>\n\
<variable_sip_h_Subject>Test &lt;1&gt; &amp; Test &lt;2&gt;</variable_sip_h_Subject>\n\
</headers>\n\
</event>";
    let envelope = format!(
        "Content-Length: {}\nContent-Type: text/event-xml\n\n",
        xml_body.len()
    );
    let data = format!("{}{}", envelope, xml_body);

    parser
        .add_data(data.as_bytes())
        .unwrap();
    let message = parser
        .parse_message()
        .unwrap()
        .unwrap();
    let event = parser
        .parse_event(message, EventFormat::Xml)
        .unwrap();

    assert_eq!(event.event_type(), Some(EslEventType::ChannelCreate));
    assert_eq!(
        event.header("Caller-Caller-ID-Name"),
        Some("Smith & Jones")
    );
    assert_eq!(
        event.variable("sip_h_Subject"),
        Some("Test <1> & Test <2>")
    );
}

#[test]
fn mod_test_parse_headers() {
    let parser = EslParser::new();
    let headers_str = "Content-Type: auth/request\r\nContent-Length: 0";
    let headers = parser
        .parse_headers(headers_str)
        .unwrap();

    assert_eq!(
        headers
            .get("Content-Type")
            .map(|s| s.as_str()),
        Some("auth/request")
    );
    assert_eq!(
        headers
            .get("Content-Length")
            .map(|s| s.as_str()),
        Some("0")
    );
}

#[test]
fn mod_parsed_headers_preserve_insertion_order() {
    let parser = EslParser::new();
    let headers_str = "Alpha: 1\r\nBravo: 2\r\nCharlie: 3\r\nDelta: 4";
    let headers = parser
        .parse_headers(headers_str)
        .unwrap();
    let keys: Vec<&str> = headers
        .keys()
        .map(|s| s.as_str())
        .collect();
    assert_eq!(keys, vec!["Alpha", "Bravo", "Charlie", "Delta"]);
}

#[test]
fn mod_test_parse_auth_request() {
    let mut parser = EslParser::new();
    let data = b"Content-Type: auth/request\n\n";

    parser
        .add_data(data)
        .unwrap();
    let message = parser
        .parse_message()
        .unwrap()
        .unwrap();

    assert_eq!(message.message_type, MessageType::AuthRequest);
    assert!(message
        .body
        .is_none());
}

#[test]
fn mod_test_parse_api_response() {
    let mut parser = EslParser::new();
    let data = b"Content-Type: api/response\nContent-Length: 2\n\nOK";

    parser
        .add_data(data)
        .unwrap();
    let message = parser
        .parse_message()
        .unwrap()
        .unwrap();

    assert_eq!(message.message_type, MessageType::ApiResponse);
    assert_eq!(message.body, Some("OK".to_string()));
}

#[test]
fn mod_test_incomplete_message() {
    let mut parser = EslParser::new();
    let data = b"Content-Type: api/response\nContent-Length: 10\n\ntest"; // Only 4 bytes instead of 10

    parser
        .add_data(data)
        .unwrap();
    let result = parser
        .parse_message()
        .unwrap();

    assert!(result.is_none()); // Should return None for incomplete message
}

#[test]
fn mod_test_crlf_header_terminator_not_matched() {
    // ESL uses \n\n, not \r\n\r\n. If something injects \r\n line endings,
    // the parser must not hang — but it won't find the terminator either.
    // This documents the current behavior: \r\n\r\n is NOT recognized as
    // a header terminator, so the message stays incomplete.
    let mut parser = EslParser::new();
    let data = b"Content-Type: auth/request\r\n\r\n";

    parser
        .add_data(data)
        .unwrap();
    let result = parser
        .parse_message()
        .unwrap();
    assert!(
        result.is_none(),
        "\\r\\n\\r\\n should not match \\n\\n terminator"
    );
}

#[test]
fn mod_test_crlf_in_header_values_parsed_correctly() {
    // If \r\n appears within a \n\n-framed message, parse_headers()
    // uses .lines() which strips \r, so header values stay clean.
    let mut parser = EslParser::new();
    let data = b"Content-Type: auth/request\r\nSome-Header: some-value\n\n";

    parser
        .add_data(data)
        .unwrap();
    let message = parser
        .parse_message()
        .unwrap()
        .unwrap();
    assert_eq!(message.message_type, MessageType::AuthRequest);
    assert_eq!(
        message
            .headers
            .get("Some-Header")
            .map(|s| s.as_str()),
        Some("some-value")
    );
}

#[test]
fn mod_test_oversized_content_length_rejected() {
    let mut parser = EslParser::new();
    let data = format!(
        "Content-Type: api/response\nContent-Length: {}\n\n",
        MAX_MESSAGE_SIZE + 1
    );

    parser
        .add_data(data.as_bytes())
        .unwrap();
    let result = parser.parse_message();
    assert!(
        result.is_err(),
        "Content-Length exceeding MAX_MESSAGE_SIZE must be rejected"
    );
}

#[test]
fn mod_test_undersized_content_length_corrupts_next_message() {
    // Content-Length: 2 but body is "Hello" (5 bytes). The parser trusts
    // Content-Length and reads only 2 bytes, leaving "llo" in the buffer.
    // The next parse attempt sees "llo" as the start of a new message,
    // which won't have a valid header terminator — so it returns None.
    let mut parser = EslParser::new();
    let data = b"Content-Type: api/response\nContent-Length: 2\n\nHello";

    parser
        .add_data(data)
        .unwrap();
    let message = parser
        .parse_message()
        .unwrap()
        .unwrap();
    assert_eq!(message.message_type, MessageType::ApiResponse);
    assert_eq!(message.body, Some("He".to_string()));

    // Leftover "llo" is now junk in the buffer — next parse finds nothing
    let next = parser
        .parse_message()
        .unwrap();
    assert!(
        next.is_none(),
        "Leftover bytes should not form a valid message"
    );
}

#[test]
fn mod_test_undersized_content_length_followed_by_valid_message() {
    // Same scenario but a valid second message follows the junk.
    // The leftover bytes merge with the next message's headers,
    // making recovery impossible without reconnecting.
    let mut parser = EslParser::new();
    let msg1 = b"Content-Type: api/response\nContent-Length: 2\n\nHello";
    let msg2 = b"Content-Type: auth/request\n\n";

    parser
        .add_data(msg1)
        .unwrap();
    let first = parser
        .parse_message()
        .unwrap()
        .unwrap();
    assert_eq!(first.body, Some("He".to_string()));

    parser
        .add_data(msg2)
        .unwrap();
    let second = parser.parse_message();
    // "llo" + msg2 bytes = "lloContent-Type: auth/request\n\n"
    // The parser finds \n\n and parses "lloContent-Type: auth/request"
    // as key="lloContent-Type" value="auth/request". No real Content-Type
    // header exists, so the parser returns a protocol error — signaling
    // the caller to disconnect.
    assert!(
        second.is_err(),
        "Desync must be detected as a protocol error"
    );
}

#[test]
fn mod_test_non_numeric_content_length_rejected() {
    let mut parser = EslParser::new();
    let data = b"Content-Type: api/response\nContent-Length: abc\n\n";

    parser
        .add_data(data)
        .unwrap();
    let result = parser.parse_message();
    assert!(
        result.is_err(),
        "Non-numeric Content-Length must be rejected"
    );
}

#[test]
fn mod_test_waiting_for_body_multi_chunk() {
    let mut parser = EslParser::new();

    // Send headers first (with body length)
    let headers = b"Content-Type: api/response\nContent-Length: 20\n\n";
    parser
        .add_data(headers)
        .unwrap();

    // Parser transitions to WaitingForBody, returns None
    let result = parser
        .parse_message()
        .unwrap();
    assert!(result.is_none(), "should be waiting for body data");

    // Send first chunk (10 of 20 bytes)
    parser
        .add_data(b"0123456789")
        .unwrap();
    let result = parser
        .parse_message()
        .unwrap();
    assert!(result.is_none(), "still waiting for remaining body data");

    // Send remaining 10 bytes
    parser
        .add_data(b"abcdefghij")
        .unwrap();
    let message = parser
        .parse_message()
        .unwrap()
        .unwrap();
    assert_eq!(message.message_type, MessageType::ApiResponse);
    assert_eq!(message.body, Some("0123456789abcdefghij".to_string()));
}

#[test]
fn mod_test_rude_rejection_message_type() {
    // `from_content_type` names every content type, so there is no error to
    // unwrap here.
    let mt = MessageType::from_content_type("text/rude-rejection");
    assert_eq!(mt, MessageType::RudeRejection);
}
