use freeswitch_esl_tokio::connection::salvage_truncated_auth_response;
use freeswitch_esl_tokio::protocol::{EslParser, MessageType};

#[test]
fn salvage_truncated_auth_response_realistic() {
    // Simulates FreeSWITCH reply[512] overflow: long Allowed-Events
    // header causes Allowed-API to be truncated and \n\n never sent.
    let wire_data = "\
        Content-Type: command/reply\n\
        Reply-Text: +OK accepted\n\
        Allowed-Events: HEARTBEAT BACKGROUND_JOB CHANNEL_CREATE \
        CHANNEL_ANSWER CHANNEL_HANGUP_COMPLETE CHANNEL_STATE \
        CHANNEL_DATA CHANNEL_CALLSTATE CHANNEL_EXECUTE \
        CHANNEL_EXECUTE_COMPLETE CHANNEL_BRIDGE NOTIFY_IN \
        CHANNEL_DESTROY CHANNEL_HANGUP CHANNEL_HOLD CHANNEL_UNHOLD \
        CHANNEL_UNBRIDGE CHANNEL_PROGRESS CHANNEL_PROGRESS_MEDIA \
        CHANNEL_OUTGOING CHANNEL_PARK CHANNEL_UNPARK \
        CHANNEL_APPLICATION CHANNEL_ORIGINATE CHANNEL_UUID CUSTOM \
        sofia::gateway_state sofia::gateway_delete\n\
        Allowed-API: show";

    let mut parser = EslParser::new();
    parser
        .add_data(wire_data.as_bytes())
        .unwrap();

    // Normal parse should return None — no \n\n terminator
    assert!(parser
        .parse_message()
        .unwrap()
        .is_none());

    let msg = salvage_truncated_auth_response(&mut parser)
        .unwrap()
        .expect("salvage should succeed");

    assert_eq!(msg.message_type, MessageType::CommandReply);
    assert_eq!(
        msg.headers
            .get("Reply-Text")
            .map(|s| s.as_str()),
        Some("+OK accepted")
    );
    assert!(msg
        .headers
        .get("Allowed-Events")
        .is_some());
    // Truncated value is preserved (normalize_header_key title-cases "API" → "Api")
    assert_eq!(
        msg.headers
            .get("Allowed-Api")
            .map(|s| s.as_str()),
        Some("show")
    );

    // Parser buffer is drained
    assert_eq!(
        parser
            .remaining_bytes()
            .len(),
        0
    );
}

#[test]
fn salvage_truncated_mid_header_name() {
    // Truncation cut mid-header-name (no colon in trailing fragment)
    let wire_data = "Content-Type: command/reply\nReply-Text: +OK accepted\nAllo";

    let mut parser = EslParser::new();
    parser
        .add_data(wire_data.as_bytes())
        .unwrap();

    let msg = salvage_truncated_auth_response(&mut parser)
        .unwrap()
        .expect("salvage should succeed with partial line dropped");

    assert_eq!(msg.message_type, MessageType::CommandReply);
    assert_eq!(
        msg.headers
            .get("Reply-Text")
            .map(|s| s.as_str()),
        Some("+OK accepted")
    );
    // "Allo" fragment was dropped
    assert!(msg
        .headers
        .get("Allo")
        .is_none());
}

#[test]
fn salvage_empty_buffer_returns_none() {
    let mut parser = EslParser::new();
    assert!(salvage_truncated_auth_response(&mut parser)
        .unwrap()
        .is_none());
}

#[test]
fn salvage_no_newline_returns_none() {
    let mut parser = EslParser::new();
    parser
        .add_data(b"Content-Type: command/reply")
        .unwrap();
    assert!(salvage_truncated_auth_response(&mut parser)
        .unwrap()
        .is_none());
}

#[test]
fn salvage_wrong_content_type_returns_error() {
    let wire_data = "Content-Type: auth/request\n";
    let mut parser = EslParser::new();
    parser
        .add_data(wire_data.as_bytes())
        .unwrap();

    let result = salvage_truncated_auth_response(&mut parser);
    assert!(result.is_err());
    assert!(result
        .unwrap_err()
        .to_string()
        .contains("command/reply"),);
}
