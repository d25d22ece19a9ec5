use freeswitch_esl_tokio::channel::{AnswerState, CallDirection, CallState, ChannelState};
use freeswitch_esl_tokio::event::{EslEvent, EslEventPriority, EslEventType, EventFormat};
use freeswitch_esl_tokio::protocol::{EslMessage, EslParser, MessageType};
use indexmap::IndexMap;

#[test]
fn test_notify_in_parse() {
    assert_eq!(
        EslEventType::parse_event_type("NOTIFY_IN"),
        Some(EslEventType::NotifyIn)
    );
    assert_eq!(
        EslEventType::parse_event_type("notify_in"),
        Some(EslEventType::NotifyIn)
    );
}

#[test]
fn test_notify_in_display() {
    assert_eq!(EslEventType::NotifyIn.to_string(), "NOTIFY_IN");
}

#[test]
fn test_notify_in_distinct_from_notify() {
    assert_ne!(EslEventType::Notify, EslEventType::NotifyIn);
    assert_ne!(
        EslEventType::Notify.to_string(),
        EslEventType::NotifyIn.to_string()
    );
}

#[test]
fn test_wire_names_match_c_esl() {
    assert_eq!(
        EslEventType::ChannelOutgoing.to_string(),
        "CHANNEL_OUTGOING"
    );
    assert_eq!(EslEventType::Api.to_string(), "API");
    assert_eq!(EslEventType::ReloadXml.to_string(), "RELOADXML");
    assert_eq!(EslEventType::PresenceIn.to_string(), "PRESENCE_IN");
    assert_eq!(EslEventType::Roster.to_string(), "ROSTER");
    assert_eq!(EslEventType::Text.to_string(), "TEXT");
    assert_eq!(EslEventType::ReSchedule.to_string(), "RE_SCHEDULE");

    assert_eq!(
        EslEventType::parse_event_type("CHANNEL_OUTGOING"),
        Some(EslEventType::ChannelOutgoing)
    );
    assert_eq!(
        EslEventType::parse_event_type("API"),
        Some(EslEventType::Api)
    );
    assert_eq!(
        EslEventType::parse_event_type("RELOADXML"),
        Some(EslEventType::ReloadXml)
    );
    assert_eq!(
        EslEventType::parse_event_type("PRESENCE_IN"),
        Some(EslEventType::PresenceIn)
    );
}

#[test]
fn test_event_type_from_str() {
    assert_eq!(
        "CHANNEL_ANSWER".parse::<EslEventType>(),
        Ok(EslEventType::ChannelAnswer)
    );
    assert_eq!(
        "channel_answer".parse::<EslEventType>(),
        Ok(EslEventType::ChannelAnswer)
    );
    assert!("UNKNOWN_EVENT"
        .parse::<EslEventType>()
        .is_err());
}

#[test]
fn test_del_header() {
    let mut event = EslEvent::new();
    event.set_header("Foo", "bar");
    event.set_header("Baz", "qux");

    let removed = event.del_header("Foo");
    assert_eq!(removed, Some("bar".to_string()));
    assert!(event
        .header("Foo")
        .is_none());
    assert_eq!(event.header("Baz"), Some("qux"));

    let removed_again = event.del_header("Foo");
    assert_eq!(removed_again, None);
}

#[test]
fn test_to_plain_format_basic() {
    let mut event = EslEvent::with_type(EslEventType::Heartbeat);
    event.set_header("Event-Name", "HEARTBEAT");
    event.set_header("Core-UUID", "abc-123");

    let plain = event.to_plain_format();

    assert!(plain.starts_with("Event-Name: "));
    assert!(plain.contains("Core-UUID: "));
    assert!(plain.ends_with("\n\n"));
}

#[test]
fn test_to_plain_format_percent_encoding() {
    let mut event = EslEvent::with_type(EslEventType::Heartbeat);
    event.set_header("Event-Name", "HEARTBEAT");
    event.set_header("Up-Time", "0 years, 0 days");

    let plain = event.to_plain_format();

    assert!(!plain.contains("0 years, 0 days"));
    assert!(plain.contains("Up-Time: "));
    assert!(plain.contains("%20"));
}

#[test]
fn test_to_plain_format_with_body() {
    let mut event = EslEvent::with_type(EslEventType::BackgroundJob);
    event.set_header("Event-Name", "BACKGROUND_JOB");
    event.set_header("Job-UUID", "def-456");
    event.set_body("+OK result\n".to_string());

    let plain = event.to_plain_format();

    assert!(plain.contains("Content-Length: 11\n"));
    assert!(plain.ends_with("\n\n+OK result\n"));
}

#[test]
fn event_test_to_plain_format_round_trip() {
    let mut original = EslEvent::with_type(EslEventType::Heartbeat);
    original.set_header("Event-Name", "HEARTBEAT");
    original.set_header("Core-UUID", "abc-123");
    original.set_header("Up-Time", "0 years, 0 days, 1 hour");
    original.set_header("Event-Info", "System Ready");

    let plain1 = original.to_plain_format();

    let msg1 = EslMessage::new(
        MessageType::Event,
        {
            let mut h = IndexMap::new();
            h.insert("Content-Type".to_string(), "text/event-plain".to_string());
            h
        },
        Some(plain1.clone()),
    );
    let parsed1 = EslParser::new()
        .parse_event(msg1, EventFormat::Plain)
        .unwrap();

    assert_eq!(parsed1.event_type(), original.event_type());
    assert_eq!(parsed1.headers(), original.headers());
    assert_eq!(parsed1.body(), original.body());

    let plain2 = parsed1.to_plain_format();
    let msg2 = EslMessage::new(
        MessageType::Event,
        {
            let mut h = IndexMap::new();
            h.insert("Content-Type".to_string(), "text/event-plain".to_string());
            h
        },
        Some(plain2),
    );
    let parsed2 = EslParser::new()
        .parse_event(msg2, EventFormat::Plain)
        .unwrap();

    assert_eq!(parsed2.event_type(), original.event_type());
    assert_eq!(parsed2.headers(), original.headers());
    assert_eq!(parsed2.body(), original.body());
}

#[test]
fn event_test_to_plain_format_round_trip_with_body() {
    let body_text = "+OK Status\nLine 2\n";
    let mut original = EslEvent::with_type(EslEventType::BackgroundJob);
    original.set_header("Event-Name", "BACKGROUND_JOB");
    original.set_header("Job-UUID", "job-789");
    original.set_header_owned(
        "Content-Length".to_string(),
        body_text
            .len()
            .to_string(),
    );
    original.set_body(body_text.to_string());

    let plain = original.to_plain_format();
    let msg = EslMessage::new(
        MessageType::Event,
        {
            let mut h = IndexMap::new();
            h.insert("Content-Type".to_string(), "text/event-plain".to_string());
            h
        },
        Some(plain),
    );
    let parsed = EslParser::new()
        .parse_event(msg, EventFormat::Plain)
        .unwrap();

    assert_eq!(parsed.event_type(), original.event_type());
    assert_eq!(parsed.headers(), original.headers());
    assert_eq!(parsed.body(), original.body());
}

#[test]
fn test_set_priority_normal() {
    let mut event = EslEvent::new();
    event.set_priority(EslEventPriority::Normal);
    assert_eq!(event.priority(), Some(EslEventPriority::Normal));
    assert_eq!(event.header("priority"), Some("NORMAL"));
}

#[test]
fn test_set_priority_high() {
    let mut event = EslEvent::new();
    event.set_priority(EslEventPriority::High);
    assert_eq!(event.priority(), Some(EslEventPriority::High));
    assert_eq!(event.header("priority"), Some("HIGH"));
}

#[test]
fn test_priority_display() {
    assert_eq!(EslEventPriority::Normal.to_string(), "NORMAL");
    assert_eq!(EslEventPriority::Low.to_string(), "LOW");
    assert_eq!(EslEventPriority::High.to_string(), "HIGH");
}

#[test]
fn test_priority_from_str() {
    assert_eq!(
        "NORMAL".parse::<EslEventPriority>(),
        Ok(EslEventPriority::Normal)
    );
    assert_eq!("LOW".parse::<EslEventPriority>(), Ok(EslEventPriority::Low));
    assert_eq!(
        "HIGH".parse::<EslEventPriority>(),
        Ok(EslEventPriority::High)
    );
    assert!("INVALID"
        .parse::<EslEventPriority>()
        .is_err());
}

#[test]
fn test_priority_from_str_case_insensitive() {
    assert_eq!(
        "normal".parse::<EslEventPriority>(),
        Ok(EslEventPriority::Normal)
    );
    assert_eq!("Low".parse::<EslEventPriority>(), Ok(EslEventPriority::Low));
    assert_eq!(
        "hIgH".parse::<EslEventPriority>(),
        Ok(EslEventPriority::High)
    );
}

#[test]
fn test_push_header_new() {
    let mut event = EslEvent::new();
    event.push_header("X-Test", "first");
    assert_eq!(event.header("X-Test"), Some("first"));
}

#[test]
fn test_push_header_existing_plain() {
    let mut event = EslEvent::new();
    event.set_header("X-Test", "first");
    event.push_header("X-Test", "second");
    assert_eq!(event.header("X-Test"), Some("ARRAY::first|:second"));
}

#[test]
fn test_push_header_existing_array() {
    let mut event = EslEvent::new();
    event.set_header("X-Test", "ARRAY::a|:b");
    event.push_header("X-Test", "c");
    assert_eq!(event.header("X-Test"), Some("ARRAY::a|:b|:c"));
}

#[test]
fn test_unshift_header_new() {
    let mut event = EslEvent::new();
    event.unshift_header("X-Test", "only");
    assert_eq!(event.header("X-Test"), Some("only"));
}

#[test]
fn test_unshift_header_existing_array() {
    let mut event = EslEvent::new();
    event.set_header("X-Test", "ARRAY::b|:c");
    event.unshift_header("X-Test", "a");
    assert_eq!(event.header("X-Test"), Some("ARRAY::a|:b|:c"));
}

#[test]
fn test_sendevent_with_priority_wire_format() {
    let mut event = EslEvent::with_type(EslEventType::Custom);
    event.set_header("Event-Name", "CUSTOM");
    event.set_header("Event-Subclass", "test::priority");
    event.set_priority(EslEventPriority::High);

    let plain = event.to_plain_format();
    assert!(plain.contains("priority: HIGH\n"));
}

#[test]
fn test_convenience_accessors() {
    let mut event = EslEvent::new();
    event.set_header("Channel-Name", "sofia/internal/1000@example.com");
    event.set_header("Caller-Caller-ID-Number", "1000");
    event.set_header("Caller-Caller-ID-Name", "Alice");
    event.set_header("Hangup-Cause", "NORMAL_CLEARING");
    event.set_header("Event-Subclass", "sofia::register");
    event.set_header("variable_sip_from_display", "Bob");

    assert_eq!(
        event.channel_name(),
        Some("sofia/internal/1000@example.com")
    );
    assert_eq!(event.caller_id_number(), Some("1000"));
    assert_eq!(event.caller_id_name(), Some("Alice"));
    assert_eq!(event.hangup_cause(), Some("NORMAL_CLEARING"));
    assert_eq!(event.event_subclass(), Some("sofia::register"));
    assert_eq!(event.variable("sip_from_display"), Some("Bob"));
    assert_eq!(event.variable("nonexistent"), None);
}

#[test]
fn test_event_format_from_str() {
    assert_eq!("plain".parse::<EventFormat>(), Ok(EventFormat::Plain));
    assert_eq!("json".parse::<EventFormat>(), Ok(EventFormat::Json));
    assert_eq!("xml".parse::<EventFormat>(), Ok(EventFormat::Xml));
    assert!("foo"
        .parse::<EventFormat>()
        .is_err());
}

#[test]
fn test_event_format_from_content_type() {
    assert_eq!(
        EventFormat::from_content_type("text/event-json"),
        EventFormat::Json
    );
    assert_eq!(
        EventFormat::from_content_type("text/event-xml"),
        EventFormat::Xml
    );
    assert_eq!(
        EventFormat::from_content_type("text/event-plain"),
        EventFormat::Plain
    );
    assert_eq!(
        EventFormat::from_content_type("unknown"),
        EventFormat::Plain
    );
}

// --- EslEvent accessor tests ---

#[test]
fn test_event_channel_state_accessor() {
    let mut event = EslEvent::new();
    event.set_header("Channel-State", "CS_EXECUTE");
    assert_eq!(event.channel_state(), Some(ChannelState::CsExecute));
}

#[test]
fn test_event_channel_state_number_accessor() {
    let mut event = EslEvent::new();
    event.set_header("Channel-State-Number", "4");
    assert_eq!(event.channel_state_number(), Some(ChannelState::CsExecute));
}

#[test]
fn test_event_call_state_accessor() {
    let mut event = EslEvent::new();
    event.set_header("Channel-Call-State", "ACTIVE");
    assert_eq!(event.call_state(), Some(CallState::Active));
}

#[test]
fn test_event_answer_state_accessor() {
    let mut event = EslEvent::new();
    event.set_header("Answer-State", "answered");
    assert_eq!(event.answer_state(), Some(AnswerState::Answered));
}

#[test]
fn test_event_call_direction_accessor() {
    let mut event = EslEvent::new();
    event.set_header("Call-Direction", "inbound");
    assert_eq!(event.call_direction(), Some(CallDirection::Inbound));
}

#[test]
fn test_event_typed_accessors_missing_headers() {
    let event = EslEvent::new();
    assert_eq!(event.channel_state(), None);
    assert_eq!(event.channel_state_number(), None);
    assert_eq!(event.call_state(), None);
    assert_eq!(event.answer_state(), None);
    assert_eq!(event.call_direction(), None);
}

#[test]
fn test_event_typed_accessors_invalid_values() {
    let mut event = EslEvent::new();
    event.set_header("Channel-State", "BOGUS");
    event.set_header("Channel-State-Number", "999");
    event.set_header("Channel-Call-State", "BOGUS");
    event.set_header("Answer-State", "bogus");
    event.set_header("Call-Direction", "bogus");
    assert_eq!(event.channel_state(), None);
    assert_eq!(event.channel_state_number(), None);
    assert_eq!(event.call_state(), None);
    assert_eq!(event.answer_state(), None);
    assert_eq!(event.call_direction(), None);
}
