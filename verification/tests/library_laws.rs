use freeswitch_esl_tokio::bgjob::BgJobTracker;
use freeswitch_esl_tokio::buffer::EslBuffer;
use freeswitch_esl_tokio::commands::endpoint::{
    ErrorEndpoint, GroupCall, SofiaContact, SofiaEndpoint, SofiaGateway,
};
use freeswitch_esl_tokio::commands::originate::{
    escape_value, unescape_value, Application, DialplanType, OriginateTarget, Variables, VariablesType,
};
use freeswitch_esl_tokio::commands::{originate_quote, originate_unquote};
use freeswitch_esl_tokio::connection::{event_types_to_string, EslConnectOptions, EventOverflow};
use freeswitch_esl_tokio::event::{EslEvent, EslEventType};
use freeswitch_esl_tokio::protocol::{EslParser, MessageType};

#[test]
fn quote_round_trip_on_tokens_with_spaces() {
    for token in ["a b", "it's a test", "back\\slash here", "x\\' y", "trailing \\"] {
        assert_eq!(originate_unquote(&originate_quote(token)), token);
    }
    assert_eq!(originate_quote("plain"), "plain");
    assert_eq!(originate_unquote("plain"), "plain");
}

#[test]
fn escaped_value_reads_back() {
    for value in ["a,b", "it's", "with space", "\\,", "'lead", ",'", "a\\'b c"] {
        assert_eq!(unescape_value(&escape_value(value)), value);
    }
    assert_eq!(escape_value("a,b"), "a\\,b");
    assert_eq!(escape_value("a b"), "'a b'");
}

#[test]
fn dialplan_type_reads_back_its_name() {
    for d in [DialplanType::Inline, DialplanType::Xml] {
        assert_eq!(d.to_string().parse::<DialplanType>().unwrap(), d);
    }
    assert!("bogus".parse::<DialplanType>().is_err());
}

#[test]
fn error_and_sofia_endpoints_read_back() {
    let ep = ErrorEndpoint { cause: "NO ANSWER/odd".into() };
    assert_eq!(ep.to_string().parse::<ErrorEndpoint>().unwrap(), ep);
    let ep = SofiaEndpoint {
        profile: "internal".into(),
        destination: "sip:1000@host/path".into(),
        variables: None,
    };
    assert_eq!(ep.to_string().parse::<SofiaEndpoint>().unwrap(), ep);
}

#[test]
fn tracker_settles_a_job_once() {
    let mut bg: BgJobTracker<u8> = BgJobTracker::default();
    bg.track("a".into(), 1);
    bg.track("b".into(), 2);
    assert_eq!(bg.cancel("a"), Some(1));
    assert_eq!(bg.cancel("a"), None);
    assert!(bg.is_pending("b"));
    assert_eq!(bg.pending_count(), 1);
}

#[test]
fn buffer_is_first_in_first_out() {
    let mut buffer = EslBuffer::default();
    buffer.extend_from_slice(b"first");
    buffer.extend_from_slice(b"second");
    assert_eq!(buffer.extract_bytes(5).unwrap(), b"first");
    assert_eq!(buffer.data(), b"second");
    assert!(buffer.extract_bytes(7).is_none());
    assert_eq!(buffer.extract_bytes(6).unwrap(), b"second");
    assert_eq!(buffer.len(), 0);
}

#[test]
fn event_types_join_with_spaces() {
    assert_eq!(event_types_to_string(&[]), "");
    assert_eq!(
        event_types_to_string(&[EslEventType::ChannelAnswer, EslEventType::BackgroundJob]),
        "CHANNEL_ANSWER BACKGROUND_JOB"
    );
}

#[test]
fn event_type_names_read_back() {
    for t in [
        EslEventType::Custom,
        EslEventType::ChannelCallstate,
        EslEventType::ChannelOriginate,
        EslEventType::NotifyIn,
        EslEventType::StartRecording,
    ] {
        assert_eq!(t.to_string().parse::<EslEventType>().unwrap(), t);
    }
}

#[test]
fn defaults_match_new() {
    let options = EslConnectOptions::default();
    assert_eq!(options.event_queue_size(), EslConnectOptions::new().event_queue_size());
    assert_eq!(options.event_overflow(), EventOverflow::DropIncoming);
    assert_eq!(options.connect_timeout(), std::time::Duration::from_millis(2000));
    let longer = EslConnectOptions::new().with_connect_timeout(std::time::Duration::from_secs(5));
    assert_eq!(longer.connect_timeout(), std::time::Duration::from_secs(5));
    let event = EslEvent::default();
    assert!(event.event_type().is_none());
    assert!(event.body().is_none());
    let parser = EslParser::default();
    assert!(parser.is_waiting_for_headers());
    assert!(parser.remaining_bytes().is_empty());
}

#[test]
fn plain_format_percent_encodes_values_in_order() {
    let mut event = EslEvent::new();
    event.set_header("Event-Name", "CUSTOM");
    event.set_header("Z-Last", "a b/ü");
    event.set_header("Content-Length", "99");
    event.set_header("A-First", "x");
    assert_eq!(
        event.to_plain_format(),
        "Event-Name: CUSTOM\nZ-Last: a%20b%2F%C3%BC\nA-First: x\n\n"
    );
    event.set_body("héllo".to_string());
    assert!(event.to_plain_format().ends_with("A-First: x\nContent-Length: 6\n\nhéllo"));
}

#[test]
fn variables_block_is_written_in_scope_delimiters() {
    let mut vars = Variables::new(VariablesType::Enterprise);
    vars.insert("a", "1");
    vars.insert("b", "x,y");
    assert_eq!(vars.to_string(), "<a=1,b=x\\,y>");
}

#[test]
fn gateway_contact_and_group_endpoints_read_back() {
    let gw = SofiaGateway {
        gateway: "my::gw".into(),
        destination: "1800/555".into(),
        profile: Some("ext:ernal".into()),
        variables: None,
    };
    assert_eq!(gw.to_string(), "sofia/gateway/ext:ernal::my::gw/1800/555");
    assert_eq!(gw.to_string().parse::<SofiaGateway>().unwrap(), gw);
    let plain = SofiaGateway { profile: None, gateway: "carrier".into(), ..gw };
    assert_eq!(plain.to_string().parse::<SofiaGateway>().unwrap(), plain);

    let contact = SofiaContact {
        user: "1000/x".into(),
        domain: "example.com".into(),
        profile: Some("internal".into()),
        variables: None,
    };
    assert_eq!(contact.to_string().parse::<SofiaContact>().unwrap(), contact);
    let any = SofiaContact { profile: None, user: "1000".into(), ..contact };
    assert_eq!(any.to_string().parse::<SofiaContact>().unwrap(), any);

    let group = GroupCall::new("sales", "example.com").with_order("F@x");
    assert_eq!(group.to_string().parse::<GroupCall>().unwrap(), group);
}

#[test]
fn variables_block_reads_back() {
    let mut vars = Variables::new(VariablesType::Channel);
    vars.insert("a", "x,y");
    vars.insert("b", "it's here");
    vars.insert("c", "k=v");
    vars.insert("d", "ends\\");
    let parsed = Variables::parse(&vars.to_string()).unwrap();
    assert_eq!(parsed.scope(), VariablesType::Channel);
    assert_eq!(parsed.len(), 4);
    for (k, v) in [("a", "x,y"), ("b", "it's here"), ("c", "k=v"), ("d", "ends\\")] {
        assert_eq!(parsed.get(k), Some(v));
    }

    // A value other than the last that ends in one backslash escapes the
    // comma behind it, so the block reads back as one variable.
    let mut odd = Variables::new(VariablesType::Default);
    odd.insert("a", "x\\");
    odd.insert("b", "y");
    assert_eq!(odd.to_string(), "{a=x\\,b=y}");
    let back = Variables::parse(&odd.to_string()).unwrap();
    assert_eq!(back.len(), 1);
    assert_eq!(back.get("a"), Some("x,b=y"));
}

#[test]
fn parser_reads_the_same_message_however_the_bytes_are_cut() {
    let frame: &[u8] = b"Content-Type: api/response\nContent-Length: 5\n\n+OK hContent-Type: auth/request\n\n";
    let mut whole = EslParser::new();
    whole.add_data(frame).unwrap();
    let first = whole.parse_message().unwrap().unwrap();
    let second = whole.parse_message().unwrap().unwrap();
    for cut in 0..=frame.len() {
        let mut parser = EslParser::new();
        parser.add_data(&frame[..cut]).unwrap();
        let mut got = Vec::new();
        while let Some(m) = parser.parse_message().unwrap() {
            got.push(m);
        }
        parser.add_data(&frame[cut..]).unwrap();
        while let Some(m) = parser.parse_message().unwrap() {
            got.push(m);
        }
        assert_eq!(got.len(), 2, "cut at {cut}");
        assert_eq!(got[0].body, first.body);
        assert_eq!(got[0].message_type, first.message_type);
        assert_eq!(got[1].message_type, second.message_type);
        assert!(parser.remaining_bytes().is_empty());
    }
}

#[test]
fn originate_targets_read_back_from_their_text() {
    let app = OriginateTarget::Application(Application::new("conference", Some("1(b)")));
    let back = freeswitch_esl_tokio::commands::parse_originate_target("&conference(1(b))", None).unwrap();
    assert_eq!(back, app);

    let apps = OriginateTarget::InlineApplications(vec![
        Application::new("playback", Some("/tmp/a.wav")),
        Application::simple("hangup"),
    ]);
    let back = freeswitch_esl_tokio::commands::parse_originate_target(
        "playback:/tmp/a.wav,hangup",
        Some(&DialplanType::Inline),
    )
    .unwrap();
    assert_eq!(back, apps);

    let ext = freeswitch_esl_tokio::commands::parse_originate_target("1000", Some(&DialplanType::Xml)).unwrap();
    assert_eq!(ext, OriginateTarget::Extension("1000".into()));
}

#[test]
fn originate_reads_back_from_its_text() {
    let ep = freeswitch_esl_tokio::commands::endpoint::Endpoint::Sofia(SofiaEndpoint {
        profile: "internal".into(),
        destination: "1000@example.com".into(),
        variables: None,
    });
    let o = freeswitch_esl_tokio::commands::originate::Originate::application(
        ep,
        Application::new("conference", Some("room1")),
    )
    .dialplan(DialplanType::Xml)
    .unwrap()
    .context("public")
    .cid_name("Alice")
    .cid_num("5551234")
    .timeout(30);
    let text = o.to_string();
    assert_eq!(
        text,
        "originate sofia/internal/1000@example.com &conference(room1) XML public Alice 5551234 30"
    );
    let back: freeswitch_esl_tokio::commands::originate::Originate = text.parse().unwrap();
    assert_eq!(back, o);

    // A caller-ID name of `undef` reads back as none.
    let ep = freeswitch_esl_tokio::commands::endpoint::Endpoint::Sofia(SofiaEndpoint {
        profile: "internal".into(),
        destination: "1000".into(),
        variables: None,
    });
    let o = freeswitch_esl_tokio::commands::originate::Originate::extension(ep, "1000")
        .dialplan(DialplanType::Xml)
        .unwrap()
        .context("default")
        .cid_name("UNDEF")
        .cid_num("1");
    let back: freeswitch_esl_tokio::commands::originate::Originate = o.to_string().parse().unwrap();
    assert_eq!(back.caller_id_name(), None);
}

#[test]
fn bad_character_reference_only_fails_where_text_is_collected() {
    let ok = "<event>&#0;<headers><Event-Name>HEARTBEAT</Event-Name></headers></event>";
    let msg = freeswitch_esl_tokio::protocol::EslMessage::new(
        MessageType::Event,
        indexmap::IndexMap::new(),
        Some(ok.to_string()),
    );
    let event = EslParser::new().parse_event(msg, freeswitch_esl_tokio::event::EventFormat::Xml).unwrap();
    assert_eq!(event.header("Event-Name"), Some("HEARTBEAT"));

    let bad = "<event><headers><Event-Name>HEART&#0;BEAT</Event-Name></headers></event>";
    let msg = freeswitch_esl_tokio::protocol::EslMessage::new(
        MessageType::Event,
        indexmap::IndexMap::new(),
        Some(bad.to_string()),
    );
    assert!(EslParser::new().parse_event(msg, freeswitch_esl_tokio::event::EventFormat::Xml).is_err());
}

#[test]
fn pushing_onto_an_array_header_appends_to_its_text() {
    let mut e = EslEvent::new();
    e.set_header("X-Test", "ARRAY::b|:c");
    e.unshift_header("X-Test", "a");
    assert_eq!(e.header("X-Test"), Some("ARRAY::a|:b|:c"));
    e.push_header("X-Test", "d");
    assert_eq!(e.header("X-Test"), Some("ARRAY::a|:b|:c|:d"));
}
