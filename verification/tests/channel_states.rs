use freeswitch_esl_tokio::channel::{AnswerState, CallDirection, CallState, ChannelState};
use freeswitch_esl_tokio::event::EslEvent;


#[test]
fn test_channel_state_display() {
    assert_eq!(ChannelState::CsNew.to_string(), "CS_NEW");
    assert_eq!(ChannelState::CsInit.to_string(), "CS_INIT");
    assert_eq!(ChannelState::CsRouting.to_string(), "CS_ROUTING");
    assert_eq!(ChannelState::CsSoftExecute.to_string(), "CS_SOFT_EXECUTE");
    assert_eq!(ChannelState::CsExecute.to_string(), "CS_EXECUTE");
    assert_eq!(
        ChannelState::CsExchangeMedia.to_string(),
        "CS_EXCHANGE_MEDIA"
    );
    assert_eq!(ChannelState::CsPark.to_string(), "CS_PARK");
    assert_eq!(ChannelState::CsConsumeMedia.to_string(), "CS_CONSUME_MEDIA");
    assert_eq!(ChannelState::CsHibernate.to_string(), "CS_HIBERNATE");
    assert_eq!(ChannelState::CsReset.to_string(), "CS_RESET");
    assert_eq!(ChannelState::CsHangup.to_string(), "CS_HANGUP");
    assert_eq!(ChannelState::CsReporting.to_string(), "CS_REPORTING");
    assert_eq!(ChannelState::CsDestroy.to_string(), "CS_DESTROY");
    assert_eq!(ChannelState::CsNone.to_string(), "CS_NONE");
}

#[test]
fn test_channel_state_from_str() {
    assert_eq!("CS_NEW".parse::<ChannelState>(), Ok(ChannelState::CsNew));
    assert_eq!(
        "CS_EXECUTE".parse::<ChannelState>(),
        Ok(ChannelState::CsExecute)
    );
    assert_eq!(
        "CS_HANGUP".parse::<ChannelState>(),
        Ok(ChannelState::CsHangup)
    );
    assert_eq!(
        "CS_DESTROY".parse::<ChannelState>(),
        Ok(ChannelState::CsDestroy)
    );
}

#[test]
fn test_channel_state_from_str_case_insensitive() {
    assert_eq!("cs_new".parse::<ChannelState>(), Ok(ChannelState::CsNew));
    assert_eq!(
        "Cs_Routing".parse::<ChannelState>(),
        Ok(ChannelState::CsRouting)
    );
}

#[test]
fn test_channel_state_from_str_unknown() {
    assert!("CS_BOGUS"
        .parse::<ChannelState>()
        .is_err());
    assert!(""
        .parse::<ChannelState>()
        .is_err());
}

#[test]
fn test_channel_state_from_number() {
    assert_eq!(ChannelState::from_number(0), Some(ChannelState::CsNew));
    assert_eq!(ChannelState::from_number(4), Some(ChannelState::CsExecute));
    assert_eq!(ChannelState::from_number(10), Some(ChannelState::CsHangup));
    assert_eq!(ChannelState::from_number(13), Some(ChannelState::CsNone));
    assert_eq!(ChannelState::from_number(14), None);
    assert_eq!(ChannelState::from_number(255), None);
}

#[test]
fn test_channel_state_as_number() {
    assert_eq!(ChannelState::CsNew.as_number(), 0);
    assert_eq!(ChannelState::CsExecute.as_number(), 4);
    assert_eq!(ChannelState::CsHangup.as_number(), 10);
    assert_eq!(ChannelState::CsNone.as_number(), 13);
}

// --- CallState tests ---

#[test]
fn test_call_state_display() {
    assert_eq!(CallState::Down.to_string(), "DOWN");
    assert_eq!(CallState::Dialing.to_string(), "DIALING");
    assert_eq!(CallState::Ringing.to_string(), "RINGING");
    assert_eq!(CallState::Early.to_string(), "EARLY");
    assert_eq!(CallState::Active.to_string(), "ACTIVE");
    assert_eq!(CallState::Held.to_string(), "HELD");
    assert_eq!(CallState::RingWait.to_string(), "RING_WAIT");
    assert_eq!(CallState::Hangup.to_string(), "HANGUP");
    assert_eq!(CallState::Unheld.to_string(), "UNHELD");
}

#[test]
fn test_call_state_from_str() {
    assert_eq!("DOWN".parse::<CallState>(), Ok(CallState::Down));
    assert_eq!("ACTIVE".parse::<CallState>(), Ok(CallState::Active));
    assert_eq!("RING_WAIT".parse::<CallState>(), Ok(CallState::RingWait));
    assert_eq!("UNHELD".parse::<CallState>(), Ok(CallState::Unheld));
}

#[test]
fn test_call_state_from_str_case_insensitive() {
    assert_eq!("down".parse::<CallState>(), Ok(CallState::Down));
    assert_eq!("Active".parse::<CallState>(), Ok(CallState::Active));
}

#[test]
fn test_call_state_from_str_unknown() {
    assert!("BOGUS"
        .parse::<CallState>()
        .is_err());
}

// --- AnswerState tests ---

#[test]
fn test_answer_state_display() {
    assert_eq!(AnswerState::Hangup.to_string(), "hangup");
    assert_eq!(AnswerState::Answered.to_string(), "answered");
    assert_eq!(AnswerState::Early.to_string(), "early");
    assert_eq!(AnswerState::Ringing.to_string(), "ringing");
}

#[test]
fn test_answer_state_from_str() {
    assert_eq!("hangup".parse::<AnswerState>(), Ok(AnswerState::Hangup));
    assert_eq!("answered".parse::<AnswerState>(), Ok(AnswerState::Answered));
    assert_eq!("early".parse::<AnswerState>(), Ok(AnswerState::Early));
    assert_eq!("ringing".parse::<AnswerState>(), Ok(AnswerState::Ringing));
}

#[test]
fn test_answer_state_from_str_case_insensitive() {
    assert_eq!("HANGUP".parse::<AnswerState>(), Ok(AnswerState::Hangup));
    assert_eq!("Answered".parse::<AnswerState>(), Ok(AnswerState::Answered));
}

#[test]
fn test_answer_state_from_str_unknown() {
    assert!("bogus"
        .parse::<AnswerState>()
        .is_err());
}

// --- CallDirection tests ---

#[test]
fn test_call_direction_display() {
    assert_eq!(CallDirection::Inbound.to_string(), "inbound");
    assert_eq!(CallDirection::Outbound.to_string(), "outbound");
}

#[test]
fn test_call_direction_from_str() {
    assert_eq!(
        "inbound".parse::<CallDirection>(),
        Ok(CallDirection::Inbound)
    );
    assert_eq!(
        "outbound".parse::<CallDirection>(),
        Ok(CallDirection::Outbound)
    );
}

#[test]
fn test_call_direction_from_str_case_insensitive() {
    assert_eq!(
        "INBOUND".parse::<CallDirection>(),
        Ok(CallDirection::Inbound)
    );
    assert_eq!(
        "Outbound".parse::<CallDirection>(),
        Ok(CallDirection::Outbound)
    );
}

#[test]
fn test_call_direction_from_str_unknown() {
    assert!("bogus"
        .parse::<CallDirection>()
        .is_err());
}

// --- ChannelTimetable tests ---

#[test]
fn caller_timetable_all_fields() {
    let mut event = EslEvent::new();
    event.set_header("Caller-Profile-Created-Time", "1700000000000000");
    event.set_header("Caller-Channel-Created-Time", "1700000001000000");
    event.set_header("Caller-Channel-Answered-Time", "1700000005000000");
    event.set_header("Caller-Channel-Progress-Time", "1700000002000000");
    event.set_header("Caller-Channel-Progress-Media-Time", "1700000003000000");
    event.set_header("Caller-Channel-Hangup-Time", "0");
    event.set_header("Caller-Channel-Transfer-Time", "0");
    event.set_header("Caller-Channel-Resurrect-Time", "0");
    event.set_header("Caller-Channel-Bridged-Time", "1700000006000000");
    event.set_header("Caller-Channel-Last-Hold", "0");
    event.set_header("Caller-Channel-Hold-Accum", "0");

    let tt = event
        .caller_timetable()
        .unwrap()
        .expect("should have timetable");
    assert_eq!(tt.profile_created, Some(1700000000000000));
    assert_eq!(tt.created, Some(1700000001000000));
    assert_eq!(tt.answered, Some(1700000005000000));
    assert_eq!(tt.progress, Some(1700000002000000));
    assert_eq!(tt.progress_media, Some(1700000003000000));
    assert_eq!(tt.hungup, Some(0));
    assert_eq!(tt.transferred, Some(0));
    assert_eq!(tt.resurrected, Some(0));
    assert_eq!(tt.bridged, Some(1700000006000000));
    assert_eq!(tt.last_hold, Some(0));
    assert_eq!(tt.hold_accum, Some(0));
}

#[test]
fn other_leg_timetable() {
    let mut event = EslEvent::new();
    event.set_header("Other-Leg-Profile-Created-Time", "1700000000000000");
    event.set_header("Other-Leg-Channel-Created-Time", "1700000001000000");
    event.set_header("Other-Leg-Channel-Answered-Time", "1700000005000000");
    event.set_header("Other-Leg-Channel-Progress-Time", "0");
    event.set_header("Other-Leg-Channel-Progress-Media-Time", "0");
    event.set_header("Other-Leg-Channel-Hangup-Time", "0");
    event.set_header("Other-Leg-Channel-Transfer-Time", "0");
    event.set_header("Other-Leg-Channel-Resurrect-Time", "0");
    event.set_header("Other-Leg-Channel-Bridged-Time", "1700000006000000");
    event.set_header("Other-Leg-Channel-Last-Hold", "0");
    event.set_header("Other-Leg-Channel-Hold-Accum", "0");

    let tt = event
        .other_leg_timetable()
        .unwrap()
        .expect("should have timetable");
    assert_eq!(tt.created, Some(1700000001000000));
    assert_eq!(tt.bridged, Some(1700000006000000));
}

#[test]
fn timetable_no_headers() {
    let event = EslEvent::new();
    assert_eq!(
        event
            .caller_timetable()
            .unwrap(),
        None
    );
    assert_eq!(
        event
            .other_leg_timetable()
            .unwrap(),
        None
    );
}

#[test]
fn timetable_partial_headers() {
    let mut event = EslEvent::new();
    event.set_header("Caller-Channel-Created-Time", "1700000001000000");

    let tt = event
        .caller_timetable()
        .unwrap()
        .expect("at least one field parsed");
    assert_eq!(tt.created, Some(1700000001000000));
    assert_eq!(tt.answered, None);
    assert_eq!(tt.profile_created, None);
}

#[test]
fn timetable_invalid_value_is_error() {
    let mut event = EslEvent::new();
    event.set_header("Caller-Channel-Created-Time", "not_a_number");

    let err = event
        .caller_timetable()
        .unwrap_err();
    assert_eq!(err.header, "Caller-Channel-Created-Time");
    assert_eq!(err.value, "not_a_number");
}

#[test]
fn timetable_valid_then_invalid_is_error() {
    let mut event = EslEvent::new();
    event.set_header("Caller-Profile-Created-Time", "1700000000000000");
    event.set_header("Caller-Channel-Created-Time", "garbage");

    let err = event
        .caller_timetable()
        .unwrap_err();
    assert_eq!(err.header, "Caller-Channel-Created-Time");
    assert_eq!(err.value, "garbage");
}

#[test]
fn timetable_zero_preserved() {
    let mut event = EslEvent::new();
    event.set_header("Caller-Channel-Hangup-Time", "0");

    let tt = event
        .caller_timetable()
        .unwrap()
        .expect("should have timetable");
    assert_eq!(tt.hungup, Some(0));
}

#[test]
fn timetable_custom_prefix() {
    let mut event = EslEvent::new();
    event.set_header("Channel-Channel-Created-Time", "1700000001000000");

    let tt = event
        .timetable("Channel")
        .unwrap()
        .expect("custom prefix should work");
    assert_eq!(tt.created, Some(1700000001000000));
}

#[test]
fn timetable_from_lookup_reads_prefixed_headers() {
    let mut headers: std::collections::HashMap<String, String> = std::collections::HashMap::new();
    headers.insert("Caller-Channel-Created-Time".into(), "1700000001000000".into());
    let tt = freeswitch_esl_tokio::channel::ChannelTimetable::from_lookup("Caller", |k: &str| {
        headers.get(k).cloned()
    });
    let tt = tt.unwrap().unwrap();
    assert_eq!(tt.created, Some(1700000001000000));
    assert_eq!(tt.answered, None);

    let none = freeswitch_esl_tokio::channel::ChannelTimetable::from_lookup("Other", |k: &str| {
        headers.get(k).cloned()
    });
    assert!(none.unwrap().is_none());

    headers.insert("Caller-Channel-Answered-Time".into(), "soon".into());
    let bad = freeswitch_esl_tokio::channel::ChannelTimetable::from_lookup("Caller", |k: &str| {
        headers.get(k).cloned()
    });
    let e = bad.unwrap_err();
    assert_eq!(e.header, "Caller-Channel-Answered-Time");
    assert_eq!(e.value, "soon");
}

#[test]
fn timetable_from_lookup_stops_at_the_first_bad_value() {
    let asked = std::cell::Cell::new(0usize);
    let r = freeswitch_esl_tokio::channel::ChannelTimetable::from_lookup("Caller", |k: &str| {
        asked.set(asked.get() + 1);
        if k == "Caller-Channel-Created-Time" {
            Some("soon".to_string())
        } else {
            None
        }
    });
    assert_eq!(r.unwrap_err().header, "Caller-Channel-Created-Time");
    assert_eq!(asked.get(), 2);
}
