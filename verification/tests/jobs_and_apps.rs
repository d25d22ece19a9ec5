use freeswitch_esl_tokio::bgjob::{BgJobResult, BgJobTracker};
use freeswitch_esl_tokio::command::EslCommand;
use freeswitch_esl_tokio::commands::originate::DialplanType;
use freeswitch_esl_tokio::dptools::AppCommand;
use freeswitch_esl_tokio::event::{EslEvent, EslEventType};
use freeswitch_esl_tokio::headers::EventHeader;

fn extract_args(cmd: &EslCommand) -> Option<&str> {
    match cmd {
        EslCommand::Execute { args, .. } => args.as_deref(),
        _ => panic!("expected Execute variant"),
    }
}

fn extract_app(cmd: &EslCommand) -> &str {
    match cmd {
        EslCommand::Execute { app, .. } => app.as_str(),
        _ => panic!("expected Execute variant"),
    }
}

#[test]
fn transfer_extension_only() {
    let cmd = AppCommand::transfer("1000", None, None);
    assert_eq!(extract_args(&cmd), Some("1000"));
}

#[test]
fn transfer_with_dialplan() {
    let cmd = AppCommand::transfer("1000", Some(DialplanType::Xml), None);
    assert_eq!(extract_args(&cmd), Some("1000 XML"));
}

#[test]
fn transfer_with_dialplan_and_context() {
    let cmd = AppCommand::transfer("1000", Some(DialplanType::Xml), Some("myctx"));
    assert_eq!(extract_args(&cmd), Some("1000 XML myctx"));
}

#[test]
fn transfer_context_without_dialplan_fills_gap() {
    let cmd = AppCommand::transfer("1000", None, Some("myctx"));
    assert_eq!(extract_args(&cmd), Some("1000 XML myctx"));
}

#[test]
fn app_commands_name_their_application() {
    assert_eq!(extract_app(&AppCommand::answer()), "answer");
    assert_eq!(extract_args(&AppCommand::answer()), None);
    assert_eq!(extract_app(&AppCommand::hangup(Some("NORMAL_CLEARING"))), "hangup");
    assert_eq!(extract_args(&AppCommand::hangup(Some("NORMAL_CLEARING"))), Some("NORMAL_CLEARING"));
    assert_eq!(extract_args(&AppCommand::hangup(None)), None);
    assert_eq!(extract_app(&AppCommand::playback("/tmp/a.wav")), "playback");
    assert_eq!(extract_args(&AppCommand::playback("/tmp/a.wav")), Some("/tmp/a.wav"));
    assert_eq!(extract_app(&AppCommand::bridge("user/1000")), "bridge");
    assert_eq!(extract_app(&AppCommand::set_var("foo", "bar")), "set");
    assert_eq!(extract_args(&AppCommand::set_var("foo", "bar")), Some("foo=bar"));
    assert_eq!(extract_app(&AppCommand::park()), "park");
    assert_eq!(extract_app(&AppCommand::transfer("1000", None, None)), "transfer");
}

#[test]
fn transfer_with_inline_dialplan() {
    let cmd = AppCommand::transfer("1000", Some(DialplanType::Inline), Some("ctx"));
    assert_eq!(extract_args(&cmd), Some("1000 inline ctx"));
}

fn bg_job_event(job_uuid: &str, body: &str) -> EslEvent {
    let mut event = EslEvent::with_type(EslEventType::BackgroundJob);
    event.set_header(EventHeader::JobUuid.as_str(), job_uuid);
    event.set_body(body.to_string());
    event
}

#[test]
fn new_tracker_is_empty() {
    let bg = BgJobTracker::<String>::new();
    assert_eq!(bg.pending_count(), 0);
}

#[test]
fn track_adds_pending() {
    let mut bg = BgJobTracker::new();
    bg.track("uuid-1".into(), "ctx-1".to_string());
    assert!(bg.is_pending("uuid-1"));
    assert_eq!(bg.pending_count(), 1);
}

#[test]
fn try_complete_matches_background_job() {
    let mut bg = BgJobTracker::new();
    bg.track("uuid-1".into(), "channel-abc".to_string());

    let event = bg_job_event("uuid-1", "+OK done");
    let (ctx, result) = bg.try_complete(&event).expect("should match");
    assert_eq!(ctx, "channel-abc");
    assert_eq!(result.job_uuid(), Some("uuid-1"));
    assert_eq!(result.body(), Some("+OK done"));
}

#[test]
fn try_complete_ignores_non_background_job() {
    let mut bg = BgJobTracker::new();
    bg.track("uuid-1".into(), ());

    let event = EslEvent::with_type(EslEventType::ChannelCreate);
    assert!(bg.try_complete(&event).is_none());
    assert_eq!(bg.pending_count(), 1);
}

#[test]
fn try_complete_ignores_untracked_job() {
    let mut bg = BgJobTracker::<()>::new();
    let event = bg_job_event("uuid-unknown", "+OK");
    assert!(bg.try_complete(&event).is_none());
}

#[test]
fn try_complete_removes_from_pending() {
    let mut bg = BgJobTracker::new();
    bg.track("uuid-1".into(), ());

    let event = bg_job_event("uuid-1", "+OK");
    assert!(bg.try_complete(&event).is_some());
    assert!(!bg.is_pending("uuid-1"));
    assert_eq!(bg.pending_count(), 0);
    assert!(bg.try_complete(&event).is_none());
}

#[test]
fn try_complete_no_job_uuid_header() {
    let mut bg = BgJobTracker::new();
    bg.track("uuid-1".into(), ());

    let event = EslEvent::with_type(EslEventType::BackgroundJob);
    assert!(bg.try_complete(&event).is_none());
    assert_eq!(bg.pending_count(), 1);
}

#[test]
fn cancel_returns_context() {
    let mut bg = BgJobTracker::new();
    bg.track("uuid-1".into(), "my-ctx".to_string());
    assert_eq!(bg.cancel("uuid-1"), Some("my-ctx".to_string()));
    assert!(!bg.is_pending("uuid-1"));
}

#[test]
fn cancel_nonexistent_returns_none() {
    let mut bg = BgJobTracker::<String>::new();
    assert_eq!(bg.cancel("uuid-nope"), None);
}

#[test]
fn bgjob_result_parse_body_ok() {
    let event = bg_job_event("uuid-1", "+OK Job-UUID: abc-123");
    let result = BgJobResult(&event);
    assert_eq!(result.parse_body().unwrap(), "Job-UUID: abc-123");
}

#[test]
fn bgjob_result_parse_body_err() {
    let event = bg_job_event("uuid-1", "-ERR invalid command");
    let result = BgJobResult(&event);
    assert!(result.parse_body().is_err());
}

#[test]
fn bgjob_result_delegates_header_lookup() {
    let event = bg_job_event("uuid-1", "+OK");
    let result = BgJobResult(&event);
    assert_eq!(result.job_uuid(), Some("uuid-1"));
}

#[test]
fn bgjob_result_event_access() {
    let event = bg_job_event("uuid-1", "+OK data");
    let result = BgJobResult(&event);
    assert_eq!(result.event().event_type(), Some(EslEventType::BackgroundJob));
}

#[test]
fn tracking_the_same_job_twice_keeps_the_latest_context() {
    let mut bg = BgJobTracker::new();
    bg.track("uuid-1".into(), 1u32);
    bg.track("uuid-1".into(), 2u32);
    assert_eq!(bg.pending_count(), 1);
    assert_eq!(bg.cancel("uuid-1"), Some(2));
    assert_eq!(bg.cancel("uuid-1"), None);
}
