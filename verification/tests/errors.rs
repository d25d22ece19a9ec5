use freeswitch_esl_tokio::error::{CommandFailure, EslError};

fn failed(reply_text: &str) -> EslError {
    EslError::CommandFailed {
        reply_text: reply_text.into(),
    }
}

#[test]
fn access_denied_not_recoverable() {
    let err = EslError::AccessDenied {
        reason: "ACL".into(),
    };
    assert!(!err.is_recoverable());
}

#[test]
fn queue_full_is_recoverable() {
    assert!(EslError::QueueFull.is_recoverable());
}

#[test]
fn command_failed_is_recoverable() {
    let err = EslError::CommandFailed {
        reply_text: "-ERR no such command".into(),
    };
    assert!(err.is_recoverable());
}

#[test]
fn unexpected_reply_is_recoverable() {
    let err = EslError::UnexpectedReply {
        reply_text: "garbage".into(),
    };
    assert!(err.is_recoverable());
}

#[test]
fn permission_denied_detected() {
    for reply in [
        "-ERR permission denied",
        "-ERR Permission Denied",
        "-ERR PERMISSION DENIED",
    ] {
        let err = EslError::CommandFailed {
            reply_text: reply.into(),
        };
        assert!(err.is_permission_denied(), "should detect: {reply}");
        assert!(err.is_recoverable());
        assert!(!err.is_connection_error());
    }
}

#[test]
fn other_command_failure_not_permission_denied() {
    let err = EslError::CommandFailed {
        reply_text: "-ERR no such command".into(),
    };
    assert!(!err.is_permission_denied());
}

#[test]
fn phrase_inside_another_failure_is_not_permission_denied() {
    for reply in [
        "-ERR error/permission denied while opening /var/lib/freeswitch/x.wav",
        "-USAGE: sched_api [+@]<time> <group_name> <command string> (permission denied)",
    ] {
        let err = EslError::CommandFailed {
            reply_text: reply.into(),
        };
        assert!(!err.is_permission_denied(), "should not detect: {reply}");
    }
}

#[test]
fn permission_denied_tolerates_trailing_wire_whitespace() {
    let err = EslError::CommandFailed {
        reply_text: "-ERR permission denied\n".into(),
    };
    assert!(err.is_permission_denied());
}

#[test]
fn non_command_failure_not_permission_denied() {
    assert!(!EslError::QueueFull.is_permission_denied());
    assert!(!EslError::AccessDenied {
        reason: "ACL".into()
    }
    .is_permission_denied());
}

#[test]
fn usage_reply_classifies_as_usage() {
    let err = failed("-USAGE: originate <call_url> <exten>");
    assert_eq!(
        err.command_failure(),
        Some(CommandFailure::Usage("originate <call_url> <exten>"))
    );
}

#[test]
fn usage_payload_keeps_synopsis_indentation() {
    let err = failed("-USAGE:   sched_api [+@]<time>");
    assert_eq!(
        err.command_failure(),
        Some(CommandFailure::Usage("  sched_api [+@]<time>"))
    );
}

#[test]
fn bare_error_reply_is_not_an_err_payload() {
    assert_eq!(
        failed("-ERROR").command_failure(),
        Some(CommandFailure::Unprefixed("-ERROR"))
    );
}

#[test]
fn a_longer_word_behind_either_prefix_stays_unprefixed() {
    assert_eq!(
        failed("-ERRORS: 3").command_failure(),
        Some(CommandFailure::Unprefixed("-ERRORS: 3"))
    );
    assert_eq!(
        failed("-USAGEX y").command_failure(),
        Some(CommandFailure::Unprefixed("-USAGEX y"))
    );
}

#[test]
fn a_line_terminator_behind_a_bare_prefix_still_peels() {
    assert_eq!(
        failed("-ERR\n").command_failure(),
        Some(CommandFailure::Error("\n"))
    );
    assert_eq!(
        failed("-ERR\r\n").command_failure(),
        Some(CommandFailure::Error("\r\n"))
    );
}

#[test]
fn a_comma_separated_failure_keeps_its_comma() {
    assert_eq!(
        failed("-ERR, bad command!").command_failure(),
        Some(CommandFailure::Error(", bad command!"))
    );
}

#[test]
fn bare_err_yields_empty_payload() {
    assert_eq!(
        failed("-ERR").command_failure(),
        Some(CommandFailure::Error(""))
    );
}

#[test]
fn unprefixed_reply_carries_whole_text_and_no_payload() {
    let err = failed("sip_from_user");
    let failure = err
        .command_failure()
        .expect("CommandFailed must classify");
    assert_eq!(failure, CommandFailure::Unprefixed("sip_from_user"));
    assert_eq!(failure.payload(), None);
}

#[test]
fn leading_wire_whitespace_is_tolerated() {
    assert_eq!(
        failed("  -ERR USER_BUSY").command_failure(),
        Some(CommandFailure::Error("USER_BUSY"))
    );
}

#[test]
fn non_command_failed_variants_do_not_classify() {
    assert_eq!(EslError::QueueFull.command_failure(), None);
    assert_eq!(EslError::Timeout { timeout_ms: 10 }.command_failure(), None);
    assert_eq!(
        EslError::UnexpectedReply {
            reply_text: "-ERR nope".into()
        }
        .command_failure(),
        None
    );
}

#[test]
fn usage_mentioning_the_phrase_is_not_permission_denied() {
    let err = failed("-USAGE: sched_api [+@]<time> <group_name> <command> (permission denied)");
    assert!(matches!(
        err.command_failure(),
        Some(CommandFailure::Usage(_))
    ));
    assert!(!err.is_permission_denied());
}
