use iface_proxy::limits::{
    descriptors_needed, nofile_outcome, nofile_report, raised_limits, try_raise_nofile_limit,
    NofileOutcome,
};
use iface_proxy::logger::Level;
use iface_proxy::transient::{
    is_transient, is_transient_anyhow_error, is_transient_kind, is_transient_text, level_for,
    IoKind,
};
use std::io::{Error, ErrorKind};

#[test]
fn transient_kinds_are_the_five() {
    assert!(is_transient_kind(IoKind::BrokenPipe));
    assert!(is_transient_kind(IoKind::ConnectionReset));
    assert!(is_transient_kind(IoKind::ConnectionAborted));
    assert!(is_transient_kind(IoKind::TimedOut));
    assert!(is_transient_kind(IoKind::UnexpectedEof));
    assert!(!is_transient_kind(IoKind::ConnectionRefused));
    assert!(!is_transient_kind(IoKind::NotFound));
    assert!(!is_transient_kind(IoKind::PermissionDenied));
    assert!(!is_transient_kind(IoKind::WouldBlock));
    assert!(!is_transient_kind(IoKind::Interrupted));
    assert!(!is_transient_kind(IoKind::Other));
}

#[test]
fn transient_texts_are_found_anywhere_in_the_message() {
    assert!(is_transient_text(b"write failed: broken pipe (os error 32)"));
    assert!(is_transient_text(b"connection reset by peer"));
    assert!(is_transient_text(b"operation timed out"));
    assert!(is_transient_text(b"software caused connection aborted"));
    assert!(is_transient_text(b"unexpected eof"));
    assert!(!is_transient_text(b"connection refused"));
    assert!(!is_transient_text(b"read timeout"));
    assert!(!is_transient_text(b"Broken Pipe"));
    assert!(!is_transient_text(b""));
    assert!(!is_transient_text(b"broken pip"));
}

#[test]
fn message_is_read_without_regard_to_case() {
    assert!(is_transient(None, "Broken Pipe"));
    assert!(is_transient(None, "CONNECTION RESET by peer"));
    assert!(is_transient(None, "Unexpected EOF while reading"));
    assert!(!is_transient(None, "Connection Refused"));
}

#[test]
fn io_kind_decides_for_io_errors() {
    assert!(is_transient(Some(IoKind::TimedOut), "whatever"));
    assert!(!is_transient(Some(IoKind::Other), "broken pipe"));
}

#[test]
fn anyhow_io_errors_are_judged_by_kind() {
    for kind in [
        ErrorKind::BrokenPipe,
        ErrorKind::ConnectionReset,
        ErrorKind::ConnectionAborted,
        ErrorKind::TimedOut,
        ErrorKind::UnexpectedEof,
    ] {
        assert!(is_transient_anyhow_error(&anyhow::Error::new(Error::from(kind))));
    }
    for kind in [
        ErrorKind::ConnectionRefused,
        ErrorKind::NotFound,
        ErrorKind::PermissionDenied,
        ErrorKind::WouldBlock,
        ErrorKind::Interrupted,
        ErrorKind::AddrInUse,
        ErrorKind::InvalidData,
    ] {
        assert!(!is_transient_anyhow_error(&anyhow::Error::new(Error::from(kind))));
    }
    assert!(!is_transient_anyhow_error(&anyhow::Error::new(Error::new(
        ErrorKind::Other,
        "broken pipe"
    ))));
}

#[test]
fn anyhow_messages_are_judged_by_text() {
    assert!(is_transient_anyhow_error(&anyhow::Error::msg("relay: Connection Reset by peer")));
    assert!(is_transient_anyhow_error(&anyhow::Error::msg("Timed Out")));
    assert!(!is_transient_anyhow_error(&anyhow::Error::msg("read timeout")));
    assert!(!is_transient_anyhow_error(&anyhow::Error::msg("Unsupported CMD")));
}

#[test]
fn transient_errors_are_logged_as_information() {
    assert_eq!(level_for(true), Level::Info);
    assert_eq!(level_for(false), Level::Error);
}

#[test]
fn limits_are_raised_and_never_lowered() {
    assert_eq!(raised_limits(256, 1024, 2048), (2048, 2048));
    assert_eq!(raised_limits(256, 4096, 2048), (2048, 4096));
    assert_eq!(raised_limits(8192, 16384, 2048), (8192, 16384));
    assert_eq!(raised_limits(8192, 4096, 2048), (8192, 8192));
    assert_eq!(raised_limits(0, 0, 0), (0, 0));
    assert_eq!(raised_limits(u64::MAX, 1, 5), (u64::MAX, u64::MAX));
}

#[test]
fn two_descriptors_per_connection() {
    assert_eq!(descriptors_needed(0), 0);
    assert_eq!(descriptors_needed(512), 1024);
    assert_eq!(descriptors_needed(usize::MAX), if usize::BITS < 64 {
        (usize::MAX as u64) * 2
    } else {
        u64::MAX
    });
}

#[test]
fn nofile_reports_are_the_documented_ones() {
    assert_eq!(
        nofile_report(NofileOutcome::Unknown),
        (Level::Error, b"getrlimit(RLIMIT_NOFILE) failed".to_vec())
    );
    assert_eq!(
        nofile_report(NofileOutcome::Refused { soft: 256, hard: 1024 }),
        (Level::Log, b"NOFILE raise attempt failed; current soft=256, hard=1024".to_vec())
    );
    assert_eq!(
        nofile_report(NofileOutcome::Raised { soft: 2048, hard: 4096 }),
        (Level::Log, b"NOFILE limit: soft=2048 hard=4096".to_vec())
    );
}

#[test]
fn outcome_follows_what_the_system_answered() {
    assert_eq!(nofile_outcome(None, false, None), NofileOutcome::Unknown);
    assert_eq!(nofile_outcome(None, true, Some((1, 2))), NofileOutcome::Unknown);
    assert_eq!(
        nofile_outcome(Some((256, 1024)), false, None),
        NofileOutcome::Refused { soft: 256, hard: 1024 }
    );
    assert_eq!(
        nofile_outcome(Some((256, 1024)), false, Some((9, 9))),
        NofileOutcome::Refused { soft: 256, hard: 1024 }
    );
    assert_eq!(
        nofile_outcome(Some((256, 1024)), true, Some((2048, 4096))),
        NofileOutcome::Raised { soft: 2048, hard: 4096 }
    );
    assert_eq!(
        nofile_outcome(Some((256, 1024)), true, None),
        NofileOutcome::Raised { soft: 0, hard: 0 }
    );
}

#[test]
fn raising_asks_for_enough_and_never_for_less() {
    let attempt = try_raise_nofile_limit(64);
    match attempt.outcome {
        NofileOutcome::Unknown => assert_eq!(attempt.asked, None),
        NofileOutcome::Refused { soft, hard } => {
            assert_eq!(attempt.asked, Some(raised_limits(soft, hard, 64)));
        }
        NofileOutcome::Raised { .. } => {
            let (soft, hard) = attempt.asked.unwrap();
            assert!(soft >= 64);
            assert!(hard >= soft);
        }
    }
}

#[test]
fn raising_to_nothing_leaves_the_limits() {
    let attempt = try_raise_nofile_limit(0);
    match (attempt.asked, attempt.outcome) {
        (Some(asked), NofileOutcome::Raised { soft, hard }) => {
            assert!(asked.0 <= asked.1);
            assert_eq!((soft, hard), asked);
        }
        (Some(asked), NofileOutcome::Refused { soft, hard }) => {
            assert_eq!(asked, raised_limits(soft, hard, 0));
        }
        (None, NofileOutcome::Unknown) => {}
        other => panic!("{:?}", other),
    }
}
