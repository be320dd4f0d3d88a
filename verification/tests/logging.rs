//! The audit trail, the log buffer, redaction of log output and its settings.
use rdt::audit::{audit_lines, read_recent_from, AuditEvent, AuditEventKind, AuditLog, AuditOutcome};
use rdt::buffer::{level_rank, Level, LogBuffer, LogEntry};
use rdt::error::ErrorCode;
use rdt::logging::{build_redactor, filter_directive, subscriber_failed, LogConfig};
use rdt::redact::Redactor;
use rdt::redact_writer::RedactingWriter;
use rdt::timeutil::UtcStamp;

#[test]
fn records_are_appended_and_read_back() {
    let log = AuditLog::open("basic.jsonl", Redactor::new().with_secret("s3cr3tvalue"));
    let first = log.record(
        AuditEvent::new(
            AuditEventKind::AuthAttempt,
            AuditOutcome::Success,
            "password s3cr3tvalue accepted for alice",
        )
        .with_session("abcd")
        .with_profile("ef01"),
    );
    let second = log.record(AuditEvent::info(AuditEventKind::SessionClosed, "closed by user"));

    let events = read_recent_from(vec![Some(first), Some(second)], 10);
    assert_eq!(events.len(), 2);
    assert_eq!(events[0].kind, AuditEventKind::AuthAttempt);
    assert_eq!(events[0].session.as_deref(), Some("abcd"));
    assert!(!events[0].detail.contains("s3cr3tvalue"), "{:?}", events[0]);
    assert!(events[0].detail.contains("<redacted>"));
    assert_eq!(events[1].outcome, AuditOutcome::Info);
}

#[test]
fn read_recent_limits_the_result() {
    let log = AuditLog::open("limit.jsonl", Redactor::new());
    let mut lines = Vec::new();
    for index in 0..5 {
        let event = AuditEvent::info(AuditEventKind::FileTransfer, &format!("file {index}"));
        lines.push(Some(log.record(event)));
    }
    let last_two = read_recent_from(lines, 2);
    assert_eq!(last_two.len(), 2);
    assert_eq!(last_two[0].detail, "file 3");
    assert_eq!(last_two[1].detail, "file 4");
}

#[test]
fn missing_file_reads_as_empty() {
    let events = read_recent_from(Vec::new(), 10);
    assert!(events.is_empty());
}

#[test]
fn malformed_lines_are_skipped() {
    let lines = audit_lines("not json\n{\"kind\":\"session_closed\"}\n");
    assert_eq!(lines.len(), 2);
    let events = read_recent_from(lines.iter().map(|line| parsed(line)).collect(), 10);
    assert!(events.is_empty());
}

#[test]
fn wellformed_lines_among_malformed_ones_are_read() {
    let lines = audit_lines(
        "not json\n{\"stamp\":5,\"kind\":\"session_closed\",\"outcome\":\"info\",\"detail\":\"bye\"}\n{}\n",
    );
    let events = read_recent_from(lines.iter().map(|line| parsed(line)).collect(), 10);
    assert_eq!(events.len(), 1);
    assert_eq!(events[0].detail, "bye");
    assert_eq!(events[0].stamp.millis(), 5);
}

/// The record of a line about a closed session, if the line is one.
fn parsed(line: &str) -> Option<AuditEvent> {
    let value: serde_json::Value = serde_json::from_str(line).ok()?;
    let stamp = value.get("stamp")?.as_u64()?;
    let detail = value.get("detail")?.as_str()?;
    if value.get("kind")?.as_str()? != AuditEventKind::SessionClosed.as_str()
        || value.get("outcome")?.as_str()? != AuditOutcome::Info.as_str()
    {
        return None;
    }
    let mut event = AuditEvent::info(AuditEventKind::SessionClosed, detail);
    event.stamp = UtcStamp::from_millis(stamp);
    Some(event)
}

#[test]
fn event_kinds_have_stable_names() {
    assert_eq!(AuditEventKind::HostKeyRejected.as_str(), "host_key_rejected");
    assert_eq!(AuditOutcome::Denied.as_str(), "denied");
}

#[test]
fn audit_sinks_know_their_file() {
    assert_eq!(AuditLog::null().path(), "/dev/null");
    let error = AuditLog::open_failed("/var/log/a", "denied");
    assert_eq!(error.code(), ErrorCode::Io);
    assert_eq!(error.message(), "cannot open the audit file /var/log/a: denied");
}

fn entry(level: &str, message: &str) -> LogEntry {
    LogEntry {
        stamp: rdt::timeutil::utc_now(),
        level: level.to_uppercase(),
        target: "rdt_test".to_owned(),
        message: message.to_owned(),
    }
}

#[test]
fn buffer_drops_the_oldest_entries() {
    let mut buffer = LogBuffer::new(2);
    buffer.push(entry("info", "one"));
    buffer.push(entry("info", "two"));
    buffer.push(entry("info", "three"));
    let entries = buffer.entries();
    assert_eq!(entries.len(), 2);
    assert_eq!(entries[0].message, "two");
    assert_eq!(entries[1].message, "three");
    assert_eq!(buffer.dropped(), 1);
}

#[test]
fn zero_capacity_buffers_nothing() {
    let mut buffer = LogBuffer::new(0);
    buffer.push(entry("info", "ignored"));
    assert!(buffer.is_empty());
}

#[test]
fn filtering_matches_text_and_level() {
    let mut buffer = LogBuffer::new(10);
    buffer.push(entry("info", "connected to db01"));
    buffer.push(entry("warn", "keepalive delayed"));
    buffer.push(entry("error", "host key mismatch"));
    buffer.push(entry("debug", "password=hunter2"));

    assert_eq!(buffer.filter("", Level::Info).len(), 3);
    assert_eq!(buffer.filter("host key", Level::Trace).len(), 1);
    assert_eq!(buffer.filter("", Level::Error).len(), 1);
    assert_eq!(buffer.filter("rdt_test", Level::Trace).len(), 4);
    buffer.clear();
    assert!(buffer.is_empty());
}

#[test]
fn level_names_are_stable() {
    assert_eq!(Level::Warn.as_str(), "warn");
    assert_eq!(Level::default(), Level::Info);
}

#[test]
fn unknown_levels_rank_like_info() {
    assert_eq!(level_rank("NOTICE"), level_rank("info"));
    assert_eq!(level_rank("Error"), 4);
    assert_eq!(level_rank("TRACE"), 0);
}

fn writer() -> RedactingWriter {
    RedactingWriter::new(Redactor::new().with_secret("hunter2"), LogBuffer::new(16))
}

#[test]
fn complete_lines_are_redacted_and_buffered() {
    let mut handle = writer();
    let written = handle.write(b"password=hunter2 accepted\n").expect("room");
    assert_eq!(handle.flush(), "");
    assert_eq!(written, "password=<redacted> accepted\n");
    let entries = handle.buffer().entries();
    assert_eq!(entries.len(), 1);
    assert!(!entries[0].message.contains("hunter2"), "{:?}", entries[0]);
    assert!(entries[0].message.contains("<redacted>"));
}

#[test]
fn partial_lines_are_assembled_before_redaction() {
    let mut handle = writer();
    handle.write(b"using pass").expect("write");
    handle.write(b"word=hunter2 now\n").expect("write");
    let entries = handle.buffer().entries();
    assert_eq!(entries.len(), 1);
    assert_eq!(entries[0].message, "using password=<redacted> now");
}

#[test]
fn discarded_lines_are_counted_across_writes() {
    let mut handle = RedactingWriter::new(Redactor::new(), LogBuffer::new(2));
    handle.write(b"one\ntwo\nthree\n").expect("room");
    assert_eq!(handle.buffer().dropped(), 1);
    handle.write(b"four\n").expect("room");
    assert_eq!(handle.buffer().dropped(), 2);
    let copy = handle.buffer().clone();
    assert_eq!(copy.entries()[1].message, "four");
}

#[test]
fn pieces_of_a_line_are_assembled_before_redaction() {
    let mut handle = writer();
    assert_eq!(handle.write(b"using pass").expect("room"), "");
    let written = handle.write(b"word=hunter2 now\r\n\nrest").expect("room");
    assert_eq!(written, "using password=<redacted> now\n\n");
    assert_eq!(handle.buffer().entries().len(), 1);
    assert_eq!(handle.buffer().entries()[0].level, "INFO");
    assert_eq!(handle.buffer().entries()[0].target, "rdt");
    assert_eq!(handle.flush(), "rest");
    assert_eq!(handle.flush(), "");
    let mut named = handle.with_meta("WARN", "rdt::ssh");
    assert_eq!(named.redact_line("x"), "x");
    assert_eq!(named.write(&[b'a', 0xFF, b'\n']).expect("room"), "a\u{FFFD}\n");
    assert_eq!(named.buffer().entries()[3].target, "rdt::ssh");
}

#[test]
fn redactor_is_built_from_the_config() {
    let config = LogConfig {
        secrets: vec!["topsecret".to_owned(), "ab".to_owned()],
        ..Default::default()
    };
    let redactor = build_redactor(&config);
    assert_eq!(redactor.secret_count(), 1, "short secrets are ignored");
    let line = redactor.redact("auth with topsecret failed");
    assert!(!line.contains("topsecret"));
}

#[test]
fn log_config_defaults_are_safe() {
    let config = LogConfig::default();
    assert!(config.file_enabled);
    assert_eq!(config.console_level, "info");
    assert_eq!(config.file_level, "debug");
    assert!(config.max_bytes_per_file > 0);
    assert!(config.max_files > 0);
}

#[test]
fn filters_follow_the_environment() {
    assert_eq!(filter_directive("debug", None), "rdt=debug,warn");
    assert_eq!(filter_directive("debug", Some("trace")), "trace");
    assert_eq!(
        subscriber_failed("twice").message(),
        "cannot install the logging subscriber: twice"
    );
}

#[test]
fn held_entries_keep_their_stamps() {
    let mut handle = writer();
    handle.write(b"one\n").expect("room");
    let stamp = handle.buffer().entries()[0].stamp;
    handle.write(b"two\nthree").expect("room");
    handle.flush();
    assert_eq!(handle.buffer().entries().len(), 3);
    assert_eq!(handle.buffer().entries()[0].stamp, stamp);
}
