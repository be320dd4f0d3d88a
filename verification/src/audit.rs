//! Append-only audit trail.
//!
//! Every security relevant action produces one record: session lifecycle,
//! authentication attempts, host key decisions, file transfers, clipboard use,
//! configuration changes and vault access. Each record is redacted before it is
//! written.
use crate::error::{fail, ErrorCode, RdtError};
use crate::redact::{redacted, Redactor};
use crate::ssh_session::text_option;
use crate::text::{concat4, lines, split_lines, texts};
use crate::timeutil::UtcStamp;
use vstd::prelude::*;

verus! {

/// Kinds of audited events.
#[derive(Debug, Clone, Copy, PartialEq, Eq, Hash, Structural)]
pub enum AuditEventKind {
    /// A session started connecting.
    SessionConnect,
    /// A session reached the connected state.
    SessionEstablished,
    /// A session ended.
    SessionClosed,
    /// A reconnection attempt started.
    SessionReconnect,
    /// An authentication attempt was made.
    AuthAttempt,
    /// A host key was accepted and recorded.
    HostKeyAccepted,
    /// A host key mismatch was refused.
    HostKeyRejected,
    /// A server certificate decision was made.
    CertificateDecision,
    /// A file was uploaded or downloaded.
    FileTransfer,
    /// Clipboard content crossed the RDP channel.
    ClipboardTransfer,
    /// A configuration or profile was changed.
    ConfigChanged,
    /// The secret vault was unlocked, locked or created.
    VaultAccess,
    /// The agent service was installed or removed.
    ServiceChanged,
    /// A command was executed on the remote side.
    CommandExecuted,
}

impl AuditEventKind {
    /// The identifier of a kind.
    pub open spec fn name(self) -> Seq<char> {
        match self {
            AuditEventKind::SessionConnect => "session_connect"@,
            AuditEventKind::SessionEstablished => "session_established"@,
            AuditEventKind::SessionClosed => "session_closed"@,
            AuditEventKind::SessionReconnect => "session_reconnect"@,
            AuditEventKind::AuthAttempt => "auth_attempt"@,
            AuditEventKind::HostKeyAccepted => "host_key_accepted"@,
            AuditEventKind::HostKeyRejected => "host_key_rejected"@,
            AuditEventKind::CertificateDecision => "certificate_decision"@,
            AuditEventKind::FileTransfer => "file_transfer"@,
            AuditEventKind::ClipboardTransfer => "clipboard_transfer"@,
            AuditEventKind::ConfigChanged => "config_changed"@,
            AuditEventKind::VaultAccess => "vault_access"@,
            AuditEventKind::ServiceChanged => "service_changed"@,
            AuditEventKind::CommandExecuted => "command_executed"@,
        }
    }

    /// Stable identifier.
    pub fn as_str(self) -> (r: &'static str)
        ensures
            r@ == self.name(),
    {
        match self {
            AuditEventKind::SessionConnect => "session_connect",
            AuditEventKind::SessionEstablished => "session_established",
            AuditEventKind::SessionClosed => "session_closed",
            AuditEventKind::SessionReconnect => "session_reconnect",
            AuditEventKind::AuthAttempt => "auth_attempt",
            AuditEventKind::HostKeyAccepted => "host_key_accepted",
            AuditEventKind::HostKeyRejected => "host_key_rejected",
            AuditEventKind::CertificateDecision => "certificate_decision",
            AuditEventKind::FileTransfer => "file_transfer",
            AuditEventKind::ClipboardTransfer => "clipboard_transfer",
            AuditEventKind::ConfigChanged => "config_changed",
            AuditEventKind::VaultAccess => "vault_access",
            AuditEventKind::ServiceChanged => "service_changed",
            AuditEventKind::CommandExecuted => "command_executed",
        }
    }
}

/// Outcome of an audited action.
#[derive(Debug, Clone, Copy, PartialEq, Eq, Structural)]
pub enum AuditOutcome {
    /// The action succeeded.
    Success,
    /// The action failed.
    Failure,
    /// The action was refused by policy.
    Denied,
    /// The action is informational only.
    Info,
}

impl AuditOutcome {
    /// Stable identifier.
    pub fn as_str(self) -> (r: &'static str)
        ensures
            r@ == match self {
                AuditOutcome::Success => "success"@,
                AuditOutcome::Failure => "failure"@,
                AuditOutcome::Denied => "denied"@,
                AuditOutcome::Info => "info"@,
            },
    {
        match self {
            AuditOutcome::Success => "success",
            AuditOutcome::Failure => "failure",
            AuditOutcome::Denied => "denied",
            AuditOutcome::Info => "info",
        }
    }
}

/// One audit record.
#[derive(Debug, Clone, PartialEq, Eq)]
pub struct AuditEvent {
    /// When it happened.
    pub stamp: UtcStamp,
    /// What happened.
    pub kind: AuditEventKind,
    /// Outcome.
    pub outcome: AuditOutcome,
    /// Session identifier, when applicable.
    pub session: Option<String>,
    /// Profile identifier, when applicable.
    pub profile: Option<String>,
    /// Free form, already redacted detail.
    pub detail: String,
}

/// What an audit record says, besides when it was made.
pub ghost struct AuditEventView {
    /// What happened.
    pub kind: AuditEventKind,
    /// Outcome.
    pub outcome: AuditOutcome,
    /// Session identifier.
    pub session: Option<Seq<char>>,
    /// Profile identifier.
    pub profile: Option<Seq<char>>,
    /// Detail.
    pub detail: Seq<char>,
}

impl View for AuditEvent {
    type V = AuditEventView;

    open spec fn view(&self) -> AuditEventView {
        AuditEventView {
            kind: self.kind,
            outcome: self.outcome,
            session: text_option(self.session),
            profile: text_option(self.profile),
            detail: self.detail@,
        }
    }
}

impl AuditEvent {
    /// Builds an informational event.
    pub fn info(kind: AuditEventKind, detail: &str) -> (r: Self)
        ensures
            r@ == (AuditEventView {
                kind,
                outcome: AuditOutcome::Info,
                session: None,
                profile: None,
                detail: detail@,
            }),
    {
        Self::new(kind, AuditOutcome::Info, detail)
    }

    /// Builds an event with an explicit outcome, stamped with the current time.
    pub fn new(kind: AuditEventKind, outcome: AuditOutcome, detail: &str) -> (r: Self)
        ensures
            r@ == (AuditEventView {
                kind,
                outcome,
                session: None,
                profile: None,
                detail: detail@,
            }),
    {
        AuditEvent {
            stamp: UtcStamp::now(),
            kind,
            outcome,
            session: None,
            profile: None,
            detail: detail.to_owned(),
        }
    }

    /// Attaches a session identifier.
    pub fn with_session(self, session: &str) -> (r: Self)
        ensures
            r@ == (AuditEventView { session: Some(session@), ..self@ }),
            r.stamp == self.stamp,
    {
        let mut r = self;
        r.session = Some(session.to_owned());
        r
    }

    /// Attaches a profile identifier.
    pub fn with_profile(self, profile: &str) -> (r: Self)
        ensures
            r@ == (AuditEventView { profile: Some(profile@), ..self@ }),
            r.stamp == self.stamp,
    {
        let mut r = self;
        r.profile = Some(profile.to_owned());
        r
    }
}

/// Where the audit trail is kept and what is removed from its records.
pub struct AuditLog {
    path: String,
    redactor: Redactor,
}

impl AuditLog {
    /// The audit file.
    pub closed spec fn file(self) -> Seq<char> {
        self.path@
    }

    /// The secrets that no record may hold.
    pub closed spec fn secrets(self) -> Seq<Seq<char>> {
        self.redactor.secrets()
    }

    /// An audit trail kept in a file.
    pub fn open(path: &str, redactor: Redactor) -> (r: Self)
        ensures
            r.file() == path@,
            r.secrets() == redactor.secrets(),
    {
        AuditLog { path: path.to_owned(), redactor }
    }

    /// The error for an audit file that cannot be opened.
    pub fn open_failed(path: &str, reason: &str) -> (r: RdtError)
        ensures
            r@ == fail(
                ErrorCode::Io,
                "cannot open the audit file "@ + path@ + ": "@ + reason@,
            ),
    {
        RdtError::new(
            ErrorCode::Io,
            concat4("cannot open the audit file ", path, ": ", reason).as_str(),
        )
    }

    /// A sink that discards records.
    pub fn null() -> (r: Self)
        ensures
            r.file() == "/dev/null"@,
            r.secrets() == Seq::<Seq<char>>::empty(),
    {
        AuditLog { path: "/dev/null".to_owned(), redactor: Redactor::new() }
    }

    /// Path of the audit file.
    pub fn path(&self) -> (r: &str)
        ensures
            r@ == self.file(),
    {
        self.path.as_str()
    }

    /// The last `limit` records of the audit file, ignoring malformed lines;
    /// `parsed` holds the record of each line, if the line is one.
    pub fn read_recent(&self, parsed: Vec<Option<AuditEvent>>, limit: usize) -> (r: Vec<AuditEvent>)
        ensures
            r@ == newest(wellformed_records(parsed@), limit as nat),
    {
        read_recent_from(parsed, limit)
    }

    /// The record to append for an event: the event with its detail redacted.
    pub fn record(&self, event: AuditEvent) -> (r: AuditEvent)
        ensures
            r@ == (AuditEventView {
                detail: redacted(self.secrets(), event@.detail),
                ..event@
            }),
            r.stamp == event.stamp,
    {
        let mut r = event;
        r.detail = self.redactor.redact(r.detail.as_str());
        r
    }
}

/// The lines of an audit file, one record each.
pub fn audit_lines(content: &str) -> (r: Vec<String>)
    ensures
        texts(r@) == lines(content@),
{
    split_lines(content)
}

/// The records among the lines of an audit file, in order.
pub open spec fn wellformed_records(parsed: Seq<Option<AuditEvent>>) -> Seq<AuditEvent>
    decreases parsed.len(),
{
    if parsed.len() == 0 {
        Seq::empty()
    } else {
        match parsed.last() {
            Some(event) => wellformed_records(parsed.drop_last()).push(event),
            None => wellformed_records(parsed.drop_last()),
        }
    }
}

/// The last `limit` items of a sequence, or all of them.
pub open spec fn newest<T>(items: Seq<T>, limit: nat) -> Seq<T> {
    if items.len() <= limit {
        items
    } else {
        items.skip(items.len() - limit)
    }
}

/// The last `limit` records of an audit file, ignoring malformed lines; `parsed`
/// holds the record of each line, if the line is one.
pub fn read_recent_from(parsed: Vec<Option<AuditEvent>>, limit: usize) -> (r: Vec<AuditEvent>)
    ensures
        r@ == newest(wellformed_records(parsed@), limit as nat),
{
    let ghost all = parsed@;
    let mut rest = parsed;
    let mut reversed: Vec<AuditEvent> = Vec::new();
    // Walk from the end, so that only the newest records are kept.
    while rest.len() > 0 && reversed.len() < limit
        invariant
            reversed@.len() <= limit,
            rest@.len() <= all.len(),
            wellformed_records(all) == wellformed_records(rest@) + reversed@.reverse(),
        decreases rest.len(),
    {
        let ghost before = rest@;
        let ghost held = reversed@;
        if let Some(item) = rest.pop() {
            proof {
                assert(rest@ == before.drop_last());
                assert(item == before.last());
            }
            if let Some(event) = item {
                reversed.push(event);
                proof {
                    assert(reversed@.reverse() =~= seq![event] + held.reverse());
                    assert(wellformed_records(before) + held.reverse() =~= wellformed_records(rest@)
                        + reversed@.reverse());
                }
            }
        }
    }
    let ghost kept = reversed@.reverse();
    let ghost older = wellformed_records(rest@);
    let mut r: Vec<AuditEvent> = Vec::new();
    let ghost backward = reversed@;
    while reversed.len() > 0
        invariant
            r@ + reversed@.reverse() == backward.reverse(),
        decreases reversed.len(),
    {
        let ghost held = reversed@;
        let ghost done = r@;
        if let Some(event) = reversed.pop() {
            r.push(event);
            assert(held.reverse() =~= seq![event] + reversed@.reverse());
            assert(r@ + reversed@.reverse() =~= done + held.reverse());
        }
    }
    proof {
        assert(reversed@.reverse() =~= Seq::<AuditEvent>::empty());
        assert(r@ =~= kept);
        let records = wellformed_records(all);
        assert(records == older + kept);
        if rest@.len() == 0 {
            assert(older =~= Seq::<AuditEvent>::empty());
        }
        assert(newest(records, limit as nat) =~= kept);
    }
    r
}

/// The last items of a sequence: all of them when there are no more than the limit, and
/// otherwise as many as the limit from its end.
pub proof fn newest_items_are_the_last<T>(items: Seq<T>, limit: nat, i: int)
    ensures
        items.len() <= limit ==> newest(items, limit) == items,
        items.len() > limit ==> newest(items, limit).len() == limit,
        items.len() > limit && 0 <= i < limit ==> newest(items, limit)[i] == items[items.len()
            - limit + i],
{
}

/// The records of an audit file are those of the lines that can be read, in order.
pub proof fn readable_records_count(parsed: Seq<Option<AuditEvent>>, event: AuditEvent)
    ensures
        wellformed_records(Seq::empty()) == Seq::<AuditEvent>::empty(),
        wellformed_records(parsed.push(Some(event))) == wellformed_records(parsed).push(event),
        wellformed_records(parsed.push(None)) == wellformed_records(parsed),
{
    assert(parsed.push(Some(event)).drop_last() =~= parsed);
    assert(parsed.push(None).drop_last() =~= parsed);
}

} // verus!
