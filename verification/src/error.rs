//! Typed errors shared by every module.
//!
//! A single error type keeps error handling at the UI boundary trivial while the
//! [`ErrorCode`] discriminant keeps it precise: the UI can react to
//! [`ErrorCode::HostKeyMismatch`] differently from [`ErrorCode::Timeout`]
//! without string matching, and audit records stay machine readable.
use crate::text::texts;
use vstd::prelude::*;

verus! {

/// Machine readable classification of a failure.
#[derive(Debug, Clone, Copy, PartialEq, Eq, Hash, Structural)]
pub enum ErrorCode {
    /// A configuration file was missing, malformed or failed validation.
    Config,
    /// An I/O operation failed.
    Io,
    /// The operation needs privileges the process does not have.
    Permission,
    /// A cryptographic operation failed (AEAD, KDF, key parsing, …).
    Crypto,
    /// The encrypted secret vault could not be opened or written.
    Vault,
    /// The operating system keyring rejected the request or is unavailable.
    Keystore,
    /// A connection could not be established or dropped unexpectedly.
    Network,
    /// An operation exceeded its deadline.
    Timeout,
    /// The operation was cancelled by the user or by a shutdown.
    Cancelled,
    /// The remote side violated the protocol.
    Protocol,
    /// Authentication was refused by the remote side.
    Authentication,
    /// The host key is unknown and the policy forbids accepting it.
    HostKeyUnknown,
    /// The host key changed compared to the recorded one.
    HostKeyMismatch,
    /// TLS negotiation or certificate validation failed.
    Tls,
    /// A file transfer (SFTP) failed.
    Transfer,
    /// The terminal emulator rejected the input.
    Terminal,
    /// The session is not in a state that allows the requested operation.
    SessionState,
    /// The platform does not support the requested operation.
    Platform,
    /// A service could not be installed, started or removed.
    Service,
    /// A referenced object (profile, session, file, …) does not exist.
    NotFound,
    /// The operation is not supported on this platform or by the peer.
    Unsupported,
    /// The caller supplied an invalid argument.
    InvalidInput,
    /// An internal invariant was violated; please report it.
    Internal,
}

impl ErrorCode {
    /// The identifier of a code.
    pub open spec fn name(self) -> Seq<char> {
        match self {
            ErrorCode::Config => "config"@,
            ErrorCode::Io => "io"@,
            ErrorCode::Permission => "permission"@,
            ErrorCode::Crypto => "crypto"@,
            ErrorCode::Vault => "vault"@,
            ErrorCode::Keystore => "keystore"@,
            ErrorCode::Network => "network"@,
            ErrorCode::Timeout => "timeout"@,
            ErrorCode::Cancelled => "cancelled"@,
            ErrorCode::Protocol => "protocol"@,
            ErrorCode::Authentication => "authentication"@,
            ErrorCode::HostKeyUnknown => "host_key_unknown"@,
            ErrorCode::HostKeyMismatch => "host_key_mismatch"@,
            ErrorCode::Tls => "tls"@,
            ErrorCode::Transfer => "transfer"@,
            ErrorCode::Terminal => "terminal"@,
            ErrorCode::SessionState => "session_state"@,
            ErrorCode::Platform => "platform"@,
            ErrorCode::Service => "service"@,
            ErrorCode::NotFound => "not_found"@,
            ErrorCode::Unsupported => "unsupported"@,
            ErrorCode::InvalidInput => "invalid_input"@,
            ErrorCode::Internal => "internal"@,
        }
    }

    /// Short, stable identifier suitable for logs, metrics and the audit trail.
    pub fn as_str(self) -> (r: &'static str)
        ensures
            r@ == self.name(),
    {
        match self {
            ErrorCode::Config => "config",
            ErrorCode::Io => "io",
            ErrorCode::Permission => "permission",
            ErrorCode::Crypto => "crypto",
            ErrorCode::Vault => "vault",
            ErrorCode::Keystore => "keystore",
            ErrorCode::Network => "network",
            ErrorCode::Timeout => "timeout",
            ErrorCode::Cancelled => "cancelled",
            ErrorCode::Protocol => "protocol",
            ErrorCode::Authentication => "authentication",
            ErrorCode::HostKeyUnknown => "host_key_unknown",
            ErrorCode::HostKeyMismatch => "host_key_mismatch",
            ErrorCode::Tls => "tls",
            ErrorCode::Transfer => "transfer",
            ErrorCode::Terminal => "terminal",
            ErrorCode::SessionState => "session_state",
            ErrorCode::Platform => "platform",
            ErrorCode::Service => "service",
            ErrorCode::NotFound => "not_found",
            ErrorCode::Unsupported => "unsupported",
            ErrorCode::InvalidInput => "invalid_input",
            ErrorCode::Internal => "internal",
        }
    }

    /// The text shown for a code.
    pub fn to_string(&self) -> (r: String)
        ensures
            r@ == self.name(),
    {
        self.as_str().to_owned()
    }

    /// Whether a failure is worth retrying.
    pub open spec fn retryable(self) -> bool {
        self is Network || self is Timeout || self is SessionState || self is Internal
    }

    /// Whether a failure needs a human decision.
    pub open spec fn human(self) -> bool {
        self is HostKeyUnknown || self is HostKeyMismatch || self is Tls || self is Authentication
            || self is Permission
    }

    /// Whether the failure is worth retrying (used by the reconnection policy).
    pub fn is_retryable(self) -> (r: bool)
        ensures
            r == self.retryable(),
    {
        matches!(
            self,
            ErrorCode::Network | ErrorCode::Timeout | ErrorCode::SessionState | ErrorCode::Internal
        )
    }

    /// Whether the failure needs a human decision rather than a retry.
    pub fn needs_user_decision(self) -> (r: bool)
        ensures
            r == self.human(),
    {
        matches!(
            self,
            ErrorCode::HostKeyUnknown
                | ErrorCode::HostKeyMismatch
                | ErrorCode::Tls
                | ErrorCode::Authentication
                | ErrorCode::Permission
        )
    }
}

/// No failure is both retried and left to the user: a failure that needs a human
/// decision is never retried automatically.
pub proof fn decisions_are_never_retried(code: ErrorCode)
    ensures
        !(code.retryable() && code.human()),
{
}

/// What went wrong in an operating system call.
#[derive(Debug, Clone, Copy, PartialEq, Eq, Hash, Structural)]
pub enum IoFailure {
    /// The operation needs privileges the process does not have.
    PermissionDenied,
    /// The object does not exist.
    NotFound,
    /// The operation timed out.
    TimedOut,
    /// The peer refused the connection.
    ConnectionRefused,
    /// The peer reset the connection.
    ConnectionReset,
    /// The peer aborted the connection.
    ConnectionAborted,
    /// The stream ended early.
    UnexpectedEof,
    /// The operation was interrupted.
    Interrupted,
    /// Anything else.
    Other,
}

impl IoFailure {
    /// The classification of an operating system failure.
    pub open spec fn classified(self) -> ErrorCode {
        match self {
            IoFailure::PermissionDenied => ErrorCode::Permission,
            IoFailure::TimedOut => ErrorCode::Timeout,
            IoFailure::ConnectionRefused => ErrorCode::Network,
            IoFailure::ConnectionReset => ErrorCode::Network,
            IoFailure::ConnectionAborted => ErrorCode::Network,
            IoFailure::UnexpectedEof => ErrorCode::Network,
            IoFailure::Interrupted => ErrorCode::Cancelled,
            IoFailure::NotFound => ErrorCode::Io,
            IoFailure::Other => ErrorCode::Io,
        }
    }

    /// The classification of an operating system failure.
    pub fn code(self) -> (r: ErrorCode)
        ensures
            r == self.classified(),
    {
        match self {
            IoFailure::PermissionDenied => ErrorCode::Permission,
            IoFailure::TimedOut => ErrorCode::Timeout,
            IoFailure::ConnectionRefused => ErrorCode::Network,
            IoFailure::ConnectionReset => ErrorCode::Network,
            IoFailure::ConnectionAborted => ErrorCode::Network,
            IoFailure::UnexpectedEof => ErrorCode::Network,
            IoFailure::Interrupted => ErrorCode::Cancelled,
            IoFailure::NotFound => ErrorCode::Io,
            IoFailure::Other => ErrorCode::Io,
        }
    }
}

/// The shared error type.
#[derive(Debug)]
pub struct RdtError {
    code: ErrorCode,
    message: String,
    source: Option<String>,
    context: Vec<String>,
}

/// The content of an error.
pub struct RdtErrorView {
    /// The classification.
    pub code: ErrorCode,
    /// The message.
    pub message: Seq<char>,
    /// The text of the underlying error.
    pub source: Option<Seq<char>>,
    /// The context lines, in the order in which they were added.
    pub context: Seq<Seq<char>>,
}

impl View for RdtError {
    type V = RdtErrorView;

    closed spec fn view(&self) -> RdtErrorView {
        RdtErrorView {
            code: self.code,
            message: self.message@,
            source: match self.source {
                Some(text) => Some(text@),
                None => None,
            },
            context: texts(self.context@),
        }
    }
}

/// An error with a code and a message only.
pub open spec fn fail(code: ErrorCode, message: Seq<char>) -> RdtErrorView {
    RdtErrorView { code, message, source: None, context: Seq::empty() }
}

/// An error that names a detail.
pub open spec fn fail_about(
    code: ErrorCode,
    message: Seq<char>,
    key: Seq<char>,
    value: Seq<char>,
) -> RdtErrorView {
    RdtErrorView { context: seq![key + ": "@ + value], ..fail(code, message) }
}

/// Texts joined by a separator.
pub open spec fn joined(parts: Seq<Seq<char>>, separator: Seq<char>) -> Seq<char>
    decreases parts.len(),
{
    if parts.len() == 0 {
        Seq::empty()
    } else if parts.len() == 1 {
        parts[0]
    } else {
        joined(parts.drop_last(), separator) + separator + parts.last()
    }
}

/// The parts of an error line: context lines with the most recent first, then the
/// message, then the underlying error.
pub open spec fn chain(error: RdtErrorView) -> Seq<Seq<char>> {
    let head = error.context.reverse().push(error.message);
    match error.source {
        Some(text) => head.push(text),
        None => head,
    }
}

/// The whole chain as a single line.
pub open spec fn single_line(error: RdtErrorView) -> Seq<char> {
    joined(chain(error), ": "@)
}

/// The text shown for an error.
pub open spec fn rendered(error: RdtErrorView) -> Seq<char> {
    error.code.name() + ": "@ + single_line(error)
}

/// Joins texts with a separator.
pub fn join(parts: &Vec<String>, separator: &str) -> (r: String)
    ensures
        r@ == joined(texts(parts@), separator@),
{
    let mut r = String::new();
    let mut i: usize = 0;
    let ghost all = texts(parts@);
    assert(all.take(0) =~= Seq::<Seq<char>>::empty());
    while i < parts.len()
        invariant
            i <= parts@.len(),
            all == texts(parts@),
            r@ == joined(all.take(i as int), separator@),
        decreases parts.len() - i,
    {
        proof {
            let next = all.take(i + 1);
            assert(next.drop_last() =~= all.take(i as int));
            assert(next.last() == parts@[i as int]@);
        }
        if i > 0 {
            r.push_str(separator);
        }
        let ghost before = r@;
        r.push_str(parts[i].as_str());
        proof {
            if i == 0 {
                assert(r@ =~= parts@[0]@);
            }
        }
        i = i + 1;
    }
    assert(all.take(all.len() as int) =~= all);
    r
}

/// Copies a run of texts.
pub fn copy_texts(v: &Vec<String>) -> (r: Vec<String>)
    ensures
        texts(r@) == texts(v@),
{
    let mut r: Vec<String> = Vec::with_capacity(v.len());
    let mut i: usize = 0;
    while i < v.len()
        invariant
            i <= v@.len(),
            r@.len() == i,
            forall|k: int| 0 <= k < i ==> (#[trigger] r@[k])@ == v@[k]@,
        decreases v.len() - i,
    {
        r.push(v[i].clone());
        i = i + 1;
    }
    assert(texts(r@) =~= texts(v@));
    r
}

impl RdtError {
    /// Creates an error from a code and a human readable message.
    pub fn new(code: ErrorCode, message: &str) -> (r: Self)
        ensures
            r@ == fail(code, message@),
    {
        let r = RdtError { code, message: message.to_owned(), source: None, context: Vec::new() };
        assert(r@.context =~= Seq::<Seq<char>>::empty());
        r
    }

    /// An operating system failure, classified by its kind, with its own text as
    /// the underlying error.
    pub fn from_io(kind: IoFailure, text: &str) -> (r: Self)
        ensures
            r@ == (RdtErrorView {
                source: Some(text@),
                ..fail(kind.classified(), text@)
            }),
    {
        RdtError::new(kind.code(), text).with_source(text)
    }

    /// Attaches the text of an underlying error as the cause.
    pub fn with_source(self, source: &str) -> (r: Self)
        ensures
            r@ == (RdtErrorView { source: Some(source@), ..self@ }),
    {
        let mut r = self;
        r.source = Some(source.to_owned());
        r
    }

    /// Adds a context line; the most recently added line is rendered first.
    pub fn context(self, context: &str) -> (r: Self)
        ensures
            r@ == (RdtErrorView { context: self@.context.push(context@), ..self@ }),
    {
        let mut r = self;
        r.context.push(context.to_owned());
        assert(r@.context =~= self@.context.push(context@));
        r
    }

    /// Adds a context line that names a detail: `key: value`.
    pub fn with_context(self, key: &str, value: &str) -> (r: Self)
        ensures
            r@ == (RdtErrorView { context: self@.context.push(key@ + ": "@ + value@), ..self@ }),
    {
        let mut line = key.to_owned();
        line.push_str(": ");
        line.push_str(value);
        self.context(line.as_str())
    }

    /// Creates an error that names a detail.
    pub fn noted(code: ErrorCode, message: &str, key: &str, value: &str) -> (r: Self)
        ensures
            r@ == fail_about(code, message@, key@, value@),
    {
        let r = RdtError::new(code, message).with_context(key, value);
        assert(r@.context =~= seq![key@ + ": "@ + value@]);
        r
    }

    /// The value of the first context line that names a detail.
    pub fn detail(&self, key: &str) -> (r: Option<String>)
        ensures
            match r {
                Some(value) => exists|i: int|
                    {
                        &&& 0 <= i < self@.context.len()
                        &&& #[trigger] self@.context[i] == key@ + ": "@ + value@
                        &&& forall|k: int|
                            0 <= k < i ==> !(key@ + ": "@).is_prefix_of(
                                #[trigger] self@.context[k],
                            )
                    },
                None => forall|k: int|
                    0 <= k < self@.context.len() ==> !(key@ + ": "@).is_prefix_of(
                        #[trigger] self@.context[k],
                    ),
            },
    {
        let lead = crate::text::concat2(key, ": ");
        let ghost lines = texts(self.context@);
        let mut i: usize = 0;
        while i < self.context.len()
            invariant
                i <= self.context@.len(),
                lines == texts(self.context@),
                lines == self@.context,
                lead@ == key@ + ": "@,
                forall|k: int| 0 <= k < i ==> !lead@.is_prefix_of(#[trigger] lines[k]),
            decreases self.context.len() - i,
        {
            assert(lines[i as int] == self.context@[i as int]@);
            if crate::text::starts_with(self.context[i].as_str(), lead.as_str()) {
                let chars = crate::text::chars_of(self.context[i].as_str());
                let from: usize = crate::text::chars_of(lead.as_str()).len();
                let value = crate::text::part(&chars, from, chars.len());
                proof {
                    assert(lines[i as int] =~= lead@ + value@);
                    assert(self@.context[i as int] == key@ + ": "@ + value@);
                }
                return Some(value);
            }
            i = i + 1;
        }
        None
    }

    /// The error classification.
    pub fn code(&self) -> (r: ErrorCode)
        ensures
            r == self@.code,
    {
        self.code
    }

    /// The human readable message (context lines are not included).
    pub fn message(&self) -> (r: &str)
        ensures
            r@ == self@.message,
    {
        self.message.as_str()
    }

    /// The text of the underlying error, if there is one.
    pub fn source(&self) -> (r: Option<&str>)
        ensures
            r is Some <==> self@.source is Some,
            r is Some ==> r->0@ == self@.source->0,
    {
        match &self.source {
            Some(text) => Some(text.as_str()),
            None => None,
        }
    }

    /// Whether this error should be surfaced to the user as a retryable problem.
    pub fn is_retryable(&self) -> (r: bool)
        ensures
            r == self@.code.retryable(),
    {
        self.code.is_retryable()
    }

    /// Renders the whole chain as a single line, suitable for the UI status bar.
    pub fn to_single_line(&self) -> (r: String)
        ensures
            r@ == single_line(self@),
    {
        let mut parts: Vec<String> = Vec::with_capacity(self.context.len());
        let mut i: usize = self.context.len();
        while i > 0
            invariant
                i <= self.context@.len(),
                parts@.len() == self.context@.len() - i,
                forall|k: int|
                    0 <= k < parts@.len() ==> (#[trigger] parts@[k])@ == self.context@[
                    self.context@.len() - 1 - k]@,
            decreases i,
        {
            i = i - 1;
            parts.push(self.context[i].clone());
        }
        parts.push(self.message.clone());
        assert(texts(parts@) =~= self@.context.reverse().push(self@.message));
        if let Some(text) = &self.source {
            parts.push(text.clone());
        }
        assert(texts(parts@) =~= chain(self@));
        join(&parts, ": ")
    }

    /// The text shown for an error.
    pub fn to_string(&self) -> (r: String)
        ensures
            r@ == rendered(self@),
    {
        let mut r = self.code.to_string();
        r.push_str(": ");
        let line = self.to_single_line();
        r.push_str(line.as_str());
        r
    }
}

/// Convenience alias used across the library.
pub type RdtResult<T> = Result<T, RdtError>;

/// A failure has its code and its message and says nothing else; one about something
/// says what it is about.
pub proof fn failures_say_what_they_are(
    code: ErrorCode,
    message: Seq<char>,
    key: Seq<char>,
    value: Seq<char>,
)
    ensures
        fail(code, message).code == code,
        fail(code, message).message == message,
        fail(code, message).source is None,
        fail(code, message).context.len() == 0,
        fail_about(code, message, key, value).code == code,
        fail_about(code, message, key, value).message == message,
        fail_about(code, message, key, value).context == seq![key + ": "@ + value],
{
}

/// What may be tried again: failures of the network, of time, of a session's state and
/// of the program itself, and no others.
pub proof fn transient_failures_are_retried(code: ErrorCode)
    ensures
        code.retryable() <==> code == ErrorCode::Network || code == ErrorCode::Timeout || code
            == ErrorCode::SessionState || code == ErrorCode::Internal,
        code.human() <==> code == ErrorCode::HostKeyUnknown || code == ErrorCode::HostKeyMismatch
            || code == ErrorCode::Tls || code == ErrorCode::Authentication || code
            == ErrorCode::Permission,
{
}

/// Failures of input and output are told apart: a refusal of access, a passed deadline,
/// a broken connection, an interruption, and any other.
pub proof fn io_failures_are_told_apart(failure: IoFailure)
    ensures
        failure.classified() == ErrorCode::Permission <==> failure == IoFailure::PermissionDenied,
        failure.classified() == ErrorCode::Timeout <==> failure == IoFailure::TimedOut,
        failure.classified() == ErrorCode::Cancelled <==> failure == IoFailure::Interrupted,
        failure.classified() == ErrorCode::Network <==> failure == IoFailure::ConnectionRefused
            || failure == IoFailure::ConnectionReset || failure == IoFailure::ConnectionAborted
            || failure == IoFailure::UnexpectedEof,
        failure.classified() == ErrorCode::Io <==> failure == IoFailure::NotFound || failure
            == IoFailure::Other,
{
}

/// Joining puts the separator between parts and nowhere else.
pub proof fn joining_separates_parts(parts: Seq<Seq<char>>, last: Seq<char>, separator: Seq<char>)
    ensures
        joined(Seq::empty(), separator) == Seq::<char>::empty(),
        joined(seq![last], separator) == last,
        parts.len() > 0 ==> joined(parts.push(last), separator) == joined(parts, separator)
            + separator + last,
{
    if parts.len() > 0 {
        assert(parts.push(last).drop_last() =~= parts);
    }
}

/// An error is shown with its code in front, then what was added to it, the latest
/// first, then its message and then its cause.
pub proof fn errors_are_shown_outside_in(
    code: ErrorCode,
    message: Seq<char>,
    cause: Seq<char>,
    note: Seq<char>,
)
    ensures
        rendered(fail(code, message)) == code.name() + ": "@ + message,
        rendered((RdtErrorView { context: seq![note], ..fail(code, message) })) == code.name()
            + ": "@ + (note + ": "@ + message),
        rendered((RdtErrorView { source: Some(cause), ..fail(code, message) })) == code.name()
            + ": "@ + (message + ": "@ + cause),
{
    let none = Seq::<Seq<char>>::empty();
    assert(none.reverse().push(message) =~= seq![message]);
    assert(seq![note].reverse().push(message) =~= seq![note, message]);
    assert(seq![message].push(cause) =~= seq![message, cause]);
    assert(seq![note, message].drop_last() =~= seq![note]);
    assert(seq![message, cause].drop_last() =~= seq![message]);
    reveal_with_fuel(joined, 3);
}

/// The codes have the names that configuration and protocols use.
pub proof fn codes_have_names()
    ensures
        ErrorCode::Config.name() == "config"@,
        ErrorCode::Io.name() == "io"@,
        ErrorCode::Permission.name() == "permission"@,
        ErrorCode::Crypto.name() == "crypto"@,
        ErrorCode::Vault.name() == "vault"@,
        ErrorCode::Keystore.name() == "keystore"@,
        ErrorCode::Network.name() == "network"@,
        ErrorCode::Timeout.name() == "timeout"@,
        ErrorCode::Cancelled.name() == "cancelled"@,
        ErrorCode::Protocol.name() == "protocol"@,
        ErrorCode::Authentication.name() == "authentication"@,
        ErrorCode::HostKeyUnknown.name() == "host_key_unknown"@,
        ErrorCode::HostKeyMismatch.name() == "host_key_mismatch"@,
        ErrorCode::Tls.name() == "tls"@,
        ErrorCode::Transfer.name() == "transfer"@,
        ErrorCode::Terminal.name() == "terminal"@,
        ErrorCode::SessionState.name() == "session_state"@,
        ErrorCode::Platform.name() == "platform"@,
        ErrorCode::Service.name() == "service"@,
        ErrorCode::NotFound.name() == "not_found"@,
        ErrorCode::Unsupported.name() == "unsupported"@,
        ErrorCode::InvalidInput.name() == "invalid_input"@,
        ErrorCode::Internal.name() == "internal"@,
{
}

} // verus!
