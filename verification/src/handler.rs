//! Host key decisions of an SSH connection.
//!
//! Everything the transport asks about the server's key lands here, and the
//! decisions are pure: files are read and written by the caller.  A connection asks
//! [`ClientHandler::check_server_key`]; where a user is asked about an unknown key,
//! [`ClientHandler::answer`] says what the answer does.
use crate::error::{fail, ErrorCode, RdtError, RdtErrorView, RdtResult};
use crate::known_hosts::{
    fingerprint, key_fingerprint, key_status, recorded, EntryView, HostKeyStatus, KnownHosts,
    StatusView,
};
use crate::proto::HostKeyPolicy;
use crate::redact::REDACTED;
use vstd::prelude::*;

verus! {

/// The user's decision about an unknown host key.
#[derive(Debug, Clone, Copy, PartialEq, Eq, Structural)]
pub enum HostKeyDecision {
    /// Accept this key for this connection only.
    AcceptOnce,
    /// Accept and write it to the known hosts database.
    AcceptAndSave,
    /// Refuse to connect.
    Reject,
}

/// What became of a question to the user.
#[derive(Debug, Clone, Copy, PartialEq, Eq, Structural)]
pub enum PromptReply {
    /// No user interface was there to ask.
    Unavailable,
    /// The question was dropped without an answer.
    Dropped,
    /// The user decided.
    Decided(HostKeyDecision),
}

/// A question posed to the user during connection.
#[derive(Debug, Clone)]
pub enum Prompt {
    /// The host key is unknown.
    UnknownHostKey {
        /// Host name as typed by the user.
        host: String,
        /// Port.
        port: u16,
        /// Key algorithm.
        key_type: String,
        /// `SHA256:…` fingerprint.
        fingerprint: String,
    },
    /// An interactive authentication challenge (password or OTP).
    Credential {
        /// Text shown to the user.
        instruction: String,
        /// Individual prompts, each with its echo flag.
        prompts: Vec<(String, bool)>,
    },
}

/// Events the transport reports to the session layer.
#[derive(Debug, Clone)]
pub enum SessionEvent {
    /// A banner sent by the server before authentication.
    Banner(String),
    /// A channel was closed by the remote side.
    ChannelClosed(u32),
    /// The remote side ended the session.
    Disconnected(String),
}

/// The text of a question in the audit log.
pub open spec fn prompt_description(prompt: Prompt) -> Seq<char> {
    match prompt {
        Prompt::UnknownHostKey { host, port, key_type, fingerprint } => "host key "@ + host@ + " "@
            + fingerprint@,
        Prompt::Credential { instruction, prompts } => "credential prompt: "@ + instruction@
            + " (answer "@ + REDACTED@ + ")"@,
    }
}

/// Formats a credential prompt for the audit log without leaking the answer.
pub fn describe_prompt(prompt: &Prompt) -> (r: String)
    ensures
        r@ == prompt_description(*prompt),
{
    match prompt {
        Prompt::UnknownHostKey { host, port, key_type, fingerprint } => {
            let mut r = "host key ".to_owned();
            r.push_str(host.as_str());
            r.push_str(" ");
            r.push_str(fingerprint.as_str());
            r
        },
        Prompt::Credential { instruction, prompts } => {
            let mut r = "credential prompt: ".to_owned();
            r.push_str(instruction.as_str());
            r.push_str(" (answer ");
            r.push_str(REDACTED);
            r.push_str(")");
            r
        },
    }
}

/// An error that names the key it is about.
pub open spec fn key_error(code: ErrorCode, message: Seq<char>, key: Seq<u8>) -> RdtErrorView {
    RdtErrorView {
        context: seq!["fingerprint"@ + ": "@ + key_fingerprint(key)],
        ..fail(code, message)
    }
}

/// What the host key policy makes of a status: `None` when the connection may
/// continue.
pub open spec fn policy_refusal(
    status: StatusView,
    policy: HostKeyPolicy,
    host: Seq<char>,
    key: Seq<u8>,
) -> Option<RdtErrorView> {
    match status {
        StatusView::Trusted => None,
        StatusView::Unknown => if policy is AcceptNew {
            None
        } else {
            Some(
                key_error(
                    ErrorCode::HostKeyUnknown,
                    "host key for "@ + host + " is not recorded and the policy is strict"@,
                    key,
                ),
            )
        },
        StatusView::Changed { known_fingerprint, known_key_type } => Some(
            key_error(
                ErrorCode::HostKeyMismatch,
                "the host key for "@ + host + " changed; recorded "@ + known_key_type + " "@
                    + known_fingerprint,
                key,
            ),
        ),
        StatusView::Revoked => Some(
            fail(
                ErrorCode::HostKeyMismatch,
                "the host key for "@ + host + " has been revoked"@,
            ),
        ),
        StatusView::Excluded => Some(
            fail(
                ErrorCode::HostKeyMismatch,
                "the host "@ + host + " is excluded by a negated known_hosts pattern"@,
            ),
        ),
    }
}

/// The next step of a connection whose server presented a key.
pub enum KeyStep {
    /// The key is accepted: go on.
    Accept,
    /// Give up.
    Refuse(RdtError),
}

/// What is done about a server key: a trusted key is accepted, a fatal status is
/// refused under any policy, and an unknown key is refused by the strict policy and
/// accepted otherwise.
pub open spec fn key_step(
    step: KeyStep,
    status: StatusView,
    policy: HostKeyPolicy,
    host: Seq<char>,
) -> bool {
    if status is Trusted {
        step is Accept
    } else if status.fatal() {
        step is Refuse && step->Refuse_0@ == fail(
            ErrorCode::HostKeyMismatch,
            "host key verification failed for "@ + host + ": "@ + status.message(),
        )
    } else if policy is Strict {
        step is Refuse && step->Refuse_0@ == fail(
            ErrorCode::HostKeyUnknown,
            "host key for "@ + host + " is unknown and the policy is strict"@,
        )
    } else {
        step is Accept
    }
}

/// Host key verification of one connection.
#[derive(Debug)]
pub struct ClientHandler {
    known_hosts: KnownHosts,
    host: String,
    port: u16,
    policy: HostKeyPolicy,
    /// Fingerprint of the key actually accepted, for the audit trail.
    accepted_fingerprint: Option<String>,
}

/// The content of a [`ClientHandler`].
pub struct HandlerView {
    pub entries: Seq<EntryView>,
    pub file: Option<Seq<char>>,
    pub host: Seq<char>,
    pub port: u16,
    pub policy: HostKeyPolicy,
    pub accepted: Option<Seq<char>>,
}

impl View for ClientHandler {
    type V = HandlerView;

    closed spec fn view(&self) -> HandlerView {
        HandlerView {
            entries: self.known_hosts.entries_view(),
            file: self.known_hosts.file(),
            host: self.host@,
            port: self.port,
            policy: self.policy,
            accepted: match self.accepted_fingerprint {
                Some(text) => Some(text@),
                None => None,
            },
        }
    }
}

impl HandlerView {
    /// What the database says of a key.
    pub open spec fn status(self, key_type: Seq<char>, key: Seq<u8>) -> StatusView {
        key_status(self.entries, self.host, self.port, key_type, key)
    }

    /// The state after a key was recorded.
    pub open spec fn remembering(self, key_type: Seq<char>, key: Seq<u8>) -> HandlerView {
        HandlerView {
            entries: recorded(self.entries, self.host, self.port, key_type, key, self.host),
            ..self
        }
    }

    /// The state after a key was accepted.
    pub open spec fn accepting(self, key: Seq<u8>) -> HandlerView {
        HandlerView { accepted: Some(key_fingerprint(key)), ..self }
    }
}

impl ClientHandler {
    /// Creates a handler.
    pub fn new(known_hosts: KnownHosts, host: &str, port: u16, policy: HostKeyPolicy) -> (r: Self)
        ensures
            r@ == (HandlerView {
                entries: known_hosts.entries_view(),
                file: known_hosts.file(),
                host: host@,
                port,
                policy,
                accepted: None,
            }),
    {
        ClientHandler { known_hosts, host: host.to_owned(), port, policy, accepted_fingerprint: None }
    }

    /// Fingerprint of the accepted server key, once connected.
    pub fn accepted_fingerprint(&self) -> (r: Option<String>)
        ensures
            match self@.accepted {
                Some(text) => r is Some && r->0@ == text,
                None => r is None,
            },
    {
        match &self.accepted_fingerprint {
            Some(text) => Some(text.clone()),
            None => None,
        }
    }

    /// The known hosts database.
    pub fn known_hosts(&self) -> (r: &KnownHosts)
        ensures
            r.entries_view() == self@.entries,
            r.file() == self@.file,
    {
        &self.known_hosts
    }

    /// Runs the host key policy.  Returns `Ok(true)` when the connection may
    /// continue.
    pub fn verify_host_key(&self, key_type: &str, key: &[u8]) -> (r: RdtResult<bool>)
        ensures
            match policy_refusal(
                self@.status(key_type@, key@),
                self@.policy,
                self@.host,
                key@,
            ) {
                Some(error) => r is Err && r->Err_0@ == error,
                None => r is Ok && r->Ok_0,
            },
    {
        match self.known_hosts.check(self.host.as_str(), self.port, key_type, key) {
            HostKeyStatus::Trusted => Ok(true),
            HostKeyStatus::Unknown => {
                if self.policy.auto_accepts_unknown() {
                    return Ok(true);
                }
                let mut message = "host key for ".to_owned();
                message.push_str(self.host.as_str());
                message.push_str(" is not recorded and the policy is strict");
                Err(about_key(ErrorCode::HostKeyUnknown, message.as_str(), key))
            },
            HostKeyStatus::Changed { known_fingerprint, known_key_type } => {
                let mut message = "the host key for ".to_owned();
                message.push_str(self.host.as_str());
                message.push_str(" changed; recorded ");
                message.push_str(known_key_type.as_str());
                message.push_str(" ");
                message.push_str(known_fingerprint.as_str());
                Err(about_key(ErrorCode::HostKeyMismatch, message.as_str(), key))
            },
            HostKeyStatus::Revoked => {
                let mut message = "the host key for ".to_owned();
                message.push_str(self.host.as_str());
                message.push_str(" has been revoked");
                Err(RdtError::new(ErrorCode::HostKeyMismatch, message.as_str()))
            },
            HostKeyStatus::Excluded => {
                let mut message = "the host ".to_owned();
                message.push_str(self.host.as_str());
                message.push_str(" is excluded by a negated known_hosts pattern");
                Err(RdtError::new(ErrorCode::HostKeyMismatch, message.as_str()))
            },
        }
    }

    /// Records a key the user accepted.
    pub fn remember_host_key(&mut self, key_type: &str, key: &[u8])
        ensures
            final(self)@ == old(self)@.remembering(key_type@, key@),
    {
        let host = self.host.clone();
        self.known_hosts.accept(host.as_str(), self.port, key_type, key, host.as_str());
    }

    /// Decides what to do about the key that the server presented.  A key that is new
    /// is recorded when the policy accepts it.
    pub fn check_server_key(&mut self, key_type: &str, key: &[u8]) -> (r: KeyStep)
        ensures
            key_step(
                r,
                old(self)@.status(key_type@, key@),
                old(self)@.policy,
                old(self)@.host,
            ),
            final(self)@ == if r is Refuse {
                old(self)@
            } else if old(self)@.status(key_type@, key@) is Trusted {
                old(self)@.accepting(key@)
            } else {
                old(self)@.remembering(key_type@, key@).accepting(key@)
            },
    {
        let status = self.known_hosts.check(self.host.as_str(), self.port, key_type, key);
        if status.is_trusted() {
            self.accepted_fingerprint = Some(fingerprint(key));
            return KeyStep::Accept;
        }
        if status.is_fatal() {
            let mut message = "host key verification failed for ".to_owned();
            message.push_str(self.host.as_str());
            message.push_str(": ");
            let text = status.to_string();
            message.push_str(text.as_str());
            return KeyStep::Refuse(RdtError::new(ErrorCode::HostKeyMismatch, message.as_str()));
        }
        if !self.policy.auto_accepts_unknown() {
            let mut message = "host key for ".to_owned();
            message.push_str(self.host.as_str());
            message.push_str(" is unknown and the policy is strict");
            return KeyStep::Refuse(RdtError::new(ErrorCode::HostKeyUnknown, message.as_str()));
        }
        self.remember_host_key(key_type, key);
        self.accepted_fingerprint = Some(fingerprint(key));
        KeyStep::Accept
    }

    /// Carries out what a user answered about an unknown key.
    pub fn answer(&mut self, key_type: &str, key: &[u8], reply: PromptReply) -> (r: RdtResult<bool>)
        ensures
            match reply {
                PromptReply::Decided(HostKeyDecision::AcceptAndSave) => r is Ok && r->Ok_0
                    && final(self)@ == old(self)@.remembering(key_type@, key@).accepting(key@),
                PromptReply::Decided(HostKeyDecision::AcceptOnce) => r is Ok && r->Ok_0
                    && final(self)@ == old(self)@.accepting(key@),
                PromptReply::Unavailable => r is Err && r->Err_0@ == fail(
                    ErrorCode::HostKeyUnknown,
                    "no user interface is available to confirm the host key"@,
                ) && final(self)@ == old(self)@,
                _ => r is Err && r->Err_0@ == fail(
                    ErrorCode::HostKeyUnknown,
                    "the host key was rejected"@,
                ) && final(self)@ == old(self)@,
            },
    {
        match reply {
            PromptReply::Unavailable => Err(
                RdtError::new(
                    ErrorCode::HostKeyUnknown,
                    "no user interface is available to confirm the host key",
                ),
            ),
            PromptReply::Decided(HostKeyDecision::AcceptAndSave) => {
                self.remember_host_key(key_type, key);
                self.accepted_fingerprint = Some(fingerprint(key));
                Ok(true)
            },
            PromptReply::Decided(HostKeyDecision::AcceptOnce) => {
                self.accepted_fingerprint = Some(fingerprint(key));
                Ok(true)
            },
            _ => Err(RdtError::new(ErrorCode::HostKeyUnknown, "the host key was rejected")),
        }
    }
}

/// An error that names the key it is about.
fn about_key(code: ErrorCode, message: &str, key: &[u8]) -> (r: RdtError)
    ensures
        r@ == key_error(code, message@, key@),
{
    let text = fingerprint(key);
    let r = RdtError::new(code, message).with_context("fingerprint", text.as_str());
    assert(r@.context =~= seq!["fingerprint"@ + ": "@ + key_fingerprint(key@)]);
    r
}

/// A key that changed or was revoked is refused under every policy, and the user is
/// not asked about it.
pub proof fn fatal_keys_are_refused_under_every_policy(
    step: KeyStep,
    status: StatusView,
    policy: HostKeyPolicy,
    host: Seq<char>,
    key: Seq<u8>,
)
    requires
        status.fatal(),
        key_step(step, status, policy, host),
    ensures
        step is Refuse,
        step->Refuse_0@.code == ErrorCode::HostKeyMismatch,
        policy_refusal(status, policy, host, key) is Some,
        policy_refusal(status, policy, host, key)->0.code == ErrorCode::HostKeyMismatch,
{
}

/// The strict policy accepts only keys that are recorded.
pub proof fn unrecorded_keys_are_never_accepted_under_the_strict_policy(
    step: KeyStep,
    status: StatusView,
    host: Seq<char>,
)
    requires
        key_step(step, status, HostKeyPolicy::Strict, host),
        step is Accept,
    ensures
        status is Trusted,
{
}

/// Deciding about a key and running the policy agree: the connection goes on exactly
/// where the policy lets it.
pub proof fn steps_follow_the_policy(
    step: KeyStep,
    status: StatusView,
    policy: HostKeyPolicy,
    host: Seq<char>,
    key: Seq<u8>,
)
    requires
        key_step(step, status, policy, host),
    ensures
        step is Accept <==> policy_refusal(status, policy, host, key) is None,
{
}

/// A key that was recorded, by the user or because it was new, is trusted the next
/// time, unless it is revoked.
pub proof fn remembered_keys_are_accepted(h: HandlerView, key_type: Seq<char>, key: Seq<u8>)
    requires
        crate::known_hosts::recordable(h.host, h.port),
        forall|i: int|
            0 <= i < h.entries.len() ==> !crate::known_hosts::revokes(
                #[trigger] h.entries[i],
                h.host,
                h.port,
                key,
            ),
    ensures
        h.remembering(key_type, key).status(key_type, key) is Trusted,
{
    crate::known_hosts::recorded_keys_are_trusted(
        h.entries,
        h.host,
        h.port,
        key_type,
        key,
        h.host,
    );
}

/// What is done about a key depends on its status and the policy: a trusted key is
/// accepted and an unknown one accepted under accept-new and refused under the strict
/// policy; a changed, revoked or excluded one is refused.
pub proof fn statuses_decide_the_step(
    step: KeyStep,
    status: StatusView,
    policy: HostKeyPolicy,
    host: Seq<char>,
    key: Seq<u8>,
)
    requires
        key_step(step, status, policy, host),
    ensures
        status is Trusted ==> step is Accept,
        status is Unknown && policy == HostKeyPolicy::AcceptNew ==> step is Accept,
        status is Unknown && policy == HostKeyPolicy::Strict ==> step is Refuse
            && step->Refuse_0@.code == ErrorCode::HostKeyUnknown && policy_refusal(
            status,
            policy,
            host,
            key,
        ) is Some && policy_refusal(status, policy, host, key)->0.code == ErrorCode::HostKeyUnknown,
        status is Changed || status is Revoked || status is Excluded ==> step is Refuse
            && step->Refuse_0@.code == ErrorCode::HostKeyMismatch,
{
}

/// Accepting a key notes its fingerprint and nothing else; recording one changes the
/// entries alone, to those that the database records.
pub proof fn accepting_notes_the_fingerprint(h: HandlerView, key_type: Seq<char>, key: Seq<u8>)
    ensures
        h.accepting(key).accepted == Some(key_fingerprint(key)),
        h.accepting(key).entries == h.entries,
        h.remembering(key_type, key).accepted == h.accepted,
        h.remembering(key_type, key).entries == recorded(
            h.entries,
            h.host,
            h.port,
            key_type,
            key,
            h.host,
        ),
        h.status(key_type, key) == key_status(h.entries, h.host, h.port, key_type, key),
{
}

/// A question about a host key names the host and the fingerprint, and a question for
/// answers never shows them.
pub proof fn questions_are_described(prompt: Prompt)
    ensures
        prompt matches Prompt::UnknownHostKey { host, port, key_type, fingerprint }
            ==> prompt_description(prompt) == "host key "@ + host@ + " "@ + fingerprint@,
        prompt matches Prompt::Credential { instruction, prompts } ==> prompt_description(prompt)
            == "credential prompt: "@ + instruction@ + " (answer <redacted>)"@,
{
    if let Prompt::Credential { instruction, prompts } = prompt {
        reveal_strlit(" (answer ");
        reveal_strlit("<redacted>");
        reveal_strlit(")");
        reveal_strlit(" (answer <redacted>)");
        assert(prompt_description(prompt) =~= "credential prompt: "@ + instruction@
            + " (answer <redacted>)"@);
    }
}

} // verus!
