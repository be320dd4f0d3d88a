//! The headless agent.
//!
//! The agent exposes one local socket (or a named pipe on Windows) that accepts a
//! small command protocol.
//!
//! # Trust model
//!
//! The socket lives in the per-user runtime directory with `0700` permissions,
//! and every connection is authenticated by peer credential: the agent refuses
//! callers whose user differs from the service account. That makes the socket
//! unusable by other local users even if they can reach the filesystem, which
//! matters because the agent can start sessions with stored credentials.
use crate::audit::{AuditEvent, AuditEventKind, AuditEventView, AuditOutcome};
use crate::error::{fail, joined, rendered, ErrorCode, RdtError, RdtErrorView, RdtResult};
use crate::ids::{hex_text, id_parsed, ProfileId, SessionId};
use crate::json::{json_literal, quoted};
use crate::proto::{Protocol, VERSION};
use crate::rdp_session::host_port;
use crate::session::{
    announced, arranged, cancel_detail, known, newest_first, position, snapshots, transitioned,
    Cancellation, SessionInfo, SessionInfoView, SessionManager, SessionState,
};
use crate::sort::stably_sorted;
use crate::ssh_session::text_option;
use crate::store::{first_listed, listed, ConfigStore, LoadError};
use crate::text::{concat2, concat3, concat4, decimal, texts, to_decimal};
use vstd::prelude::*;

verus! {

/// A command accepted by the agent.
#[derive(Debug, Clone, PartialEq, Eq)]
pub enum Command {
    /// Report the agent version and the platform it runs on.
    Status,
    /// List the sessions the agent owns.
    ListSessions,
    /// Connect using a stored profile.
    Connect {
        /// Profile identifier.
        profile: String,
    },
    /// Disconnect a session.
    Disconnect {
        /// Session identifier.
        session: String,
    },
    /// Re-read the configuration from disk.
    ReloadConfig,
}

/// A reply produced by the agent.
#[derive(Debug, Clone, PartialEq, Eq)]
pub struct Reply {
    /// True when the command succeeded.
    pub ok: bool,
    /// Human readable detail (never contains a secret).
    pub message: String,
    /// Machine readable error code, when the command failed.
    pub code: Option<String>,
}

/// What a reply says.
pub ghost struct ReplyView {
    /// Whether the command succeeded.
    pub ok: bool,
    /// Detail.
    pub message: Seq<char>,
    /// Error code.
    pub code: Option<Seq<char>>,
}

impl View for Reply {
    type V = ReplyView;

    open spec fn view(&self) -> ReplyView {
        ReplyView { ok: self.ok, message: self.message@, code: text_option(self.code) }
    }
}

/// The reply to a command that succeeded.
pub open spec fn succeeded(message: Seq<char>) -> ReplyView {
    ReplyView { ok: true, message, code: None }
}

/// The reply to a command that failed.
pub open spec fn failed(error: RdtErrorView) -> ReplyView {
    ReplyView { ok: false, message: rendered(error), code: Some(error.code.name()) }
}

/// The reply to a line that is no command.
pub open spec fn unparsable(reason: Seq<char>) -> ReplyView {
    ReplyView {
        ok: false,
        message: "cannot parse the command: "@ + reason,
        code: Some(ErrorCode::InvalidInput.name()),
    }
}

impl Reply {
    /// A successful reply.
    pub fn success(message: &str) -> (r: Self)
        ensures
            r@ == succeeded(message@),
    {
        Reply { ok: true, message: message.to_owned(), code: None }
    }

    /// A failed reply carrying the error code.
    pub fn failure(error: &RdtError) -> (r: Self)
        ensures
            r@ == failed(error@),
    {
        Reply {
            ok: false,
            message: error.to_string(),
            code: Some(error.code().as_str().to_owned()),
        }
    }

    /// The reply to a line that is no command.
    pub fn not_a_command(reason: &str) -> (r: Self)
        ensures
            r@ == unparsable(reason@),
    {
        Reply {
            ok: false,
            message: concat2("cannot parse the command: ", reason),
            code: Some(ErrorCode::InvalidInput.as_str().to_owned()),
        }
    }
}

/// What a handled command leads to.
#[derive(Debug)]
pub enum Handled {
    /// Nothing but a reply.
    Answer(Reply),
    /// A reply, and a record for the audit trail.
    Connect(Reply, AuditEvent),
    /// A reply, and a session to signal and announce.
    Cancel(Reply, Cancellation),
    /// The configuration has to be loaded again; [`Agent::reload`] has the reply.
    Reload,
}

/// The name of a protocol in a listing.
pub open spec fn protocol_name(protocol: Protocol) -> Seq<char> {
    match protocol {
        Protocol::Ssh => "Ssh"@,
        Protocol::Rdp => "Rdp"@,
    }
}

/// One session in a listing.
pub open spec fn session_json(info: SessionInfoView) -> Seq<char> {
    "{\"address\":"@ + json_literal(info.address) + ",\"id\":"@ + json_literal(hex_text(info.id))
        + ",\"protocol\":"@ + json_literal(protocol_name(info.protocol)) + ",\"state\":"@
        + json_literal(info.state.name()) + "}"@
}

/// A listing of sessions.
pub open spec fn sessions_json(sessions: Seq<SessionInfoView>) -> Seq<char> {
    "["@ + joined(Seq::new(sessions.len(), |i: int| session_json(sessions[i])), ","@) + "]"@
}

fn describe_session(info: &SessionInfo) -> (r: String)
    ensures
        r@ == session_json(info@),
{
    let protocol = match info.protocol {
        Protocol::Ssh => "Ssh",
        Protocol::Rdp => "Rdp",
    };
    let mut r = "{\"address\":".to_owned();
    r.push_str(quoted(info.address.as_str()).as_str());
    r.push_str(",\"id\":");
    r.push_str(quoted(info.id.to_string().as_str()).as_str());
    r.push_str(",\"protocol\":");
    r.push_str(quoted(protocol).as_str());
    r.push_str(",\"state\":");
    r.push_str(quoted(info.state.as_str()).as_str());
    r.push_str("}");
    r
}

/// Renders a listing of sessions.
pub fn describe_sessions(sessions: &Vec<SessionInfo>) -> (r: String)
    ensures
        r@ == sessions_json(snapshots(sessions@)),
{
    let mut parts: Vec<String> = Vec::new();
    let mut i: usize = 0;
    while i < sessions.len()
        invariant
            i <= sessions@.len(),
            parts@.len() == i,
            forall|k: int| 0 <= k < i ==> (#[trigger] parts@[k])@ == session_json(sessions@[k]@),
        decreases sessions.len() - i,
    {
        parts.push(describe_session(&sessions[i]));
        i = i + 1;
    }
    let ghost views = snapshots(sessions@);
    assert(texts(parts@) =~= Seq::new(views.len(), |i: int| session_json(views[i])));
    let body = crate::error::join(&parts, ",");
    concat3("[", body.as_str(), "]")
}

/// Everything the agent needs to serve commands.
pub struct Agent {
    config: ConfigStore,
    sessions: SessionManager,
    socket: String,
}

impl Agent {
    /// The configuration.
    pub closed spec fn store(self) -> ConfigStore {
        self.config
    }

    /// The sessions.
    pub closed spec fn manager(self) -> SessionManager {
        self.sessions
    }

    /// The control socket.
    pub closed spec fn control(self) -> Seq<char> {
        self.socket@
    }

    /// The sessions are well formed.
    pub open spec fn wf(self) -> bool {
        self.manager().wf()
    }

    /// Creates an agent.
    pub fn new(config: ConfigStore, sessions: SessionManager, socket: String) -> (r: Self)
        requires
            sessions.wf(),
        ensures
            r.wf(),
            r.store() == config,
            r.manager() == sessions,
            r.control() == socket@,
    {
        Agent { config, sessions, socket }
    }

    /// Path of the control socket.
    pub fn socket(&self) -> (r: &str)
        ensures
            r@ == self.control(),
    {
        self.socket.as_str()
    }

    /// The configuration.
    pub fn config(&self) -> (r: &ConfigStore)
        ensures
            *r == self.store(),
    {
        &self.config
    }

    /// The sessions.
    pub fn sessions(&self) -> (r: &SessionManager)
        ensures
            *r == self.manager(),
    {
        &self.sessions
    }

    /// Handles one command; `platform` describes the machine.  Shared by the
    /// socket loop and by the command line, so both paths behave identically.
    ///
    /// # Errors
    ///
    /// Returns [`ErrorCode::InvalidInput`] for a malformed identifier and
    /// [`ErrorCode::NotFound`] for a profile that does not exist.
    pub fn handle(&mut self, command: Command, platform: &str) -> (r: RdtResult<Handled>)
        requires
            old(self).wf(),
        ensures
            final(self).wf(),
            final(self).store() == old(self).store(),
            final(self).control() == old(self).control(),
            final(self).manager().limits() == old(self).manager().limits(),
            !(command is Disconnect) || r is Err ==> final(self).manager() == old(self).manager(),
            match command {
                Command::Status => {
                    &&& r is Ok
                    &&& r->Ok_0 is Answer
                    &&& r->Ok_0->Answer_0@ == succeeded(
                        "rdt-agent "@ + VERSION@ + " on "@ + platform@,
                    )
                },
                Command::ListSessions => {
                    &&& r is Ok
                    &&& r->Ok_0 is Answer
                    &&& exists|order: Seq<int>|
                        #[trigger] stably_sorted(newest_first(old(self).manager()@), order)
                            && r->Ok_0->Answer_0@ == succeeded(
                            sessions_json(arranged(old(self).manager()@, order)),
                        )
                },
                Command::Connect { profile } => match id_parsed(profile@) {
                    Err(_) => r is Err && r->Err_0@ == fail(
                        ErrorCode::InvalidInput,
                        "the profile identifier is not valid"@,
                    ),
                    Ok(id) => if listed(old(self).store().listing(), id) {
                        exists|i: int|
                            {
                                &&& #[trigger] first_listed(old(self).store().listing(), id, i)
                                &&& r is Ok
                                &&& r->Ok_0 is Connect
                                &&& connects(
                                    r->Ok_0->Connect_0@,
                                    r->Ok_0->Connect_1@,
                                    id,
                                    host_port(
                                        old(self).store().listing()[i].endpoint.host@,
                                        old(self).store().listing()[i].endpoint.port,
                                    ),
                                )
                            }
                    } else {
                        r is Err && r->Err_0@ == fail(
                            ErrorCode::NotFound,
                            "no profile with that identifier"@,
                        )
                    },
                },
                Command::Disconnect { session } => match id_parsed(session@) {
                    Err(_) => r is Err && r->Err_0@ == fail(
                        ErrorCode::InvalidInput,
                        "the session identifier is not valid"@,
                    ),
                    Ok(id) => {
                        let before = old(self).manager();
                        &&& r is Ok
                        &&& r->Ok_0 is Cancel
                        &&& r->Ok_0->Cancel_0@ == succeeded("the session was disconnected"@)
                        &&& final(self).manager()@ == transitioned(
                            before@,
                            id,
                            SessionState::Cancelled,
                            cancel_detail(),
                        )
                        &&& r->Ok_0->Cancel_1.signal == (known(before@, id) && before@[position(
                            before@,
                            id,
                        )].open)
                        &&& r->Ok_0->Cancel_1.notice@ == announced(
                            id,
                            SessionState::Cancelled,
                            cancel_detail(),
                            before.limits().audit,
                        )
                    },
                },
                Command::ReloadConfig => r is Ok && r->Ok_0 is Reload,
            },
    {
        match command {
            Command::Status => Ok(
                Handled::Answer(
                    Reply::success(
                        concat4("rdt-agent ", VERSION, " on ", platform).as_str(),
                    ),
                ),
            ),
            Command::ListSessions => {
                let sessions = self.sessions.list();
                let text = describe_sessions(&sessions);
                Ok(Handled::Answer(Reply::success(text.as_str())))
            },
            Command::Connect { profile } => {
                let id = match ProfileId::parse(profile.as_str()) {
                    Ok(id) => id,
                    Err(_) => {
                        return Err(
                            RdtError::new(
                                ErrorCode::InvalidInput,
                                "the profile identifier is not valid",
                            ),
                        );
                    },
                };
                match self.config.find(id) {
                    None => Err(
                        RdtError::new(ErrorCode::NotFound, "no profile with that identifier"),
                    ),
                    Some(found) => {
                        let address = found.address();
                        let event = AuditEvent::new(
                            AuditEventKind::SessionConnect,
                            AuditOutcome::Info,
                            address.as_str(),
                        ).with_profile(id.to_string().as_str());
                        let reply = Reply::success(
                            concat2("connecting to ", address.as_str()).as_str(),
                        );
                        Ok(Handled::Connect(reply, event))
                    },
                }
            },
            Command::Disconnect { session } => {
                let id = match SessionId::parse(session.as_str()) {
                    Ok(id) => id,
                    Err(_) => {
                        return Err(
                            RdtError::new(
                                ErrorCode::InvalidInput,
                                "the session identifier is not valid",
                            ),
                        );
                    },
                };
                let cancellation = self.sessions.cancel(id);
                Ok(
                    Handled::Cancel(
                        Reply::success("the session was disconnected"),
                        cancellation,
                    ),
                )
            },
            Command::ReloadConfig => Ok(Handled::Reload),
        }
    }

    /// Takes over a configuration that was loaded again.
    ///
    /// # Errors
    ///
    /// Returns why it could not be loaded; the agent then keeps the old one.
    pub fn reload(&mut self, loaded: Result<ConfigStore, LoadError>) -> (r: RdtResult<Reply>)
        ensures
            final(self).manager() == old(self).manager(),
            final(self).control() == old(self).control(),
            match loaded {
                Ok(store) => {
                    &&& r is Ok
                    &&& r->Ok_0@ == succeeded("the configuration was reloaded"@)
                    &&& final(self).store().file() == old(self).store().file()
                    &&& final(self).store().document() == store.document()
                    &&& !final(self).store().changed()
                },
                Err(error) => {
                    &&& r is Err
                    &&& final(self).store() == old(self).store()
                    &&& r->Err_0@ == match error {
                        LoadError::Missing => fail(
                            ErrorCode::Config,
                            "the configuration file is missing"@,
                        ),
                        LoadError::Failed(error) => error@,
                    }
                },
            },
    {
        match loaded {
            Ok(store) => {
                self.config.reload(store);
                Ok(Reply::success("the configuration was reloaded"))
            },
            Err(LoadError::Missing) => Err(
                RdtError::new(ErrorCode::Config, "the configuration file is missing"),
            ),
            Err(LoadError::Failed(error)) => Err(error),
        }
    }
}

/// Whether a reply and an audit record announce a connection.
pub open spec fn connects(
    reply: ReplyView,
    event: AuditEventView,
    id: Seq<u8>,
    address: Seq<char>,
) -> bool {
    &&& reply == succeeded("connecting to "@ + address)
    &&& event == (AuditEventView {
        kind: AuditEventKind::SessionConnect,
        outcome: AuditOutcome::Info,
        session: None,
        profile: Some(hex_text(id)),
        detail: address,
    })
}

/// Checks the peer credentials of a control connection: the user of the caller,
/// if it is known, and the user of the agent. On other systems than Unix the pipe
/// only admits the service account, so nothing is left to check.
///
/// # Errors
///
/// Returns [`ErrorCode::Permission`] when the caller is not the service owner.
pub fn verify_peer(unix: bool, caller: Option<u32>, own: u32) -> (r: RdtResult<()>)
    ensures
        r is Ok <==> !unix || caller == Some(own),
        r is Err && caller is None ==> r->Err_0@ == fail(
            ErrorCode::Permission,
            "cannot read the peer credentials of the control connection"@,
        ),
        r is Err && caller is Some ==> r->Err_0@ == fail(
            ErrorCode::Permission,
            "the control connection came from uid "@ + decimal(caller->0 as nat)
                + " but the agent runs as "@ + decimal(own as nat),
        ),
{
    if !unix {
        return Ok(());
    }
    match caller {
        None => Err(
            RdtError::new(
                ErrorCode::Permission,
                "cannot read the peer credentials of the control connection",
            ),
        ),
        Some(uid) => {
            if uid != own {
                let message = concat4(
                    "the control connection came from uid ",
                    to_decimal(uid as u64).as_str(),
                    " but the agent runs as ",
                    to_decimal(own as u64).as_str(),
                );
                return Err(RdtError::new(ErrorCode::Permission, message.as_str()));
            }
            Ok(())
        },
    }
}

/// A step of opening the control socket that failed.
#[derive(Debug, Clone, Copy, PartialEq, Eq, Structural)]
pub enum ListenStage {
    /// The directory of the socket could not be created.
    Directory,
    /// The directory or the socket could not be restricted to its owner.
    Restrict,
    /// The socket could not be bound.
    Bind,
    /// A connection could not be accepted.
    Accept,
}

/// The error for a step of opening the control socket that failed.
pub fn listen_failed(stage: ListenStage, reason: &str, path: &str) -> (r: RdtError)
    ensures
        r@ == match stage {
            ListenStage::Directory => crate::error::fail_about(
                ErrorCode::Io,
                reason@,
                "path"@,
                path@,
            ),
            ListenStage::Restrict => crate::error::fail_about(
                ErrorCode::Permission,
                reason@,
                "path"@,
                path@,
            ),
            ListenStage::Bind => fail(
                ErrorCode::Io,
                "cannot bind "@ + path@ + ": "@ + reason@,
            ),
            ListenStage::Accept => fail(
                ErrorCode::Io,
                "cannot accept a connection: "@ + reason@,
            ),
        },
{
    match stage {
        ListenStage::Directory => RdtError::noted(ErrorCode::Io, reason, "path", path),
        ListenStage::Restrict => RdtError::noted(ErrorCode::Permission, reason, "path", path),
        ListenStage::Bind => RdtError::new(
            ErrorCode::Io,
            concat4("cannot bind ", path, ": ", reason).as_str(),
        ),
        ListenStage::Accept => RdtError::new(
            ErrorCode::Io,
            concat2("cannot accept a connection: ", reason).as_str(),
        ),
    }
}

/// A reply says whether the command was carried out; a failure shows the error and the
/// name of its code, and a command that cannot be read is invalid input.
pub proof fn replies_tell_the_outcome(message: Seq<char>, error: RdtErrorView)
    ensures
        succeeded(message).ok && succeeded(message).message == message
            && succeeded(message).code is None,
        !failed(error).ok && failed(error).message == rendered(error) && failed(error).code == Some(
            error.code.name(),
        ),
        !unparsable(message).ok && unparsable(message).message == "cannot parse the command: "@
            + message && unparsable(message).code == Some("invalid_input"@),
{
}

/// A session is described by its address, its identifier, its protocol and its state,
/// and sessions are listed in order.
pub proof fn sessions_are_described(info: SessionInfoView, other: SessionInfoView)
    ensures
        session_json(info) == "{\"address\":"@ + json_literal(info.address) + ",\"id\":"@
            + json_literal(hex_text(info.id)) + ",\"protocol\":"@ + json_literal(
            match info.protocol {
                Protocol::Ssh => "Ssh"@,
                Protocol::Rdp => "Rdp"@,
            },
        ) + ",\"state\":"@ + json_literal(info.state.name()) + "}"@,
        sessions_json(Seq::empty()) == "["@ + Seq::<char>::empty() + "]"@,
        sessions_json(seq![info]) == "["@ + session_json(info) + "]"@,
        sessions_json(seq![info, other]) == "["@ + (session_json(info) + ","@ + session_json(other))
            + "]"@,
{
    let none = Seq::<SessionInfoView>::empty();
    assert(Seq::new(none.len(), |i: int| session_json(none[i])) =~= Seq::<Seq<char>>::empty());
    let one = seq![info];
    assert(Seq::new(one.len(), |i: int| session_json(one[i])) =~= seq![session_json(info)]);
    let two = seq![info, other];
    let parts = seq![session_json(info), session_json(other)];
    assert(Seq::new(two.len(), |i: int| session_json(two[i])) =~= parts);
    assert(parts.drop_last() =~= seq![session_json(info)]);
    reveal_with_fuel(joined, 3);
}

/// An accepted connection is answered with its address and audited for its profile.
pub proof fn connections_are_announced(
    reply: ReplyView,
    event: AuditEventView,
    id: Seq<u8>,
    address: Seq<char>,
)
    requires
        connects(reply, event, id, address),
    ensures
        reply == succeeded("connecting to "@ + address),
        event.kind == AuditEventKind::SessionConnect && event.outcome == AuditOutcome::Info,
        event.session is None && event.profile == Some(hex_text(id)) && event.detail == address,
{
}

} // verus!
