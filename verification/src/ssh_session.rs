//! The SSH session: what connecting, authenticating and running a shell decide.
//!
//! The transport itself is driven from outside: [`SshConnection::plan`] says what
//! to ask of it, [`auth_step`] how to authenticate, and [`classify`] what its
//! failures mean.
use crate::error::{copy_texts, fail, ErrorCode, RdtError, RdtErrorView, RdtResult};
use crate::proto::{AuthMethod, CredentialSource, HostKeyPolicy, SshOptions, StoredSecret};
use crate::secret::Secret;
use crate::text::{chars_of, decimal, find_char, first_at, part, texts, to_decimal, trim, trimmed};
use vstd::prelude::*;

verus! {

/// Terminal geometry requested from the server.
#[derive(Debug, Clone, Copy, PartialEq, Eq, Structural)]
pub struct TerminalSize {
    /// Columns.
    pub cols: u32,
    /// Rows.
    pub rows: u32,
}

impl Default for TerminalSize {
    fn default() -> (r: Self)
        ensures
            r == (TerminalSize { cols: 80, rows: 24 }),
    {
        TerminalSize { cols: 80, rows: 24 }
    }
}

/// What a session should run once it is connected.
#[derive(Debug, Clone, PartialEq, Eq)]
pub enum SshCommand {
    /// An interactive shell on a PTY.
    InteractiveShell,
    /// A single command, still on a PTY so curses programs work.
    Command(String),
}

/// Everything needed to open one SSH session.
#[derive(Debug)]
pub struct SshConnection {
    /// Host name or address.
    pub host: String,
    /// TCP port.
    pub port: u16,
    /// Login name.
    pub username: String,
    /// Host key verification policy.
    pub host_key_policy: HostKeyPolicy,
    /// Where the known hosts database lives.
    pub known_hosts_path: Option<String>,
    /// Authentication to perform.
    pub auth: AuthMethod,
    /// Shell or command to run.
    pub command: SshCommand,
    /// Initial terminal geometry.
    pub size: TerminalSize,
    /// `TERM` value requested from the server.
    pub term: String,
    /// Send a keepalive every N seconds; 0 disables them.
    pub keepalive_secs: u64,
    /// Abort the attempt after this many seconds.
    pub connect_timeout_secs: u64,
    /// Request `zlib@openssh.com` compression.
    pub compression: bool,
    /// Environment variables requested from the server.
    pub environment: Vec<String>,
    /// Path to the SSH agent socket, when agent authentication is used.
    pub agent_socket: Option<String>,
}

/// An optional text.
pub open spec fn text_option(o: Option<String>) -> Option<Seq<char>> {
    match o {
        Some(text) => Some(text@),
        None => None,
    }
}

/// Copies an optional text.
pub fn copy_option(o: &Option<String>) -> (r: Option<String>)
    ensures
        text_option(r) == text_option(*o),
{
    match o {
        Some(text) => Some(text.clone()),
        None => None,
    }
}

/// What a connection asks of the transport.
#[derive(Debug)]
pub struct ConnectPlan {
    /// The address to dial.
    pub address: String,
    /// Seconds between keepalives, if any are sent.
    pub keepalive_secs: Option<u64>,
    /// Unanswered keepalives after which the connection counts as dead.
    pub keepalive_max: usize,
    /// Seconds without traffic after which the connection is closed.
    pub inactivity_secs: u64,
    /// Environment variables to request, by name and value.
    pub environment: Vec<(String, String)>,
}

/// The name and the value of an environment variable `NAME=VALUE`.
pub open spec fn variable(text: Seq<char>) -> Option<(Seq<char>, Seq<char>)> {
    let at = first_at(text, '=');
    if at < text.len() {
        Some((text.take(at), text.skip(at + 1)))
    } else {
        None
    }
}

/// The environment variables of a list; what is not `NAME=VALUE` is left out.
pub open spec fn variables(list: Seq<Seq<char>>) -> Seq<(Seq<char>, Seq<char>)>
    decreases list.len(),
{
    if list.len() == 0 {
        Seq::empty()
    } else {
        let before = variables(list.drop_last());
        match variable(list.last()) {
            Some(pair) => before.push(pair),
            None => before,
        }
    }
}

/// The contents of a run of pairs.
pub open spec fn pair_views(s: Seq<(String, String)>) -> Seq<(Seq<char>, Seq<char>)> {
    Seq::new(s.len(), |i: int| (s[i].0@, s[i].1@))
}

/// Why a connection is refused before anything is dialled.
pub open spec fn connection_problem(host: Seq<char>, username: Seq<char>) -> Option<Seq<char>> {
    if trimmed(host).len() == 0 {
        Some("host must not be empty"@)
    } else if trimmed(username).len() == 0 {
        Some("username must not be empty"@)
    } else {
        None
    }
}

impl SshConnection {
    /// Builds a connection description from its parts.
    pub fn new(
        host: &str,
        port: u16,
        username: &str,
        auth: AuthMethod,
        options: &SshOptions,
        command: SshCommand,
        size: TerminalSize,
    ) -> (r: Self)
        ensures
            r.host@ == host@,
            r.port == port,
            r.username@ == username@,
            r.host_key_policy == options.host_key_policy,
            text_option(r.known_hosts_path) == text_option(options.known_hosts),
            r.auth == auth,
            r.command == command,
            r.size == size,
            r.term@ == options.terminal.term@,
            r.keepalive_secs == options.keepalive_secs,
            r.connect_timeout_secs == if options.connect_timeout_secs == 0 {
                1
            } else {
                options.connect_timeout_secs
            },
            r.compression == options.compression,
            texts(r.environment@) == texts(options.environment@),
            r.agent_socket is None,
    {
        SshConnection {
            host: host.to_owned(),
            port,
            username: username.to_owned(),
            host_key_policy: options.host_key_policy,
            known_hosts_path: copy_option(&options.known_hosts),
            auth,
            command,
            size,
            term: options.terminal.term.clone(),
            keepalive_secs: options.keepalive_secs,
            connect_timeout_secs: if options.connect_timeout_secs == 0 {
                1
            } else {
                options.connect_timeout_secs
            },
            compression: options.compression,
            environment: copy_texts(&options.environment),
            agent_socket: None,
        }
    }

    /// The address to dial.
    pub open spec fn dialled(self) -> Seq<char> {
        self.host@ + ":"@ + decimal(self.port as nat)
    }

    /// Validates the connection and says what to ask of the transport.
    pub fn plan(&self) -> (r: RdtResult<ConnectPlan>)
        ensures
            match connection_problem(self.host@, self.username@) {
                Some(message) => r is Err && r->Err_0@ == fail(ErrorCode::InvalidInput, message),
                None => {
                    &&& r is Ok
                    &&& r->Ok_0.address@ == self.dialled()
                    &&& r->Ok_0.keepalive_secs == if self.keepalive_secs > 0 {
                        Some(self.keepalive_secs)
                    } else {
                        None
                    }
                    &&& r->Ok_0.keepalive_max == 3
                    &&& r->Ok_0.inactivity_secs == if self.connect_timeout_secs > 30 {
                        self.connect_timeout_secs
                    } else {
                        30
                    }
                    &&& pair_views(r->Ok_0.environment@) == variables(texts(self.environment@))
                },
            },
    {
        let host = trim(self.host.as_str());
        if host.as_str().is_empty() {
            return Err(RdtError::new(ErrorCode::InvalidInput, "host must not be empty"));
        }
        let username = trim(self.username.as_str());
        if username.as_str().is_empty() {
            return Err(RdtError::new(ErrorCode::InvalidInput, "username must not be empty"));
        }
        let mut address = self.host.clone();
        address.push_str(":");
        let port = to_decimal(self.port as u64);
        address.push_str(port.as_str());
        Ok(
            ConnectPlan {
                address,
                keepalive_secs: if self.keepalive_secs > 0 {
                    Some(self.keepalive_secs)
                } else {
                    None
                },
                keepalive_max: 3,
                inactivity_secs: if self.connect_timeout_secs > 30 {
                    self.connect_timeout_secs
                } else {
                    30
                },
                environment: split_variables(&self.environment),
            },
        )
    }
}

fn split_variables(list: &Vec<String>) -> (r: Vec<(String, String)>)
    ensures
        pair_views(r@) == variables(texts(list@)),
{
    let ghost all = texts(list@);
    let mut r: Vec<(String, String)> = Vec::new();
    let mut i: usize = 0;
    assert(all.take(0) =~= Seq::<Seq<char>>::empty());
    assert(pair_views(r@) =~= Seq::<(Seq<char>, Seq<char>)>::empty());
    while i < list.len()
        invariant
            i <= list@.len(),
            all == texts(list@),
            pair_views(r@) == variables(all.take(i as int)),
        decreases list.len() - i,
    {
        let ghost before = r@;
        proof {
            let next = all.take(i + 1);
            assert(next.drop_last() =~= all.take(i as int));
            assert(next.last() == list@[i as int]@);
        }
        let s = chars_of(list[i].as_str());
        let at = find_char(s.as_slice(), '=');
        if at < s.len() {
            let name = part(&s, 0, at);
            let value = part(&s, at + 1, s.len());
            assert(name@ =~= s@.take(at as int));
            assert(value@ =~= s@.skip(at + 1));
            let ghost pair = (name@, value@);
            r.push((name, value));
            assert(pair_views(r@) =~= pair_views(before).push(pair));
        }
        i = i + 1;
    }
    assert(all.take(all.len() as int) =~= all);
    r
}

/// The error of a connection attempt that took too long.
pub fn connect_timed_out(address: &str) -> (r: RdtError)
    ensures
        r@ == fail(ErrorCode::Timeout, "connecting to "@ + address@ + " timed out"@),
{
    let mut message = "connecting to ".to_owned();
    message.push_str(address);
    message.push_str(" timed out");
    RdtError::new(ErrorCode::Timeout, message.as_str())
}

/// Commands accepted by a running session.
#[derive(Debug)]
pub enum SshSessionCommand {
    /// Keyboard or pasted input.
    Send(Vec<u8>),
    /// New terminal geometry.
    Resize(TerminalSize),
    /// Send EOF to the remote side.
    Eof,
    /// Close the channel and disconnect.
    Disconnect,
}

/// The outcome of handing a command to a session.
///
/// # Errors
///
/// Returns [`ErrorCode::SessionState`] when the session is already closed.
pub fn delivered(open: bool) -> (r: RdtResult<()>)
    ensures
        r is Ok <==> open,
        r is Err ==> r->Err_0@ == fail(ErrorCode::SessionState, "the session is closed"@),
{
    if open {
        Ok(())
    } else {
        Err(RdtError::new(ErrorCode::SessionState, "the session is closed"))
    }
}

/// How to authenticate.
#[derive(Debug)]
pub enum AuthStep {
    /// Ask the server to let the user in without a credential.
    Anonymous,
    /// Send the stored password.
    Password(StoredSecret),
    /// Sign with the private key, decrypted with the stored passphrase if there is
    /// one.
    PrivateKey {
        /// Path of the key file.
        path: String,
        /// Where the passphrase is stored.
        passphrase: Option<StoredSecret>,
    },
    /// Answer the server's challenges.
    KeyboardInteractive,
    /// Do not try.
    Refuse(RdtError),
}

/// The same reference.
pub open spec fn same_reference(a: StoredSecret, b: StoredSecret) -> bool {
    a.backend == b.backend && a.key@ == b.key@
}

fn copy_reference(reference: &StoredSecret) -> (r: StoredSecret)
    ensures
        same_reference(r, *reference),
{
    StoredSecret { backend: reference.backend, key: reference.key.clone() }
}

/// How a method authenticates: a password that the user must enter is never
/// invented, and an agent is served elsewhere.
pub open spec fn auth_stepped(auth: AuthMethod, step: AuthStep) -> bool {
    match auth {
        AuthMethod::Unauthenticated => step is Anonymous,
        AuthMethod::Password(CredentialSource::Prompt) => step is Refuse && step->Refuse_0@ == fail(
            ErrorCode::Authentication,
            "the password must be entered by the user"@,
        ),
        AuthMethod::Password(CredentialSource::Stored(reference)) => step is Password
            && same_reference(step->Password_0, reference),
        AuthMethod::PrivateKey(key) => match step {
            AuthStep::PrivateKey { path, passphrase } => path@ == key.path@ && match key.passphrase {
                CredentialSource::Prompt => passphrase is None,
                CredentialSource::Stored(reference) => passphrase is Some && same_reference(
                    passphrase->0,
                    reference,
                ),
            },
            _ => false,
        },
        AuthMethod::Agent { identity } => step is Refuse && step->Refuse_0@ == fail(
            ErrorCode::Authentication,
            "no SSH agent socket is available"@,
        ),
        AuthMethod::KeyboardInteractive(_) => step is KeyboardInteractive,
    }
}

/// Decides how to perform the configured authentication.
pub fn auth_step(auth: &AuthMethod) -> (r: AuthStep)
    ensures
        auth_stepped(*auth, r),
{
    match auth {
        AuthMethod::Unauthenticated => AuthStep::Anonymous,
        AuthMethod::Password(source) => match source {
            CredentialSource::Prompt => AuthStep::Refuse(
                RdtError::new(
                    ErrorCode::Authentication,
                    "the password must be entered by the user",
                ),
            ),
            CredentialSource::Stored(reference) => AuthStep::Password(copy_reference(reference)),
        },
        AuthMethod::PrivateKey(key) => AuthStep::PrivateKey {
            path: key.path.clone(),
            passphrase: match &key.passphrase {
                CredentialSource::Prompt => None,
                CredentialSource::Stored(reference) => Some(copy_reference(reference)),
            },
        },
        // Agent authentication is performed by whoever owns the socket; reaching
        // this point means no agent was configured.
        AuthMethod::Agent { identity } => AuthStep::Refuse(
            RdtError::new(ErrorCode::Authentication, "no SSH agent socket is available"),
        ),
        AuthMethod::KeyboardInteractive(_) => AuthStep::KeyboardInteractive,
    }
}

/// What the server's answer to an authentication attempt means.
pub fn auth_answered(step: &AuthStep, accepted: bool) -> (r: RdtResult<()>)
    ensures
        match *step {
            AuthStep::Password(_) => if accepted {
                r is Ok
            } else {
                r is Err && r->Err_0@ == fail(
                    ErrorCode::Authentication,
                    "the server refused the password"@,
                )
            },
            AuthStep::PrivateKey { path, passphrase } => if accepted {
                r is Ok
            } else {
                r is Err && r->Err_0@ == fail(
                    ErrorCode::Authentication,
                    "the server refused the public key"@,
                )
            },
            _ => r is Ok,
        },
{
    match step {
        AuthStep::Password(_) => {
            if !accepted {
                return Err(
                    RdtError::new(ErrorCode::Authentication, "the server refused the password"),
                );
            }
        },
        AuthStep::PrivateKey { path, passphrase } => {
            if !accepted {
                return Err(
                    RdtError::new(ErrorCode::Authentication, "the server refused the public key"),
                );
            }
        },
        _ => {},
    }
    Ok(())
}

/// Resolves a credential reference to its cleartext value, given what the secret
/// store holds under it.
pub fn resolve_secret(source: &CredentialSource, what: &str, stored: Option<Secret>) -> (r: RdtResult<
    Secret,
>)
    ensures
        match *source {
            CredentialSource::Prompt => r is Err && r->Err_0@ == fail(
                ErrorCode::Authentication,
                "the "@ + what@ + " must be entered by the user"@,
            ),
            CredentialSource::Stored(_) => match stored {
                Some(secret) => r is Ok && r->Ok_0@ == secret@,
                None => r is Err && r->Err_0@ == fail(
                    ErrorCode::Keystore,
                    "the stored secret was not found"@,
                ),
            },
        },
{
    match source {
        CredentialSource::Prompt => {
            let mut message = "the ".to_owned();
            message.push_str(what);
            message.push_str(" must be entered by the user");
            Err(RdtError::new(ErrorCode::Authentication, message.as_str()))
        },
        CredentialSource::Stored(_) => match stored {
            Some(secret) => Ok(secret),
            None => Err(RdtError::new(ErrorCode::Keystore, "the stored secret was not found")),
        },
    }
}

/// The passphrase to decrypt a private key with: an empty or missing one means that
/// the key is not encrypted.
pub fn key_passphrase(stored: Option<Secret>) -> (r: Option<Secret>)
    ensures
        match decrypting(stored) {
            Some(passphrase) => r is Some && r->0@ == passphrase,
            None => r is None,
        },
{
    match stored {
        Some(secret) => {
            if secret.is_empty() {
                None
            } else {
                Some(secret)
            }
        },
        None => None,
    }
}

/// An error that names a path.
pub open spec fn path_error(code: ErrorCode, message: Seq<char>, path: Seq<char>) -> RdtErrorView {
    RdtErrorView { context: seq!["path"@ + ": "@ + path], ..fail(code, message) }
}

/// An error that names a path.
pub fn about_path(code: ErrorCode, message: &str, path: &str) -> (r: RdtError)
    ensures
        r@ == path_error(code, message@, path@),
{
    let r = RdtError::new(code, message).with_context("path", path);
    assert(r@.context =~= seq!["path"@ + ": "@ + path@]);
    r
}

/// A private key.
#[verifier::external_type_specification]
#[verifier::external_body]
pub struct ExPrivateKey(russh::keys::PrivateKey);

/// Why a text and a passphrase give no private key, if they give none.
pub uninterp spec fn key_problem(text: Seq<char>, passphrase: Option<Seq<char>>) -> Option<Seq<char>>;

/// Decodes a private key.
///
/// Calls russh's `keys::decode_secret_key`, which reads the formats of OpenSSH,
/// PKCS and PuTTY. Which texts it reads under which passphrase, and how a failure is
/// worded, is left to the name; nothing is said of what is inside the key.
#[verifier::external_body]
fn decode_key(text: &str, passphrase: Option<&str>) -> (r: Result<russh::keys::PrivateKey, String>)
    ensures
        match key_problem(text@, given(passphrase)) {
            None => r is Ok,
            Some(reason) => r is Err && r->Err_0@ == reason,
        },
{
    russh::keys::decode_secret_key(text, passphrase).map_err(|error| error.to_string())
}

/// The text that was given, if any.
pub open spec fn given(text: Option<&str>) -> Option<Seq<char>> {
    match text {
        Some(text) => Some(text@),
        None => None,
    }
}

/// The passphrase that a key is decrypted with: an empty or missing one means that
/// the key is not encrypted.
pub open spec fn decrypting(passphrase: Option<Secret>) -> Option<Seq<char>> {
    match passphrase {
        Some(secret) => if secret@.len() > 0 {
            Some(secret@)
        } else {
            None
        },
        None => None,
    }
}

/// The failure of a private key that cannot be decoded.
pub open spec fn key_failure(decrypted: bool, reason: Seq<char>, path: Seq<char>) -> RdtErrorView {
    path_error(
        ErrorCode::Crypto,
        (if decrypted {
            "cannot decrypt the private key: "@
        } else {
            "cannot parse the private key: "@
        }) + reason,
        path,
    )
}

/// The error of a private key that cannot be decoded, with a passphrase or without.
pub fn key_decode_failed(decrypted: bool, reason: &str, path: &str) -> (r: RdtError)
    ensures
        r@ == key_failure(decrypted, reason@, path@),
{
    let mut message = if decrypted {
        "cannot decrypt the private key: ".to_owned()
    } else {
        "cannot parse the private key: ".to_owned()
    };
    message.push_str(reason);
    about_path(ErrorCode::Crypto, message.as_str(), path)
}

/// Reads the text of a private key file, decrypting it when a passphrase is given
/// that is not empty.
///
/// # Errors
///
/// Returns [`ErrorCode::Crypto`] when the text cannot be decoded.
pub fn load_private_key(text: &str, passphrase: Option<Secret>, path: &str) -> (r: RdtResult<
    russh::keys::PrivateKey,
>)
    ensures
        match key_problem(text@, decrypting(passphrase)) {
            None => r is Ok,
            Some(reason) => r is Err && r->Err_0@ == key_failure(
                decrypting(passphrase) is Some,
                reason,
                path@,
            ),
        },
{
    let (decoded, decrypted) = match key_passphrase(passphrase) {
        Some(secret) => (decode_key(text, Some(secret.expose())), true),
        None => (decode_key(text, None), false),
    };
    match decoded {
        Ok(key) => Ok(key),
        Err(reason) => Err(key_decode_failed(decrypted, reason.as_str(), path)),
    }
}

/// The error of a private key file that cannot be read.
pub fn key_read_failed(reason: &str, path: &str) -> (r: RdtError)
    ensures
        r@ == path_error(ErrorCode::Io, "cannot read the private key: "@ + reason@, path@),
{
    let mut message = "cannot read the private key: ".to_owned();
    message.push_str(reason);
    about_path(ErrorCode::Io, message.as_str(), path)
}

/// Failures of the SSH transport.
#[derive(Debug, Clone, Copy, PartialEq, Eq, Structural)]
pub enum SshFailure {
    /// The peer disconnected.
    Disconnect,
    /// A deadline passed.
    Timeout,
    /// The peer sent an inconsistent message.
    Inconsistent,
    /// The key exchange could not start.
    KexInit,
    /// No common algorithm.
    Negotiation,
    /// The server closed after too many attempts.
    TooManyAuthAttempts,
    /// An I/O failure.
    Io,
    /// The socket closed.
    SocketDisconnect,
    /// The address family is not supported.
    AddressFamilyNotSupported,
    /// A key could not be decrypted.
    KeyDecryption,
    /// A key is unusable.
    Key,
    /// Anything else.
    Other,
}

impl SshFailure {
    /// The classification of a transport failure.
    pub open spec fn classified(self) -> ErrorCode {
        match self {
            SshFailure::Disconnect => ErrorCode::Network,
            SshFailure::Timeout => ErrorCode::Timeout,
            SshFailure::Inconsistent => ErrorCode::Protocol,
            SshFailure::KexInit => ErrorCode::Protocol,
            SshFailure::Negotiation => ErrorCode::Protocol,
            SshFailure::TooManyAuthAttempts => ErrorCode::Authentication,
            SshFailure::Io => ErrorCode::Network,
            SshFailure::SocketDisconnect => ErrorCode::Network,
            SshFailure::AddressFamilyNotSupported => ErrorCode::Network,
            SshFailure::KeyDecryption => ErrorCode::Crypto,
            SshFailure::Key => ErrorCode::Crypto,
            SshFailure::Other => ErrorCode::Protocol,
        }
    }
}

/// Maps a transport failure onto the error taxonomy.
pub fn classify(failure: SshFailure, message: &str, operation: &str) -> (r: RdtError)
    ensures
        r@ == (RdtErrorView {
            context: seq!["operation"@ + ": "@ + operation@],
            ..fail(failure.classified(), message@)
        }),
{
    let code = match failure {
        SshFailure::Timeout => ErrorCode::Timeout,
        SshFailure::TooManyAuthAttempts => ErrorCode::Authentication,
        SshFailure::Disconnect => ErrorCode::Network,
        SshFailure::Io => ErrorCode::Network,
        SshFailure::SocketDisconnect => ErrorCode::Network,
        SshFailure::AddressFamilyNotSupported => ErrorCode::Network,
        SshFailure::KeyDecryption => ErrorCode::Crypto,
        SshFailure::Key => ErrorCode::Crypto,
        _ => ErrorCode::Protocol,
    };
    let r = RdtError::new(code, message).with_context("operation", operation);
    assert(r@.context =~= seq!["operation"@ + ": "@ + operation@]);
    r
}

/// A variable is a name, an equals sign and a value, which may hold further ones; a text
/// without an equals sign is none, and is passed over.
pub proof fn variables_are_names_and_values(
    name: Seq<char>,
    value: Seq<char>,
    list: Seq<Seq<char>>,
    other: Seq<char>,
)
    requires
        !name.contains('='),
        !other.contains('='),
    ensures
        variable(name + seq!['='] + value) == Some((name, value)),
        variable(other) is None,
        variables(Seq::empty()) == Seq::<(Seq<char>, Seq<char>)>::empty(),
        variables(list.push(name + seq!['='] + value)) == variables(list).push((name, value)),
        variables(list.push(other)) == variables(list),
{
    let s = name + seq!['='] + value;
    crate::text::first_at_finds(s, '=');
    assert(s[name.len() as int] == '=');
    assert(s.contains('='));
    let at = first_at(s, '=');
    assert(at == name.len()) by {
        if at < name.len() {
            assert(name[at] == '=');
        }
    }
    assert(s.take(at) =~= name);
    assert(s.skip(at + 1) =~= value);
    crate::text::first_at_finds(other, '=');
    assert(list.push(s).drop_last() =~= list);
    assert(list.push(other).drop_last() =~= list);
}

/// A connection needs a host and a login name that are not blank.
pub proof fn connections_need_host_and_user(host: Seq<char>, username: Seq<char>)
    ensures
        connection_problem(host, username) is None <==> trimmed(host).len() > 0 && trimmed(
            username,
        ).len() > 0,
{
}

/// What is dialled is the host, a colon and the port.
pub proof fn connections_dial_host_and_port(connection: SshConnection)
    ensures
        connection.dialled() == connection.host@ + ":"@ + decimal(connection.port as nat),
{
}

/// Each way to authenticate leads to its own step; what only the user can enter and an
/// agent that is not there are refused.
pub proof fn methods_lead_to_their_step(auth: AuthMethod, step: AuthStep)
    requires
        auth_stepped(auth, step),
    ensures
        auth is Unauthenticated ==> step is Anonymous,
        auth is Password && auth->Password_0 is Stored ==> step is Password
            && step->Password_0.backend == auth->Password_0->Stored_0.backend
            && step->Password_0.key@ == auth->Password_0->Stored_0.key@,
        auth is Password && auth->Password_0 is Prompt ==> step is Refuse
            && step->Refuse_0@.code == ErrorCode::Authentication,
        auth is PrivateKey ==> step is PrivateKey && step->path@ == auth->PrivateKey_0.path@,
        auth is PrivateKey && auth->PrivateKey_0.passphrase is Prompt ==> step->passphrase is None,
        auth is PrivateKey && auth->PrivateKey_0.passphrase is Stored ==> step->passphrase is Some
            && step->passphrase->0.key@ == auth->PrivateKey_0.passphrase->Stored_0.key@,
        auth is Agent ==> step is Refuse && step->Refuse_0@.code == ErrorCode::Authentication,
        auth is KeyboardInteractive ==> step is KeyboardInteractive,
{
}

/// Failures of the transport keep their kind: what breaks the connection is one of the
/// network, what breaks the protocol one of the protocol, and what breaks a key one of
/// cryptography.
pub proof fn transport_failures_keep_their_kind()
    ensures
        SshFailure::Disconnect.classified() == ErrorCode::Network,
        SshFailure::Io.classified() == ErrorCode::Network,
        SshFailure::SocketDisconnect.classified() == ErrorCode::Network,
        SshFailure::AddressFamilyNotSupported.classified() == ErrorCode::Network,
        SshFailure::Timeout.classified() == ErrorCode::Timeout,
        SshFailure::Inconsistent.classified() == ErrorCode::Protocol,
        SshFailure::KexInit.classified() == ErrorCode::Protocol,
        SshFailure::Negotiation.classified() == ErrorCode::Protocol,
        SshFailure::Other.classified() == ErrorCode::Protocol,
        SshFailure::TooManyAuthAttempts.classified() == ErrorCode::Authentication,
        SshFailure::KeyDecryption.classified() == ErrorCode::Crypto,
        SshFailure::Key.classified() == ErrorCode::Crypto,
{
}

/// An empty passphrase is none.
pub proof fn empty_passphrases_are_none(secret: Secret)
    ensures
        secret@.len() > 0 ==> decrypting(Some(secret)) == Some(secret@),
        secret@.len() == 0 ==> decrypting(Some(secret)) is None,
        decrypting(None) is None,
{
}

/// A private key that cannot be used is refused with what was tried, the reason and the
/// path.
pub proof fn unusable_keys_are_refused(reason: Seq<char>, path: Seq<char>)
    ensures
        key_failure(true, reason, path) == path_error(
            ErrorCode::Crypto,
            "cannot decrypt the private key: "@ + reason,
            path,
        ),
        key_failure(false, reason, path) == path_error(
            ErrorCode::Crypto,
            "cannot parse the private key: "@ + reason,
            path,
        ),
{
}

} // verus!
