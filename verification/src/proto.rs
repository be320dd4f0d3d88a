//! Protocol and connection option types shared by the SSH, RDP, configuration
//! and UI code.
use crate::error::{fail, ErrorCode, RdtError, RdtErrorView, RdtResult};
use crate::text::{
    chars_of, decimal, find_char, first_at, last_at, lowered, number, parse_number, part,
    rfind_char, same, space, to_ascii_lowercase, to_decimal, trim, trimmed,
};
use vstd::prelude::*;
use vstd::utf8::encode_utf8;

verus! {

/// Name of the product as shown in user interfaces.
pub const PRODUCT_NAME: &'static str = "RDT";

/// Long form of [`PRODUCT_NAME`].
pub const PRODUCT_LONG_NAME: &'static str = "RDT - Remote Desktop Tool";

/// The version string.
pub const VERSION: &'static str = "0.1.0";

/// Remote access protocols.
#[derive(Debug, Clone, Copy, PartialEq, Eq, Hash, Structural)]
pub enum Protocol {
    /// Secure Shell (interactive PTY, command execution and SFTP).
    Ssh,
    /// Remote Desktop Protocol with an embedded client renderer.
    Rdp,
}

impl Default for Protocol {
    fn default() -> (r: Self)
        ensures
            r == Protocol::Ssh,
    {
        Protocol::Ssh
    }
}

/// What the name of a protocol denotes.
pub open spec fn protocol_named(text: Seq<char>) -> Option<Protocol> {
    let name = lowered(trimmed(text));
    if name == "ssh"@ {
        Some(Protocol::Ssh)
    } else if name == "rdp"@ || name == "rdp-tcp"@ {
        Some(Protocol::Rdp)
    } else {
        None
    }
}

impl Protocol {
    /// The conventional port for the protocol.
    pub open spec fn port(self) -> u16 {
        match self {
            Protocol::Ssh => 22,
            Protocol::Rdp => 3389,
        }
    }

    /// The name of the protocol.
    pub open spec fn name(self) -> Seq<char> {
        match self {
            Protocol::Ssh => "ssh"@,
            Protocol::Rdp => "rdp"@,
        }
    }

    /// The conventional port for the protocol.
    pub fn default_port(self) -> (r: u16)
        ensures
            r == self.port(),
    {
        match self {
            Protocol::Ssh => 22,
            Protocol::Rdp => 3389,
        }
    }

    /// Stable lowercase name.
    pub fn as_str(self) -> (r: &'static str)
        ensures
            r@ == self.name(),
    {
        match self {
            Protocol::Ssh => "ssh",
            Protocol::Rdp => "rdp",
        }
    }

    /// Human readable name used in the UI.
    pub fn label(self) -> (r: &'static str)
        ensures
            r@ == match self {
                Protocol::Ssh => "SSH"@,
                Protocol::Rdp => "RDP"@,
            },
    {
        match self {
            Protocol::Ssh => "SSH",
            Protocol::Rdp => "RDP",
        }
    }

    /// The text shown for the protocol.
    pub fn to_string(&self) -> (r: String)
        ensures
            r@ == self.name(),
    {
        self.as_str().to_owned()
    }

    /// Reads the name of a protocol.
    pub fn parse(text: &str) -> (r: RdtResult<Self>)
        ensures
            match protocol_named(text@) {
                Some(protocol) => r is Ok && r->Ok_0 == protocol,
                None => r is Err && r->Err_0@ == fail(
                    ErrorCode::InvalidInput,
                    "unknown protocol '"@ + lowered(trimmed(text@))
                        + "'; expected 'ssh' or 'rdp'"@,
                ),
            },
    {
        let trimmed_text = trim(text);
        let name = to_ascii_lowercase(trimmed_text.as_str());
        if same(name.as_str(), "ssh") {
            return Ok(Protocol::Ssh);
        }
        if same(name.as_str(), "rdp") || same(name.as_str(), "rdp-tcp") {
            return Ok(Protocol::Rdp);
        }
        let mut message = "unknown protocol '".to_owned();
        message.push_str(name.as_str());
        message.push_str("'; expected 'ssh' or 'rdp'");
        Err(RdtError::new(ErrorCode::InvalidInput, message.as_str()))
    }
}

impl std::str::FromStr for Protocol {
    type Err = RdtError;

    fn from_str(text: &str) -> (r: Result<Self, RdtError>)
        ensures
            match protocol_named(text@) {
                Some(protocol) => r is Ok && r->Ok_0 == protocol,
                None => r is Err && r->Err_0@ == fail(
                    ErrorCode::InvalidInput,
                    "unknown protocol '"@ + lowered(trimmed(text@))
                        + "'; expected 'ssh' or 'rdp'"@,
                ),
            },
    {
        Protocol::parse(text)
    }
}

/// A network endpoint (host or IP literal plus port).
#[derive(Debug, PartialEq, Eq, Hash)]
pub struct Endpoint {
    /// Host name, IPv4 or IPv6 literal.  IPv6 literals are stored without the
    /// surrounding brackets.
    pub host: String,
    /// TCP port.
    pub port: u16,
}

impl Clone for Endpoint {
    fn clone(&self) -> (r: Self)
        ensures
            r.host@ == self.host@,
            r.port == self.port,
    {
        Endpoint { host: self.host.clone(), port: self.port }
    }
}

/// Whether a text contains white space.
pub open spec fn has_space(s: Seq<char>) -> bool {
    exists|i: int| 0 <= i < s.len() && space(#[trigger] s[i])
}

/// Why a host is refused, if it is.
pub open spec fn host_problem(host: Seq<char>) -> Option<Seq<char>> {
    if host.len() == 0 {
        Some("host must not be empty"@)
    } else if encode_utf8(host).len() > 253 {
        Some("host name too long"@)
    } else if has_space(host) {
        Some("host must not contain whitespace"@)
    } else if host.contains('/') || host.contains('@') {
        Some("host must not contain '/' or '@'"@)
    } else {
        None
    }
}

/// The outcome of building an endpoint.
pub open spec fn endpoint_built(host: Seq<char>, port: u16) -> Result<
    (Seq<char>, u16),
    RdtErrorView,
> {
    match host_problem(host) {
        Some(message) => Err(fail(ErrorCode::InvalidInput, message)),
        None => Ok((host, port)),
    }
}

/// The outcome of reading a port.
pub open spec fn port_parsed(text: Seq<char>) -> Result<u16, RdtErrorView> {
    match number(trimmed(text), 65535) {
        Some(n) => Ok(n as u16),
        None => Err(fail(ErrorCode::InvalidInput, "invalid port '"@ + text + "'"@)),
    }
}

/// The endpoint with a host and the text of a port.
pub open spec fn endpoint_with(host: Seq<char>, port: Seq<char>) -> Result<
    (Seq<char>, u16),
    RdtErrorView,
> {
    match port_parsed(port) {
        Ok(port) => endpoint_built(host, port),
        Err(error) => Err(error),
    }
}

/// What follows the opening bracket of an IPv6 literal.
pub open spec fn literal_parsed(rest: Seq<char>, default: u16) -> Result<
    (Seq<char>, u16),
    RdtErrorView,
> {
    let close = first_at(rest, ']');
    let tail = rest.skip(close + 1);
    if close == rest.len() {
        Err(fail(ErrorCode::InvalidInput, "unterminated IPv6 literal"@))
    } else if tail.len() > 0 && tail[0] == ':' {
        endpoint_with(rest.take(close), tail.skip(1))
    } else if tail.len() == 0 {
        endpoint_built(rest.take(close), default)
    } else {
        Err(
            fail(
                ErrorCode::InvalidInput,
                "unexpected suffix '"@ + tail + "' after IPv6 literal"@,
            ),
        )
    }
}

/// What the text of an endpoint denotes.
pub open spec fn endpoint_parsed(text: Seq<char>, default: u16) -> Result<
    (Seq<char>, u16),
    RdtErrorView,
> {
    let s = trimmed(text);
    let colon = last_at(s, ':');
    if s.len() == 0 {
        Err(fail(ErrorCode::InvalidInput, "empty host"@))
    } else if s[0] == '[' {
        literal_parsed(s.skip(1), default)
    } else if colon > 0 {
        endpoint_with(s.take(colon), s.skip(colon + 1))
    } else {
        endpoint_built(s, default)
    }
}

/// An outcome as the result of a function.
pub open spec fn endpoint_result(
    r: RdtResult<Endpoint>,
    outcome: Result<(Seq<char>, u16), RdtErrorView>,
) -> bool {
    match outcome {
        Ok(endpoint) => r is Ok && r->Ok_0.host@ == endpoint.0 && r->Ok_0.port == endpoint.1,
        Err(error) => r is Err && r->Err_0@ == error,
    }
}

/// The text of an endpoint: hosts that contain a colon stand in brackets.
pub open spec fn endpoint_text(host: Seq<char>, port: u16) -> Seq<char> {
    if host.contains(':') {
        "["@ + host + "]:"@ + decimal(port as nat)
    } else {
        host + ":"@ + decimal(port as nat)
    }
}

impl Endpoint {
    /// Builds an endpoint, validating the host.
    pub fn new(host: &str, port: u16) -> (r: RdtResult<Self>)
        ensures
            endpoint_result(r, endpoint_built(host@, port)),
    {
        match validate_host(host) {
            Ok(()) => Ok(Endpoint { host: host.to_owned(), port }),
            Err(error) => Err(error),
        }
    }

    /// Builds an endpoint from `host` or `host:port`, falling back to the
    /// default port of `protocol`.
    pub fn parse(text: &str, protocol: Protocol) -> (r: RdtResult<Self>)
        ensures
            endpoint_result(r, endpoint_parsed(text@, protocol.port())),
    {
        let trimmed_text = trim(text);
        let s = chars_of(trimmed_text.as_str());
        if s.len() == 0 {
            return Err(RdtError::new(ErrorCode::InvalidInput, "empty host"));
        }
        // IPv6 literals may carry brackets: [::1]:3389
        if s[0] == '[' {
            let rest = part(&s, 1, s.len());
            assert(rest@ =~= s@.skip(1));
            return parse_literal(rest.as_str(), protocol.default_port());
        }
        match rfind_char(s.as_slice(), ':') {
            Some(colon) => {
                if colon > 0 {
                    let host = part(&s, 0, colon);
                    let port_text = part(&s, colon + 1, s.len());
                    assert(host@ =~= s@.take(colon as int));
                    assert(port_text@ =~= s@.skip(colon + 1));
                    return match parse_port(port_text.as_str()) {
                        Ok(port) => Endpoint::new(host.as_str(), port),
                        Err(error) => Err(error),
                    };
                }
            },
            None => {},
        }
        Endpoint::new(trimmed_text.as_str(), protocol.default_port())
    }

    /// The text of the endpoint.
    pub fn to_string(&self) -> (r: String)
        ensures
            r@ == endpoint_text(self.host@, self.port),
    {
        let host = chars_of(self.host.as_str());
        let colon = find_char(host.as_slice(), ':') < host.len();
        proof {
            crate::text::first_at_finds(self.host@, ':');
        }
        let port = to_decimal(self.port as u64);
        if colon {
            let mut r = "[".to_owned();
            r.push_str(self.host.as_str());
            r.push_str("]:");
            r.push_str(port.as_str());
            r
        } else {
            let mut r = self.host.clone();
            r.push_str(":");
            r.push_str(port.as_str());
            r
        }
    }
}

fn parse_literal(rest: &str, default: u16) -> (r: RdtResult<Endpoint>)
    ensures
        endpoint_result(r, literal_parsed(rest@, default)),
{
    let s = chars_of(rest);
    let close = find_char(s.as_slice(), ']');
    if close == s.len() {
        return Err(RdtError::new(ErrorCode::InvalidInput, "unterminated IPv6 literal"));
    }
    let host = part(&s, 0, close);
    assert(host@ =~= s@.take(close as int));
    let tail = part(&s, close + 1, s.len());
    assert(tail@ =~= s@.skip(close + 1));
    if close + 1 < s.len() && s[close + 1] == ':' {
        let port_text = part(&s, close + 2, s.len());
        assert(port_text@ =~= tail@.skip(1));
        return match parse_port(port_text.as_str()) {
            Ok(port) => Endpoint::new(host.as_str(), port),
            Err(error) => Err(error),
        };
    }
    if close + 1 == s.len() {
        return Endpoint::new(host.as_str(), default);
    }
    let mut message = "unexpected suffix '".to_owned();
    message.push_str(tail.as_str());
    message.push_str("' after IPv6 literal");
    Err(RdtError::new(ErrorCode::InvalidInput, message.as_str()))
}

fn parse_port(text: &str) -> (r: RdtResult<u16>)
    ensures
        match port_parsed(text@) {
            Ok(port) => r is Ok && r->Ok_0 == port,
            Err(error) => r is Err && r->Err_0@ == error,
        },
{
    let trimmed_text = trim(text);
    match parse_number(trimmed_text.as_str(), 65535) {
        Some(n) => Ok(n as u16),
        None => {
            let mut message = "invalid port '".to_owned();
            message.push_str(text);
            message.push_str("'");
            Err(RdtError::new(ErrorCode::InvalidInput, message.as_str()))
        },
    }
}

/// Whether a text contains white space.
pub fn contains_space(s: &str) -> (r: bool)
    ensures
        r == has_space(s@),
{
    let chars = chars_of(s);
    let mut i: usize = 0;
    while i < chars.len()
        invariant
            i <= chars@.len(),
            chars@ == s@,
            forall|k: int| 0 <= k < i ==> !space(#[trigger] s@[k]),
        decreases chars.len() - i,
    {
        if crate::text::is_space(chars[i]) {
            assert(space(s@[i as int]));
            return true;
        }
        i = i + 1;
    }
    false
}

fn validate_host(host: &str) -> (r: RdtResult<()>)
    ensures
        match host_problem(host@) {
            Some(message) => r is Err && r->Err_0@ == fail(ErrorCode::InvalidInput, message),
            None => r is Ok,
        },
{
    if host.is_empty() {
        return Err(RdtError::new(ErrorCode::InvalidInput, "host must not be empty"));
    }
    if crate::text::byte_len(host) > 253 {
        return Err(RdtError::new(ErrorCode::InvalidInput, "host name too long"));
    }
    if contains_space(host) {
        return Err(RdtError::new(ErrorCode::InvalidInput, "host must not contain whitespace"));
    }
    let chars = chars_of(host);
    proof {
        crate::text::first_at_finds(host@, '/');
        crate::text::first_at_finds(host@, '@');
    }
    if find_char(chars.as_slice(), '/') < chars.len() || find_char(chars.as_slice(), '@')
        < chars.len() {
        return Err(RdtError::new(ErrorCode::InvalidInput, "host must not contain '/' or '@'"));
    }
    Ok(())
}

/// Endpoints round-trip through text: the text of a valid endpoint is read back as
/// the same host and port.  A host with a colon stands in brackets, so it must not
/// contain a closing one; a host without must not start with an opening one.
pub proof fn endpoints_round_trip(host: Seq<char>, port: u16, default: u16)
    requires
        host_problem(host) is None,
        host.contains(':') ==> !host.contains(']'),
        !host.contains(':') ==> host[0] != '[',
    ensures
        endpoint_parsed(endpoint_text(host, port), default) == Ok::<
            (Seq<char>, u16),
            RdtErrorView,
        >((host, port)),
{
    reveal_strlit("[");
    reveal_strlit("]:");
    reveal_strlit(":");
    let digits = decimal(port as nat);
    crate::text::decimal_round_trip(port as nat, 65535);
    let text = endpoint_text(host, port);
    assert forall|i: int| 0 <= i < host.len() implies !space(#[trigger] host[i]) by {}
    assert(text.last() == digits.last());
    assert(crate::text::is_digit(digits.last()));
    assert(crate::text::is_digit(digits[0]));
    assert(!space(text[0]));
    crate::text::trimmed_is_itself(text);
    crate::text::trimmed_is_itself(digits);
    if host.contains(':') {
        let rest = text.skip(1);
        assert(text[0] == '[');
        assert(rest =~= host + "]:"@ + digits);
        crate::text::first_at_finds(rest, ']');
        assert(rest[host.len() as int] == ']');
        assert(first_at(rest, ']') == host.len()) by {
            if first_at(rest, ']') < host.len() {
                assert(host[first_at(rest, ']')] == ']');
            }
        }
        let tail = rest.skip(host.len() as int + 1);
        assert(rest.take(host.len() as int) =~= host);
        assert(tail[0] == ':');
        assert(tail.skip(1) =~= digits);
    } else {
        crate::text::last_at_finds(text, ':');
        assert(text[host.len() as int] == ':');
        assert(last_at(text, ':') == host.len()) by {
            let k = last_at(text, ':');
            if k > host.len() {
                assert(text[k] == digits[k - host.len() - 1]);
                assert(crate::text::is_digit(digits[k - host.len() - 1]));
            }
        }
        assert(text[0] == host[0]);
        assert(text.take(host.len() as int) =~= host);
        assert(text.skip(host.len() as int + 1) =~= digits);
    }
}

/// How unknown or changed SSH host keys are treated.
#[derive(Debug, Clone, Copy, PartialEq, Eq, Structural)]
pub enum HostKeyPolicy {
    /// Unknown and changed keys are refused.  This is the default.
    Strict,
    /// Unknown keys are recorded automatically; changed keys are refused.
    /// Equivalent to OpenSSH's `StrictHostKeyChecking=accept-new`.
    AcceptNew,
}

impl Default for HostKeyPolicy {
    fn default() -> (r: Self)
        ensures
            r == HostKeyPolicy::Strict,
    {
        HostKeyPolicy::Strict
    }
}

/// What the name of a host key policy denotes.
pub open spec fn policy_named(text: Seq<char>) -> Option<HostKeyPolicy> {
    let name = lowered(trimmed(text));
    if name == "strict"@ {
        Some(HostKeyPolicy::Strict)
    } else if name == "accept_new"@ || name == "accept-new"@ || name == "acceptnew"@ {
        Some(HostKeyPolicy::AcceptNew)
    } else {
        None
    }
}

impl HostKeyPolicy {
    /// Stable name used in configuration files.
    pub fn as_str(self) -> (r: &'static str)
        ensures
            r@ == match self {
                HostKeyPolicy::Strict => "strict"@,
                HostKeyPolicy::AcceptNew => "accept_new"@,
            },
    {
        match self {
            HostKeyPolicy::Strict => "strict",
            HostKeyPolicy::AcceptNew => "accept_new",
        }
    }

    /// Whether an unknown key may be accepted without a human decision.
    pub fn auto_accepts_unknown(self) -> (r: bool)
        ensures
            r == (self is AcceptNew),
    {
        matches!(self, HostKeyPolicy::AcceptNew)
    }

    /// Reads the name of a policy.
    pub fn parse(text: &str) -> (r: RdtResult<Self>)
        ensures
            match policy_named(text@) {
                Some(policy) => r is Ok && r->Ok_0 == policy,
                None => r is Err && r->Err_0@ == fail(
                    ErrorCode::InvalidInput,
                    "unknown host key policy '"@ + lowered(trimmed(text@)) + "'"@,
                ),
            },
    {
        let trimmed_text = trim(text);
        let name = to_ascii_lowercase(trimmed_text.as_str());
        if same(name.as_str(), "strict") {
            return Ok(HostKeyPolicy::Strict);
        }
        if same(name.as_str(), "accept_new") || same(name.as_str(), "accept-new") || same(
            name.as_str(),
            "acceptnew",
        ) {
            return Ok(HostKeyPolicy::AcceptNew);
        }
        let mut message = "unknown host key policy '".to_owned();
        message.push_str(name.as_str());
        message.push_str("'");
        Err(RdtError::new(ErrorCode::InvalidInput, message.as_str()))
    }
}

impl std::str::FromStr for HostKeyPolicy {
    type Err = RdtError;

    fn from_str(text: &str) -> (r: Result<Self, RdtError>)
        ensures
            match policy_named(text@) {
                Some(policy) => r is Ok && r->Ok_0 == policy,
                None => r is Err && r->Err_0@ == fail(
                    ErrorCode::InvalidInput,
                    "unknown host key policy '"@ + lowered(trimmed(text@)) + "'"@,
                ),
            },
    {
        HostKeyPolicy::parse(text)
    }
}

/// Where a stored secret lives.
#[derive(Debug, Clone, Copy, PartialEq, Eq, Structural)]
pub enum SecretBackend {
    /// The platform keyring (Windows DPAPI protected store, the Secret Service
    /// on Linux desktops).
    OsKeystore,
    /// The passphrase protected, AEAD encrypted vault file.
    EncryptedVault,
}

impl SecretBackend {
    /// Stable configuration name.
    pub fn as_str(self) -> (r: &'static str)
        ensures
            r@ == match self {
                SecretBackend::OsKeystore => "os-keystore"@,
                SecretBackend::EncryptedVault => "encrypted-vault"@,
            },
    {
        match self {
            SecretBackend::OsKeystore => "os-keystore",
            SecretBackend::EncryptedVault => "encrypted-vault",
        }
    }
}

/// A reference to secret material that is stored outside of the profile file.
#[derive(Debug, Clone, PartialEq, Eq)]
pub struct StoredSecret {
    /// Backend that holds the value.
    pub backend: SecretBackend,
    /// Opaque key inside that backend.
    pub key: String,
}

/// How a credential is obtained at connect time.
#[derive(Debug, Clone, PartialEq, Eq)]
pub enum CredentialSource {
    /// Ask the user in the UI (never persisted).
    Prompt,
    /// Read the value from a secret store.
    Stored(StoredSecret),
}

impl Default for CredentialSource {
    fn default() -> (r: Self)
        ensures
            r is Prompt,
    {
        CredentialSource::Prompt
    }
}

/// Authentication material for SSH.
#[derive(Debug, Clone, PartialEq, Eq)]
pub enum AuthMethod {
    /// No authentication (only meaningful for protocols that allow it).
    Unauthenticated,
    /// Password authentication.
    Password(CredentialSource),
    /// Private key authentication.
    PrivateKey(PrivateKeyAuth),
    /// Use a running SSH agent.
    Agent {
        /// Optional identity hint passed to the agent.
        identity: Option<String>,
    },
    /// Keyboard-interactive authentication (for example one time passwords).
    KeyboardInteractive(CredentialSource),
}

impl Default for AuthMethod {
    // New profiles ask for a password at connect time and store nothing.
    fn default() -> (r: Self)
        ensures
            r is Password,
            r->Password_0 is Prompt,
    {
        AuthMethod::Password(CredentialSource::Prompt)
    }
}

impl AuthMethod {
    /// The description of a method.
    pub open spec fn description(self) -> Seq<char> {
        match self {
            AuthMethod::Unauthenticated => "none"@,
            AuthMethod::Password(_) => "password"@,
            AuthMethod::PrivateKey(key) => if key.passphrase is Prompt {
                "private key"@
            } else {
                "private key (stored passphrase)"@
            },
            AuthMethod::Agent { .. } => "ssh agent"@,
            AuthMethod::KeyboardInteractive(_) => "keyboard-interactive"@,
        }
    }

    /// Human readable description that never contains secret material.
    pub fn describe(&self) -> (r: &'static str)
        ensures
            r@ == self.description(),
    {
        match self {
            AuthMethod::Unauthenticated => "none",
            AuthMethod::Password(_) => "password",
            AuthMethod::PrivateKey(key) => match &key.passphrase {
                CredentialSource::Prompt => "private key",
                CredentialSource::Stored(_) => "private key (stored passphrase)",
            },
            AuthMethod::Agent { .. } => "ssh agent",
            AuthMethod::KeyboardInteractive(_) => "keyboard-interactive",
        }
    }
}

/// Private key authentication settings.
#[derive(Debug, Clone, PartialEq, Eq)]
pub struct PrivateKeyAuth {
    /// Path to the private key file (OpenSSH or PEM format).
    pub path: String,
    /// Where the passphrase comes from; `Prompt` for unencrypted keys too.
    pub passphrase: CredentialSource,
}

impl Default for PrivateKeyAuth {
    fn default() -> (r: Self)
        ensures
            r.path@ == "~/.ssh/id_ed25519"@,
            r.passphrase is Prompt,
    {
        PrivateKeyAuth {
            path: "~/.ssh/id_ed25519".to_owned(),
            passphrase: CredentialSource::Prompt,
        }
    }
}

/// SSH specific connection options.
#[derive(Debug, Clone, PartialEq)]
pub struct SshOptions {
    /// Send a keepalive every N seconds; 0 disables keepalives.
    pub keepalive_secs: u64,
    /// Abort the connection attempt after this many seconds.
    pub connect_timeout_secs: u64,
    /// Close an idle session after this many seconds; 0 disables the timer.
    pub idle_timeout_secs: u64,
    /// Request `zlib@openssh.com` compression.
    pub compression: bool,
    /// Host key verification policy.
    pub host_key_policy: HostKeyPolicy,
    /// Location of the known hosts database.
    pub known_hosts: Option<String>,
    /// Terminal settings for interactive sessions.
    pub terminal: TerminalOptions,
    /// Command to execute instead of an interactive shell.
    pub command: Option<String>,
    /// Environment variables requested from the server (`KEY=VALUE`).
    pub environment: Vec<String>,
    /// Open the SFTP subsystem alongside the shell.
    pub sftp_enabled: bool,
    /// Automatic reconnection policy.
    pub reconnect: ReconnectPolicy,
}

/// The options of a new SSH profile.
pub open spec fn ssh_defaults(o: SshOptions) -> bool {
    &&& o.keepalive_secs == 30
    &&& o.connect_timeout_secs == 15
    &&& o.idle_timeout_secs == 0
    &&& !o.compression
    &&& o.host_key_policy is Strict
    &&& o.known_hosts is None
    &&& terminal_defaults(o.terminal)
    &&& o.command is None
    &&& o.environment@.len() == 0
    &&& o.sftp_enabled
    &&& o.reconnect == reconnect_defaults()
}

impl Default for SshOptions {
    fn default() -> (r: Self)
        ensures
            ssh_defaults(r),
    {
        SshOptions {
            keepalive_secs: default_keepalive_secs(),
            connect_timeout_secs: default_connect_timeout_secs(),
            idle_timeout_secs: 0,
            compression: false,
            host_key_policy: HostKeyPolicy::default(),
            known_hosts: None,
            terminal: TerminalOptions::default(),
            command: None,
            environment: Vec::new(),
            sftp_enabled: true,
            reconnect: ReconnectPolicy::default(),
        }
    }
}

/// The bits of the default font size, fourteen points.
pub const DEFAULT_FONT_SIZE_BITS: u32 = 0x4160_0000;

/// Terminal emulation settings.
#[derive(Debug, Clone, PartialEq)]
pub struct TerminalOptions {
    /// Initial column count.
    pub cols: u16,
    /// Initial row count.
    pub rows: u16,
    /// Number of scrollback lines kept in memory.
    pub scrollback_lines: usize,
    /// `$TERM` value requested from the server.
    pub term: String,
    /// Font size in points, as the bits of a single precision number.
    pub font_size_bits: u32,
    /// Ring the terminal bell by flashing the tab.
    pub bell: bool,
}

/// The terminal settings of a new profile.
pub open spec fn terminal_defaults(o: TerminalOptions) -> bool {
    &&& o.cols == 100
    &&& o.rows == 30
    &&& o.scrollback_lines == 5000
    &&& o.term@ == "xterm-256color"@
    &&& o.font_size_bits == DEFAULT_FONT_SIZE_BITS
    &&& o.bell
}

impl Default for TerminalOptions {
    fn default() -> (r: Self)
        ensures
            terminal_defaults(r),
    {
        TerminalOptions {
            cols: default_cols(),
            rows: default_rows(),
            scrollback_lines: default_scrollback(),
            term: default_term(),
            font_size_bits: DEFAULT_FONT_SIZE_BITS,
            bell: true,
        }
    }
}

/// RDP colour depth.
#[derive(Debug, Clone, Copy, PartialEq, Eq, Structural)]
pub enum ColorDepth {
    /// 16 bit RGB565.
    Rgb565,
    /// 24 bit true colour.
    TrueColor24,
    /// 32 bit colour with an unused alpha channel.
    TrueColor32,
}

impl Default for ColorDepth {
    fn default() -> (r: Self)
        ensures
            r == ColorDepth::TrueColor24,
    {
        ColorDepth::TrueColor24
    }
}

impl ColorDepth {
    /// Bits per pixel for the wire format.
    pub open spec fn bits(self) -> u8 {
        match self {
            ColorDepth::Rgb565 => 16,
            ColorDepth::TrueColor24 => 24,
            ColorDepth::TrueColor32 => 32,
        }
    }

    /// Bits per pixel for the wire format.
    pub fn bits_per_pixel(self) -> (r: u8)
        ensures
            r == self.bits(),
    {
        match self {
            ColorDepth::Rgb565 => 16,
            ColorDepth::TrueColor24 => 24,
            ColorDepth::TrueColor32 => 32,
        }
    }
}

/// How the RDP server certificate is trusted.
#[derive(Debug, Clone, Copy, PartialEq, Eq, Structural)]
pub enum CertPolicy {
    /// Validate the certificate against the bundled root store (plus an optional
    /// CA bundle) and refuse anything that does not chain.
    Verify,
    /// Like [`Self::Verify`], but also accept a certificate whose SHA-256
    /// fingerprint matches the pinned value stored in the profile.
    VerifyOrPinned,
    /// Ask the user once and remember the fingerprint in the profile.
    TrustOnFirstUse,
}

impl Default for CertPolicy {
    fn default() -> (r: Self)
        ensures
            r == CertPolicy::Verify,
    {
        CertPolicy::Verify
    }
}

/// RDP specific connection options.
#[derive(Debug, Clone, PartialEq, Eq)]
pub struct RdpOptions {
    /// Initial desktop width in pixels.
    pub width: u16,
    /// Initial desktop height in pixels.
    pub height: u16,
    /// Colour depth negotiated with the server.
    pub color_depth: ColorDepth,
    /// Certificate trust policy.
    pub cert_policy: CertPolicy,
    /// Pinned certificate fingerprint (`sha256:<hex>`).
    pub pinned_fingerprint: Option<String>,
    /// Optional PEM bundle with additional trusted CAs.
    pub ca_bundle: Option<String>,
    /// Request the clipboard channel.
    pub clipboard: bool,
    /// Ask the server to change the desktop size when the window is resized.
    pub dynamic_resize: bool,
    /// Domain (NetBIOS) part of the user name.
    pub domain: Option<String>,
    /// Connect to the console session instead of a new one.
    pub console_session: bool,
    /// Allow the RDP server to fall back from CredSSP to plain TLS.
    pub allow_tls_fallback: bool,
    /// Automatic reconnection policy.
    pub reconnect: ReconnectPolicy,
    /// Abort the connection attempt after this many seconds.
    pub connect_timeout_secs: u64,
}

/// The options of a new RDP profile.
pub open spec fn rdp_defaults(o: RdpOptions) -> bool {
    &&& o.width == 1280
    &&& o.height == 800
    &&& o.color_depth is TrueColor24
    &&& o.cert_policy is Verify
    &&& o.pinned_fingerprint is None
    &&& o.ca_bundle is None
    &&& o.clipboard
    &&& o.dynamic_resize
    &&& o.domain is None
    &&& !o.console_session
    &&& !o.allow_tls_fallback
    &&& o.reconnect == reconnect_defaults()
    &&& o.connect_timeout_secs == 15
}

impl Default for RdpOptions {
    fn default() -> (r: Self)
        ensures
            rdp_defaults(r),
    {
        RdpOptions {
            width: default_width(),
            height: default_height(),
            color_depth: ColorDepth::default(),
            cert_policy: CertPolicy::default(),
            pinned_fingerprint: None,
            ca_bundle: None,
            clipboard: true,
            dynamic_resize: true,
            domain: None,
            console_session: false,
            allow_tls_fallback: false,
            reconnect: ReconnectPolicy::default(),
            connect_timeout_secs: default_connect_timeout_secs(),
        }
    }
}

/// Automatic reconnection behaviour.
#[derive(Debug, Clone, Copy, PartialEq, Eq, Structural)]
pub struct ReconnectPolicy {
    /// Whether to reconnect at all.
    pub enabled: bool,
    /// Maximum number of consecutive attempts; 0 means "keep trying".
    pub max_attempts: u32,
    /// Delay before the first attempt.
    pub initial_backoff_secs: u64,
    /// Upper bound for the exponentially growing delay.
    pub max_backoff_secs: u64,
}

/// The reconnection behaviour of a new profile.
pub open spec fn reconnect_defaults() -> ReconnectPolicy {
    ReconnectPolicy {
        enabled: true,
        max_attempts: 5,
        initial_backoff_secs: 2,
        max_backoff_secs: 60,
    }
}

impl Default for ReconnectPolicy {
    fn default() -> (r: Self)
        ensures
            r == reconnect_defaults(),
    {
        ReconnectPolicy {
            enabled: true,
            max_attempts: default_max_attempts(),
            initial_backoff_secs: default_initial_backoff_secs(),
            max_backoff_secs: default_max_backoff_secs(),
        }
    }
}

/// Two to a power.
pub open spec fn power_of_two(exponent: nat) -> nat
    decreases exponent,
{
    if exponent == 0 {
        1
    } else {
        2 * power_of_two((exponent - 1) as nat)
    }
}

impl ReconnectPolicy {
    /// Whether an attempt is made at all.
    pub open spec fn tries(self, attempt: nat) -> bool {
        self.enabled && attempt > 0 && (self.max_attempts > 0 ==> attempt <= self.max_attempts)
    }

    /// The largest delay: the configured bound, or the first delay where that is
    /// longer.
    pub open spec fn bound(self) -> nat {
        if self.max_backoff_secs > self.initial_backoff_secs {
            self.max_backoff_secs as nat
        } else {
            self.initial_backoff_secs as nat
        }
    }

    /// The delay before jitter: it doubles from attempt to attempt, six times at
    /// most, up to the bound.
    pub open spec fn base_delay(self, attempt: nat) -> nat {
        let exponent: nat = if attempt > 7 { 6 } else { (attempt - 1) as nat };
        let grown = self.initial_backoff_secs * power_of_two(exponent);
        if grown > self.bound() {
            self.bound()
        } else {
            grown as nat
        }
    }

    /// The deterministic jitter: up to a quarter of the delay, in steps of a third.
    pub open spec fn jitter(self, attempt: nat) -> nat {
        (self.base_delay(attempt) / 4) * (attempt % 4) / 3
    }

    /// The delay before an attempt.
    pub open spec fn delay(self, attempt: nat) -> nat {
        let base = self.base_delay(attempt);
        let whole = base + self.jitter(attempt);
        if whole > self.bound() {
            self.bound()
        } else {
            whole
        }
    }

    /// Delay in seconds before attempt number `attempt` (1 based), including
    /// deterministic jitter so that a fleet of clients does not reconnect in
    /// lockstep.
    pub fn delay_for(&self, attempt: u32) -> (r: Option<u64>)
        ensures
            r is Some <==> self.tries(attempt as nat),
            r is Some ==> r->0 == self.delay(attempt as nat),
    {
        if !self.enabled || attempt == 0 {
            return None;
        }
        if self.max_attempts > 0 && attempt > self.max_attempts {
            return None;
        }
        let exponent: u32 = if attempt > 7 { 6 } else { attempt - 1 };
        let bound: u64 = if self.max_backoff_secs > self.initial_backoff_secs {
            self.max_backoff_secs
        } else {
            self.initial_backoff_secs
        };
        let factor: u64 = if exponent == 0 {
            1
        } else if exponent == 1 {
            2
        } else if exponent == 2 {
            4
        } else if exponent == 3 {
            8
        } else if exponent == 4 {
            16
        } else if exponent == 5 {
            32
        } else {
            64
        };
        proof {
            reveal_with_fuel(power_of_two, 8);
            assert(factor == power_of_two(exponent as nat));
        }
        proof {
            let initial = self.initial_backoff_secs as int;
            let f = factor as int;
            assert(0 <= initial * f <= u64::MAX * 64) by (nonlinear_arith)
                requires
                    0 <= initial <= u64::MAX,
                    1 <= f <= 64,
            ;
        }
        let grown: u128 = (self.initial_backoff_secs as u128) * (factor as u128);
        let base: u64 = if grown > bound as u128 { bound } else { grown as u64 };
        proof {
            let quarter = base as int / 4;
            let steps = attempt as int % 4;
            assert(0 <= quarter * steps <= u64::MAX * 3) by (nonlinear_arith)
                requires
                    0 <= quarter <= u64::MAX,
                    0 <= steps <= 3,
            ;
        }
        // Deterministic jitter of up to 25 % of the computed delay.
        let jitter: u128 = ((base / 4) as u128) * ((attempt % 4) as u128) / 3;
        let whole: u128 = (base as u128) + jitter;
        if whole > bound as u128 {
            Some(bound)
        } else {
            Some(whole as u64)
        }
    }

    /// Validates the configured bounds.
    pub fn validate(&self) -> (r: RdtResult<()>)
        ensures
            r is Ok <==> self.initial_backoff_secs > 0 && self.max_backoff_secs
                >= self.initial_backoff_secs,
            r is Err ==> r->Err_0@ == fail(
                ErrorCode::InvalidInput,
                if self.initial_backoff_secs == 0 {
                    "reconnect initial backoff must be at least one second"@
                } else {
                    "reconnect max backoff must be >= initial backoff"@
                },
            ),
    {
        if self.initial_backoff_secs == 0 {
            return Err(
                RdtError::new(
                    ErrorCode::InvalidInput,
                    "reconnect initial backoff must be at least one second",
                ),
            );
        }
        if self.max_backoff_secs < self.initial_backoff_secs {
            return Err(
                RdtError::new(
                    ErrorCode::InvalidInput,
                    "reconnect max backoff must be >= initial backoff",
                ),
            );
        }
        Ok(())
    }
}

/// The jitter never exceeds a quarter of the delay it is added to, and the whole
/// delay never exceeds the bound.
pub proof fn delays_are_bounded(policy: ReconnectPolicy, attempt: nat)
    requires
        attempt > 0,
    ensures
        4 * policy.jitter(attempt) <= policy.base_delay(attempt),
        policy.base_delay(attempt) <= policy.delay(attempt) <= policy.bound(),
{
    let quarter = (policy.base_delay(attempt) / 4) as int;
    let steps = (attempt % 4) as int;
    assert(quarter * steps <= quarter * 3) by (nonlinear_arith)
        requires
            0 <= quarter,
            0 <= steps <= 3,
    ;
    assert(0 <= quarter * steps) by (nonlinear_arith)
        requires
            0 <= quarter,
            0 <= steps,
    ;
}

/// The delay before jitter never shrinks from one attempt to the next.
pub proof fn base_delays_grow(policy: ReconnectPolicy, attempt: nat)
    requires
        attempt > 0,
    ensures
        policy.base_delay(attempt) <= policy.base_delay(attempt + 1),
{
    reveal_with_fuel(power_of_two, 8);
    let e: nat = if attempt > 7 { 6 } else { (attempt - 1) as nat };
    let f: nat = if attempt + 1 > 7 { 6 } else { attempt };
    let initial = policy.initial_backoff_secs as int;
    assert(power_of_two(e) <= power_of_two(f)) by {
        if f == e + 1 {
            assert(power_of_two(f) == 2 * power_of_two(e));
        }
    }
    assert(initial * power_of_two(e) <= initial * power_of_two(f)) by (nonlinear_arith)
        requires
            0 <= initial,
            power_of_two(e) <= power_of_two(f),
    ;
}

/// A keyboard layout advertised to the RDP server.
#[derive(Debug, Clone, Copy, PartialEq, Eq)]
pub enum KeyboardLayout {
    /// US English layout.
    US,
    /// UK English layout.
    UK,
    /// German layout.
    DE,
    /// French layout.
    FR,
    /// Spanish layout.
    ES,
    /// Another layout.
    Other {
        /// Windows keyboard layout identifier (HKL).
        id: u32,
        /// Display name.
        name: &'static str,
    },
}

impl Default for KeyboardLayout {
    fn default() -> (r: Self)
        ensures
            r == KeyboardLayout::US,
    {
        KeyboardLayout::US
    }
}

impl KeyboardLayout {
    /// Windows keyboard layout identifier (HKL).
    pub fn id(self) -> (r: u32)
        ensures
            r == match self {
                KeyboardLayout::US => 0x0409u32,
                KeyboardLayout::UK => 0x0809u32,
                KeyboardLayout::DE => 0x0407u32,
                KeyboardLayout::FR => 0x040Cu32,
                KeyboardLayout::ES => 0x040Au32,
                KeyboardLayout::Other { id, name } => id,
            },
    {
        match self {
            KeyboardLayout::US => 0x0409,
            KeyboardLayout::UK => 0x0809,
            KeyboardLayout::DE => 0x0407,
            KeyboardLayout::FR => 0x040C,
            KeyboardLayout::ES => 0x040A,
            KeyboardLayout::Other { id, name: _ } => id,
        }
    }

    /// Display name.
    pub fn name(self) -> (r: &'static str)
        ensures
            r@ == match self {
                KeyboardLayout::US => "US English"@,
                KeyboardLayout::UK => "UK English"@,
                KeyboardLayout::DE => "German"@,
                KeyboardLayout::FR => "French"@,
                KeyboardLayout::ES => "Spanish"@,
                KeyboardLayout::Other { id, name } => name@,
            },
    {
        match self {
            KeyboardLayout::US => "US English",
            KeyboardLayout::UK => "UK English",
            KeyboardLayout::DE => "German",
            KeyboardLayout::FR => "French",
            KeyboardLayout::ES => "Spanish",
            KeyboardLayout::Other { id: _, name } => name,
        }
    }

    /// The layouts offered in the UI.
    pub fn all() -> (r: [KeyboardLayout; 5])
        ensures
            r@ == seq![
                KeyboardLayout::US,
                KeyboardLayout::UK,
                KeyboardLayout::DE,
                KeyboardLayout::FR,
                KeyboardLayout::ES,
            ],
    {
        let r = [
            KeyboardLayout::US,
            KeyboardLayout::UK,
            KeyboardLayout::DE,
            KeyboardLayout::FR,
            KeyboardLayout::ES,
        ];
        assert(r@ =~= seq![
            KeyboardLayout::US,
            KeyboardLayout::UK,
            KeyboardLayout::DE,
            KeyboardLayout::FR,
            KeyboardLayout::ES,
        ]);
        r
    }
}

fn default_keepalive_secs() -> (r: u64)
    ensures
        r == 30,
{
    30
}

fn default_connect_timeout_secs() -> (r: u64)
    ensures
        r == 15,
{
    15
}

fn default_cols() -> (r: u16)
    ensures
        r == 100,
{
    100
}

fn default_rows() -> (r: u16)
    ensures
        r == 30,
{
    30
}

fn default_scrollback() -> (r: usize)
    ensures
        r == 5000,
{
    5000
}

fn default_term() -> (r: String)
    ensures
        r@ == "xterm-256color"@,
{
    "xterm-256color".to_owned()
}

fn default_width() -> (r: u16)
    ensures
        r == 1280,
{
    1280
}

fn default_height() -> (r: u16)
    ensures
        r == 800,
{
    800
}

fn default_max_attempts() -> (r: u32)
    ensures
        r == 5,
{
    5
}

fn default_initial_backoff_secs() -> (r: u64)
    ensures
        r == 2,
{
    2
}

fn default_max_backoff_secs() -> (r: u64)
    ensures
        r == 60,
{
    60
}

/// SSH listens on port 22 and RDP on 3389; their names are read in any case, with white
/// space around them.
pub proof fn protocols_have_names_and_ports(text: Seq<char>)
    ensures
        Protocol::Ssh.port() == 22,
        Protocol::Rdp.port() == 3389,
        lowered(trimmed(text)) == "ssh"@ ==> protocol_named(text) == Some(Protocol::Ssh),
        lowered(trimmed(text)) == "rdp"@ ==> protocol_named(text) == Some(Protocol::Rdp),
        lowered(trimmed(text)) == "rdp-tcp"@ ==> protocol_named(text) == Some(Protocol::Rdp),
        protocol_named(text) is Some ==> lowered(trimmed(text)) == "ssh"@ || lowered(trimmed(text))
            == "rdp"@ || lowered(trimmed(text)) == "rdp-tcp"@,
        Protocol::Ssh.name() == "ssh"@,
        Protocol::Rdp.name() == "rdp"@,
{
    reveal_strlit("ssh");
    reveal_strlit("rdp");
    reveal_strlit("rdp-tcp");
    assert("ssh"@[0] != "rdp"@[0]);
    assert("ssh"@[0] != "rdp-tcp"@[0]);
}

/// The names of the host key policies.
pub proof fn policies_have_names(text: Seq<char>)
    ensures
        lowered(trimmed(text)) == "strict"@ ==> policy_named(text) == Some(HostKeyPolicy::Strict),
        lowered(trimmed(text)) == "accept_new"@ || lowered(trimmed(text)) == "accept-new"@
            || lowered(trimmed(text)) == "acceptnew"@ ==> policy_named(text) == Some(
            HostKeyPolicy::AcceptNew,
        ),
        policy_named(text) is Some ==> lowered(trimmed(text)) == "strict"@ || lowered(trimmed(text))
            == "accept_new"@ || lowered(trimmed(text)) == "accept-new"@ || lowered(trimmed(text))
            == "acceptnew"@,
{
    reveal_strlit("strict");
    reveal_strlit("accept_new");
    reveal_strlit("accept-new");
    reveal_strlit("acceptnew");
    assert("strict"@[0] != "accept_new"@[0]);
    assert("strict"@[0] != "accept-new"@[0]);
    assert("strict"@[0] != "acceptnew"@[0]);
}

/// A host is refused when it is empty, when it is longer than 253 bytes and when it
/// holds white space, a slash or an at sign; any other is accepted.
pub proof fn hosts_are_checked(host: Seq<char>, port: u16)
    ensures
        endpoint_built(host, port) is Err <==> host.len() == 0 || encode_utf8(host).len() > 253
            || has_space(host) || host.contains('/') || host.contains('@'),
        endpoint_built(host, port) is Ok ==> endpoint_built(host, port)->Ok_0 == (host, port),
        endpoint_built(host, port) is Err ==> endpoint_built(host, port)->Err_0.code
            == ErrorCode::InvalidInput,
{
}

/// An address without a port has the port of its protocol: a name without a colon, or an
/// IPv6 address in brackets.
pub proof fn ports_default(host: Seq<char>, default: u16)
    requires
        host.len() > 0,
        encode_utf8(host).len() <= 253,
        !has_space(host),
        !host.contains('/'),
        !host.contains('@'),
    ensures
        !host.contains(':') && host[0] != '[' ==> endpoint_parsed(host, default) == Ok::<
            (Seq<char>, u16),
            RdtErrorView,
        >((host, default)),
        !host.contains(']') ==> endpoint_parsed(seq!['['] + host + seq![']'], default) == Ok::<
            (Seq<char>, u16),
            RdtErrorView,
        >((host, default)),
{
    assert(!space(host[0]));
    assert(!space(host[host.len() - 1]));
    crate::text::trimmed_is_itself(host);
    crate::text::last_at_finds(host, ':');
    if !host.contains(']') {
        let s = seq!['['] + host + seq![']'];
        assert(!space('[') && !space(']'));
        assert(s[0] == '[' && s.last() == ']');
        crate::text::trimmed_is_itself(s);
        let rest = s.skip(1);
        assert(rest =~= host + seq![']']);
        crate::text::first_at_finds(rest, ']');
        assert(rest[host.len() as int] == ']');
        assert(rest.contains(']'));
        assert(first_at(rest, ']') == host.len()) by {
            let at = first_at(rest, ']');
            if at < host.len() {
                assert(host[at] == ']');
            }
        }
        assert(rest.take(host.len() as int) =~= host);
        assert(rest.skip(host.len() as int + 1) =~= Seq::<char>::empty());
    }
}

/// Reconnection is tried while it is enabled and the attempts do not exceed their
/// number, which zero leaves open.
pub proof fn reconnection_is_limited(policy: ReconnectPolicy, attempt: nat)
    ensures
        !policy.enabled ==> !policy.tries(attempt),
        policy.enabled && policy.max_attempts == 0 && attempt > 0 ==> policy.tries(attempt),
        policy.enabled && policy.max_attempts > 0 && attempt > 0 ==> (policy.tries(attempt)
            <==> attempt <= policy.max_attempts),
{
}

/// The first delay is the initial one, the base doubles with each further attempt up to
/// the sixth doubling and the limit, and the delay exceeds the base by a quarter of it
/// at most.
pub proof fn delays_double(policy: ReconnectPolicy, attempt: nat)
    requires
        attempt >= 1,
    ensures
        policy.base_delay(1) == policy.initial_backoff_secs,
        attempt <= 6 ==> policy.base_delay(attempt + 1) == if 2 * policy.base_delay(attempt)
            <= policy.bound() {
            2 * policy.base_delay(attempt)
        } else {
            policy.bound()
        },
        attempt >= 7 ==> policy.base_delay(attempt) == policy.base_delay(7),
        policy.base_delay(attempt) <= policy.delay(attempt) <= policy.base_delay(attempt)
            + policy.base_delay(attempt) / 4,
        policy.delay(attempt) <= policy.bound(),
        policy.bound() >= policy.initial_backoff_secs,
        policy.bound() >= policy.max_backoff_secs,
{
    let initial = policy.initial_backoff_secs as int;
    let base = policy.base_delay(attempt);
    assert(power_of_two(0) == 1);
    assert(policy.initial_backoff_secs * power_of_two(0) == policy.initial_backoff_secs);
    if attempt <= 6 {
        let e = (attempt - 1) as nat;
        assert(power_of_two(e + 1) == 2 * power_of_two(e));
        assert(initial * (2 * power_of_two(e)) == 2 * (initial * power_of_two(e)))
            by (nonlinear_arith);
    }
    let k = attempt % 4;
    let q = base / 4;
    assert((q * k) / 3 <= q) by {
        assert(q * k <= q * 3) by (nonlinear_arith)
            requires
                0 <= k <= 3,
                0 <= q,
        ;
    }
    assert(policy.base_delay(attempt) <= policy.bound());
}

/// The colour depths have their bits.
pub proof fn color_depths_have_bits()
    ensures
        ColorDepth::Rgb565.bits() == 16,
        ColorDepth::TrueColor24.bits() == 24,
        ColorDepth::TrueColor32.bits() == 32,
{
}

/// A new connection is safe: unknown host keys and untrusted certificates are refused,
/// and plain TLS does not replace a failed login.
pub proof fn defaults_are_safe(ssh: SshOptions, rdp: RdpOptions)
    ensures
        ssh_defaults(ssh) ==> ssh.host_key_policy == HostKeyPolicy::Strict
            && ssh.connect_timeout_secs == 15 && ssh.keepalive_secs == 30,
        rdp_defaults(rdp) ==> rdp.cert_policy == CertPolicy::Verify && !rdp.allow_tls_fallback
            && rdp.connect_timeout_secs == 15,
        reconnect_defaults().enabled && reconnect_defaults().max_attempts == 5
            && reconnect_defaults().initial_backoff_secs == 2
            && reconnect_defaults().max_backoff_secs == 60,
{
}

} // verus!
