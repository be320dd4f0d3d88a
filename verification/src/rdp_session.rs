//! The RDP session: connect, render, inject input, resize, disconnect.
//!
//! Bitmap updates are drawn into the [`Framebuffer`], pointer updates are
//! forwarded to the user interface and input events flow the other way. What the
//! transport does is reported as plain values; what follows from it is decided
//! here.
use crate::error::{fail, fail_about, ErrorCode, RdtError, RdtErrorView, RdtResult};
use crate::framebuffer::{
    at_least_one, byte_at, drawable, in_picture, merged, DamageRect, Framebuffer,
    FramebufferView,
};
use crate::proto::{CertPolicy, CredentialSource, KeyboardLayout};
use crate::secret::Secret;
use crate::text::{
    concat2, concat3, concat4, contains, decimal, occurs, to_decimal, trim, trimmed,
};
use crate::tls::{certificate_fingerprint, sha256_fingerprint, CertificateDecision, DecisionView};
use vstd::prelude::*;

verus! {

/// A desktop size in pixels.
#[derive(Debug, Clone, Copy, PartialEq, Eq, Structural)]
pub struct DesktopSize {
    /// Width in pixels.
    pub width: u16,
    /// Height in pixels.
    pub height: u16,
}

impl DesktopSize {
    /// Whether a framebuffer of this size can be addressed.
    pub open spec fn displayable(self) -> bool {
        at_least_one(self.width as u32) * at_least_one(self.height as u32) * 4 <= u32::MAX
    }

    /// Whether a framebuffer of this size can be addressed.
    pub fn is_displayable(self) -> (r: bool)
        ensures
            r == self.displayable(),
    {
        let width: u64 = if self.width < 1 {
            1
        } else {
            self.width as u64
        };
        let height: u64 = if self.height < 1 {
            1
        } else {
            self.height as u64
        };
        assert(width * height <= 0xFFFF * 0xFFFF) by (nonlinear_arith)
            requires
                width <= 0xFFFF,
                height <= 0xFFFF,
        ;
        width * height * 4 <= 0xFFFF_FFFF
    }
}

/// Where to connect and how to authenticate.
#[derive(Debug, Clone)]
pub struct RdpTarget {
    /// Host name or address.
    pub host: String,
    /// TCP port (3389 by default).
    pub port: u16,
    /// Login name.
    pub username: String,
    /// Windows domain, when the account is a domain account.
    pub domain: Option<String>,
    /// How the password is obtained.
    pub credential: CredentialSource,
    /// Certificate validation policy.
    pub cert_policy: CertPolicy,
    /// Where pinned fingerprints are stored.
    pub pin_store: Option<String>,
    /// Requested desktop size.
    pub desktop: DesktopSize,
    /// Keyboard layout announced to the server.
    pub keyboard: KeyboardLayout,
    /// Connect to the console session instead of a virtual one.
    pub console_session: bool,
    /// Abort the attempt after this many seconds.
    pub connect_timeout_secs: u64,
    /// Allow CredSSP/NLA fallback to plain TLS.
    pub allow_tls_fallback: bool,
}

/// What is announced to the server during the connection sequence.
pub struct RdpPlan {
    /// `host:port` to connect to.
    pub address: String,
    /// Login name.
    pub username: String,
    /// Password, empty when none was obtained.
    pub password: Secret,
    /// Domain of the credentials.
    pub domain: Option<String>,
    /// Domain announced in the client data, empty when there is none.
    pub announced_domain: String,
    /// Keyboard layout identifier.
    pub keyboard_layout: u32,
    /// Client build number.
    pub client_build: u32,
    /// Client machine name.
    pub client_name: String,
    /// Client directory.
    pub client_dir: String,
    /// Whether plain TLS may follow a failed CredSSP exchange.
    pub credssp_fallback: bool,
}

/// An address as `host:port`.
pub open spec fn host_port(host: Seq<char>, port: u16) -> Seq<char> {
    host + ":"@ + decimal(port as nat)
}

impl RdpTarget {
    /// The `host:port` pair.
    pub fn address(&self) -> (r: String)
        ensures
            r@ == host_port(self.host@, self.port),
    {
        concat3(self.host.as_str(), ":", to_decimal(self.port as u64).as_str())
    }

    /// What stops a connection before anything is sent.
    pub open spec fn refusal(self) -> Option<RdtErrorView> {
        if trimmed(self.host@).len() == 0 {
            Some(fail(ErrorCode::InvalidInput, "host must not be empty"@))
        } else if trimmed(self.username@).len() == 0 {
            Some(fail(ErrorCode::InvalidInput, "username must not be empty"@))
        } else {
            None
        }
    }

    /// Checks the target and prepares what is announced to the server.
    ///
    /// # Errors
    ///
    /// Returns [`ErrorCode::InvalidInput`] when the host or the login name is
    /// blank.
    pub fn plan(&self, password: Option<Secret>, hostname: &str) -> (r: RdtResult<RdpPlan>)
        ensures
            r is Err <==> self.refusal() is Some,
            r is Err ==> r->Err_0@ == self.refusal()->0,
            r is Ok ==> {
                let plan = r->Ok_0;
                &&& plan.address@ == host_port(self.host@, self.port)
                &&& plan.username@ == self.username@
                &&& plan.password@ == match password {
                    Some(secret) => secret@,
                    None => Seq::<char>::empty(),
                }
                &&& plan.domain is Some == self.domain is Some
                &&& plan.domain is Some ==> plan.domain->0@ == self.domain->0@
                &&& plan.announced_domain@ == match self.domain {
                    Some(domain) => domain@,
                    None => Seq::<char>::empty(),
                }
                &&& plan.keyboard_layout == layout_identifier(self.keyboard)
                &&& plan.client_build == 2600
                &&& plan.client_name@ == announced_name(hostname@)
                &&& plan.client_dir@ == "C:\\Windows\\System32\\mstscax.dll"@
                &&& plan.credssp_fallback == self.allow_tls_fallback
            },
    {
        let host = trim(self.host.as_str());
        if is_blank(host.as_str()) {
            return Err(RdtError::new(ErrorCode::InvalidInput, "host must not be empty"));
        }
        let username = trim(self.username.as_str());
        if is_blank(username.as_str()) {
            return Err(RdtError::new(ErrorCode::InvalidInput, "username must not be empty"));
        }
        Ok(
            RdpPlan {
                address: self.address(),
                username: self.username.as_str().to_owned(),
                password: match password {
                    Some(secret) => secret,
                    None => Secret::empty(),
                },
                domain: match &self.domain {
                    Some(domain) => Some(domain.as_str().to_owned()),
                    None => None,
                },
                announced_domain: match &self.domain {
                    Some(domain) => domain.as_str().to_owned(),
                    None => String::new(),
                },
                keyboard_layout: self.keyboard.id(),
                client_build: 2600,
                client_name: client_name(hostname),
                client_dir: client_dir(),
                credssp_fallback: self.allow_tls_fallback,
            },
        )
    }
}

/// The Windows identifier of a keyboard layout.
pub open spec fn layout_identifier(layout: KeyboardLayout) -> u32 {
    match layout {
        KeyboardLayout::US => 0x0409u32,
        KeyboardLayout::UK => 0x0809u32,
        KeyboardLayout::DE => 0x0407u32,
        KeyboardLayout::FR => 0x040Cu32,
        KeyboardLayout::ES => 0x040Au32,
        KeyboardLayout::Other { id, name } => id,
    }
}

/// Whether a text has no characters.
fn is_blank(s: &str) -> (r: bool)
    ensures
        r == (s@.len() == 0),
{
    crate::text::chars_of(s).len() == 0
}

/// The name announced for a machine.
pub open spec fn announced_name(hostname: Seq<char>) -> Seq<char> {
    if trimmed(hostname).len() == 0 {
        "rdt-client"@
    } else {
        hostname
    }
}

/// The machine name announced to the server (never contains user data).
pub fn client_name(hostname: &str) -> (r: String)
    ensures
        r@ == announced_name(hostname@),
{
    let name = trim(hostname);
    if is_blank(name.as_str()) {
        "rdt-client".to_owned()
    } else {
        hostname.to_owned()
    }
}

/// The client directory announced to the server.
pub fn client_dir() -> (r: String)
    ensures
        r@ == "C:\\Windows\\System32\\mstscax.dll"@,
{
    "C:\\Windows\\System32\\mstscax.dll".to_owned()
}

/// The platform announced to the server.
#[derive(Debug, Clone, Copy, PartialEq, Eq, Structural)]
pub enum Platform {
    /// Microsoft Windows.
    Windows,
    /// Apple macOS.
    MacOs,
    /// Any other Unix.
    Unix,
}

/// The platform identifier used in the Client Info PDU.
pub fn platform_id(windows: bool, macos: bool) -> (r: Platform)
    ensures
        r == if windows {
            Platform::Windows
        } else if macos {
            Platform::MacOs
        } else {
            Platform::Unix
        },
{
    if windows {
        Platform::Windows
    } else if macos {
        Platform::MacOs
    } else {
        Platform::Unix
    }
}

/// A step of the connection sequence that failed.
#[derive(Debug)]
pub enum ConnectFailure {
    /// The TCP connection was not established in time.
    TcpTimeout,
    /// The TCP connection was refused.
    Unreachable(String),
    /// The socket could not be configured.
    NoDelay(String),
    /// The peer address could not be read.
    PeerAddress(String),
    /// The negotiation did not finish in time.
    NegotiationTimeout,
    /// The connection sequence reported an error.
    Connector(String),
    /// The TLS stack could not be initialised.
    TlsSetup(String),
    /// The TLS handshake with a peer failed.
    TlsHandshake(String, String),
}

/// How a connector failure is classified.
pub open spec fn connector_code(message: Seq<char>) -> ErrorCode {
    if occurs(message, "credential"@) || occurs(message, "authentication"@) {
        ErrorCode::Authentication
    } else if occurs(message, "TLS"@) || occurs(message, "certificate"@) {
        ErrorCode::Tls
    } else {
        ErrorCode::Protocol
    }
}

/// Maps a connector failure onto the error taxonomy.
pub fn map_connector(message: &str, address: &str) -> (r: RdtError)
    ensures
        r@ == fail_about(connector_code(message@), message@, "peer"@, address@),
{
    let code = if contains(message, "credential") || contains(message, "authentication") {
        ErrorCode::Authentication
    } else if contains(message, "TLS") || contains(message, "certificate") {
        ErrorCode::Tls
    } else {
        ErrorCode::Protocol
    };
    RdtError::noted(code, message, "peer", address)
}

/// Maps a session failure onto the error taxonomy.
pub fn map_session(message: &str) -> (r: RdtError)
    ensures
        r@ == fail(ErrorCode::Protocol, message@),
{
    RdtError::new(ErrorCode::Protocol, message)
}

/// The error that a failed step of the connection sequence leads to.
pub open spec fn connect_error(failure: ConnectFailure, address: Seq<char>) -> RdtErrorView {
    match failure {
        ConnectFailure::TcpTimeout => fail(
            ErrorCode::Timeout,
            "connecting to "@ + address + " timed out"@,
        ),
        ConnectFailure::Unreachable(reason) => fail(
            ErrorCode::Network,
            "cannot reach "@ + address + ": "@ + reason@,
        ),
        ConnectFailure::NoDelay(reason) => fail(
            ErrorCode::Network,
            "cannot set TCP_NODELAY: "@ + reason@,
        ),
        ConnectFailure::PeerAddress(reason) => fail(
            ErrorCode::Network,
            "cannot read the peer address: "@ + reason@,
        ),
        ConnectFailure::NegotiationTimeout => fail(
            ErrorCode::Timeout,
            "the RDP negotiation timed out"@,
        ),
        ConnectFailure::Connector(message) => fail_about(
            connector_code(message@),
            message@,
            "peer"@,
            address,
        ),
        ConnectFailure::TlsSetup(reason) => fail(
            ErrorCode::Tls,
            "cannot initialise TLS: "@ + reason@,
        ),
        ConnectFailure::TlsHandshake(peer, reason) => fail(
            ErrorCode::Tls,
            "TLS negotiation with "@ + peer@ + " failed: "@ + reason@,
        ),
    }
}

/// Maps a failed step of the connection sequence onto the error taxonomy.
pub fn connect_failed(failure: ConnectFailure, address: &str) -> (r: RdtError)
    ensures
        r@ == connect_error(failure, address@),
{
    match failure {
        ConnectFailure::TcpTimeout => RdtError::new(
            ErrorCode::Timeout,
            concat3("connecting to ", address, " timed out").as_str(),
        ),
        ConnectFailure::Unreachable(reason) => RdtError::new(
            ErrorCode::Network,
            concat4("cannot reach ", address, ": ", reason.as_str()).as_str(),
        ),
        ConnectFailure::NoDelay(reason) => RdtError::new(
            ErrorCode::Network,
            concat2("cannot set TCP_NODELAY: ", reason.as_str()).as_str(),
        ),
        ConnectFailure::PeerAddress(reason) => RdtError::new(
            ErrorCode::Network,
            concat2("cannot read the peer address: ", reason.as_str()).as_str(),
        ),
        ConnectFailure::NegotiationTimeout => RdtError::new(
            ErrorCode::Timeout,
            "the RDP negotiation timed out",
        ),
        ConnectFailure::Connector(message) => map_connector(message.as_str(), address),
        ConnectFailure::TlsSetup(reason) => RdtError::new(
            ErrorCode::Tls,
            concat2("cannot initialise TLS: ", reason.as_str()).as_str(),
        ),
        ConnectFailure::TlsHandshake(peer, reason) => RdtError::new(
            ErrorCode::Tls,
            concat4("TLS negotiation with ", peer.as_str(), " failed: ", reason.as_str()).as_str(),
        ),
    }
}

/// The fingerprint shown for an accepted certificate.
pub open spec fn shown_fingerprint(decision: DecisionView, der: Seq<u8>) -> Seq<char> {
    match decision {
        DecisionView::Pinned(fingerprint) => fingerprint,
        DecisionView::RecordedOnFirstUse(fingerprint) => fingerprint,
        DecisionView::VerifiedByCa => certificate_fingerprint(der),
    }
}

/// The fingerprint shown for an accepted certificate.
pub fn accepted_certificate(decision: CertificateDecision, der: &[u8]) -> (r: String)
    ensures
        r@ == shown_fingerprint(decision@, der@),
{
    match decision {
        CertificateDecision::Pinned { fingerprint } => fingerprint,
        CertificateDecision::RecordedOnFirstUse { fingerprint } => fingerprint,
        CertificateDecision::VerifiedByCa => sha256_fingerprint(der),
    }
}

/// Input injected into the remote session.
#[derive(Debug, Clone, Copy, PartialEq)]
pub enum RdpInput {
    /// A key was pressed or released.
    Key {
        /// Scan code.
        scancode: u16,
        /// True when the key went down.
        pressed: bool,
        /// True for keys with an extended scan code.
        extended: bool,
    },
    /// Unicode text input (used for IME and paste).
    Unicode(char),
    /// A mouse button changed state.
    MouseButton {
        /// Bitmask of the button flags.
        flags: u16,
        /// X position in desktop pixels.
        x: u16,
        /// Y position in desktop pixels.
        y: u16,
    },
    /// The pointer moved.
    MouseMove {
        /// X position in desktop pixels.
        x: u16,
        /// Y position in desktop pixels.
        y: u16,
    },
    /// The wheel turned.
    MouseWheel {
        /// Vertical delta; negative scrolls down.
        delta: i16,
        /// X position in desktop pixels.
        x: u16,
        /// Y position in desktop pixels.
        y: u16,
    },
}

/// What a pointer event reports.
#[derive(Debug, Clone, Copy, PartialEq, Eq, Structural)]
pub enum PointerChange {
    /// Button flags; bits without a meaning are dropped by the encoder.
    Buttons(u16),
    /// The pointer moved.
    Moved,
    /// The wheel turned.
    Wheel {
        /// The wheel turned towards the user.
        negative: bool,
    },
}

/// An input event in wire terms.
#[derive(Debug, Clone, Copy, PartialEq, Eq, Structural)]
pub enum WireInput {
    /// A keyboard event.
    Keyboard {
        /// The key was released.
        release: bool,
        /// The scan code is an extended one.
        extended: bool,
        /// Scan code.
        key_code: u16,
    },
    /// A Unicode keyboard event.
    UnicodeKeyboard {
        /// UTF-16 code unit.
        key_code: u16,
    },
    /// A pointer event.
    Pointer {
        /// What changed.
        change: PointerChange,
        /// X position in desktop pixels.
        x_position: u16,
        /// Y position in desktop pixels.
        y_position: u16,
    },
}

/// The wire event for an input.
pub open spec fn wire_input(input: RdpInput) -> WireInput {
    match input {
        RdpInput::Key { scancode, pressed, extended } => WireInput::Keyboard {
            release: !pressed,
            extended,
            key_code: scancode,
        },
        RdpInput::Unicode(c) => WireInput::UnicodeKeyboard {
            key_code: ((c as u32) % 0x1_0000) as u16,
        },
        RdpInput::MouseButton { flags, x, y } => WireInput::Pointer {
            change: PointerChange::Buttons(flags),
            x_position: x,
            y_position: y,
        },
        RdpInput::MouseMove { x, y } => WireInput::Pointer {
            change: PointerChange::Moved,
            x_position: x,
            y_position: y,
        },
        RdpInput::MouseWheel { delta, x, y } => WireInput::Pointer {
            change: PointerChange::Wheel { negative: delta < 0 },
            x_position: x,
            y_position: y,
        },
    }
}

/// Converts an input event into the wire representation.
pub fn encode_input(input: RdpInput) -> (r: Option<WireInput>)
    ensures
        r == Some(wire_input(input)),
        r is Some,
        match (input, r->0) {
            (
                RdpInput::Key { scancode, pressed, extended },
                WireInput::Keyboard { release, extended: wide, key_code },
            ) => key_code == scancode && wide == extended && release != pressed,
            (RdpInput::Unicode(c), WireInput::UnicodeKeyboard { key_code }) => exists|plane: int|
                c as int == #[trigger] (plane * 0x1_0000) + key_code,
            (
                RdpInput::MouseButton { flags, x, y },
                WireInput::Pointer { change, x_position, y_position },
            ) => x_position == x && y_position == y && change == PointerChange::Buttons(flags),
            (
                RdpInput::MouseMove { x, y },
                WireInput::Pointer { change, x_position, y_position },
            ) => x_position == x && y_position == y && change == PointerChange::Moved,
            (
                RdpInput::MouseWheel { delta, x, y },
                WireInput::Pointer { change, x_position, y_position },
            ) => x_position == x && y_position == y && match change {
                PointerChange::Wheel { negative } => negative <==> delta < 0,
                _ => false,
            },
            _ => false,
        },
{
    proof {
        if let RdpInput::Unicode(c) = input {
            let plane = (c as int) / 0x1_0000;
            assert(c as int == (plane * 0x1_0000) + ((c as u32) % 0x1_0000) as u16);
        }
    }
    Some(
        match input {
            RdpInput::Key { scancode, pressed, extended } => WireInput::Keyboard {
                release: !pressed,
                extended,
                key_code: scancode,
            },
            RdpInput::Unicode(c) => WireInput::UnicodeKeyboard {
                key_code: ((c as u32) % 0x1_0000) as u16,
            },
            RdpInput::MouseButton { flags, x, y } => WireInput::Pointer {
                change: PointerChange::Buttons(flags),
                x_position: x,
                y_position: y,
            },
            RdpInput::MouseMove { x, y } => WireInput::Pointer {
                change: PointerChange::Moved,
                x_position: x,
                y_position: y,
            },
            RdpInput::MouseWheel { delta, x, y } => WireInput::Pointer {
                change: PointerChange::Wheel { negative: delta < 0 },
                x_position: x,
                y_position: y,
            },
        },
    )
}

/// Events reported to the user interface.
#[derive(Debug, Clone)]
pub enum RdpEvent {
    /// The framebuffer changed; the damage rectangles describe what to re-upload.
    Frame {
        /// Regions that changed.
        damage: Vec<DamageRect>,
        /// Desktop width.
        width: u32,
        /// Desktop height.
        height: u32,
    },
    /// The server reported its name (shown in the title bar).
    ServerName(String),
    /// The remote pointer shape changed.
    Pointer {
        /// Width in pixels.
        width: u32,
        /// Height in pixels.
        height: u32,
        /// Hotspot X.
        hotspot_x: u32,
        /// Hotspot Y.
        hotspot_y: u32,
        /// BGRA pixels.
        pixels: Vec<u8>,
    },
    /// Text arrived from the remote clipboard.
    RemoteClipboard(String),
    /// The desktop was resized by the server or by a resize request.
    Resized {
        /// New width.
        width: u32,
        /// New height.
        height: u32,
    },
    /// The session ended.
    Closed(String),
}

/// What an event says.
pub ghost enum RdpEventView {
    /// See [`RdpEvent::Frame`].
    Frame(Seq<DamageRect>, u32, u32),
    /// See [`RdpEvent::ServerName`].
    ServerName(Seq<char>),
    /// See [`RdpEvent::Pointer`].
    Pointer(u32, u32, u32, u32, Seq<u8>),
    /// See [`RdpEvent::RemoteClipboard`].
    RemoteClipboard(Seq<char>),
    /// See [`RdpEvent::Resized`].
    Resized(u32, u32),
    /// See [`RdpEvent::Closed`].
    Closed(Seq<char>),
}

impl View for RdpEvent {
    type V = RdpEventView;

    open spec fn view(&self) -> RdpEventView {
        match self {
            RdpEvent::Frame { damage, width, height } => RdpEventView::Frame(
                damage@,
                *width,
                *height,
            ),
            RdpEvent::ServerName(name) => RdpEventView::ServerName(name@),
            RdpEvent::Pointer { width, height, hotspot_x, hotspot_y, pixels } => {
                RdpEventView::Pointer(*width, *height, *hotspot_x, *hotspot_y, pixels@)
            },
            RdpEvent::RemoteClipboard(text) => RdpEventView::RemoteClipboard(text@),
            RdpEvent::Resized { width, height } => RdpEventView::Resized(*width, *height),
            RdpEvent::Closed(reason) => RdpEventView::Closed(reason@),
        }
    }
}

/// Commands accepted by a running session.
#[derive(Debug)]
pub enum SessionCommand {
    /// Inject input.
    Input(RdpInput),
    /// Ask the server for a new desktop size.
    Resize(DesktopSize),
    /// Push local clipboard text to the server.
    Clipboard(String),
    /// Disconnect cleanly.
    Disconnect,
}

/// What the session loop does with a command.
#[derive(Debug)]
pub enum CommandStep {
    /// Encode and send an input event.
    Inject(WireInput),
    /// Send a monitor layout.
    Layout(DesktopSize),
    /// Send clipboard text.
    Paste(String),
    /// Leave the loop.
    Stop,
}

/// What the session loop does with the next command, if the queue still has a
/// sender.
pub fn next_step(command: Option<SessionCommand>) -> (r: CommandStep)
    ensures
        match command {
            Some(SessionCommand::Input(input)) => r == CommandStep::Inject(wire_input(input)),
            Some(SessionCommand::Resize(size)) => r == CommandStep::Layout(size),
            Some(SessionCommand::Clipboard(text)) => r == CommandStep::Paste(text),
            Some(SessionCommand::Disconnect) => r is Stop,
            None => r is Stop,
        },
{
    match command {
        Some(SessionCommand::Input(input)) => match encode_input(input) {
            Some(event) => CommandStep::Inject(event),
            None => CommandStep::Stop,
        },
        Some(SessionCommand::Resize(size)) => CommandStep::Layout(size),
        Some(SessionCommand::Clipboard(text)) => CommandStep::Paste(text),
        Some(SessionCommand::Disconnect) => CommandStep::Stop,
        None => CommandStep::Stop,
    }
}

/// What the protocol stage produced.
#[derive(Debug)]
pub enum StageOutput {
    /// A response of this many bytes was sent.
    ResponseFrame(u64),
    /// A decoded bitmap for a rectangle.
    GraphicsUpdate(DamageRect, Vec<u8>),
    /// The remote pointer moved.
    PointerPosition(u16, u16),
    /// The server reported its name.
    ServerName(String),
    /// The server changed the desktop size.
    Resized(DesktopSize),
    /// The server ended the session for a reason.
    Terminate(String),
    /// Anything that needs no reaction.
    Ignored,
}

/// Live counters shown in the status bar.
#[derive(Debug, Clone, Copy, PartialEq, Eq, Structural)]
pub struct SessionMetrics {
    /// Bytes received from the server.
    pub bytes_in: u64,
    /// Bytes sent to the server.
    pub bytes_out: u64,
    /// Frames decoded since the session started.
    pub frames: u64,
    /// Milliseconds of the last round trip estimate.
    pub latency_ms: u32,
}

impl Default for SessionMetrics {
    fn default() -> (r: Self)
        ensures
            r == zero_metrics(),
    {
        SessionMetrics { bytes_in: 0, bytes_out: 0, frames: 0, latency_ms: 0 }
    }
}

/// Counters that have counted nothing.
pub open spec fn zero_metrics() -> SessionMetrics {
    SessionMetrics { bytes_in: 0, bytes_out: 0, frames: 0, latency_ms: 0 }
}

/// A sum that wraps around at sixty-four bits.
pub open spec fn wrapped_sum(a: u64, b: u64) -> u64 {
    ((a + b) % 0x1_0000_0000_0000_0000) as u64
}

/// A sum that wraps around at sixty-four bits.
fn sum_wrapping(a: u64, b: u64) -> (r: u64)
    ensures
        r == wrapped_sum(a, b),
{
    a.wrapping_add(b)
}

/// A live RDP session.
#[derive(Debug)]
pub struct RdpSession {
    framebuffer: Framebuffer,
    counters: SessionMetrics,
    closing: bool,
    ended: bool,
    desktop: DesktopSize,
    fingerprint: Option<String>,
    server_name: Option<String>,
}

/// What a session holds besides its framebuffer.
pub ghost struct RdpSessionView {
    /// The counters.
    pub counters: SessionMetrics,
    /// Whether a disconnect was requested.
    pub closing: bool,
    /// Whether the session task has stopped.
    pub ended: bool,
    /// The negotiated desktop size.
    pub desktop: DesktopSize,
    /// The accepted certificate fingerprint.
    pub fingerprint: Option<Seq<char>>,
    /// The reported server name.
    pub server_name: Option<Seq<char>>,
}

impl View for RdpSession {
    type V = RdpSessionView;

    closed spec fn view(&self) -> RdpSessionView {
        RdpSessionView {
            counters: self.counters,
            closing: self.closing,
            ended: self.ended,
            desktop: self.desktop,
            fingerprint: crate::ssh_session::text_option(self.fingerprint),
            server_name: crate::ssh_session::text_option(self.server_name),
        }
    }
}

/// The failure of a command to a session that was asked to close.
pub open spec fn closing_failure() -> RdtErrorView {
    fail(ErrorCode::SessionState, "the session is closing"@)
}

/// The failure of a command to a session that has ended.
pub open spec fn closed_failure() -> RdtErrorView {
    fail(ErrorCode::SessionState, "the session is closed"@)
}

/// Whether damage can take any rectangle that lies inside a framebuffer.
pub open spec fn open_damage(damage: Option<DamageRect>) -> bool {
    damage is Some ==> damage->0.fits()
}

/// The picture after a bitmap was drawn into it.
pub open spec fn drawn(
    before: FramebufferView,
    after: FramebufferView,
    rect: DamageRect,
    data: Seq<u8>,
) -> bool {
    let inner = rect.within(before.width, before.height);
    let w = before.width as int;
    &&& after.width == before.width
    &&& after.height == before.height
    &&& after.pixels.len() == before.pixels.len()
    &&& forall|x: int, y: int, c: int|
        in_picture(w, before.height as int, x, y, c) ==> #[trigger] byte_at(
            after.pixels,
            w,
            x,
            y,
            c,
        ) == if drawable(inner, data.len()) && inner.covers(x, y) {
            byte_at(data, inner.width as int, x - inner.left, y - inner.top, c)
        } else {
            byte_at(before.pixels, w, x, y, c)
        }
}

/// The damage that is reported after a bitmap was drawn.
pub open spec fn reported(before: FramebufferView, rect: DamageRect, bytes: nat) -> Seq<
    DamageRect,
> {
    let inner = rect.within(before.width, before.height);
    let damage = if drawable(inner, bytes) {
        merged(before.damage, inner)
    } else {
        before.damage
    };
    match damage {
        Some(r) => seq![r],
        None => Seq::empty(),
    }
}

/// The picture after it was resized.
pub open spec fn rescaled(before: FramebufferView, after: FramebufferView, size: DesktopSize) -> bool {
    let width = at_least_one(size.width as u32);
    let height = at_least_one(size.height as u32);
    if width == before.width && height == before.height {
        after == before
    } else {
        &&& after.width == width
        &&& after.height == height
        &&& after.damage == Some(DamageRect { left: 0, top: 0, width, height })
        &&& after.pixels.len() == width * height * 4
        &&& forall|x: int, y: int, c: int|
            in_picture(width as int, height as int, x, y, c) ==> #[trigger] byte_at(
                after.pixels,
                width as int,
                x,
                y,
                c,
            ) == if x < before.width && y < before.height {
                byte_at(before.pixels, before.width as int, x, y, c)
            } else {
                0
            }
    }
}

impl RdpSession {
    /// The picture is consistent and can take more damage.
    pub closed spec fn wf(self) -> bool {
        self.framebuffer.wf() && open_damage(self.framebuffer@.damage)
    }

    /// The picture of the remote desktop.
    pub closed spec fn picture(self) -> FramebufferView {
        self.framebuffer@
    }

    /// A session whose connection sequence has completed.
    pub fn new(desktop: DesktopSize, fingerprint: Option<String>, server_name: Option<String>) -> (r:
        Self)
        requires
            desktop.displayable(),
        ensures
            r.wf(),
            r@.counters == zero_metrics(),
            !r@.closing,
            !r@.ended,
            r@.desktop == desktop,
            r@.fingerprint == crate::ssh_session::text_option(fingerprint),
            r@.server_name == crate::ssh_session::text_option(server_name),
            r.picture().width == at_least_one(desktop.width as u32),
            r.picture().height == at_least_one(desktop.height as u32),
            r.picture().pixels == Seq::new(
                (r.picture().width * r.picture().height * 4) as nat,
                |i: int| 0u8,
            ),
            r.picture().damage is None,
    {
        RdpSession {
            framebuffer: Framebuffer::new(desktop.width as u32, desktop.height as u32),
            counters: SessionMetrics { bytes_in: 0, bytes_out: 0, frames: 0, latency_ms: 0 },
            closing: false,
            ended: false,
            desktop,
            fingerprint,
            server_name,
        }
    }

    /// Current desktop size.
    pub fn desktop(&self) -> (r: DesktopSize)
        ensures
            r == self@.desktop,
    {
        self.desktop
    }

    /// The accepted server certificate fingerprint.
    pub fn server_fingerprint(&self) -> (r: Option<&str>)
        ensures
            r is Some == self@.fingerprint is Some,
            r is Some ==> r->0@ == self@.fingerprint->0,
    {
        match &self.fingerprint {
            Some(fingerprint) => Some(fingerprint.as_str()),
            None => None,
        }
    }

    /// The name reported by the server.
    pub fn server_name(&self) -> (r: Option<&str>)
        ensures
            r is Some == self@.server_name is Some,
            r is Some ==> r->0@ == self@.server_name->0,
    {
        match &self.server_name {
            Some(name) => Some(name.as_str()),
            None => None,
        }
    }

    /// Borrows the framebuffer so the user interface can upload a texture.
    pub fn framebuffer(&self) -> (r: &Framebuffer)
        ensures
            r@ == self.picture(),
            self.wf() ==> r.wf(),
    {
        &self.framebuffer
    }

    /// Reads the current counters.
    pub fn metrics(&self) -> (r: SessionMetrics)
        ensures
            r == self@.counters,
    {
        self.counters
    }

    /// The command that injects input into the remote session.
    ///
    /// # Errors
    ///
    /// Returns [`ErrorCode::SessionState`] when the session already ended.
    pub fn send(&self, input: RdpInput) -> (r: RdtResult<SessionCommand>)
        ensures
            r is Ok <==> !self@.closing && !self@.ended,
            r is Ok ==> r->Ok_0 == SessionCommand::Input(input),
            self@.closing ==> r->Err_0@ == closing_failure(),
            !self@.closing && self@.ended ==> r->Err_0@ == closed_failure(),
    {
        if self.closing {
            return Err(RdtError::new(ErrorCode::SessionState, "the session is closing"));
        }
        if self.ended {
            return Err(RdtError::new(ErrorCode::SessionState, "the session is closed"));
        }
        Ok(SessionCommand::Input(input))
    }

    /// The command that requests a new desktop size through the Display Control
    /// channel.
    ///
    /// # Errors
    ///
    /// Returns [`ErrorCode::SessionState`] when the session already ended.
    pub fn resize(&self, width: u16, height: u16) -> (r: RdtResult<SessionCommand>)
        ensures
            r is Ok <==> !self@.ended,
            r is Ok ==> r->Ok_0 == SessionCommand::Resize((DesktopSize { width, height })),
            r is Err ==> r->Err_0@ == closed_failure(),
    {
        if self.ended {
            return Err(RdtError::new(ErrorCode::SessionState, "the session is closed"));
        }
        Ok(SessionCommand::Resize(DesktopSize { width, height }))
    }

    /// Disconnects, marking the session closed so no further input is accepted.
    ///
    /// # Errors
    ///
    /// Returns [`ErrorCode::SessionState`] when the session already ended.
    pub fn disconnect(&mut self) -> (r: RdtResult<SessionCommand>)
        ensures
            final(self)@ == (RdpSessionView { closing: true, ..old(self)@ }),
            final(self).picture() == old(self).picture(),
            old(self).wf() ==> final(self).wf(),
            r is Ok <==> !old(self)@.ended,
            r is Ok ==> r->Ok_0 is Disconnect,
            r is Err ==> r->Err_0@ == closed_failure(),
    {
        self.closing = true;
        if self.ended {
            return Err(RdtError::new(ErrorCode::SessionState, "the session is closed"));
        }
        Ok(SessionCommand::Disconnect)
    }

    /// Counts bytes that arrived from the server.
    pub fn received(&mut self, length: u64)
        ensures
            final(self)@ == (RdpSessionView {
                counters: SessionMetrics {
                    bytes_in: wrapped_sum(old(self)@.counters.bytes_in, length),
                    ..old(self)@.counters
                },
                ..old(self)@
            }),
            final(self).picture() == old(self).picture(),
            old(self).wf() ==> final(self).wf(),
    {
        self.counters.bytes_in = sum_wrapping(self.counters.bytes_in, length);
    }

    /// Counts a decoded frame and the time since the previous one.
    pub fn decoded(&mut self, elapsed_ms: u64)
        ensures
            final(self)@ == (RdpSessionView {
                counters: SessionMetrics {
                    frames: wrapped_sum(old(self)@.counters.frames, 1),
                    latency_ms: (elapsed_ms % 0x1_0000_0000) as u32,
                    ..old(self)@.counters
                },
                ..old(self)@
            }),
            final(self).picture() == old(self).picture(),
            old(self).wf() ==> final(self).wf(),
    {
        self.counters.frames = sum_wrapping(self.counters.frames, 1);
        self.counters.latency_ms = (elapsed_ms % 0x1_0000_0000) as u32;
    }

    /// Applies one stage output to the framebuffer and the counters, and says
    /// what the user interface is told.
    pub fn apply_output(&mut self, output: StageOutput) -> (r: Option<RdpEvent>)
        requires
            old(self).wf(),
            output is Resized ==> output->Resized_0.displayable(),
        ensures
            final(self).wf(),
            match output {
                StageOutput::ResponseFrame(length) => {
                    &&& r is None
                    &&& final(self).picture() == old(self).picture()
                    &&& final(self)@ == (RdpSessionView {
                        counters: SessionMetrics {
                            bytes_out: wrapped_sum(old(self)@.counters.bytes_out, length),
                            ..old(self)@.counters
                        },
                        ..old(self)@
                    })
                },
                StageOutput::GraphicsUpdate(rect, data) => {
                    &&& final(self)@ == old(self)@
                    &&& drawn(old(self).picture(), final(self).picture(), rect, data@)
                    &&& final(self).picture().damage is None
                    &&& r is Some
                    &&& r->0@ == RdpEventView::Frame(
                        reported(old(self).picture(), rect, data@.len()),
                        old(self).picture().width,
                        old(self).picture().height,
                    )
                },
                StageOutput::PointerPosition(x, y) => {
                    &&& final(self)@ == old(self)@
                    &&& final(self).picture() == old(self).picture()
                    &&& r is Some
                    &&& r->0@ == RdpEventView::Pointer(1, 1, x as u32, y as u32, Seq::empty())
                },
                StageOutput::ServerName(name) => {
                    &&& final(self)@ == old(self)@
                    &&& final(self).picture() == old(self).picture()
                    &&& r is Some
                    &&& r->0@ == RdpEventView::ServerName(name@)
                },
                StageOutput::Resized(size) => {
                    &&& final(self)@ == old(self)@
                    &&& rescaled(old(self).picture(), final(self).picture(), size)
                    &&& r is Some
                    &&& r->0@ == RdpEventView::Resized(size.width as u32, size.height as u32)
                },
                StageOutput::Terminate(reason) => {
                    &&& final(self)@ == old(self)@
                    &&& final(self).picture() == old(self).picture()
                    &&& r is Some
                    &&& r->0@ == RdpEventView::Closed("the server ended the session: "@ + reason@)
                },
                StageOutput::Ignored => {
                    &&& final(self)@ == old(self)@
                    &&& final(self).picture() == old(self).picture()
                    &&& r is None
                },
            },
    {
        match output {
            StageOutput::ResponseFrame(length) => {
                self.counters.bytes_out = sum_wrapping(self.counters.bytes_out, length);
                None
            },
            StageOutput::GraphicsUpdate(rect, data) => {
                let ghost before = self.framebuffer@;
                self.framebuffer.blit(rect, data.as_slice());
                let damage = self.framebuffer.take_damage();
                let width = self.framebuffer.width();
                let height = self.framebuffer.height();
                assert(damage@ =~= reported(before, rect, data@.len()));
                Some(RdpEvent::Frame { damage, width, height })
            },
            StageOutput::PointerPosition(x, y) => {
                let pixels: Vec<u8> = Vec::new();
                assert(pixels@ =~= Seq::<u8>::empty());
                Some(
                    RdpEvent::Pointer {
                        width: 1,
                        height: 1,
                        hotspot_x: x as u32,
                        hotspot_y: y as u32,
                        pixels,
                    },
                )
            },
            StageOutput::ServerName(name) => Some(RdpEvent::ServerName(name)),
            StageOutput::Resized(size) => {
                self.framebuffer.resize(size.width as u32, size.height as u32);
                Some(RdpEvent::Resized { width: size.width as u32, height: size.height as u32 })
            },
            StageOutput::Terminate(reason) => Some(
                RdpEvent::Closed(concat2("the server ended the session: ", reason.as_str())),
            ),
            StageOutput::Ignored => None,
        }
    }

    /// What the user interface is told when the connection can no longer be
    /// read.
    pub fn read_failed(&self, message: &str) -> (r: RdpEvent)
        ensures
            r@ == RdpEventView::Closed(
                if self@.closing {
                    "the session was closed"@
                } else {
                    crate::error::rendered(fail(ErrorCode::Protocol, message@))
                },
            ),
    {
        if self.closing {
            RdpEvent::Closed("the session was closed".to_owned())
        } else {
            RdpEvent::Closed(map_session(message).to_string())
        }
    }

    /// What the user interface is told when the protocol stage failed.
    pub fn stage_failed(&self, message: &str) -> (r: RdpEvent)
        ensures
            r@ == RdpEventView::Closed(
                crate::error::rendered(fail(ErrorCode::Protocol, message@)),
            ),
    {
        RdpEvent::Closed(map_session(message).to_string())
    }

    /// Marks the session ended; nothing is accepted any more.
    pub fn finish(&mut self) -> (r: RdpEvent)
        ensures
            final(self)@ == (RdpSessionView { closing: true, ended: true, ..old(self)@ }),
            final(self).picture() == old(self).picture(),
            old(self).wf() ==> final(self).wf(),
            r@ == RdpEventView::Closed("the session ended"@),
    {
        self.closing = true;
        self.ended = true;
        RdpEvent::Closed("the session ended".to_owned())
    }
}

/// Every pixel that a bitmap changes lies in the damage that is reported for it,
/// so a renderer that uploads only the damage shows the whole picture.
pub proof fn damage_covers_every_change(
    before: FramebufferView,
    after: FramebufferView,
    rect: DamageRect,
    data: Seq<u8>,
    x: int,
    y: int,
    c: int,
)
    requires
        drawn(before, after, rect, data),
        open_damage(before.damage),
        in_picture(before.width as int, before.height as int, x, y, c),
        byte_at(after.pixels, before.width as int, x, y, c) != byte_at(
            before.pixels,
            before.width as int,
            x,
            y,
            c,
        ),
    ensures
        reported(before, rect, data.len()).len() == 1,
        reported(before, rect, data.len())[0].covers(x, y),
{
    let inner = rect.within(before.width, before.height);
    if let Some(last) = before.damage {
        crate::framebuffer::bounding_boxes_are_tight(last, inner, inner);
        assert(last.bounding(inner).covers(x, y));
    }
}

/// A bitmap for a rectangle inside the picture puts its pixels where the rectangle
/// says, line by line, and leaves every other pixel alone; one that is cut short
/// changes nothing.
pub proof fn bitmaps_are_drawn_in_place(
    before: FramebufferView,
    after: FramebufferView,
    rect: DamageRect,
    data: Seq<u8>,
    x: int,
    y: int,
    c: int,
)
    requires
        drawn(before, after, rect, data),
        rect.width > 0,
        rect.height > 0,
        rect.left + rect.width <= before.width,
        rect.top + rect.height <= before.height,
        0 <= x < before.width,
        0 <= y < before.height,
        0 <= c < 4,
    ensures
        ({
            let at = 4 * before.width * y + 4 * x + c;
            let from = 4 * rect.width * (y - rect.top) + 4 * (x - rect.left) + c;
            let inside = rect.left <= x < rect.left + rect.width && rect.top <= y < rect.top
                + rect.height;
            &&& after.pixels.len() == before.pixels.len()
            &&& inside && data.len() >= 4 * (rect.width * rect.height) ==> after.pixels[at]
                == data[from]
            &&& !inside || data.len() < 4 * (rect.width * rect.height) ==> after.pixels[at]
                == before.pixels[at]
        }),
{
    let w = before.width as int;
    crate::framebuffer::pixels_lie_line_by_line(before.pixels, w, x, y, c);
    crate::framebuffer::pixels_lie_line_by_line(after.pixels, w, x, y, c);
    crate::framebuffer::pixels_lie_line_by_line(
        data,
        rect.width as int,
        x - rect.left,
        y - rect.top,
        c,
    );
    crate::framebuffer::bitmaps_need_all_their_bytes(rect, data.len());
    assert(rect.within(before.width, before.height) == rect);
    assert(in_picture(w, before.height as int, x, y, c));
    assert(byte_at(after.pixels, w, x, y, c) == if drawable(rect, data.len()) && rect.covers(x, y) {
        byte_at(data, rect.width as int, x - rect.left, y - rect.top, c)
    } else {
        byte_at(before.pixels, w, x, y, c)
    });
}

/// A resized picture keeps the pixels that both sizes have and is black elsewhere; a
/// picture has at least one pixel.
pub proof fn resized_pictures_keep_the_overlap(
    before: FramebufferView,
    after: FramebufferView,
    size: DesktopSize,
    x: int,
    y: int,
    c: int,
)
    requires
        rescaled(before, after, size),
        0 <= x < after.width,
        0 <= y < after.height,
        0 <= c < 4,
    ensures
        after.width == if size.width == 0 { 1u32 } else { size.width as u32 },
        after.height == if size.height == 0 { 1u32 } else { size.height as u32 },
        after != before && x < before.width && y < before.height ==> after.pixels[4 * after.width
            * y + 4 * x + c] == before.pixels[4 * before.width * y + 4 * x + c],
        after != before && !(x < before.width && y < before.height) ==> after.pixels[4 * after.width
            * y + 4 * x + c] == 0,
        after != before ==> after.damage == Some(
            DamageRect { left: 0, top: 0, width: after.width, height: after.height },
        ),
{
    let w = after.width as int;
    crate::framebuffer::pixels_lie_line_by_line(after.pixels, w, x, y, c);
    crate::framebuffer::pixels_lie_line_by_line(before.pixels, before.width as int, x, y, c);
    if after != before {
        assert(in_picture(w, after.height as int, x, y, c));
        assert(byte_at(after.pixels, w, x, y, c) == if x < before.width && y < before.height {
            byte_at(before.pixels, before.width as int, x, y, c)
        } else {
            0
        });
    }
}

/// A drawn bitmap is reported as one rectangle when nothing was damaged before: the
/// part of its own that lies inside the picture.
pub proof fn bitmaps_report_their_rectangle(before: FramebufferView, rect: DamageRect, bytes: nat)
    requires
        before.damage is None,
        rect.left + rect.width <= before.width,
        rect.top + rect.height <= before.height,
        rect.width > 0,
        rect.height > 0,
    ensures
        bytes >= 4 * (rect.width * rect.height) ==> reported(before, rect, bytes) == seq![rect],
        bytes < 4 * (rect.width * rect.height) ==> reported(before, rect, bytes).len() == 0,
{
    crate::framebuffer::bitmaps_need_all_their_bytes(rect, bytes);
    assert(rect.within(before.width, before.height) == rect);
}

/// The identifiers of the keyboard layouts that Windows knows.
pub proof fn layouts_have_their_identifiers(id: u32, name: &'static str)
    ensures
        layout_identifier(KeyboardLayout::US) == 0x0409,
        layout_identifier(KeyboardLayout::UK) == 0x0809,
        layout_identifier(KeyboardLayout::DE) == 0x0407,
        layout_identifier(KeyboardLayout::FR) == 0x040C,
        layout_identifier(KeyboardLayout::ES) == 0x040A,
        layout_identifier(KeyboardLayout::Other { id, name }) == id,
{
}

/// A connection is refused before anything is sent when the host or the login name is
/// blank, and only then.
pub proof fn blank_targets_are_refused(target: RdpTarget)
    ensures
        target.refusal() is Some <==> trimmed(target.host@).len() == 0 || trimmed(
            target.username@,
        ).len() == 0,
        target.refusal() is Some ==> target.refusal()->0.code == ErrorCode::InvalidInput,
{
}

/// An address is the host, a colon and the port in decimal notation.
pub proof fn addresses_name_host_and_port(host: Seq<char>, port: u16)
    ensures
        host_port(host, port) == host + seq![':'] + decimal(port as nat),
{
    reveal_strlit(":");
    assert(":"@ =~= seq![':']);
}

/// Failures of the connection sequence keep their kind: timeouts are timeouts, what
/// the network refuses is its failure, and what TLS refuses is one of TLS; what the
/// connector reports is told apart by its words.
pub proof fn connection_failures_keep_their_kind(
    reason: String,
    peer: String,
    address: Seq<char>,
)
    ensures
        connect_error(ConnectFailure::TcpTimeout, address).code == ErrorCode::Timeout,
        connect_error(ConnectFailure::NegotiationTimeout, address).code == ErrorCode::Timeout,
        connect_error(ConnectFailure::Unreachable(reason), address).code == ErrorCode::Network,
        connect_error(ConnectFailure::NoDelay(reason), address).code == ErrorCode::Network,
        connect_error(ConnectFailure::PeerAddress(reason), address).code == ErrorCode::Network,
        connect_error(ConnectFailure::TlsSetup(reason), address).code == ErrorCode::Tls,
        connect_error(ConnectFailure::TlsHandshake(peer, reason), address).code == ErrorCode::Tls,
        connect_error(ConnectFailure::Connector(reason), address).message == reason@,
        connect_error(ConnectFailure::Connector(reason), address).code == if occurs(
            reason@,
            "credential"@,
        ) || occurs(reason@, "authentication"@) {
            ErrorCode::Authentication
        } else if occurs(reason@, "TLS"@) || occurs(reason@, "certificate"@) {
            ErrorCode::Tls
        } else {
            ErrorCode::Protocol
        },
{
}

/// The fingerprint that is shown is the one that was decided on, or that of the
/// certificate when an authority vouched for it.
pub proof fn shown_fingerprints_are_decided_on(fingerprint: Seq<char>, der: Seq<u8>)
    ensures
        shown_fingerprint(DecisionView::Pinned(fingerprint), der) == fingerprint,
        shown_fingerprint(DecisionView::RecordedOnFirstUse(fingerprint), der) == fingerprint,
        shown_fingerprint(DecisionView::VerifiedByCa, der) == certificate_fingerprint(der),
{
}

/// The machine is announced by its name, unless that is blank.
pub proof fn machines_are_announced_by_name(hostname: Seq<char>)
    ensures
        trimmed(hostname).len() > 0 ==> announced_name(hostname) == hostname,
        trimmed(hostname).len() == 0 ==> announced_name(hostname) == "rdt-client"@,
{
}

/// Counting wraps around at sixty-four bits and is exact before.
pub proof fn counters_add_up(a: u64, b: u64)
    ensures
        a + b <= u64::MAX ==> wrapped_sum(a, b) == a + b,
        a + b > u64::MAX ==> wrapped_sum(a, b) == a + b - 0x1_0000_0000_0000_0000,
{
}

/// A session that ends or has ended refuses what needs it, as a matter of its state.
pub proof fn ended_sessions_refuse()
    ensures
        closing_failure().code == ErrorCode::SessionState,
        closing_failure().message == "the session is closing"@,
        closed_failure().code == ErrorCode::SessionState,
        closed_failure().message == "the session is closed"@,
{
}

/// A session counts from zero.
pub proof fn counters_start_at_zero()
    ensures
        zero_metrics().bytes_in == 0 && zero_metrics().bytes_out == 0,
        zero_metrics().frames == 0 && zero_metrics().latency_ms == 0,
{
}

} // verus!
