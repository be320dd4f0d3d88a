//! Operating system keystore integration.
//!
//! * **Windows**: DPAPI with a per-user entropy value. The protected blob is
//!   written next to the configuration; only the user account can decrypt it.
//! * **Linux**: the freedesktop Secret Service through `secret-tool`, which talks
//!   to GNOME Keyring or KWallet.
//! * **macOS**: the keychain through `security`.
//! * **Other platforms**: unavailable; callers fall back to the encrypted vault.
//!
//! Which calls are made and what follows from their outcome is decided here;
//! every failure is reported as a typed error so the user interface can offer the
//! vault instead.
use crate::clipboard::{helper, HelperCall, HelperCallView};
use crate::crypto::{sha256, sha256_digest};
use crate::error::{fail, ErrorCode, RdtError, RdtErrorView, RdtResult};
use crate::ids::{hex_text, hex_text_len, to_hex};
use crate::secret::Secret;
use crate::text::{concat2, concat3, lossy, lossy_text, trim, trimmed};
use vstd::prelude::*;
use vstd::utf8::encode_utf8;

verus! {

/// What a machine offers for keeping secrets.
#[derive(Debug)]
pub struct KeystoreProbe {
    /// The machine runs Windows; the directory for protected blobs, unless it
    /// could not be created.
    pub windows: Option<Option<String>>,
    /// The machine runs macOS.
    pub macos: bool,
    /// The machine runs another Unix.
    pub unix: bool,
    /// Where `secret-tool` is installed.
    pub secret_tool: Option<String>,
    /// A D-Bus session bus is available.
    pub session_bus: bool,
}

/// The keystore of a machine.
#[derive(Debug, Clone, PartialEq, Eq)]
pub enum Backend {
    /// Windows DPAPI with blobs in a directory.
    Dpapi {
        /// Directory of the blobs.
        directory: String,
    },
    /// The Secret Service through `secret-tool`.
    SecretTool {
        /// Where `secret-tool` is installed.
        program: String,
    },
    /// The macOS keychain.
    Security,
    /// No keystore.
    Unavailable {
        /// Why there is none.
        reason: String,
    },
}

/// What is known of a keystore.
pub ghost enum BackendView {
    /// See [`Backend::Dpapi`].
    Dpapi(Seq<char>),
    /// See [`Backend::SecretTool`].
    SecretTool(Seq<char>),
    /// See [`Backend::Security`].
    Security,
    /// See [`Backend::Unavailable`].
    Unavailable(Seq<char>),
}

impl View for Backend {
    type V = BackendView;

    open spec fn view(&self) -> BackendView {
        match self {
            Backend::Dpapi { directory } => BackendView::Dpapi(directory@),
            Backend::SecretTool { program } => BackendView::SecretTool(program@),
            Backend::Security => BackendView::Security,
            Backend::Unavailable { reason } => BackendView::Unavailable(reason@),
        }
    }
}

/// The keystore that a machine offers.
pub open spec fn detected(probe: KeystoreProbe) -> BackendView {
    if probe.windows is Some {
        match probe.windows->0 {
            Some(directory) => BackendView::Dpapi(directory@),
            None => BackendView::Unavailable("the DPAPI blob directory could not be created"@),
        }
    } else if probe.macos {
        BackendView::Security
    } else if probe.unix {
        match probe.secret_tool {
            None => BackendView::Unavailable(
                "secret-tool is not installed; install libsecret or use the encrypted vault"@,
            ),
            Some(program) => if probe.session_bus {
                BackendView::SecretTool(program@)
            } else {
                BackendView::Unavailable(
                    "no D-Bus session bus is available for the Secret Service"@,
                )
            },
        }
    } else {
        BackendView::Unavailable("no keystore is implemented for this platform"@)
    }
}

/// How a keystore is described.
pub open spec fn description(backend: BackendView) -> Seq<char> {
    match backend {
        BackendView::Dpapi(directory) => "Windows DPAPI"@,
        BackendView::SecretTool(program) => "freedesktop Secret Service via secret-tool"@,
        BackendView::Security => "macOS Keychain"@,
        BackendView::Unavailable(reason) => reason,
    }
}

/// A call of the keystore.
#[derive(Debug)]
pub enum KeystoreCall {
    /// Protect, read or remove a blob.
    Blob {
        /// Directory of the blobs.
        directory: String,
        /// Name of the blob.
        file: String,
    },
    /// Run a program.
    Tool(HelperCall),
}

/// What a call of the keystore says.
pub ghost enum KeystoreCallView {
    /// See [`KeystoreCall::Blob`].
    Blob(Seq<char>, Seq<char>),
    /// See [`KeystoreCall::Tool`].
    Tool(HelperCallView),
}

impl View for KeystoreCall {
    type V = KeystoreCallView;

    open spec fn view(&self) -> KeystoreCallView {
        match self {
            KeystoreCall::Blob { directory, file } => KeystoreCallView::Blob(directory@, file@),
            KeystoreCall::Tool(call) => KeystoreCallView::Tool(call@),
        }
    }
}

/// The name of the blob for a key.
pub open spec fn blob_text(key: Seq<char>) -> Seq<char> {
    hex_text(sha256_digest(encode_utf8(key)))
}

/// Hashes a key into a file name that is safe on every filesystem.
pub fn blob_name(key: &str) -> (r: String)
    ensures
        r@ == blob_text(key@),
        r@.len() == 64,
{
    let digest = sha256(key.as_bytes());
    proof {
        hex_text_len(digest@);
    }
    to_hex(digest.as_slice())
}

/// A run of a program.
pub open spec fn tool(program: Seq<char>, args: Seq<Seq<char>>, input: Option<Seq<char>>) -> KeystoreCallView {
    KeystoreCallView::Tool(HelperCallView { program, args, input })
}

/// The call that stores a secret.
pub open spec fn store_call(backend: BackendView, key: Seq<char>, value: Seq<char>) -> Result<
    KeystoreCallView,
    RdtErrorView,
> {
    match backend {
        BackendView::Dpapi(directory) => Ok(
            KeystoreCallView::Blob(directory, blob_text(key) + ".bin"@),
        ),
        BackendView::SecretTool(program) => Ok(
            tool(
                program,
                seq!["store"@, "--label=RDT secret"@, "rdt-key"@, key],
                Some(value),
            ),
        ),
        BackendView::Security => Ok(
            tool(
                "security"@,
                seq!["add-generic-password"@, "-s"@, "rdt"@, "-a"@, key, "-w"@, value],
                None,
            ),
        ),
        BackendView::Unavailable(reason) => Err(fail(ErrorCode::Keystore, reason)),
    }
}

/// The call that reads a secret.
pub open spec fn lookup_call(backend: BackendView, key: Seq<char>) -> Result<
    KeystoreCallView,
    RdtErrorView,
> {
    match backend {
        BackendView::Dpapi(directory) => Ok(
            KeystoreCallView::Blob(directory, blob_text(key) + ".bin"@),
        ),
        BackendView::SecretTool(program) => Ok(
            tool(program, seq!["lookup"@, "rdt-key"@, key], None),
        ),
        BackendView::Security => Ok(
            tool(
                "security"@,
                seq!["find-generic-password"@, "-s"@, "rdt"@, "-a"@, key, "-w"@],
                None,
            ),
        ),
        BackendView::Unavailable(reason) => Err(fail(ErrorCode::Keystore, reason)),
    }
}

/// The call that removes a secret.
pub open spec fn clear_call(backend: BackendView, key: Seq<char>) -> Result<
    KeystoreCallView,
    RdtErrorView,
> {
    match backend {
        BackendView::Dpapi(directory) => Ok(
            KeystoreCallView::Blob(directory, blob_text(key) + ".bin"@),
        ),
        BackendView::SecretTool(program) => Ok(
            tool(program, seq!["clear"@, "rdt-key"@, key], None),
        ),
        BackendView::Security => Ok(
            tool(
                "security"@,
                seq!["delete-generic-password"@, "-s"@, "rdt"@, "-a"@, key],
                None,
            ),
        ),
        BackendView::Unavailable(reason) => Err(fail(ErrorCode::Keystore, reason)),
    }
}

/// Whether a result is what is expected of it.
pub open spec fn call_matches(
    r: RdtResult<KeystoreCall>,
    expected: Result<KeystoreCallView, RdtErrorView>,
) -> bool {
    match r {
        Ok(call) => expected == Ok::<KeystoreCallView, RdtErrorView>(call@),
        Err(error) => expected == Err::<KeystoreCallView, RdtErrorView>(error@),
    }
}

/// Access to the platform keystore.
#[derive(Debug, Clone)]
pub struct OsKeystore {
    backend: Backend,
}

impl View for OsKeystore {
    type V = BackendView;

    closed spec fn view(&self) -> BackendView {
        self.backend@
    }
}

impl OsKeystore {
    /// Picks the best keystore for a machine.
    pub fn new(probe: KeystoreProbe) -> (r: Self)
        ensures
            r@ == detected(probe),
    {
        OsKeystore { backend: detect(probe) }
    }

    /// Whether the keystore can be used.
    pub fn available(&self) -> (r: bool)
        ensures
            r == !(self@ is Unavailable),
    {
        match &self.backend {
            Backend::Unavailable { .. } => false,
            _ => true,
        }
    }

    /// Human readable description of the detected backend.
    pub fn describe(&self) -> (r: &str)
        ensures
            r@ == description(self@),
    {
        match &self.backend {
            Backend::Dpapi { .. } => "Windows DPAPI",
            Backend::SecretTool { .. } => "freedesktop Secret Service via secret-tool",
            Backend::Security => "macOS Keychain",
            Backend::Unavailable { reason } => reason.as_str(),
        }
    }

    /// The call that stores `value` under `key`.
    ///
    /// # Errors
    ///
    /// Returns [`ErrorCode::Keystore`] when there is no keystore.
    pub fn set(&self, key: &str, value: &Secret) -> (r: RdtResult<KeystoreCall>)
        ensures
            call_matches(r, store_call(self@, key@, value@)),
    {
        match &self.backend {
            Backend::Dpapi { directory } => Ok(blob(directory.as_str(), key)),
            Backend::SecretTool { program } => {
                let call = helper(
                    program.as_str(),
                    &["store", "--label=RDT secret", "rdt-key", key],
                    Some(value.expose()),
                );
                assert(call@.args =~= seq!["store"@, "--label=RDT secret"@, "rdt-key"@, key@]);
                Ok(KeystoreCall::Tool(call))
            },
            Backend::Security => {
                let call = helper(
                    "security",
                    &["add-generic-password", "-s", "rdt", "-a", key, "-w", value.expose()],
                    None,
                );
                assert(call@.args
                    =~= seq!["add-generic-password"@, "-s"@, "rdt"@, "-a"@, key@, "-w"@, value@]);
                Ok(KeystoreCall::Tool(call))
            },
            Backend::Unavailable { reason } => Err(
                RdtError::new(ErrorCode::Keystore, reason.as_str()),
            ),
        }
    }

    /// The call that reads the value stored under `key`.
    ///
    /// # Errors
    ///
    /// Returns [`ErrorCode::Keystore`] when there is no keystore.
    pub fn get(&self, key: &str) -> (r: RdtResult<KeystoreCall>)
        ensures
            call_matches(r, lookup_call(self@, key@)),
    {
        match &self.backend {
            Backend::Dpapi { directory } => Ok(blob(directory.as_str(), key)),
            Backend::SecretTool { program } => {
                let call = helper(program.as_str(), &["lookup", "rdt-key", key], None);
                assert(call@.args =~= seq!["lookup"@, "rdt-key"@, key@]);
                Ok(KeystoreCall::Tool(call))
            },
            Backend::Security => {
                let call = helper(
                    "security",
                    &["find-generic-password", "-s", "rdt", "-a", key, "-w"],
                    None,
                );
                assert(call@.args
                    =~= seq!["find-generic-password"@, "-s"@, "rdt"@, "-a"@, key@, "-w"@]);
                Ok(KeystoreCall::Tool(call))
            },
            Backend::Unavailable { reason } => Err(
                RdtError::new(ErrorCode::Keystore, reason.as_str()),
            ),
        }
    }

    /// The call that deletes the value stored under `key`.
    ///
    /// # Errors
    ///
    /// Returns [`ErrorCode::Keystore`] when there is no keystore.
    pub fn delete(&self, key: &str) -> (r: RdtResult<KeystoreCall>)
        ensures
            call_matches(r, clear_call(self@, key@)),
    {
        match &self.backend {
            Backend::Dpapi { directory } => Ok(blob(directory.as_str(), key)),
            Backend::SecretTool { program } => {
                let call = helper(program.as_str(), &["clear", "rdt-key", key], None);
                assert(call@.args =~= seq!["clear"@, "rdt-key"@, key@]);
                Ok(KeystoreCall::Tool(call))
            },
            Backend::Security => {
                let call = helper(
                    "security",
                    &["delete-generic-password", "-s", "rdt", "-a", key],
                    None,
                );
                assert(call@.args =~= seq!["delete-generic-password"@, "-s"@, "rdt"@, "-a"@, key@]);
                Ok(KeystoreCall::Tool(call))
            },
            Backend::Unavailable { reason } => Err(
                RdtError::new(ErrorCode::Keystore, reason.as_str()),
            ),
        }
    }
}

/// The blob that holds the value of a key.
fn blob(directory: &str, key: &str) -> (r: KeystoreCall)
    ensures
        r@ == KeystoreCallView::Blob(directory@, blob_text(key@) + ".bin"@),
{
    KeystoreCall::Blob {
        directory: directory.to_owned(),
        file: concat2(blob_name(key).as_str(), ".bin"),
    }
}

/// Picks the best keystore for a machine.
pub fn detect(probe: KeystoreProbe) -> (r: Backend)
    ensures
        r@ == detected(probe),
{
    if let Some(directory) = probe.windows {
        return match directory {
            Some(directory) => Backend::Dpapi { directory },
            None => Backend::Unavailable {
                reason: "the DPAPI blob directory could not be created".to_owned(),
            },
        };
    }
    if probe.macos {
        return Backend::Security;
    }
    if probe.unix {
        return match probe.secret_tool {
            None => Backend::Unavailable {
                reason: "secret-tool is not installed; install libsecret or use the encrypted vault".to_owned(),
            },
            Some(program) => if probe.session_bus {
                Backend::SecretTool { program }
            } else {
                Backend::Unavailable {
                    reason: "no D-Bus session bus is available for the Secret Service".to_owned(),
                }
            },
        };
    }
    Backend::Unavailable { reason: "no keystore is implemented for this platform".to_owned() }
}

/// The entropy that binds a blob to an account.
pub open spec fn blob_entropy(user: Option<Seq<char>>) -> Seq<u8> {
    encode_utf8("rdt/keystore/v1/"@ + match user {
        Some(name) => name,
        None => "user"@,
    })
}

/// Per-user entropy so that blobs copied between accounts do not decrypt.
pub fn entropy(user: Option<&str>) -> (r: Vec<u8>)
    ensures
        r@ == blob_entropy(
            match user {
                Some(name) => Some(name@),
                None => None,
            },
        ),
{
    let name = match user {
        Some(name) => name,
        None => "user",
    };
    let text = concat2("rdt/keystore/v1/", name);
    vstd::slice::slice_to_vec(text.as_str().as_bytes())
}

/// What a finished program left behind.
#[derive(Debug)]
pub struct ToolExit {
    /// The exit status reports success.
    pub success: bool,
    /// Standard output.
    pub stdout: Vec<u8>,
    /// Standard error.
    pub stderr: Vec<u8>,
}

/// Why a secret could not be handed to a program.
#[derive(Debug)]
pub enum HandoverFailure {
    /// The program could not be started.
    NotStarted(String),
    /// The program has no standard input.
    NoInput,
    /// The secret could not be written.
    NotWritten(String),
    /// The program could not be waited for.
    NotAwaited(String),
}

/// A failure of the keystore.
pub open spec fn keystore_failure(message: Seq<char>) -> RdtErrorView {
    fail(ErrorCode::Keystore, message)
}

/// What follows from a run of `secret-tool store`.
pub fn secret_tool_set(run: Result<ToolExit, HandoverFailure>) -> (r: RdtResult<()>)
    ensures
        r is Ok <==> run is Ok && run->Ok_0.success,
        match run {
            Ok(exit) => !exit.success ==> r->Err_0@ == keystore_failure(
                "secret-tool store failed: "@ + trimmed(lossy(exit.stderr@)),
            ),
            Err(HandoverFailure::NotStarted(reason)) => r->Err_0@ == keystore_failure(
                "cannot run secret-tool: "@ + reason@,
            ),
            Err(HandoverFailure::NoInput) => r->Err_0@ == keystore_failure(
                "cannot write to secret-tool"@,
            ),
            Err(HandoverFailure::NotWritten(reason)) => r->Err_0@ == keystore_failure(
                "cannot write the secret to secret-tool: "@ + reason@,
            ),
            Err(HandoverFailure::NotAwaited(reason)) => r->Err_0@ == keystore_failure(reason@),
        },
{
    let message = match run {
        Ok(exit) => {
            if exit.success {
                return Ok(());
            }
            let complaint = trim(lossy_text(exit.stderr.as_slice()).as_str());
            concat2("secret-tool store failed: ", complaint.as_str())
        },
        Err(HandoverFailure::NotStarted(reason)) => concat2(
            "cannot run secret-tool: ",
            reason.as_str(),
        ),
        Err(HandoverFailure::NoInput) => "cannot write to secret-tool".to_owned(),
        Err(HandoverFailure::NotWritten(reason)) => concat2(
            "cannot write the secret to secret-tool: ",
            reason.as_str(),
        ),
        Err(HandoverFailure::NotAwaited(reason)) => reason,
    };
    Err(RdtError::new(ErrorCode::Keystore, message.as_str()))
}

/// A text without the line feeds at its end.
pub open spec fn without_line_feeds(s: Seq<char>) -> Seq<char>
    decreases s.len(),
{
    if s.len() > 0 && s.last() == '\n' {
        without_line_feeds(s.drop_last())
    } else {
        s
    }
}

/// A text without the line feeds at its end.
pub fn strip_line_feeds(s: &str) -> (r: String)
    ensures
        r@ == without_line_feeds(s@),
{
    let chars = crate::text::chars_of(s);
    let mut end: usize = chars.len();
    assert(s@.take(s@.len() as int) =~= s@);
    while end > 0 && chars[end - 1] == '\n'
        invariant
            end <= chars@.len(),
            chars@ == s@,
            without_line_feeds(s@) == without_line_feeds(s@.take(end as int)),
        decreases end,
    {
        assert(s@.take(end as int).drop_last() =~= s@.take(end - 1));
        end = end - 1;
    }
    let r = crate::text::part(&chars, 0, end);
    assert(r@ =~= s@.take(end as int));
    r
}

/// What follows from a run of `secret-tool lookup`.
pub fn secret_tool_get(key: &str, run: Result<ToolExit, String>) -> (r: RdtResult<Secret>)
    ensures
        match run {
            Err(reason) => r is Err && r->Err_0@ == keystore_failure(
                "cannot run secret-tool: "@ + reason@,
            ),
            Ok(exit) => if exit.success {
                r is Ok && r->Ok_0@ == without_line_feeds(lossy(exit.stdout@))
            } else {
                r is Err && r->Err_0@ == keystore_failure(
                    "no keyring entry named '"@ + key@ + "'"@,
                )
            },
        },
{
    match run {
        Err(reason) => Err(
            RdtError::new(
                ErrorCode::Keystore,
                concat2("cannot run secret-tool: ", reason.as_str()).as_str(),
            ),
        ),
        Ok(exit) => {
            if !exit.success {
                return Err(
                    RdtError::new(
                        ErrorCode::Keystore,
                        concat3("no keyring entry named '", key, "'").as_str(),
                    ),
                );
            }
            let text = lossy_text(exit.stdout.as_slice());
            Ok(Secret::new(strip_line_feeds(text.as_str()).as_str()))
        },
    }
}

/// What follows from a run of `secret-tool clear`.
pub fn secret_tool_delete(run: Result<ToolExit, String>) -> (r: RdtResult<()>)
    ensures
        match run {
            Err(reason) => r is Err && r->Err_0@ == keystore_failure(
                "cannot run secret-tool: "@ + reason@,
            ),
            Ok(exit) => if exit.success {
                r is Ok
            } else {
                r is Err && r->Err_0@ == keystore_failure(
                    "secret-tool clear failed: "@ + trimmed(lossy(exit.stderr@)),
                )
            },
        },
{
    let message = match run {
        Err(reason) => concat2("cannot run secret-tool: ", reason.as_str()),
        Ok(exit) => {
            if exit.success {
                return Ok(());
            }
            let complaint = trim(lossy_text(exit.stderr.as_slice()).as_str());
            concat2("secret-tool clear failed: ", complaint.as_str())
        },
    };
    Err(RdtError::new(ErrorCode::Keystore, message.as_str()))
}

/// What follows from a run of `security add-generic-password`.
pub fn keychain_set(run: Result<bool, String>) -> (r: RdtResult<()>)
    ensures
        r is Ok <==> run == Ok::<bool, String>(true),
        r is Err ==> r->Err_0@ == keystore_failure(
            match run {
                Ok(success) => "security add-generic-password failed"@,
                Err(reason) => reason@,
            },
        ),
{
    match run {
        Ok(success) => {
            if success {
                return Ok(());
            }
            Err(RdtError::new(ErrorCode::Keystore, "security add-generic-password failed"))
        },
        Err(reason) => Err(RdtError::new(ErrorCode::Keystore, reason.as_str())),
    }
}

/// What follows from a run of `security find-generic-password`.
pub fn keychain_get(key: &str, run: Result<ToolExit, String>) -> (r: RdtResult<Secret>)
    ensures
        match run {
            Err(reason) => r is Err && r->Err_0@ == keystore_failure(reason@),
            Ok(exit) => if exit.success {
                r is Ok && r->Ok_0@ == trimmed(lossy(exit.stdout@))
            } else {
                r is Err && r->Err_0@ == keystore_failure(
                    "no keychain entry named '"@ + key@ + "'"@,
                )
            },
        },
{
    match run {
        Err(reason) => Err(RdtError::new(ErrorCode::Keystore, reason.as_str())),
        Ok(exit) => {
            if !exit.success {
                return Err(
                    RdtError::new(
                        ErrorCode::Keystore,
                        concat3("no keychain entry named '", key, "'").as_str(),
                    ),
                );
            }
            let text = lossy_text(exit.stdout.as_slice());
            Ok(Secret::new(trim(text.as_str()).as_str()))
        },
    }
}

/// What follows from a run of `security delete-generic-password`.
pub fn keychain_delete(key: &str, run: Result<bool, String>) -> (r: RdtResult<()>)
    ensures
        r is Ok <==> run == Ok::<bool, String>(true),
        r is Err ==> r->Err_0@ == keystore_failure(
            match run {
                Ok(success) => "no keychain entry named '"@ + key@ + "'"@,
                Err(reason) => reason@,
            },
        ),
{
    match run {
        Ok(success) => {
            if success {
                return Ok(());
            }
            Err(
                RdtError::new(
                    ErrorCode::Keystore,
                    concat3("no keychain entry named '", key, "'").as_str(),
                ),
            )
        },
        Err(reason) => Err(RdtError::new(ErrorCode::Keystore, reason.as_str())),
    }
}

/// What follows from unprotecting a DPAPI blob: the blob may be missing, may
/// belong to another account, or may give its plaintext.
pub fn dpapi_get(key: &str, plaintext: Option<Option<Vec<u8>>>) -> (r: RdtResult<Secret>)
    ensures
        match plaintext {
            None => r is Err && r->Err_0@ == keystore_failure(
                "no DPAPI blob for '"@ + key@ + "'"@,
            ),
            Some(None) => r is Err && r->Err_0@ == keystore_failure(
                "CryptUnprotectData failed; the blob may belong to another account"@,
            ),
            Some(Some(bytes)) => r is Ok && r->Ok_0@ == lossy(bytes@),
        },
{
    match plaintext {
        None => Err(
            RdtError::new(
                ErrorCode::Keystore,
                concat3("no DPAPI blob for '", key, "'").as_str(),
            ),
        ),
        Some(None) => Err(
            RdtError::new(
                ErrorCode::Keystore,
                "CryptUnprotectData failed; the blob may belong to another account",
            ),
        ),
        Some(Some(bytes)) => Ok(Secret::new(lossy_text(bytes.as_slice()).as_str())),
    }
}

/// What is stored under a key is looked up and cleared under the same key, by the same
/// tool or in the same file, and a secret goes nowhere but to the keystore.
pub proof fn keystores_find_what_they_store(
    program: Seq<char>,
    directory: Seq<char>,
    key: Seq<char>,
    value: Seq<char>,
)
    ensures
        ({
            let tool = BackendView::SecretTool(program);
            &&& store_call(tool, key, value) == Ok::<KeystoreCallView, RdtErrorView>(
                KeystoreCallView::Tool(
                    HelperCallView {
                        program,
                        args: seq!["store"@, "--label=RDT secret"@, "rdt-key"@, key],
                        input: Some(value),
                    },
                ),
            )
            &&& lookup_call(tool, key) == Ok::<KeystoreCallView, RdtErrorView>(
                KeystoreCallView::Tool(
                    HelperCallView {
                        program,
                        args: seq!["lookup"@, "rdt-key"@, key],
                        input: None,
                    },
                ),
            )
            &&& clear_call(tool, key) == Ok::<KeystoreCallView, RdtErrorView>(
                KeystoreCallView::Tool(
                    HelperCallView {
                        program,
                        args: seq!["clear"@, "rdt-key"@, key],
                        input: None,
                    },
                ),
            )
        }),
        ({
            let blobs = BackendView::Dpapi(directory);
            let file = hex_text(sha256_digest(encode_utf8(key))) + ".bin"@;
            &&& store_call(blobs, key, value) == Ok::<KeystoreCallView, RdtErrorView>(
                KeystoreCallView::Blob(directory, file),
            )
            &&& lookup_call(blobs, key) == store_call(blobs, key, value)
            &&& clear_call(blobs, key) == store_call(blobs, key, value)
        }),
        ({
            let chain = BackendView::Security;
            &&& store_call(chain, key, value) == Ok::<KeystoreCallView, RdtErrorView>(
                KeystoreCallView::Tool(
                    HelperCallView {
                        program: "security"@,
                        args: seq![
                            "add-generic-password"@,
                            "-s"@,
                            "rdt"@,
                            "-a"@,
                            key,
                            "-w"@,
                            value,
                        ],
                        input: None,
                    },
                ),
            )
            &&& lookup_call(chain, key) == Ok::<KeystoreCallView, RdtErrorView>(
                KeystoreCallView::Tool(
                    HelperCallView {
                        program: "security"@,
                        args: seq!["find-generic-password"@, "-s"@, "rdt"@, "-a"@, key, "-w"@],
                        input: None,
                    },
                ),
            )
            &&& clear_call(chain, key) == Ok::<KeystoreCallView, RdtErrorView>(
                KeystoreCallView::Tool(
                    HelperCallView {
                        program: "security"@,
                        args: seq!["delete-generic-password"@, "-s"@, "rdt"@, "-a"@, key],
                        input: None,
                    },
                ),
            )
        }),
        ({
            let none = BackendView::Unavailable(program);
            &&& store_call(none, key, value) is Err
            &&& lookup_call(none, key) is Err
            &&& clear_call(none, key) is Err
            &&& store_call(none, key, value)->Err_0.code == ErrorCode::Keystore
        }),
{
}

/// Windows and macOS have keystores of their own; elsewhere on Unix the secret tool and a
/// session bus are needed.
pub proof fn keystores_are_detected(probe: KeystoreProbe)
    ensures
        probe.windows is Some && probe.windows->0 is Some ==> detected(probe)
            == BackendView::Dpapi((probe.windows->0)->0@),
        probe.windows is Some && probe.windows->0 is None ==> detected(probe) is Unavailable,
        probe.windows is None && probe.macos ==> detected(probe) == BackendView::Security,
        probe.windows is None && !probe.macos && probe.unix && probe.secret_tool is Some
            && probe.session_bus ==> detected(probe) == BackendView::SecretTool(
            probe.secret_tool->0@,
        ),
        probe.windows is None && !probe.macos && (!probe.unix || probe.secret_tool is None
            || !probe.session_bus) ==> detected(probe) is Unavailable,
{
}

/// Line feeds at the end of what a tool printed are not part of the secret; any others
/// are.
pub proof fn trailing_line_feeds_are_dropped(text: Seq<char>)
    ensures
        text.len() == 0 || text.last() != '\n' ==> without_line_feeds(text) == text,
        without_line_feeds(text.push('\n')) == without_line_feeds(text),
{
    assert(text.push('\n').drop_last() =~= text);
}

/// Protected blobs are bound to the user, or to a common name where there is none.
pub proof fn blobs_are_bound_to_the_user(name: Seq<char>)
    ensures
        blob_entropy(Some(name)) == encode_utf8("rdt/keystore/v1/"@ + name),
        blob_entropy(None) == encode_utf8("rdt/keystore/v1/user"@),
{
    reveal_strlit("rdt/keystore/v1/");
    reveal_strlit("user");
    reveal_strlit("rdt/keystore/v1/user");
    assert("rdt/keystore/v1/"@ + "user"@ =~= "rdt/keystore/v1/user"@);
}

/// Failures of a keystore carry its code and their message.
pub proof fn keystore_failures_keep_their_message(message: Seq<char>)
    ensures
        keystore_failure(message).code == ErrorCode::Keystore,
        keystore_failure(message).message == message,
{
}

} // verus!
