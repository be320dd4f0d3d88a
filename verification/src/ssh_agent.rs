//! SSH agent support.
//!
//! The agent holds private keys in a separate, user owned process; this process
//! only ever sees the *public* keys and asks the agent to sign challenges.  That
//! keeps key material out of this process entirely, which is why agent
//! authentication is the recommended default.
//!
//! Two kinds of agent are supported:
//!
//! * a Unix domain socket (`SSH_AUTH_SOCK`), with a permission check so a world
//!   writable socket is refused;
//! * an OpenSSH agent over a named pipe on Windows.
use crate::error::{fail, ErrorCode, RdtError, RdtErrorView, RdtResult};
use crate::ssh_session::{about_path, path_error};
use crate::text::{digit, digit_of, trim, trimmed};
use vstd::prelude::*;

verus! {

/// Description of the agent to talk to.
#[derive(Debug, Clone, PartialEq, Eq)]
pub enum AgentTransport {
    /// A Unix domain socket.
    UnixSocket(String),
    /// A Windows named pipe.
    NamedPipe(String),
}

/// What the file system says of a socket.
#[derive(Debug, Clone, Copy, PartialEq, Eq, Structural)]
pub struct SocketMetadata {
    /// File type and permission bits.
    pub mode: u32,
    /// The user that owns the file.
    pub owner: u32,
}

impl SocketMetadata {
    /// The file type is that of a socket.
    pub open spec fn socket_bits(self) -> bool {
        (self.mode as int / 0o10000) % 0o20 == 0o14
    }

    /// The permission bits.
    pub open spec fn permissions(self) -> nat {
        (self.mode as int % 0o1000) as nat
    }

    /// The group or everybody may write.
    pub open spec fn shared(self) -> bool {
        (self.mode as int / 0o20) % 2 == 1 || (self.mode as int / 0o2) % 2 == 1
    }
}

/// The octal notation of a number.
pub open spec fn octal(n: nat) -> Seq<char>
    decreases n,
{
    if n < 8 {
        seq![digit(n as int)]
    } else {
        octal(n / 8).push(digit((n % 8) as int))
    }
}

fn to_octal(n: u32) -> (r: String)
    ensures
        r@ == octal(n as nat),
    decreases n,
{
    if n < 8 {
        let mut r = String::new();
        r.push(digit_of(n as u8));
        assert(r@ =~= octal(n as nat));
        r
    } else {
        let mut r = to_octal(n / 8);
        r.push(digit_of((n % 8) as u8));
        r
    }
}

/// Why an agent socket is refused, if it is.
pub open spec fn socket_problem(
    path: Seq<char>,
    metadata: Result<SocketMetadata, Seq<char>>,
    user: u32,
) -> Option<RdtErrorView> {
    match metadata {
        Err(reason) => Some(
            path_error(ErrorCode::Io, "cannot inspect the agent socket: "@ + reason, path),
        ),
        Ok(found) => if !found.socket_bits() {
            Some(
                path_error(
                    ErrorCode::Permission,
                    "SSH_AUTH_SOCK does not point at a socket"@,
                    path,
                ),
            )
        } else if found.owner != user {
            Some(
                path_error(
                    ErrorCode::Permission,
                    "the agent socket is owned by another user"@,
                    path,
                ),
            )
        } else if found.shared() {
            Some(
                path_error(
                    ErrorCode::Permission,
                    "the agent socket is writable by others (mode "@ + octal(found.permissions())
                        + ")"@,
                    path,
                ),
            )
        } else {
            None
        },
    }
}

/// The content of the result of inspecting a file.
pub open spec fn inspected(metadata: Result<SocketMetadata, &str>) -> Result<
    SocketMetadata,
    Seq<char>,
> {
    match metadata {
        Ok(found) => Ok(found),
        Err(reason) => Err(reason@),
    }
}

/// Refuses an agent socket that other local users could replace.
///
/// An attacker who can write to the socket path can impersonate the agent and
/// harvest every signature request, so the socket must be owned by the current
/// user and must not be writable by anybody else.
///
/// # Errors
///
/// Returns [`ErrorCode::Permission`] when the check fails.
pub fn verify_socket_permissions(
    path: &str,
    metadata: Result<SocketMetadata, &str>,
    user: u32,
) -> (r: RdtResult<()>)
    ensures
        match socket_problem(path@, inspected(metadata), user) {
            Some(error) => r is Err && r->Err_0@ == error,
            None => r is Ok,
        },
{
    let found = match metadata {
        Ok(found) => found,
        Err(reason) => {
            let mut message = "cannot inspect the agent socket: ".to_owned();
            message.push_str(reason);
            return Err(about_path(ErrorCode::Io, message.as_str(), path));
        },
    };
    if (found.mode / 0o10000) % 0o20 != 0o14 {
        return Err(
            about_path(ErrorCode::Permission, "SSH_AUTH_SOCK does not point at a socket", path),
        );
    }
    if found.owner != user {
        return Err(
            about_path(ErrorCode::Permission, "the agent socket is owned by another user", path),
        );
    }
    if (found.mode / 0o20) % 2 == 1 || (found.mode / 0o2) % 2 == 1 {
        let mut message = "the agent socket is writable by others (mode ".to_owned();
        let mode = to_octal(found.mode % 0o1000);
        message.push_str(mode.as_str());
        message.push_str(")");
        return Err(about_path(ErrorCode::Permission, message.as_str(), path));
    }
    Ok(())
}

/// The pipe of the OpenSSH agent on Windows.
pub const WINDOWS_PIPE: &'static str = "\\\\.\\pipe\\openssh-ssh-agent";

impl AgentTransport {
    /// Locates the agent on a Unix system from the value of `SSH_AUTH_SOCK` and what
    /// the file system says of that path.
    ///
    /// # Errors
    ///
    /// Returns [`ErrorCode::Authentication`] when no agent is configured.
    pub fn detect(
        variable: Option<&str>,
        metadata: Result<SocketMetadata, &str>,
        user: u32,
    ) -> (r: RdtResult<Self>)
        ensures
            match variable {
                None => r is Err && r->Err_0@ == fail(
                    ErrorCode::Authentication,
                    "SSH_AUTH_SOCK is not set"@,
                ),
                Some(value) => if trimmed(value@).len() == 0 {
                    r is Err && r->Err_0@ == fail(
                        ErrorCode::Authentication,
                        "SSH_AUTH_SOCK is empty"@,
                    )
                } else {
                    match socket_problem(value@, inspected(metadata), user) {
                        Some(error) => r is Err && r->Err_0@ == error,
                        None => r is Ok && r->Ok_0 is UnixSocket && r->Ok_0->UnixSocket_0@ == value@,
                    }
                },
            },
    {
        let value = match variable {
            Some(value) => value,
            None => {
                return Err(RdtError::new(ErrorCode::Authentication, "SSH_AUTH_SOCK is not set"));
            },
        };
        let path = trim(value);
        if path.as_str().is_empty() {
            return Err(RdtError::new(ErrorCode::Authentication, "SSH_AUTH_SOCK is empty"));
        }
        match verify_socket_permissions(value, metadata, user) {
            Ok(()) => Ok(AgentTransport::UnixSocket(value.to_owned())),
            Err(error) => Err(error),
        }
    }

    /// Locates the agent on Windows from the value of `SSH_AUTH_SOCK`.
    pub fn detect_pipe(variable: Option<&str>) -> (r: Self)
        ensures
            r is NamedPipe,
            r->NamedPipe_0@ == match variable {
                Some(value) => if trimmed(value@).len() > 0 {
                    value@
                } else {
                    WINDOWS_PIPE@
                },
                None => WINDOWS_PIPE@,
            },
    {
        if let Some(value) = variable {
            let name = trim(value);
            if !name.as_str().is_empty() {
                return AgentTransport::NamedPipe(value.to_owned());
            }
        }
        AgentTransport::NamedPipe(WINDOWS_PIPE.to_owned())
    }

    /// The path or pipe name, for display.
    pub fn display(&self) -> (r: String)
        ensures
            r@ == match *self {
                AgentTransport::UnixSocket(path) => path@,
                AgentTransport::NamedPipe(name) => name@,
            },
    {
        match self {
            AgentTransport::UnixSocket(path) => path.clone(),
            AgentTransport::NamedPipe(name) => name.clone(),
        }
    }
}

/// A socket that is accepted is owned by the user and writable by nobody else.
pub proof fn accepted_sockets_are_private(
    path: Seq<char>,
    metadata: Result<SocketMetadata, Seq<char>>,
    user: u32,
)
    requires
        socket_problem(path, metadata, user) is None,
    ensures
        metadata is Ok,
        metadata->Ok_0.owner == user,
        !metadata->Ok_0.shared(),
{
}

/// A socket is accepted when it is one, belongs to the user, and neither the group nor
/// others may write to it; anything else is refused.
pub proof fn sockets_are_checked(path: Seq<char>, found: SocketMetadata, user: u32)
    ensures
        socket_problem(path, Ok(found), user) is None <==> {
            &&& (found.mode as int / 4096) % 16 == 12
            &&& found.owner == user
            &&& (found.mode as int / 16) % 2 == 0
            &&& (found.mode as int / 2) % 2 == 0
        },
        socket_problem(path, Ok(found), user) is Some ==> socket_problem(
            path,
            Ok(found),
            user,
        )->0.code == ErrorCode::Permission,
        socket_problem(path, Err(path), user) is Some && socket_problem(
            path,
            Err(path),
            user,
        )->0.code == ErrorCode::Io,
{
}

/// Octal notation: one character for a digit, and an eightfold number with a digit added
/// has that digit behind.
pub proof fn octal_notation(n: nat, d: nat)
    requires
        d < 8,
    ensures
        octal(d).len() == 1,
        octal(d)[0] as u32 == 0x30 + d,
        n > 0 ==> octal(8 * n + d).drop_last() == octal(n),
        n > 0 ==> octal(8 * n + d).last() as u32 == 0x30 + d,
{
    if n > 0 {
        let m = 8 * n + d;
        assert(m / 8 == n && m % 8 == d);
        assert(octal(m) == octal(n).push(digit(d as int)));
        assert(octal(m).drop_last() =~= octal(n));
    }
}

} // verus!
