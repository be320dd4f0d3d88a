//! Cryptographically secure random bytes.
//!
//! Randomness for identifiers and nonces comes from the operating system CSPRNG,
//! which fails loudly instead of returning predictable bytes.
use rand::RngCore;
use vstd::prelude::*;

verus! {

/// Errors produced while gathering entropy.
#[derive(Debug, Clone, PartialEq, Eq)]
pub enum RandomError {
    /// The operating system entropy source could not be opened or read.
    Source(String),
    /// The operating system entropy source is not implemented for this platform.
    Unsupported,
}

impl RandomError {
    /// The text shown for an error.
    pub fn to_string(&self) -> (r: String)
        ensures
            r@ == match *self {
                RandomError::Source(message) => "cannot read entropy: "@ + message@,
                RandomError::Unsupported => "no entropy source on this platform"@,
            },
    {
        match self {
            RandomError::Source(message) => {
                let mut r = "cannot read entropy: ".to_owned();
                r.push_str(message.as_str());
                r
            },
            RandomError::Unsupported => "no entropy source on this platform".to_owned(),
        }
    }
}

/// Fills a buffer with operating system entropy.
///
/// Calls `rand::rngs::OsRng::try_fill_bytes`, which overwrites the bytes of the
/// buffer or reports why it could not.  Nothing is promised of the bytes.
#[verifier::external_body]
fn os_entropy(buffer: &mut [u8]) -> (r: Result<(), String>)
    ensures
        final(buffer)@.len() == old(buffer)@.len(),
{
    rand::rngs::OsRng.try_fill_bytes(buffer).map_err(|error| error.to_string())
}

/// Fills a buffer with operating system entropy.
///
/// Calls `rand::rngs::OsRng::fill_bytes`, which overwrites the bytes of the buffer
/// and aborts the process's work when the system has no entropy source at all.
/// Nothing is promised of the bytes.
#[verifier::external_body]
fn os_entropy_or_panic(buffer: &mut [u8])
    ensures
        final(buffer)@.len() == old(buffer)@.len(),
{
    rand::rngs::OsRng.fill_bytes(buffer)
}

/// Fills `buffer` with bytes from the OS CSPRNG.
///
/// An empty buffer needs no entropy. Otherwise the operating system decides, and
/// [`entropy_outcome`] says what is returned for its reply.
pub fn fill_random(buffer: &mut [u8]) -> (r: Result<(), RandomError>)
    ensures
        final(buffer)@.len() == old(buffer)@.len(),
        old(buffer)@.len() == 0 ==> r is Ok,
        r is Err ==> r->Err_0 is Source,
{
    if buffer.len() == 0 {
        return Ok(());
    }
    entropy_outcome(os_entropy(buffer))
}

/// What a request for entropy returns for the reply of the operating system: a
/// failure is one of the source, with its message.
pub fn entropy_outcome(reply: Result<(), String>) -> (r: Result<(), RandomError>)
    ensures
        match reply {
            Ok(_) => r is Ok,
            Err(message) => r is Err && r->Err_0 == RandomError::Source(message),
        },
{
    match reply {
        Ok(()) => Ok(()),
        Err(message) => Err(RandomError::Source(message)),
    }
}

/// Fills `buffer`, panicking only if the platform has no entropy source.
///
/// Used for identifiers, where there is no meaningful recovery path: without
/// entropy the process cannot create a session safely at all.
pub fn fill_random_or_panic(buffer: &mut [u8])
    ensures
        final(buffer)@.len() == old(buffer)@.len(),
{
    os_entropy_or_panic(buffer);
}

} // verus!
