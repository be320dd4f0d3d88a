//! In-memory secret handling that never leaks through the text shown for a
//! value, and that wipes its buffer on drop.
use crate::error::{fail, ErrorCode, RdtError, RdtResult};
use crate::redact::REDACTED;
use crate::text::{decimal, same, to_decimal, utf8_text};
use vstd::prelude::*;
use vstd::utf8::{decode_utf8, encode_utf8, valid_utf8};

verus! {

/// Wipes a text.
///
/// Calls `zeroize::Zeroize::zeroize` of a `String`, which overwrites its buffer
/// with zeros and leaves it empty.
#[verifier::external_body]
fn wipe_text(text: &mut String)
    ensures
        final(text)@ == Seq::<char>::empty(),
    opens_invariants none
    no_unwind
{
    zeroize::Zeroize::zeroize(text)
}

/// Wipes a run of bytes.
///
/// Calls `zeroize::Zeroize::zeroize` of a `Vec<u8>`, which overwrites its buffer
/// with zeros and leaves it empty.
#[verifier::external_body]
pub(crate) fn wipe_bytes(bytes: &mut Vec<u8>)
    ensures
        final(bytes)@ == Seq::<u8>::empty(),
    opens_invariants none
    no_unwind
{
    zeroize::Zeroize::zeroize(bytes)
}

/// A UTF-8 secret (password, passphrase, OTP, …).
///
/// The contents are zeroed when the value is dropped, and the text shown for it
/// is always the redaction marker, so that a secret can never reach a config
/// file or a log by accident.
pub struct Secret(String);

impl View for Secret {
    type V = Seq<char>;

    closed spec fn view(&self) -> Seq<char> {
        self.0@
    }
}

impl Drop for Secret {
    fn drop(&mut self)
        opens_invariants none
        no_unwind
    {
        wipe_text(&mut self.0);
    }
}

impl Clone for Secret {
    fn clone(&self) -> (r: Self)
        ensures
            r@ == self@,
    {
        Secret(self.0.clone())
    }
}

/// The text shown for a secret of a number of bytes.
pub open spec fn hidden(name: Seq<char>, length: nat) -> Seq<char> {
    name + "("@ + REDACTED@ + ", "@ + decimal(length) + " bytes)"@
}

fn hidden_text(name: &str, length: usize) -> (r: String)
    ensures
        r@ == hidden(name@, length as nat),
{
    let mut r = name.to_owned();
    r.push_str("(");
    r.push_str(REDACTED);
    r.push_str(", ");
    let count = to_decimal(length as u64);
    r.push_str(count.as_str());
    r.push_str(" bytes)");
    r
}

impl Secret {
    /// Wraps a text.
    pub fn new(value: &str) -> (r: Self)
        ensures
            r@ == value@,
    {
        Secret(value.to_owned())
    }

    /// Parses a secret that arrived over an untrusted channel (a configuration
    /// file, a clipboard paste, a log line).
    ///
    /// The redaction marker is refused: text containing it never held the real
    /// value, and storing the literal placeholder would silently authenticate
    /// with garbage.
    pub fn from_untrusted(value: &str) -> (r: RdtResult<Self>)
        ensures
            value@ == REDACTED@ ==> r is Err && r->Err_0@ == fail(
                ErrorCode::Config,
                "refusing to read a redacted secret; the original value was never stored"@,
            ),
            value@ != REDACTED@ ==> r is Ok && r->Ok_0@ == value@,
    {
        if same(value, REDACTED) {
            return Err(
                RdtError::new(
                    ErrorCode::Config,
                    "refusing to read a redacted secret; the original value was never stored",
                ),
            );
        }
        Ok(Secret(value.to_owned()))
    }

    /// An empty secret.
    pub fn empty() -> (r: Self)
        ensures
            r@ == Seq::<char>::empty(),
    {
        Secret(String::new())
    }

    /// Explicit, call-site-visible access to the cleartext.
    pub fn expose(&self) -> (r: &str)
        ensures
            r@ == self@,
    {
        self.0.as_str()
    }

    /// Number of bytes in the secret.
    pub fn len(&self) -> (r: usize)
        ensures
            r == encode_utf8(self@).len(),
    {
        crate::text::byte_len(self.0.as_str())
    }

    /// Whether the secret holds no bytes at all.
    pub fn is_empty(&self) -> (r: bool)
        ensures
            r == (self@.len() == 0),
    {
        self.0.as_str().is_empty()
    }

    /// Constant-time comparison, so that equality checks do not leak how many
    /// leading bytes matched.
    pub fn equals(&self, other: &Secret) -> (r: bool)
        ensures
            r == (self@ == other@),
    {
        broadcast use vstd::utf8::encode_utf8_decode_utf8;

        let r = constant_time_eq(self.0.as_str().as_bytes(), other.0.as_str().as_bytes());
        assert(decode_utf8(encode_utf8(self@)) == self@);
        assert(decode_utf8(encode_utf8(other@)) == other@);
        r
    }

    /// Constant-time comparison against a byte slice.
    pub fn equals_bytes(&self, other: &[u8]) -> (r: bool)
        ensures
            r == (encode_utf8(self@) == other@),
    {
        constant_time_eq(self.0.as_str().as_bytes(), other)
    }

    /// Overwrites the secret with zeros and leaves it empty.
    pub fn wipe(&mut self)
        ensures
            final(self)@ == Seq::<char>::empty(),
    {
        wipe_text(&mut self.0);
    }

    /// The text shown for the secret: the redaction marker.
    pub fn to_string(&self) -> (r: String)
        ensures
            r@ == REDACTED@,
    {
        REDACTED.to_owned()
    }

    /// The text shown for the secret in diagnostics: the redaction marker and the
    /// length.
    pub fn debug_text(&self) -> (r: String)
        ensures
            r@ == hidden("Secret"@, encode_utf8(self@).len()),
    {
        hidden_text("Secret", self.len())
    }
}

impl PartialEq for Secret {
    fn eq(&self, other: &Self) -> (r: bool) {
        self.equals(other)
    }
}

impl vstd::std_specs::cmp::PartialEqSpecImpl for Secret {
    open spec fn obeys_eq_spec() -> bool {
        true
    }

    open spec fn eq_spec(&self, other: &Self) -> bool {
        self@ == other@
    }
}

/// Binary secret material (key blobs, decrypted vault records, …).
pub struct SecretBytes(Vec<u8>);

impl View for SecretBytes {
    type V = Seq<u8>;

    closed spec fn view(&self) -> Seq<u8> {
        self.0@
    }
}

impl Drop for SecretBytes {
    fn drop(&mut self)
        opens_invariants none
        no_unwind
    {
        wipe_bytes(&mut self.0);
    }
}

impl Clone for SecretBytes {
    fn clone(&self) -> (r: Self)
        ensures
            r@ == self@,
    {
        let bytes = self.0.clone();
        assert(bytes@ =~= self.0@);
        SecretBytes(bytes)
    }
}

impl SecretBytes {
    /// Wraps an already allocated buffer.
    pub fn new(bytes: Vec<u8>) -> (r: Self)
        ensures
            r@ == bytes@,
    {
        SecretBytes(bytes)
    }

    /// The bytes of a text secret.
    pub fn of(value: &Secret) -> (r: Self)
        ensures
            r@ == encode_utf8(value@),
    {
        SecretBytes(vstd::slice::slice_to_vec(value.expose().as_bytes()))
    }

    /// Explicit access to the cleartext bytes.
    pub fn expose(&self) -> (r: &[u8])
        ensures
            r@ == self@,
    {
        self.0.as_slice()
    }

    /// Number of bytes.
    pub fn len(&self) -> (r: usize)
        ensures
            r == self@.len(),
    {
        self.0.len()
    }

    /// Whether the buffer is empty.
    pub fn is_empty(&self) -> (r: bool)
        ensures
            r == (self@.len() == 0),
    {
        self.0.len() == 0
    }

    /// Converts the secret into a UTF-8 [`Secret`] when it is valid UTF-8.
    pub fn into_utf8_secret(self) -> (r: Option<Secret>)
        ensures
            r is Some <==> valid_utf8(self@),
            r is Some ==> r->0@ == decode_utf8(self@),
    {
        match utf8_text(self.0.as_slice()) {
            Some(text) => Some(Secret(text)),
            None => None,
        }
    }

    /// Overwrites the secret with zeros and leaves it empty.
    pub fn wipe(&mut self)
        ensures
            final(self)@ == Seq::<u8>::empty(),
    {
        wipe_bytes(&mut self.0);
    }

    /// The text shown for the secret in diagnostics: the redaction marker and the
    /// length.
    pub fn debug_text(&self) -> (r: String)
        ensures
            r@ == hidden("SecretBytes"@, self@.len()),
    {
        hidden_text("SecretBytes", self.0.len())
    }
}

impl PartialEq for SecretBytes {
    fn eq(&self, other: &Self) -> (r: bool) {
        constant_time_eq(self.0.as_slice(), other.0.as_slice())
    }
}

impl vstd::std_specs::cmp::PartialEqSpecImpl for SecretBytes {
    open spec fn obeys_eq_spec() -> bool {
        true
    }

    open spec fn eq_spec(&self, other: &Self) -> bool {
        self@ == other@
    }
}

impl From<String> for Secret {
    fn from(value: String) -> (r: Self)
        ensures
            r@ == value@,
    {
        Secret(value)
    }
}

impl vstd::std_specs::convert::FromSpecImpl<String> for Secret {
    open spec fn obeys_from_spec() -> bool {
        true
    }

    closed spec fn from_spec(value: String) -> Self {
        Secret(value)
    }
}

impl From<Vec<u8>> for SecretBytes {
    fn from(value: Vec<u8>) -> (r: Self)
        ensures
            r@ == value@,
    {
        SecretBytes(value)
    }
}

impl vstd::std_specs::convert::FromSpecImpl<Vec<u8>> for SecretBytes {
    open spec fn obeys_from_spec() -> bool {
        true
    }

    closed spec fn from_spec(value: Vec<u8>) -> Self {
        SecretBytes(value)
    }
}

impl<'a> From<&'a str> for Secret {
    fn from(value: &'a str) -> (r: Self)
        ensures
            r@ == value@,
    {
        Secret::new(value)
    }
}

impl<'a> vstd::std_specs::convert::FromSpecImpl<&'a str> for Secret {
    open spec fn obeys_from_spec() -> bool {
        false
    }

    open spec fn from_spec(value: &'a str) -> Self {
        arbitrary()
    }
}

impl From<Secret> for SecretBytes {
    fn from(value: Secret) -> (r: Self)
        ensures
            r@ == encode_utf8(value@),
    {
        SecretBytes::of(&value)
    }
}

impl vstd::std_specs::convert::FromSpecImpl<Secret> for SecretBytes {
    open spec fn obeys_from_spec() -> bool {
        false
    }

    open spec fn from_spec(value: Secret) -> Self {
        arbitrary()
    }
}

impl std::ops::Deref for SecretBytes {
    type Target = [u8];

    fn deref(&self) -> (r: &[u8])
        ensures
            r@ == self@,
    {
        self.0.as_slice()
    }
}

/// A secret survives the way through its bytes.
pub proof fn secret_bytes_round_trip(text: Seq<char>)
    ensures
        valid_utf8(encode_utf8(text)),
        decode_utf8(encode_utf8(text)) == text,
{
    vstd::utf8::encode_utf8_valid_utf8(text);
    vstd::utf8::encode_utf8_decode_utf8(text);
}

/// Length-independent constant-time equality.
///
/// The comparison always walks the longer of the two inputs; only the final
/// result depends on the length difference, which is already public through the
/// length fields of the containers involved.
fn constant_time_eq(a: &[u8], b: &[u8]) -> (r: bool)
    ensures
        r == (a@ == b@),
{
    let longest: usize = if a.len() > b.len() { a.len() } else { b.len() };
    let mut diff: u8 = if a.len() == b.len() { 0 } else { 1 };
    let mut index: usize = 0;
    while index < longest
        invariant
            index <= longest,
            longest == if a@.len() > b@.len() { a@.len() } else { b@.len() },
            a@.len() == a.len(),
            b@.len() == b.len(),
            diff == 0 <==> a@.len() == b@.len() && forall|k: int|
                0 <= k < index ==> #[trigger] a@[k] == b@[k],
        decreases longest - index,
    {
        let left: u8 = if index < a.len() { a[index] } else { 0 };
        let right: u8 = if index < b.len() { b[index] } else { 0 };
        let before = diff;
        diff = before | (left ^ right);
        assert((before | (left ^ right)) == 0 <==> before == 0 && left == right) by (bit_vector);
        index = index + 1;
    }
    assert(diff == 0 ==> a@ =~= b@);
    diff == 0
}

} // verus!
