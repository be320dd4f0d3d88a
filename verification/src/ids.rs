//! Opaque, randomly generated identifiers.
//!
//! Identifiers are generated from the operating system CSPRNG so that neither
//! session identifiers nor profile identifiers can be guessed by a process that
//! is allowed to talk to the agent's control socket.
use crate::rng::fill_random_or_panic;
use crate::text::{byte_len, chars_of, decimal, to_decimal};
use vstd::prelude::*;
use vstd::utf8::encode_utf8;

verus! {

/// The lower case hexadecimal digit of a number below sixteen.
pub open spec fn hex_digit(n: int) -> char {
    if n < 10 {
        ((0x30 + n) as u32) as char
    } else {
        ((0x61 + n - 10) as u32) as char
    }
}

/// The value of a hexadecimal digit, in either case.
pub open spec fn hex_value(c: char) -> Option<int> {
    if '0' <= c <= '9' {
        Some(c as int - 0x30)
    } else if 'a' <= c <= 'f' {
        Some(c as int - 0x61 + 10)
    } else if 'A' <= c <= 'F' {
        Some(c as int - 0x41 + 10)
    } else {
        None
    }
}

/// The lower case hexadecimal notation of a run of bytes, two digits each.
pub open spec fn hex_text(bytes: Seq<u8>) -> Seq<char>
    decreases bytes.len(),
{
    if bytes.len() == 0 {
        Seq::empty()
    } else {
        hex_text(bytes.drop_last()).push(hex_digit(bytes.last() as int / 16)).push(
            hex_digit(bytes.last() as int % 16),
        )
    }
}

/// Every byte takes two digits.
pub proof fn hex_text_len(bytes: Seq<u8>)
    ensures
        hex_text(bytes).len() == 2 * bytes.len(),
    decreases bytes.len(),
{
    if bytes.len() > 0 {
        hex_text_len(bytes.drop_last());
    }
}

/// Whether a text consists of hexadecimal digits.
pub open spec fn all_hex(s: Seq<char>) -> bool {
    forall|i: int| 0 <= i < s.len() ==> hex_value(#[trigger] s[i]) is Some
}

/// The bytes that pairs of hexadecimal digits denote.
pub open spec fn hex_bytes(s: Seq<char>) -> Seq<u8> {
    Seq::new(
        (s.len() / 2) as nat,
        |i: int| (hex_value(s[2 * i])->0 * 16 + hex_value(s[2 * i + 1])->0) as u8,
    )
}

/// The digit of a number below sixteen.
fn hex_char(n: u8) -> (r: char)
    requires
        n < 16,
    ensures
        r == hex_digit(n as int),
{
    if n < 10 {
        (0x30 + n) as char
    } else {
        (0x61 + (n - 10)) as char
    }
}

/// The lower case hexadecimal notation of a run of bytes.
pub fn to_hex(bytes: &[u8]) -> (r: String)
    ensures
        r@ == hex_text(bytes@),
{
    let mut r = String::new();
    let mut i: usize = 0;
    assert(bytes@.take(0) =~= Seq::<u8>::empty());
    while i < bytes.len()
        invariant
            i <= bytes@.len(),
            r@ == hex_text(bytes@.take(i as int)),
        decreases bytes.len() - i,
    {
        assert(bytes@.take(i + 1).drop_last() =~= bytes@.take(i as int));
        r.push(hex_char(bytes[i] / 16));
        r.push(hex_char(bytes[i] % 16));
        i = i + 1;
    }
    assert(bytes@.take(bytes@.len() as int) =~= bytes@);
    r
}

/// The value of a hexadecimal digit, in either case.
fn hex_of(c: char) -> (r: Option<u8>)
    ensures
        r is Some <==> hex_value(c) is Some,
        r is Some ==> r->0 == hex_value(c)->0 && r->0 < 16,
{
    let u: u32 = c as u32;
    if '0' <= c && c <= '9' {
        Some((u - 0x30) as u8)
    } else if 'a' <= c && c <= 'f' {
        Some((u - 0x61 + 10) as u8)
    } else if 'A' <= c && c <= 'F' {
        Some((u - 0x41 + 10) as u8)
    } else {
        None
    }
}

/// Errors produced while parsing an identifier from text.
#[derive(Debug, Clone, PartialEq, Eq, Structural)]
pub enum IdParseError {
    /// The string had the wrong length (expected 16 hex characters).
    Length(usize),
    /// The string contained a non-hexadecimal character.
    NotHex,
}

impl IdParseError {
    /// The text shown for an error.
    pub fn to_string(&self) -> (r: String)
        ensures
            r@ == match *self {
                IdParseError::Length(len) => "identifier must be 16 hex characters, got "@
                    + decimal(len as nat),
                IdParseError::NotHex => "identifier must be hexadecimal"@,
            },
    {
        match self {
            IdParseError::Length(len) => {
                let mut r = "identifier must be 16 hex characters, got ".to_owned();
                let count = to_decimal(*len as u64);
                r.push_str(count.as_str());
                r
            },
            IdParseError::NotHex => "identifier must be hexadecimal".to_owned(),
        }
    }
}

/// What the text of an identifier denotes.
pub open spec fn id_parsed(text: Seq<char>) -> Result<Seq<u8>, IdParseError> {
    if encode_utf8(text).len() != 16 {
        Err(IdParseError::Length(encode_utf8(text).len() as usize))
    } else if text.len() == 16 && all_hex(text) {
        Ok(hex_bytes(text))
    } else {
        Err(IdParseError::NotHex)
    }
}

/// Reads the text of an identifier.
fn parse_id(text: &str) -> (r: Result<[u8; 8], IdParseError>)
    ensures
        match id_parsed(text@) {
            Ok(bytes) => r is Ok && r->Ok_0@ == bytes,
            Err(error) => r is Err && r->Err_0 == error,
        },
{
    let length: usize = byte_len(text);
    if length != 16 {
        return Err(IdParseError::Length(length));
    }
    let chars = chars_of(text);
    if chars.len() != 16 {
        return Err(IdParseError::NotHex);
    }
    let mut bytes: [u8; 8] = [0; 8];
    let mut i: usize = 0;
    while i < 8
        invariant
            i <= 8,
            chars@ == text@,
            chars@.len() == 16,
            forall|k: int| 0 <= k < 2 * i ==> hex_value(#[trigger] chars@[k]) is Some,
            forall|k: int| 0 <= k < i ==> #[trigger] bytes@[k] == hex_bytes(text@)[k],
            encode_utf8(text@).len() == 16,
        decreases 8 - i,
    {
        let (high, low) = match (hex_of(chars[2 * i]), hex_of(chars[2 * i + 1])) {
            (Some(high), Some(low)) => (high, low),
            _ => {
                proof {
                    assert(hex_value(chars@[2 * i]) is None || hex_value(chars@[2 * i + 1]) is None);
                    assert(!all_hex(text@));
                }
                return Err(IdParseError::NotHex);
            },
        };
        bytes[i] = high * 16 + low;
        i = i + 1;
    }
    assert(bytes@ =~= hex_bytes(text@));
    assert(all_hex(text@));
    Ok(bytes)
}

/// Hexadecimal notation as a function of the position.
proof fn hex_text_index(bytes: Seq<u8>)
    ensures
        hex_text(bytes).len() == 2 * bytes.len(),
        forall|i: int|
            0 <= i < bytes.len() ==> hex_text(bytes)[2 * i] == hex_digit(
                #[trigger] bytes[i] as int / 16,
            ) && hex_text(bytes)[2 * i + 1] == hex_digit(bytes[i] as int % 16),
    decreases bytes.len(),
{
    if bytes.len() > 0 {
        let before = bytes.drop_last();
        hex_text_index(before);
        assert forall|i: int| 0 <= i < bytes.len() implies hex_text(bytes)[2 * i] == hex_digit(
            #[trigger] bytes[i] as int / 16,
        ) && hex_text(bytes)[2 * i + 1] == hex_digit(bytes[i] as int % 16) by {
            if i < before.len() {
                assert(before[i] == bytes[i]);
            }
        }
    }
}

proof fn ascii_bytes(s: Seq<char>)
    requires
        forall|i: int| 0 <= i < s.len() ==> (#[trigger] s[i]) as u32 <= 0x7F,
    ensures
        encode_utf8(s).len() == s.len(),
    decreases s.len(),
{
    if s.len() > 0 {
        assert forall|i: int| 0 <= i < s.drop_first().len() implies (
        #[trigger] s.drop_first()[i]) as u32 <= 0x7F by {
            assert(s.drop_first()[i] == s[i + 1]);
        }
        assert(s[0] as u32 <= 0x7F);
        ascii_bytes(s.drop_first());
    }
}

/// Identifiers round-trip through text: the text of an identifier is read back as
/// the same bytes.
pub proof fn identifiers_round_trip(bytes: Seq<u8>)
    requires
        bytes.len() == 8,
    ensures
        id_parsed(hex_text(bytes)) == Ok::<Seq<u8>, IdParseError>(bytes),
{
    let s = hex_text(bytes);
    hex_text_index(bytes);
    assert forall|i: int| 0 <= i < s.len() implies hex_value(#[trigger] s[i]) is Some && s[i] as u32
        <= 0x7F by {
        let b = bytes[i / 2];
        if i % 2 == 0 {
            assert(s[2 * (i / 2)] == hex_digit(b as int / 16));
        } else {
            assert(s[2 * (i / 2) + 1] == hex_digit(b as int % 16));
        }
    }
    ascii_bytes(s);
    assert forall|i: int| 0 <= i < 8 implies hex_bytes(s)[i] == bytes[i] by {
        let b = bytes[i];
        assert(s[2 * i] == hex_digit(b as int / 16));
        assert(s[2 * i + 1] == hex_digit(b as int % 16));
    }
    assert(hex_bytes(s) =~= bytes);
}

/// Opaque connection profile identifier.
#[derive(Debug, Clone, Copy, PartialEq, Eq, Hash, PartialOrd, Ord)]
pub struct ProfileId([u8; 8]);

/// Opaque session identifier.
#[derive(Debug, Clone, Copy, PartialEq, Eq, Hash, PartialOrd, Ord)]
pub struct SessionId([u8; 8]);

impl View for ProfileId {
    type V = Seq<u8>;

    closed spec fn view(&self) -> Seq<u8> {
        self.0@
    }
}

impl View for SessionId {
    type V = Seq<u8>;

    closed spec fn view(&self) -> Seq<u8> {
        self.0@
    }
}

impl ProfileId {
    /// Generates a fresh identifier from the OS CSPRNG.
    pub fn new() -> (r: Self)
        ensures
            r@.len() == 8,
    {
        let mut bytes: [u8; 8] = [0; 8];
        fill_random_or_panic(&mut bytes);
        ProfileId(bytes)
    }

    /// Rebuilds an identifier from its byte representation.
    pub fn from_bytes(bytes: [u8; 8]) -> (r: Self)
        ensures
            r@ == bytes@,
    {
        ProfileId(bytes)
    }

    /// The raw bytes of the identifier.
    pub fn as_bytes(&self) -> (r: &[u8; 8])
        ensures
            r@ == self@,
    {
        &self.0
    }

    /// The text of the identifier.
    pub fn to_string(&self) -> (r: String)
        ensures
            r@ == hex_text(self@),
    {
        to_hex(self.0.as_slice())
    }

    /// Reads the text of an identifier.
    pub fn parse(text: &str) -> (r: Result<Self, IdParseError>)
        ensures
            match id_parsed(text@) {
                Ok(bytes) => r is Ok && r->Ok_0@ == bytes,
                Err(error) => r is Err && r->Err_0 == error,
            },
    {
        match parse_id(text) {
            Ok(bytes) => Ok(ProfileId(bytes)),
            Err(error) => Err(error),
        }
    }

    /// Whether two identifiers are the same.
    pub fn same(&self, other: &Self) -> (r: bool)
        ensures
            r == (self@ == other@),
    {
        crate::text::same_bytes(self.0.as_slice(), other.0.as_slice())
    }
}

impl SessionId {
    /// Generates a fresh identifier from the OS CSPRNG.
    pub fn new() -> (r: Self)
        ensures
            r@.len() == 8,
    {
        let mut bytes: [u8; 8] = [0; 8];
        fill_random_or_panic(&mut bytes);
        SessionId(bytes)
    }

    /// Rebuilds an identifier from its byte representation.
    pub fn from_bytes(bytes: [u8; 8]) -> (r: Self)
        ensures
            r@ == bytes@,
    {
        SessionId(bytes)
    }

    /// The raw bytes of the identifier.
    pub fn as_bytes(&self) -> (r: &[u8; 8])
        ensures
            r@ == self@,
    {
        &self.0
    }

    /// The text of the identifier.
    pub fn to_string(&self) -> (r: String)
        ensures
            r@ == hex_text(self@),
    {
        to_hex(self.0.as_slice())
    }

    /// Reads the text of an identifier.
    pub fn parse(text: &str) -> (r: Result<Self, IdParseError>)
        ensures
            match id_parsed(text@) {
                Ok(bytes) => r is Ok && r->Ok_0@ == bytes,
                Err(error) => r is Err && r->Err_0 == error,
            },
    {
        match parse_id(text) {
            Ok(bytes) => Ok(SessionId(bytes)),
            Err(error) => Err(error),
        }
    }

    /// Whether two identifiers are the same.
    pub fn same(&self, other: &Self) -> (r: bool)
        ensures
            r == (self@ == other@),
    {
        crate::text::same_bytes(self.0.as_slice(), other.0.as_slice())
    }
}

impl Default for ProfileId {
    fn default() -> (r: Self)
        ensures
            r@.len() == 8,
    {
        ProfileId::new()
    }
}

impl Default for SessionId {
    fn default() -> (r: Self)
        ensures
            r@.len() == 8,
    {
        SessionId::new()
    }
}

impl std::str::FromStr for ProfileId {
    type Err = IdParseError;

    fn from_str(text: &str) -> (r: Result<Self, IdParseError>)
        ensures
            match id_parsed(text@) {
                Ok(bytes) => r is Ok && r->Ok_0@ == bytes,
                Err(error) => r is Err && r->Err_0 == error,
            },
    {
        ProfileId::parse(text)
    }
}

impl std::str::FromStr for SessionId {
    type Err = IdParseError;

    fn from_str(text: &str) -> (r: Result<Self, IdParseError>)
        ensures
            match id_parsed(text@) {
                Ok(bytes) => r is Ok && r->Ok_0@ == bytes,
                Err(error) => r is Err && r->Err_0 == error,
            },
    {
        SessionId::parse(text)
    }
}

/// Hexadecimal notation: two characters for each byte, the high half first, digits
/// and then the letters a to f.
pub proof fn hexadecimal_notation(bytes: Seq<u8>, i: int)
    requires
        0 <= i < bytes.len(),
    ensures
        hex_text(bytes).len() == 2 * bytes.len(),
        hex_text(bytes)[2 * i] == "0123456789abcdef"@[bytes[i] as int / 16],
        hex_text(bytes)[2 * i + 1] == "0123456789abcdef"@[bytes[i] as int % 16],
    decreases bytes.len(),
{
    reveal_strlit("0123456789abcdef");
    hex_text_len(bytes);
    let front = bytes.drop_last();
    hex_text_len(front);
    if i < front.len() {
        hexadecimal_notation(front, i);
        assert(hex_text(bytes)[2 * i] == hex_text(front)[2 * i]);
        assert(hex_text(bytes)[2 * i + 1] == hex_text(front)[2 * i + 1]);
    }
}

/// An identifier is read from sixteen hexadecimal digits of either case and from
/// nothing else.
pub proof fn identifiers_are_sixteen_digits(text: Seq<char>, i: int)
    requires
        0 <= i < text.len(),
        id_parsed(text) is Ok,
    ensures
        text.len() == 16,
        id_parsed(text)->Ok_0.len() == 8,
        0x30 <= text[i] as u32 <= 0x39 || 0x61 <= text[i] as u32 <= 0x66 || 0x41 <= text[i] as u32
            <= 0x46,
{
    assert(hex_value(text[i]) is Some);
}

} // verus!
