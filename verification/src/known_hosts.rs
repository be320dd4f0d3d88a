//! An OpenSSH compatible `known_hosts` database.
//!
//! Host key verification is the only defence SSH has against a man in the
//! middle, so this module is deliberately strict:
//!
//! * an unknown host is reported as [`HostKeyStatus::Unknown`] and never
//!   accepted silently — the caller must decide by its policy and then call
//!   [`KnownHosts::accept`];
//! * a host whose key *changed* is reported as [`HostKeyStatus::Changed`] with
//!   both fingerprints, which the UI renders as a hard warning;
//! * a key on a `@revoked` line is never trusted, whatever other lines say.
//!
//! Both plain and hashed (`|1|salt|hash`) host entries are supported, as are
//! negated patterns and the `@cert-authority` / `@revoked` markers.
use crate::crypto::{
    base64_decode, base64_decoded, base64_encode, base64_encode_unpadded, base64_text,
    base64_unpadded, hmac_sha1, hmac_sha1_verify, same_secret, sha256, sha256_digest,
};
use crate::error::{fail, join, joined, ErrorCode, RdtError, RdtErrorView, RdtResult};
use crate::text::{
    chars_of, decimal, find_char, first_at, last_at, lines, lower_case, lower_first, number,
    parse_number, part, rfind_char, same, split, split_at_char, split_lines, split_words, texts,
    to_decimal, to_lower_first, to_lowercase, words, words_state,
};
use vstd::prelude::*;
use vstd::utf8::{encode_utf8, is_ascii_chars};

verus! {

/// The result of comparing a server key with the database.
#[derive(Debug, Clone, PartialEq, Eq)]
pub enum HostKeyStatus {
    /// The key matches a stored entry.
    Trusted,
    /// The host is not in the database at all.
    Unknown,
    /// The host is known, but with a different key.
    Changed {
        /// Fingerprint of the stored key (the one that no longer matches).
        known_fingerprint: String,
        /// The stored key type, for example `ssh-ed25519`.
        known_key_type: String,
    },
    /// The key appears on a `@revoked` line and must never be used.
    Revoked,
    /// The host matched a `!` negated pattern, so the entry does not apply.
    Excluded,
}

/// The content of a [`HostKeyStatus`].
pub enum StatusView {
    Trusted,
    Unknown,
    Changed { known_fingerprint: Seq<char>, known_key_type: Seq<char> },
    Revoked,
    Excluded,
}

impl View for HostKeyStatus {
    type V = StatusView;

    open spec fn view(&self) -> StatusView {
        match *self {
            HostKeyStatus::Trusted => StatusView::Trusted,
            HostKeyStatus::Unknown => StatusView::Unknown,
            HostKeyStatus::Changed { known_fingerprint, known_key_type } => StatusView::Changed {
                known_fingerprint: known_fingerprint@,
                known_key_type: known_key_type@,
            },
            HostKeyStatus::Revoked => StatusView::Revoked,
            HostKeyStatus::Excluded => StatusView::Excluded,
        }
    }
}

impl StatusView {
    /// The failure is fatal under any policy.
    pub open spec fn fatal(self) -> bool {
        self is Changed || self is Revoked || self is Excluded
    }

    /// The text shown for a status.
    pub open spec fn message(self) -> Seq<char> {
        match self {
            StatusView::Trusted => "host key matches the recorded key"@,
            StatusView::Unknown => "host key is not recorded yet"@,
            StatusView::Changed { known_fingerprint, known_key_type } =>
            "host key changed; recorded "@ + known_key_type + " "@ + known_fingerprint,
            StatusView::Revoked => "host key has been revoked"@,
            StatusView::Excluded => "host is excluded by a negated pattern"@,
        }
    }
}

impl HostKeyStatus {
    /// True when the connection may proceed without asking the user.
    pub fn is_trusted(&self) -> (r: bool)
        ensures
            r == (self@ is Trusted),
    {
        matches!(self, HostKeyStatus::Trusted)
    }

    /// True when the failure is fatal under any policy.
    pub fn is_fatal(&self) -> (r: bool)
        ensures
            r == self@.fatal(),
    {
        match self {
            HostKeyStatus::Changed { .. } => true,
            HostKeyStatus::Revoked => true,
            HostKeyStatus::Excluded => true,
            _ => false,
        }
    }

    /// The text shown for the status.
    pub fn to_string(&self) -> (r: String)
        ensures
            r@ == self@.message(),
    {
        match self {
            HostKeyStatus::Trusted => "host key matches the recorded key".to_owned(),
            HostKeyStatus::Unknown => "host key is not recorded yet".to_owned(),
            HostKeyStatus::Changed { known_fingerprint, known_key_type } => {
                let mut r = "host key changed; recorded ".to_owned();
                r.push_str(known_key_type.as_str());
                r.push_str(" ");
                r.push_str(known_fingerprint.as_str());
                r
            },
            HostKeyStatus::Revoked => "host key has been revoked".to_owned(),
            HostKeyStatus::Excluded => "host is excluded by a negated pattern".to_owned(),
        }
    }
}

/// Markers that can precede the host patterns on a line.
#[derive(Debug, Clone, Copy, PartialEq, Eq, Structural)]
pub enum Marker {
    /// A normal entry.
    Plain,
    /// `@cert-authority`: the key signs host certificates.
    CertAuthority,
    /// `@revoked`: the key must never be accepted.
    Revoked,
}

impl Default for Marker {
    fn default() -> (r: Self)
        ensures
            r == Marker::Plain,
    {
        Marker::Plain
    }
}

impl Marker {
    /// The text in front of the patterns.
    pub open spec fn prefix(self) -> Seq<char> {
        match self {
            Marker::Plain => Seq::empty(),
            Marker::CertAuthority => "@cert-authority "@,
            Marker::Revoked => "@revoked "@,
        }
    }
}

/// One line of a `known_hosts` file.
#[derive(Debug, PartialEq, Eq)]
pub struct KnownHostEntry {
    /// `@cert-authority` / `@revoked`, when present.
    pub marker: Marker,
    /// Comma separated host patterns, possibly negated with `!`.
    pub patterns: Vec<String>,
    /// Key type, for example `ssh-ed25519`.
    pub key_type: String,
    /// The public key bytes as stored (base64 decoded).
    pub key: Vec<u8>,
    /// Trailing comment.
    pub comment: String,
    /// Line number in the file, for diagnostics.
    pub line: usize,
}

/// The content of a [`KnownHostEntry`].
pub struct EntryView {
    pub marker: Marker,
    pub patterns: Seq<Seq<char>>,
    pub key_type: Seq<char>,
    pub key: Seq<u8>,
    pub comment: Seq<char>,
    pub line: nat,
}

impl View for KnownHostEntry {
    type V = EntryView;

    open spec fn view(&self) -> EntryView {
        EntryView {
            marker: self.marker,
            patterns: texts(self.patterns@),
            key_type: self.key_type@,
            key: self.key@,
            comment: self.comment@,
            line: self.line as nat,
        }
    }
}

/// The contents of a run of entries.
pub open spec fn entry_views(s: Seq<KnownHostEntry>) -> Seq<EntryView> {
    Seq::new(s.len(), |i: int| s[i]@)
}

/// The error for a malformed line.
pub open spec fn malformed_line(line: nat) -> RdtErrorView {
    RdtErrorView {
        context: seq!["line"@ + ": "@ + decimal(line)],
        ..fail(ErrorCode::Config, "malformed known_hosts line"@)
    }
}

/// The fields of an entry from its words without the marker: the patterns, the key
/// type, the key in base64 and the comment.
pub open spec fn fields_parsed(marker: Marker, f: Seq<Seq<char>>, line: nat) -> Result<
    Option<EntryView>,
    RdtErrorView,
> {
    if f.len() < 3 {
        Err(malformed_line(line))
    } else {
        match base64_decoded(encode_utf8(f[2])) {
            Some(key) => if key.len() == 0 {
                Err(malformed_line(line))
            } else {
                Ok(
                    Some(
                        EntryView {
                            marker,
                            patterns: split(f[0], ','),
                            key_type: f[1],
                            key,
                            comment: joined(f.skip(3), " "@),
                            line,
                        },
                    ),
                )
            },
            None => Err(malformed_line(line)),
        }
    }
}

/// What the words of a line denote.
pub open spec fn words_parsed(w: Seq<Seq<char>>, line: nat) -> Result<
    Option<EntryView>,
    RdtErrorView,
> {
    if w.len() == 0 || w[0][0] == '#' {
        Ok(None)
    } else if w[0] == "@cert-authority"@ {
        fields_parsed(Marker::CertAuthority, w.skip(1), line)
    } else if w[0] == "@revoked"@ {
        fields_parsed(Marker::Revoked, w.skip(1), line)
    } else {
        fields_parsed(Marker::Plain, w, line)
    }
}

/// What a line denotes: nothing for blank lines and comments, an entry, or an
/// error.
pub open spec fn line_parsed(text: Seq<char>, line: nat) -> Result<
    Option<EntryView>,
    RdtErrorView,
> {
    words_parsed(words(text), line)
}

/// The text of an entry.
pub open spec fn entry_line(e: EntryView) -> Seq<char> {
    e.marker.prefix() + joined(e.patterns, ","@) + " "@ + e.key_type + " "@ + base64_text(e.key)
        + if e.comment.len() == 0 {
        Seq::empty()
    } else {
        " "@ + e.comment
    }
}

/// Splits `[host]:port` or `host:port`, handling IPv6 literals.
pub open spec fn host_and_port(pattern: Seq<char>) -> (Seq<char>, Option<u16>) {
    let colon = last_at(pattern, ':');
    if pattern.len() > 0 && pattern[0] == '[' {
        let rest = pattern.skip(1);
        let close = first_at(rest, ']');
        let tail = rest.skip(close + 1);
        if close == rest.len() {
            (rest, None)
        } else if tail.len() > 0 && tail[0] == ':' {
            (rest.take(close), port_number(tail.skip(1)))
        } else {
            (rest.take(close), None)
        }
    } else if colon >= 0 && !pattern.take(colon).contains(':') {
        (pattern.take(colon), port_number(pattern.skip(colon + 1)))
    } else {
        (pattern, None)
    }
}

/// The port that a text denotes.
pub open spec fn port_number(text: Seq<char>) -> Option<u16> {
    match number(text, 65535) {
        Some(n) => Some(n as u16),
        None => None,
    }
}

/// Classic glob matching with `*` (any run) and `?` (one character); letters of
/// the pattern match their lower case form.
pub open spec fn glob(pattern: Seq<char>, text: Seq<char>) -> bool
    decreases pattern.len() + text.len(),
{
    if pattern.len() == 0 {
        text.len() == 0
    } else if pattern[0] == '*' {
        glob(pattern.skip(1), text) || (text.len() > 0 && glob(pattern, text.skip(1)))
    } else {
        text.len() > 0 && (pattern[0] == '?' || lower_first(pattern[0]) == text[0]) && glob(
            pattern.skip(1),
            text.skip(1),
        )
    }
}

/// The name under which a host is recorded: the port is part of it when it is not
/// the conventional one.
pub open spec fn host_name(host: Seq<char>, port: u16) -> Seq<char> {
    if port == 22 {
        lower_case(host)
    } else {
        "["@ + lower_case(host) + "]:"@ + decimal(port as nat)
    }
}

/// Whether the body of a hashed pattern, `<base64 salt>|<base64 hmac>`, stands for
/// a host.
pub open spec fn hash_matches(body: Seq<char>, host: Seq<char>, port: u16) -> bool {
    let bar = first_at(body, '|');
    let salt = base64_decoded(encode_utf8(body.take(bar)));
    let digest = base64_decoded(encode_utf8(body.skip(bar + 1)));
    bar < body.len() && salt is Some && digest is Some && digest->0 == hmac_sha1(
        salt->0,
        encode_utf8(host_name(host, port)),
    )
}

/// Whether a pattern is hashed.
pub open spec fn hashed(pattern: Seq<char>) -> bool {
    pattern.len() >= 3 && pattern[0] == '|' && pattern[1] == '1' && pattern[2] == '|'
}

/// Whether one host pattern, without negation, stands for a host.
pub open spec fn pattern_hits(pattern: Seq<char>, host: Seq<char>, port: u16) -> bool {
    if hashed(pattern) {
        hash_matches(pattern.skip(3), host, port)
    } else {
        let (name, wanted) = host_and_port(pattern);
        (wanted is Some ==> wanted->0 == port) && glob(name, lower_case(host))
    }
}

/// Whether a pattern is negated.
pub open spec fn negated(pattern: Seq<char>) -> bool {
    pattern.len() > 0 && pattern[0] == '!'
}

/// Whether a list of patterns applies to a host: one of them stands for it, and no
/// negated one does.
pub open spec fn patterns_apply(patterns: Seq<Seq<char>>, host: Seq<char>, port: u16) -> bool {
    &&& exists|i: int|
        0 <= i < patterns.len() && !negated(#[trigger] patterns[i]) && pattern_hits(
            patterns[i],
            host,
            port,
        )
    &&& forall|i: int|
        0 <= i < patterns.len() && negated(#[trigger] patterns[i]) ==> !pattern_hits(
            patterns[i].skip(1),
            host,
            port,
        )
}

/// Whether an entry applies to a host.
pub open spec fn applies(e: EntryView, host: Seq<char>, port: u16) -> bool {
    patterns_apply(e.patterns, host, port)
}

/// The OpenSSH style fingerprint of a key.
pub open spec fn key_fingerprint(key: Seq<u8>) -> Seq<char> {
    "SHA256:"@ + base64_unpadded(sha256_digest(key))
}

fn malformed(line: usize) -> (r: RdtError)
    ensures
        r@ == malformed_line(line as nat),
{
    let number_text = to_decimal(line as u64);
    let r = RdtError::new(ErrorCode::Config, "malformed known_hosts line").with_context(
        "line",
        number_text.as_str(),
    );
    assert(r@.context =~= seq!["line"@ + ": "@ + decimal(line as nat)]);
    r
}

/// Computes the OpenSSH style `SHA256:<base64>` fingerprint of a key blob.
pub fn fingerprint(key: &[u8]) -> (r: String)
    ensures
        r@ == key_fingerprint(key@),
{
    let digest = sha256(key);
    let mut r = "SHA256:".to_owned();
    let encoded = base64_encode_unpadded(digest.as_slice());
    r.push_str(encoded.as_str());
    r
}

/// The name under which a host is recorded.
fn recorded_name(host: &str, port: u16) -> (r: String)
    ensures
        r@ == host_name(host@, port),
{
    let lower = to_lowercase(host);
    if port == 22 {
        return lower;
    }
    let mut r = "[".to_owned();
    r.push_str(lower.as_str());
    r.push_str("]:");
    let port_text = to_decimal(port as u64);
    r.push_str(port_text.as_str());
    r
}

fn port_of(text: &str) -> (r: Option<u16>)
    ensures
        r == port_number(text@),
{
    match parse_number(text, 65535) {
        Some(n) => Some(n as u16),
        None => None,
    }
}

/// Splits `[host]:port` or `host:port`, handling IPv6 literals.
fn split_host_port(pattern: &str) -> (r: (String, Option<u16>))
    ensures
        (r.0@, r.1) == host_and_port(pattern@),
{
    let s = chars_of(pattern);
    if s.len() > 0 && s[0] == '[' {
        let rest = part(&s, 1, s.len());
        assert(rest@ =~= s@.skip(1));
        let inner = chars_of(rest.as_str());
        let close = find_char(inner.as_slice(), ']');
        if close == inner.len() {
            return (rest, None);
        }
        let host = part(&inner, 0, close);
        assert(host@ =~= inner@.take(close as int));
        if close + 1 < inner.len() && inner[close + 1] == ':' {
            let port_text = part(&inner, close + 2, inner.len());
            assert(port_text@ =~= inner@.skip(close + 1).skip(1));
            return (host, port_of(port_text.as_str()));
        }
        return (host, None);
    }
    match rfind_char(s.as_slice(), ':') {
        Some(colon) => {
            let host = part(&s, 0, colon);
            assert(host@ =~= s@.take(colon as int));
            let inner = chars_of(host.as_str());
            proof {
                crate::text::first_at_finds(host@, ':');
            }
            // A bare IPv6 address contains several colons and no port.
            if find_char(inner.as_slice(), ':') == inner.len() {
                let port_text = part(&s, colon + 1, s.len());
                assert(port_text@ =~= s@.skip(colon + 1));
                return (host, port_of(port_text.as_str()));
            }
        },
        None => {},
    }
    (pattern.to_owned(), None)
}

/// Classic glob matching with `*` (any run) and `?` (one character), without
/// regard to case.
pub fn wildcard_match(pattern: &str, text: &str) -> (r: bool)
    ensures
        r == glob(pattern@, lower_case(text@)),
{
    let p = chars_of(pattern);
    let lower = to_lowercase(text);
    let t = chars_of(lower.as_str());
    let count: usize = t.len();
    // Whether the rest of the pattern matches the text from each position on.
    let mut row: Vec<bool> = Vec::with_capacity(count);
    let mut j: usize = 0;
    while j < count
        invariant
            j <= count,
            count == t@.len(),
            row@.len() == j,
            forall|k: int| 0 <= k < j ==> !(#[trigger] row@[k]),
        decreases count - j,
    {
        row.push(false);
        j = j + 1;
    }
    row.push(true);
    proof {
        let rest = p@.skip(p@.len() as int);
        assert forall|k: int| 0 <= k <= count implies (#[trigger] row@[k]) == glob(rest, t@.skip(k)) by {
            assert(rest.len() == 0);
            assert(t@.skip(k).len() == count - k);
        }
    }
    let mut i: usize = p.len();
    while i > 0
        invariant
            i <= p@.len(),
            count == t@.len(),
            row@.len() == count + 1,
            forall|k: int|
                0 <= k <= count ==> (#[trigger] row@[k]) == glob(p@.skip(i as int), t@.skip(k)),
        decreases i,
    {
        i = i - 1;
        row = glob_row(&p, i, &t, &row);
    }
    assert(p@.skip(0) =~= p@);
    assert(t@.skip(0) =~= t@);
    row[0]
}

/// The matches of the pattern from `i` on, from those of the pattern behind it.
fn glob_row(p: &Vec<char>, i: usize, t: &Vec<char>, behind: &Vec<bool>) -> (r: Vec<bool>)
    requires
        i < p@.len(),
        behind@.len() == t@.len() + 1,
        forall|k: int|
            0 <= k <= t@.len() ==> (#[trigger] behind@[k]) == glob(p@.skip(i + 1), t@.skip(k)),
    ensures
        r@.len() == t@.len() + 1,
        forall|k: int|
            0 <= k <= t@.len() ==> (#[trigger] r@[k]) == glob(p@.skip(i as int), t@.skip(k)),
{
    let c = p[i];
    let lower = to_lower_first(c);
    let ghost rest = p@.skip(i as int);
    assert(rest.skip(1) =~= p@.skip(i + 1));
    assert(rest[0] == c);
    let mut r: Vec<bool> = behind.clone();
    let mut j: usize = t.len() + 1;
    while j > 0
        invariant
            j <= t@.len() + 1,
            i < p@.len(),
            r@.len() == t@.len() + 1,
            behind@.len() == t@.len() + 1,
            rest == p@.skip(i as int),
            rest.skip(1) == p@.skip(i + 1),
            rest.len() > 0,
            rest[0] == c,
            lower == lower_first(c),
            forall|k: int|
                0 <= k <= t@.len() ==> (#[trigger] behind@[k]) == glob(p@.skip(i + 1), t@.skip(k)),
            forall|k: int| j <= k <= t@.len() ==> (#[trigger] r@[k]) == glob(rest, t@.skip(k)),
        decreases j,
    {
        j = j - 1;
        let ghost here = t@.skip(j as int);
        proof {
            if j < t@.len() {
                assert(here.skip(1) =~= t@.skip(j + 1));
                assert(here[0] == t@[j as int]);
            }
        }
        let value = if c == '*' {
            behind[j] || (j < t.len() && r[j + 1])
        } else {
            j < t.len() && (c == '?' || lower == t[j]) && behind[j + 1]
        };
        r.set(j, value);
    }
    r
}

/// Verifies a hashed entry: `<base64 salt>|<base64 hmac>`.
fn hashed_matches(body: &str, host: &str, port: u16) -> (r: bool)
    ensures
        r == hash_matches(body@, host@, port),
{
    let s = chars_of(body);
    let bar = find_char(s.as_slice(), '|');
    if bar == s.len() {
        return false;
    }
    let salt_text = part(&s, 0, bar);
    assert(salt_text@ =~= s@.take(bar as int));
    let digest_text = part(&s, bar + 1, s.len());
    assert(digest_text@ =~= s@.skip(bar + 1));
    let salt = match base64_decode(salt_text.as_str()) {
        Some(salt) => salt,
        None => {
            return false;
        },
    };
    let digest = match base64_decode(digest_text.as_str()) {
        Some(digest) => digest,
        None => {
            return false;
        },
    };
    let candidate = recorded_name(host, port);
    hmac_sha1_verify(salt.as_slice(), candidate.as_str().as_bytes(), digest.as_slice())
}

/// Matches one host pattern, including the OpenSSH `*` and `?` wildcards and
/// hashed (`|1|salt|hash`) entries.
fn pattern_matches(pattern: &str, host: &str, port: u16) -> (r: bool)
    ensures
        r == pattern_hits(pattern@, host@, port),
{
    let s = chars_of(pattern);
    if s.len() >= 3 && s[0] == '|' && s[1] == '1' && s[2] == '|' {
        let body = part(&s, 3, s.len());
        assert(body@ =~= s@.skip(3));
        return hashed_matches(body.as_str(), host, port);
    }
    let (name, wanted) = split_host_port(pattern);
    if let Some(expected) = wanted {
        if expected != port {
            return false;
        }
    }
    wildcard_match(name.as_str(), host)
}

impl Clone for KnownHostEntry {
    fn clone(&self) -> (r: Self)
        ensures
            r@ == self@,
    {
        let key = self.key.clone();
        assert(key@ =~= self.key@);
        KnownHostEntry {
            marker: self.marker,
            patterns: crate::error::copy_texts(&self.patterns),
            key_type: self.key_type.clone(),
            key,
            comment: self.comment.clone(),
            line: self.line,
        }
    }
}

/// A text that is one word: not empty and without white space.
pub open spec fn solid(s: Seq<char>) -> bool {
    s.len() > 0 && forall|i: int| 0 <= i < s.len() ==> !crate::text::space(#[trigger] s[i])
}

/// An entry that is written as it is read: no field contains what separates the
/// fields.
pub open spec fn clean(e: EntryView) -> bool {
    &&& e.patterns.len() > 0
    &&& forall|i: int| 0 <= i < e.patterns.len() ==> !(#[trigger] e.patterns[i]).contains(',')
    &&& solid(joined(e.patterns, ","@))
    &&& e.patterns[0].len() > 0
    &&& e.patterns[0][0] != '#'
    &&& e.patterns[0][0] != '@'
    &&& solid(e.key_type)
    &&& e.key.len() > 0
    &&& joined(words(e.comment), " "@) == e.comment
    &&& forall|i: int|
        0 <= i < e.comment.len() && crate::text::space(#[trigger] e.comment[i]) ==> e.comment[i]
            == ' '
}

impl KnownHostEntry {
    /// Parses one `known_hosts` line.
    ///
    /// Returns `None` for blank lines and comments.
    ///
    /// # Errors
    ///
    /// Returns [`ErrorCode::Config`] when the line is malformed.
    pub fn parse(line: &str, number: usize) -> (r: RdtResult<Option<Self>>)
        ensures
            match line_parsed(line@, number as nat) {
                Ok(None) => r is Ok && r->Ok_0 is None,
                Ok(Some(e)) => r is Ok && r->Ok_0 is Some && r->Ok_0->0@ == e,
                Err(error) => r is Err && r->Err_0@ == error,
            },
    {
        let w = split_words(line);
        if w.len() == 0 {
            return Ok(None);
        }
        let first = chars_of(w[0].as_str());
        proof {
            words_are_not_empty(line@);
            assert(words(line@)[0] == w@[0]@);
        }
        if first[0] == '#' {
            return Ok(None);
        }
        let (marker, from) = if same(w[0].as_str(), "@cert-authority") {
            (Marker::CertAuthority, 1usize)
        } else if same(w[0].as_str(), "@revoked") {
            (Marker::Revoked, 1usize)
        } else {
            (Marker::Plain, 0usize)
        };
        let ghost f = if from == 1 { words(line@).skip(1) } else { words(line@) };
        assert(words(line@).skip(0) =~= words(line@));
        assert(f =~= words(line@).skip(from as int));
        assert(line_parsed(line@, number as nat) == fields_parsed(marker, f, number as nat));
        if w.len() - from < 3 {
            return Err(malformed(number));
        }
        assert(f[0] == w@[from as int]@);
        assert(f[1] == w@[from + 1]@);
        assert(f[2] == w@[from + 2]@);
        let key = match base64_decode(w[from + 2].as_str()) {
            Some(key) => key,
            None => {
                return Err(malformed(number));
            },
        };
        if key.len() == 0 {
            return Err(malformed(number));
        }
        let mut rest: Vec<String> = Vec::new();
        let mut i: usize = from + 3;
        while i < w.len()
            invariant
                from + 3 <= i <= w@.len(),
                rest@.len() == i - from - 3,
                forall|k: int| 0 <= k < rest@.len() ==> (#[trigger] rest@[k])@ == w@[k + from + 3]@,
            decreases w.len() - i,
        {
            rest.push(w[i].clone());
            i = i + 1;
        }
        assert(texts(rest@) =~= f.skip(3));
        let entry = KnownHostEntry {
            marker,
            patterns: split_at_char(w[from].as_str(), ','),
            key_type: w[from + 1].clone(),
            key,
            comment: join(&rest, " "),
            line: number,
        };
        Ok(Some(entry))
    }

    /// True when this entry applies to `host` (respecting `!` negations).
    ///
    /// `port` is the connection port; OpenSSH only records it in the pattern
    /// when it differs from 22.
    pub fn matches(&self, host: &str, port: u16) -> (r: bool)
        ensures
            r == applies(self@, host@, port),
    {
        let mut matched = false;
        let mut i: usize = 0;
        let ghost all = texts(self.patterns@);
        while i < self.patterns.len()
            invariant
                i <= self.patterns@.len(),
                all == texts(self.patterns@),
                matched == exists|k: int|
                    0 <= k < i && !negated(#[trigger] all[k]) && pattern_hits(all[k], host@, port),
                forall|k: int|
                    0 <= k < i && negated(#[trigger] all[k]) ==> !pattern_hits(
                        all[k].skip(1),
                        host@,
                        port,
                    ),
            decreases self.patterns.len() - i,
        {
            let pattern = self.patterns[i].as_str();
            assert(all[i as int] == pattern@);
            let s = chars_of(pattern);
            if s.len() > 0 && s[0] == '!' {
                let rest = part(&s, 1, s.len());
                assert(rest@ =~= pattern@.skip(1));
                if pattern_matches(rest.as_str(), host, port) {
                    assert(negated(all[i as int]));
                    return false;
                }
            } else if pattern_matches(pattern, host, port) {
                matched = true;
                assert(!negated(all[i as int]) && pattern_hits(all[i as int], host@, port));
            }
            i = i + 1;
        }
        matched
    }

    /// SHA-256 fingerprint of the stored key, in OpenSSH notation.
    pub fn fingerprint(&self) -> (r: String)
        ensures
            r@ == key_fingerprint(self.key@),
    {
        fingerprint(self.key.as_slice())
    }

    /// Serialises the entry back to `known_hosts` syntax.  What was written is read
    /// back as the same entry, under any line number.
    pub fn to_line(&self) -> (r: String)
        ensures
            r@ == entry_line(self@),
            clean(self@) ==> forall|n: nat|
                #[trigger] line_parsed(r@, n) == Ok::<Option<EntryView>, RdtErrorView>(
                    Some(EntryView { line: n, ..self@ }),
                ),
            clean(self@) ==> !r@.contains('\n') && !r@.contains('\r'),
    {
        let mut r = match self.marker {
            Marker::Plain => String::new(),
            Marker::CertAuthority => "@cert-authority ".to_owned(),
            Marker::Revoked => "@revoked ".to_owned(),
        };
        let patterns = join(&self.patterns, ",");
        r.push_str(patterns.as_str());
        r.push_str(" ");
        r.push_str(self.key_type.as_str());
        r.push_str(" ");
        let encoded = base64_encode(self.key.as_slice());
        r.push_str(encoded.as_str());
        let ghost head = r@;
        if !self.comment.as_str().is_empty() {
            r.push_str(" ");
            r.push_str(self.comment.as_str());
        }
        proof {
            assert(r@ =~= entry_line(self@));
            if clean(self@) {
                line_is_read_back(self@, encoded@);
                line_is_one(self@, encoded@);
            }
        }
        r
    }
}

/// Words are never empty.
proof fn words_are_not_empty(s: Seq<char>)
    ensures
        forall|i: int| 0 <= i < words(s).len() ==> (#[trigger] words(s)[i]).len() > 0,
        forall|i: int|
            0 <= i < words_state(s).0.len() ==> (#[trigger] words_state(s).0[i]).len() > 0,
    decreases s.len(),
{
    let done = words_state(s).0;
    if s.len() > 0 {
        let before = words_state(s.drop_last());
        words_are_not_empty(s.drop_last());
        assert forall|i: int| 0 <= i < done.len() implies (#[trigger] done[i]).len() > 0 by {
            if i < before.0.len() {
                assert(before.0[i].len() > 0);
                assert(done[i] == before.0[i]);
            }
        }
    }
    assert forall|i: int| 0 <= i < words(s).len() implies (#[trigger] words(s)[i]).len() > 0 by {
        if i < done.len() {
            assert(words(s)[i] == done[i]);
        }
    }
}

/// Words of a text that ends in a blank followed by more.
proof fn words_join(a: Seq<char>, b: Seq<char>)
    ensures
        words(a + seq![' '] + b) == words(a) + words(b),
        words_state(a + seq![' '] + b).0 == words(a) + words_state(b).0,
        words_state(a + seq![' '] + b).1 == words_state(b).1,
    decreases b.len(),
{
    let all = a + seq![' '] + b;
    if b.len() == 0 {
        assert(all.drop_last() =~= a);
        assert(all.last() == ' ');
        assert(words_state(all).0 =~= words(a) + words_state(b).0);
        assert(words(all) =~= words(a) + words(b));
    } else {
        words_join(a, b.drop_last());
        assert(all.drop_last() =~= a + seq![' '] + b.drop_last());
        assert(all.last() == b.last());
        assert(words_state(all).0 =~= words(a) + words_state(b).0);
        assert(words(all) =~= words(a) + words(b));
    }
}

/// A text without white space is its own only word.
proof fn solid_word(s: Seq<char>)
    requires
        solid(s),
    ensures
        words(s) == seq![s],
        words_state(s) == (Seq::<Seq<char>>::empty(), s),
    decreases s.len(),
{
    assert(!crate::text::space(s[s.len() - 1]));
    if s.len() == 1 {
        assert(s.drop_last() =~= Seq::<char>::empty());
        reveal_with_fuel(words_state, 2);
        assert(words_state(s).1 =~= s);
    } else {
        assert forall|i: int| 0 <= i < s.drop_last().len() implies !crate::text::space(
            #[trigger] s.drop_last()[i],
        ) by {
            assert(s.drop_last()[i] == s[i]);
        }
        solid_word(s.drop_last());
        assert(words_state(s).1 =~= s);
    }
    assert(words(s) =~= seq![s]);
}

/// Splitting a joined list gives the list back.
proof fn split_joined(parts: Seq<Seq<char>>, c: char, separator: Seq<char>)
    requires
        parts.len() > 0,
        separator == seq![c],
        forall|i: int| 0 <= i < parts.len() ==> !(#[trigger] parts[i]).contains(c),
    ensures
        split(joined(parts, separator), c) == parts,
    decreases parts.len(),
{
    if parts.len() == 1 {
        split_solid(Seq::empty(), parts[0], c);
        assert(Seq::<char>::empty() + parts[0] =~= parts[0]);
        assert(split(parts[0], c) =~= parts);
    } else {
        let before = parts.drop_last();
        assert forall|i: int| 0 <= i < before.len() implies !(#[trigger] before[i]).contains(c) by {
            assert(before[i] == parts[i]);
        }
        split_joined(before, c, separator);
        let head = joined(before, separator) + separator;
        assert(head.drop_last() =~= joined(before, separator));
        assert(head.last() == c);
        assert(split(head, c) =~= before.push(Seq::empty()));
        split_solid(head, parts.last(), c);
        assert(split(head + parts.last(), c) =~= parts);
    }
}

/// A text without the separator extends the last part.
proof fn split_solid(head: Seq<char>, s: Seq<char>, c: char)
    requires
        !s.contains(c),
    ensures
        split(head, c).len() > 0,
        split(head + s, c) == split(head, c).update(
            split(head, c).len() - 1,
            split(head, c).last() + s,
        ),
    decreases head.len() + s.len(),
{
    if s.len() == 0 {
        if head.len() > 0 {
            split_solid(head.drop_last(), s, c);
        }
        assert(head + s =~= head);
        assert(split(head, c).last() + s =~= split(head, c).last());
        assert(split(head, c).update(split(head, c).len() - 1, split(head, c).last()) =~= split(
            head,
            c,
        ));
    } else {
        assert(!s.drop_last().contains(c)) by {
            if s.drop_last().contains(c) {
                let k = choose|k: int| 0 <= k < s.drop_last().len() && s.drop_last()[k] == c;
                assert(s[k] == c);
            }
        }
        split_solid(head, s.drop_last(), c);
        assert((head + s).drop_last() =~= head + s.drop_last());
        assert((head + s).last() == s.last());
        assert(s.last() != c) by {
            assert(s[s.len() - 1] == s.last());
        }
        assert((split(head, c).last() + s.drop_last()).push(s.last()) =~= split(head, c).last() + s);
        assert(split(head + s, c) =~= split(head, c).update(
            split(head, c).len() - 1,
            split(head, c).last() + s,
        ));
    }
}

/// The text of a clean entry denotes the entry.
proof fn line_is_read_back(e: EntryView, encoded: Seq<char>)
    requires
        clean(e),
        encoded == base64_text(e.key),
        base64_decoded(encode_utf8(encoded)) == Some(e.key),
        forall|i: int|
            0 <= i < encoded.len() ==> crate::crypto::base64_char(#[trigger] encoded[i])
                || encoded[i] == '=',
        encoded.len() > 0,
    ensures
        forall|n: nat|
            #[trigger] line_parsed(entry_line(e), n) == Ok::<Option<EntryView>, RdtErrorView>(
                Some(EntryView { line: n, ..e }),
            ),
{
    reveal_strlit(" ");
    reveal_strlit(",");
    reveal_strlit("@cert-authority ");
    reveal_strlit("@cert-authority");
    reveal_strlit("@revoked ");
    reveal_strlit("@revoked");
    let blank = seq![' '];
    assert(" "@ =~= blank);
    assert(","@ =~= seq![',']);
    let patterns = joined(e.patterns, ","@);
    split_joined(e.patterns, ',', ","@);
    solid_word(encoded);
    solid_word(patterns);
    solid_word(e.key_type);
    // The fields without marker and comment.
    let two = patterns + blank + e.key_type;
    let three = two + blank + encoded;
    words_join(patterns, e.key_type);
    words_join(two, encoded);
    assert(words(three) =~= seq![patterns, e.key_type, encoded]);
    // The fields with the comment.
    let body = if e.comment.len() == 0 { three } else { three + blank + e.comment };
    if e.comment.len() > 0 {
        words_join(three, e.comment);
    } else {
        assert(words(e.comment) =~= Seq::<Seq<char>>::empty());
    }
    let f = seq![patterns, e.key_type, encoded] + words(e.comment);
    assert(words(body) =~= f);
    assert(f.skip(3) =~= words(e.comment));
    joined_starts(e.patterns);
    // The marker in front.
    let line = entry_line(e);
    match e.marker {
        Marker::Plain => {
            assert(line =~= body);
            assert(f[0] == patterns);
            assert(patterns[0] == e.patterns[0][0]);
            assert(patterns != "@cert-authority"@);
            assert(patterns != "@revoked"@);
        },
        Marker::CertAuthority => {
            let word = "@cert-authority"@;
            assert(line =~= word + blank + body);
            words_join(word, body);
            solid_word(word);
            assert(words(line) =~= seq![word] + f);
            assert(words(line).skip(1) =~= f);
        },
        Marker::Revoked => {
            let word = "@revoked"@;
            assert(line =~= word + blank + body);
            words_join(word, body);
            solid_word(word);
            assert(words(line) =~= seq![word] + f);
            assert(words(line).skip(1) =~= f);
            assert(word != "@cert-authority"@) by {
                assert(word.len() != "@cert-authority"@.len());
            }
        },
    }
}

/// A joined list starts with its first part.
proof fn joined_starts(parts: Seq<Seq<char>>)
    requires
        parts.len() > 0,
        parts[0].len() > 0,
    ensures
        joined(parts, ","@).len() > 0,
        joined(parts, ","@)[0] == parts[0][0],
    decreases parts.len(),
{
    if parts.len() > 1 {
        assert(parts.drop_last()[0] == parts[0]);
        joined_starts(parts.drop_last());
    }
}

/// The text of a clean entry is one line.
proof fn line_is_one(e: EntryView, encoded: Seq<char>)
    requires
        clean(e),
        encoded == base64_text(e.key),
        forall|i: int|
            0 <= i < encoded.len() ==> crate::crypto::base64_char(#[trigger] encoded[i])
                || encoded[i] == '=',
    ensures
        !entry_line(e).contains('\n'),
        !entry_line(e).contains('\r'),
{
    reveal_strlit(" ");
    reveal_strlit("@cert-authority ");
    reveal_strlit("@revoked ");
    let prefix = e.marker.prefix();
    let patterns = joined(e.patterns, ","@);
    let line = entry_line(e);
    assert forall|i: int| 0 <= i < line.len() implies line[i] != '\n' && line[i] != '\r' by {
        let a = prefix.len() as int;
        let b = a + patterns.len();
        let c = b + 1 + e.key_type.len();
        let d = c + 1 + encoded.len();
        if i < a {
            assert(line[i] == prefix[i]);
        } else if i < b {
            assert(line[i] == patterns[i - a]);
        } else if b < i < c {
            assert(line[i] == e.key_type[i - b - 1]);
        } else if c < i < d {
            assert(line[i] == encoded[i - c - 1]);
        } else if i > d {
            assert(line[i] == e.comment[i - d - 1]);
        }
    }
}

/// A line appended to complete lines.
proof fn line_appended(text: Seq<char>, line: Seq<char>)
    requires
        text.len() == 0 || text.last() == '\n',
        !line.contains('\n'),
        line.len() > 0 ==> line.last() != '\r',
    ensures
        lines(text + line + seq!['\n']) == lines(text).push(line),
{
    let parts = split(text, '\n');
    crate::text::split_is_not_empty(text, '\n');
    assert(parts.last() =~= Seq::<char>::empty());
    split_solid(text, line, '\n');
    let longer = text + line;
    let all = longer + seq!['\n'];
    assert(all.drop_last() =~= longer);
    assert(all.last() == '\n');
    assert(Seq::<char>::empty() + line =~= line);
    assert(split(longer, '\n') =~= parts.update(parts.len() - 1, line));
    assert(split(all, '\n') =~= parts.update(parts.len() - 1, line).push(Seq::empty()));
    assert(lines(all) =~= lines(text).push(line));
}

/// The entries of a file, one line after the other; malformed lines are skipped.
pub open spec fn entries_parsed(text: Seq<Seq<char>>) -> Seq<EntryView>
    decreases text.len(),
{
    if text.len() == 0 {
        Seq::empty()
    } else {
        let before = entries_parsed(text.drop_last());
        match line_parsed(text.last(), text.len()) {
            Ok(Some(e)) => before.push(e),
            _ => before,
        }
    }
}

/// The text of a database: one line per entry.
pub open spec fn database_text(entries: Seq<EntryView>) -> Seq<char>
    decreases entries.len(),
{
    if entries.len() == 0 {
        Seq::empty()
    } else {
        database_text(entries.drop_last()) + entry_line(entries.last()) + seq!['\n']
    }
}

/// Entries with their line numbers.
pub open spec fn numbered(entries: Seq<EntryView>) -> Seq<EntryView> {
    Seq::new(entries.len(), |i: int| EntryView { line: (i + 1) as nat, ..entries[i] })
}

/// The first entry that satisfies a condition.
pub open spec fn first_entry(entries: Seq<EntryView>, p: spec_fn(EntryView) -> bool) -> Option<
    EntryView,
>
    decreases entries.len(),
{
    if entries.len() == 0 {
        None
    } else {
        match first_entry(entries.drop_last(), p) {
            Some(e) => Some(e),
            None => if p(entries.last()) {
                Some(entries.last())
            } else {
                None
            },
        }
    }
}

/// The entry applies to the host and revokes the key.
pub open spec fn revokes(e: EntryView, host: Seq<char>, port: u16, key: Seq<u8>) -> bool {
    applies(e, host, port) && e.marker is Revoked && e.key == key
}

/// The entry applies to the host and records the key.
pub open spec fn records(e: EntryView, host: Seq<char>, port: u16, key: Seq<u8>) -> bool {
    applies(e, host, port) && e.marker is Plain && e.key == key
}

/// The entry applies to the host and holds another key of the same type.
pub open spec fn contradicts(
    e: EntryView,
    host: Seq<char>,
    port: u16,
    key_type: Seq<char>,
    key: Seq<u8>,
) -> bool {
    applies(e, host, port) && !(e.marker is Revoked) && e.key != key && e.key_type == key_type
}

/// What a database says of a server key: a revocation overrides everything, then
/// comes a recorded key, then a different key of the same type.
pub open spec fn key_status(
    entries: Seq<EntryView>,
    host: Seq<char>,
    port: u16,
    key_type: Seq<char>,
    key: Seq<u8>,
) -> StatusView {
    let changed = first_entry(
        entries,
        |e: EntryView| contradicts(e, host, port, key_type, key),
    );
    if exists|i: int| 0 <= i < entries.len() && revokes(#[trigger] entries[i], host, port, key) {
        StatusView::Revoked
    } else if exists|i: int|
        0 <= i < entries.len() && records(#[trigger] entries[i], host, port, key) {
        StatusView::Trusted
    } else if changed is Some {
        StatusView::Changed {
            known_fingerprint: key_fingerprint(changed->0.key),
            known_key_type: changed->0.key_type,
        }
    } else {
        StatusView::Unknown
    }
}

/// The entries without those that satisfy a condition.
pub open spec fn dropped(entries: Seq<EntryView>, gone: spec_fn(EntryView) -> bool) -> Seq<EntryView>
    decreases entries.len(),
{
    if entries.len() == 0 {
        Seq::empty()
    } else {
        let before = dropped(entries.drop_last(), gone);
        if gone(entries.last()) {
            before
        } else {
            before.push(entries.last())
        }
    }
}

/// The entry is superseded by a key of a type for a host.
pub open spec fn superseded(e: EntryView, host: Seq<char>, port: u16, key_type: Seq<char>) -> bool {
    e.marker is Plain && e.key_type == key_type && applies(e, host, port)
}

/// The entries after a key was recorded for a host.
pub open spec fn recorded(
    entries: Seq<EntryView>,
    host: Seq<char>,
    port: u16,
    key_type: Seq<char>,
    key: Seq<u8>,
    comment: Seq<char>,
) -> Seq<EntryView> {
    dropped(entries, |e: EntryView| superseded(e, host, port, key_type)).push(
        EntryView {
            marker: Marker::Plain,
            patterns: seq![host_name(host, port)],
            key_type,
            key,
            comment,
            line: 0,
        },
    )
}

/// The database itself.
#[derive(Debug)]
pub struct KnownHosts {
    entries: Vec<KnownHostEntry>,
    path: Option<String>,
}

impl Default for KnownHosts {
    fn default() -> (r: Self)
        ensures
            r.entries_view() == Seq::<EntryView>::empty(),
            r.file() is None,
    {
        KnownHosts::empty()
    }
}

impl Clone for KnownHosts {
    fn clone(&self) -> (r: Self)
        ensures
            r.entries_view() == self.entries_view(),
            r.file() == self.file(),
    {
        let mut entries: Vec<KnownHostEntry> = Vec::with_capacity(self.entries.len());
        let mut i: usize = 0;
        while i < self.entries.len()
            invariant
                i <= self.entries@.len(),
                entries@.len() == i,
                forall|k: int| 0 <= k < i ==> (#[trigger] entries@[k])@ == self.entries@[k]@,
            decreases self.entries.len() - i,
        {
            entries.push(self.entries[i].clone());
            i = i + 1;
        }
        assert(entry_views(entries@) =~= entry_views(self.entries@));
        KnownHosts { entries, path: self.path.clone() }
    }
}

impl KnownHosts {
    /// The entries, in file order.
    pub closed spec fn entries_view(self) -> Seq<EntryView> {
        entry_views(self.entries@)
    }

    /// The file the database is attached to.
    pub closed spec fn file(self) -> Option<Seq<char>> {
        match self.path {
            Some(path) => Some(path@),
            None => None,
        }
    }

    /// An empty database that is not attached to a file.
    pub fn empty() -> (r: Self)
        ensures
            r.entries_view() == Seq::<EntryView>::empty(),
            r.file() is None,
    {
        let r = KnownHosts { entries: Vec::new(), path: None };
        assert(r.entries_view() =~= Seq::<EntryView>::empty());
        r
    }

    /// The database of a `known_hosts` file, given its content: a missing file
    /// yields an empty, unattached database.  Malformed lines are skipped, because
    /// one bad line must not disable verification for every other host.
    pub fn load(path: &str, content: Option<&str>) -> (r: Self)
        ensures
            match content {
                Some(text) => r.entries_view() == entries_parsed(lines(text@)) && r.file()
                    == Some(path@),
                None => r.entries_view() == Seq::<EntryView>::empty() && r.file() is None,
            },
    {
        match content {
            Some(text) => KnownHosts::parse(text).with_path(path),
            None => KnownHosts::empty(),
        }
    }

    /// Parses `known_hosts` content.
    pub fn parse(text: &str) -> (r: Self)
        ensures
            r.entries_view() == entries_parsed(lines(text@)),
            r.file() is None,
    {
        let all = split_lines(text);
        let ghost whole = lines(text@);
        let mut entries: Vec<KnownHostEntry> = Vec::new();
        let mut i: usize = 0;
        assert(whole.take(0) =~= Seq::<Seq<char>>::empty());
        assert(entry_views(entries@) =~= Seq::<EntryView>::empty());
        while i < all.len()
            invariant
                i <= all@.len(),
                texts(all@) == whole,
                all@.len() == whole.len(),
                entry_views(entries@) == entries_parsed(whole.take(i as int)),
            decreases all.len() - i,
        {
            let ghost before = entries@;
            proof {
                let next = whole.take(i + 1);
                assert(next.drop_last() =~= whole.take(i as int));
                assert(next.last() == all@[i as int]@);
            }
            if let Ok(Some(entry)) = KnownHostEntry::parse(all[i].as_str(), i + 1) {
                let ghost view = entry@;
                entries.push(entry);
                assert(entry_views(entries@) =~= entry_views(before).push(view));
            }
            i = i + 1;
        }
        assert(whole.take(whole.len() as int) =~= whole);
        KnownHosts { entries, path: None }
    }

    /// Attaches the database to a file.
    pub fn with_path(self, path: &str) -> (r: Self)
        ensures
            r.entries_view() == self.entries_view(),
            r.file() == Some(path@),
    {
        let mut r = self;
        r.path = Some(path.to_owned());
        r
    }

    /// Number of parsed entries.
    pub fn len(&self) -> (r: usize)
        ensures
            r == self.entries_view().len(),
    {
        self.entries.len()
    }

    /// Whether the database holds no entries.
    pub fn is_empty(&self) -> (r: bool)
        ensures
            r == (self.entries_view().len() == 0),
    {
        self.entries.len() == 0
    }

    /// All parsed entries.
    pub fn entries(&self) -> (r: &[KnownHostEntry])
        ensures
            entry_views(r@) == self.entries_view(),
    {
        self.entries.as_slice()
    }

    /// File the database was loaded from, if any.
    pub fn path(&self) -> (r: Option<&str>)
        ensures
            match self.file() {
                Some(path) => r is Some && r->0@ == path,
                None => r is None,
            },
    {
        match &self.path {
            Some(path) => Some(path.as_str()),
            None => None,
        }
    }

    /// Checks a server key against the database.
    ///
    /// `key_type` is the algorithm name advertised by the server (for example
    /// `ssh-ed25519`) and `key` the public key blob.
    pub fn check(&self, host: &str, port: u16, key_type: &str, key: &[u8]) -> (r: HostKeyStatus)
        ensures
            r@ == key_status(self.entries_view(), host@, port, key_type@, key@),
    {
        let ghost all = entry_views(self.entries@);
        let ghost p = |e: EntryView| contradicts(e, host@, port, key_type@, key@);
        let mut trusted = false;
        let mut changed: Option<usize> = None;
        let mut i: usize = 0;
        assert(all.take(0) =~= Seq::<EntryView>::empty());
        while i < self.entries.len()
            invariant
                i <= self.entries@.len(),
                all == entry_views(self.entries@),
                all == self.entries_view(),
                p == (|e: EntryView| contradicts(e, host@, port, key_type@, key@)),
                forall|k: int| 0 <= k < i ==> !revokes(#[trigger] all[k], host@, port, key@),
                trusted == exists|k: int|
                    0 <= k < i && records(#[trigger] all[k], host@, port, key@),
                match changed {
                    Some(at) => at < i && first_entry(all.take(i as int), p) == Some(all[at as int]),
                    None => first_entry(all.take(i as int), p) is None,
                },
            decreases self.entries.len() - i,
        {
            proof {
                let next = all.take(i + 1);
                assert(next.drop_last() =~= all.take(i as int));
                assert(next.last() == all[i as int]);
                assert(all[i as int] == self.entries@[i as int]@);
            }
            let entry = &self.entries[i];
            let here = entry.matches(host, port);
            let equal = same_secret(entry.key.as_slice(), key);
            let same_type = same(entry.key_type.as_str(), key_type);
            let plain = matches!(entry.marker, Marker::Plain);
            let revoked = matches!(entry.marker, Marker::Revoked);
            if here && equal && revoked {
                assert(revokes(all[i as int], host@, port, key@));
                return HostKeyStatus::Revoked;
            }
            if here && equal && plain {
                trusted = true;
                assert(records(all[i as int], host@, port, key@));
            }
            if here && !equal && !revoked && same_type && changed.is_none() {
                changed = Some(i);
            }
            i = i + 1;
        }
        assert(all.take(all.len() as int) =~= all);
        if trusted {
            return HostKeyStatus::Trusted;
        }
        // A different key for the same algorithm is a hard warning; a different
        // algorithm (for example after a server rekey) is only "unknown".
        match changed {
            Some(at) => {
                let entry = &self.entries[at];
                HostKeyStatus::Changed {
                    known_fingerprint: entry.fingerprint(),
                    known_key_type: entry.key_type.clone(),
                }
            },
            None => HostKeyStatus::Unknown,
        }
    }

    /// Records a key the user has explicitly accepted.
    pub fn accept(&mut self, host: &str, port: u16, key_type: &str, key: &[u8], comment: &str)
        ensures
            final(self).entries_view() == recorded(
                old(self).entries_view(),
                host@,
                port,
                key_type@,
                key@,
                comment@,
            ),
            final(self).file() == old(self).file(),
    {
        // Replace any previous entry for the same host and algorithm so the file
        // does not accumulate stale keys.
        let ghost all = entry_views(self.entries@);
        let ghost gone = |e: EntryView| superseded(e, host@, port, key_type@);
        let mut kept: Vec<KnownHostEntry> = Vec::new();
        let mut i: usize = 0;
        assert(all.take(0) =~= Seq::<EntryView>::empty());
        assert(entry_views(kept@) =~= Seq::<EntryView>::empty());
        while i < self.entries.len()
            invariant
                i <= self.entries@.len(),
                all == entry_views(self.entries@),
                self.entries == old(self).entries,
                self.path == old(self).path,
                gone == (|e: EntryView| superseded(e, host@, port, key_type@)),
                entry_views(kept@) == dropped(all.take(i as int), gone),
            decreases self.entries.len() - i,
        {
            let ghost before = kept@;
            proof {
                let next = all.take(i + 1);
                assert(next.drop_last() =~= all.take(i as int));
                assert(next.last() == self.entries@[i as int]@);
            }
            let entry = &self.entries[i];
            let stale = matches!(entry.marker, Marker::Plain) && same(
                entry.key_type.as_str(),
                key_type,
            ) && entry.matches(host, port);
            if !stale {
                kept.push(entry.clone());
                assert(entry_views(kept@) =~= entry_views(before).push(all[i as int]));
            }
            i = i + 1;
        }
        assert(all.take(all.len() as int) =~= all);
        let mut patterns: Vec<String> = Vec::new();
        patterns.push(recorded_name(host, port));
        let entry = KnownHostEntry {
            marker: Marker::Plain,
            patterns,
            key_type: key_type.to_owned(),
            key: vstd::slice::slice_to_vec(key),
            comment: comment.to_owned(),
            line: 0,
        };
        let ghost before = kept@;
        let ghost view = entry@;
        assert(view.patterns =~= seq![host_name(host@, port)]);
        kept.push(entry);
        assert(entry_views(kept@) =~= entry_views(before).push(view));
        self.entries = kept;
    }

    /// Removes every entry for a host, returning how many were dropped.
    pub fn forget(&mut self, host: &str, port: u16) -> (r: usize)
        ensures
            final(self).entries_view() == dropped(
                old(self).entries_view(),
                |e: EntryView| applies(e, host@, port),
            ),
            final(self).file() == old(self).file(),
            r == old(self).entries_view().len() - final(self).entries_view().len(),
    {
        let ghost all = entry_views(self.entries@);
        let ghost gone = |e: EntryView| applies(e, host@, port);
        let mut kept: Vec<KnownHostEntry> = Vec::new();
        let mut i: usize = 0;
        assert(all.take(0) =~= Seq::<EntryView>::empty());
        assert(entry_views(kept@) =~= Seq::<EntryView>::empty());
        while i < self.entries.len()
            invariant
                i <= self.entries@.len(),
                all == entry_views(self.entries@),
                self.entries == old(self).entries,
                self.path == old(self).path,
                gone == (|e: EntryView| applies(e, host@, port)),
                entry_views(kept@) == dropped(all.take(i as int), gone),
                kept@.len() <= i,
            decreases self.entries.len() - i,
        {
            let ghost before = kept@;
            proof {
                let next = all.take(i + 1);
                assert(next.drop_last() =~= all.take(i as int));
                assert(next.last() == self.entries@[i as int]@);
            }
            let entry = &self.entries[i];
            if !entry.matches(host, port) {
                kept.push(entry.clone());
                assert(entry_views(kept@) =~= entry_views(before).push(all[i as int]));
            }
            i = i + 1;
        }
        assert(all.take(all.len() as int) =~= all);
        let count: usize = self.entries.len() - kept.len();
        self.entries = kept;
        count
    }

    /// Serialises the database.  A database of clean entries is read back as it was
    /// written, with line numbers counted from one.
    pub fn to_string_lossy(&self) -> (r: String)
        ensures
            r@ == database_text(self.entries_view()),
            (forall|i: int|
                0 <= i < self.entries_view().len() ==> clean(#[trigger] self.entries_view()[i]))
                ==> entries_parsed(lines(r@)) == numbered(self.entries_view()),
    {
        let ghost all = entry_views(self.entries@);
        let ghost tidy = forall|i: int| 0 <= i < all.len() ==> clean(#[trigger] all[i]);
        let mut out = String::new();
        let mut i: usize = 0;
        assert(all.take(0) =~= Seq::<EntryView>::empty());
        assert(lines(out@) =~= Seq::<Seq<char>>::empty());
        while i < self.entries.len()
            invariant
                i <= self.entries@.len(),
                all == entry_views(self.entries@),
                tidy == (forall|i: int| 0 <= i < all.len() ==> clean(#[trigger] all[i])),
                out@ == database_text(all.take(i as int)),
                out@.len() == 0 || out@.last() == '\n',
                tidy ==> lines(out@).len() == i,
                tidy ==> entries_parsed(lines(out@)) == numbered(all.take(i as int)),
            decreases self.entries.len() - i,
        {
            let ghost before = out@;
            proof {
                let next = all.take(i + 1);
                assert(next.drop_last() =~= all.take(i as int));
                assert(next.last() == self.entries@[i as int]@);
            }
            let line = self.entries[i].to_line();
            out.push_str(line.as_str());
            out.push('\n');
            proof {
                assert(out@ =~= before + line@ + seq!['\n']);
                if tidy {
                    let e = all[i as int];
                    assert(clean(e));
                    assert(line@.len() > 0 ==> line@.last() != '\r') by {
                        if line@.len() > 0 {
                            assert(line@[line@.len() - 1] != '\r');
                        }
                    }
                    line_appended(before, line@);
                    let after = lines(out@);
                    assert(after.drop_last() =~= lines(before));
                    assert(after.last() == line@);
                    assert(line_parsed(line@, (i + 1) as nat) == Ok::<
                        Option<EntryView>,
                        RdtErrorView,
                    >(Some(EntryView { line: (i + 1) as nat, ..e })));
                    assert(entries_parsed(after) =~= numbered(all.take(i + 1)));
                }
            }
            i = i + 1;
        }
        assert(all.take(all.len() as int) =~= all);
        out
    }

    /// The file to write the database to.
    ///
    /// # Errors
    ///
    /// Returns [`ErrorCode::Config`] when the database is not attached to a file.
    pub fn save(&self) -> (r: RdtResult<(String, String)>)
        ensures
            match self.file() {
                Some(path) => r is Ok && r->Ok_0.0@ == path && r->Ok_0.1@ == database_text(
                    self.entries_view(),
                ),
                None => r is Err && r->Err_0@ == fail(
                    ErrorCode::Config,
                    "the known hosts database has no file"@,
                ),
            },
    {
        match &self.path {
            Some(path) => Ok((path.clone(), self.to_string_lossy())),
            None => Err(RdtError::new(ErrorCode::Config, "the known hosts database has no file")),
        }
    }
}

proof fn dropped_entries(entries: Seq<EntryView>, gone: spec_fn(EntryView) -> bool)
    ensures
        forall|i: int|
            0 <= i < dropped(entries, gone).len() ==> !gone(#[trigger] dropped(entries, gone)[i])
                && entries.contains(dropped(entries, gone)[i]),
    decreases entries.len(),
{
    if entries.len() > 0 {
        let before = dropped(entries.drop_last(), gone);
        dropped_entries(entries.drop_last(), gone);
        let after = dropped(entries, gone);
        assert forall|i: int| 0 <= i < after.len() implies !gone(#[trigger] after[i])
            && entries.contains(after[i]) by {
            if i < before.len() {
                assert(after[i] == before[i]);
                let k = choose|k: int|
                    0 <= k < entries.drop_last().len() && entries.drop_last()[k] == before[i];
                assert(entries[k] == after[i]);
            } else {
                assert(entries[entries.len() - 1] == after[i]);
            }
        }
    }
}

/// A revoked key is never trusted: whatever else the database holds, a key that an
/// applying `@revoked` line names is reported as revoked.
pub proof fn revoked_keys_are_never_trusted(
    entries: Seq<EntryView>,
    at: int,
    host: Seq<char>,
    port: u16,
    key_type: Seq<char>,
    key: Seq<u8>,
)
    requires
        0 <= at < entries.len(),
        revokes(entries[at], host, port, key),
    ensures
        key_status(entries, host, port, key_type, key) is Revoked,
{
}

/// Nothing but a recorded key is trusted.
pub proof fn only_recorded_keys_are_trusted(
    entries: Seq<EntryView>,
    host: Seq<char>,
    port: u16,
    key_type: Seq<char>,
    key: Seq<u8>,
)
    requires
        key_status(entries, host, port, key_type, key) is Trusted,
    ensures
        exists|i: int| 0 <= i < entries.len() && records(#[trigger] entries[i], host, port, key),
{
}

/// After a host was forgotten no entry applies to it, so every key of it is
/// unknown.
pub proof fn forgotten_hosts_are_unknown(
    entries: Seq<EntryView>,
    host: Seq<char>,
    port: u16,
    key_type: Seq<char>,
    key: Seq<u8>,
)
    ensures
        key_status(
            dropped(entries, |e: EntryView| applies(e, host, port)),
            host,
            port,
            key_type,
            key,
        ) is Unknown,
{
    let gone = |e: EntryView| applies(e, host, port);
    let left = dropped(entries, gone);
    dropped_entries(entries, gone);
    let p = |e: EntryView| contradicts(e, host, port, key_type, key);
    nothing_found(left, p);
}

proof fn nothing_found(entries: Seq<EntryView>, p: spec_fn(EntryView) -> bool)
    requires
        forall|i: int| 0 <= i < entries.len() ==> !p(#[trigger] entries[i]),
    ensures
        first_entry(entries, p) is None,
    decreases entries.len(),
{
    if entries.len() > 0 {
        assert forall|i: int| 0 <= i < entries.drop_last().len() implies !p(
            #[trigger] entries.drop_last()[i],
        ) by {
            assert(entries.drop_last()[i] == entries[i]);
        }
        nothing_found(entries.drop_last(), p);
        assert(!p(entries[entries.len() - 1]));
    }
}

/// Whether the name under which a host is recorded is read as a plain pattern: an
/// ASCII host that does not look like a negated, hashed or bracketed pattern, nor
/// like a host with a port.
pub open spec fn recordable(host: Seq<char>, port: u16) -> bool {
    &&& is_ascii_chars(host)
    &&& port == 22 ==> {
        &&& !negated(host)
        &&& !hashed(host)
        &&& !(host.len() > 0 && host[0] == '[')
        &&& last_at(host, ':') >= 0 ==> host.take(last_at(host, ':')).contains(':')
    }
    &&& port != 22 ==> !host.contains(']')
}

proof fn lowered_facts(s: Seq<char>)
    requires
        is_ascii_chars(s),
    ensures
        crate::text::lowered(s).len() == s.len(),
        is_ascii_chars(crate::text::lowered(s)),
        forall|i: int|
            0 <= i < s.len() ==> lower_first(#[trigger] crate::text::lowered(s)[i])
                == crate::text::lowered(s)[i],
        forall|i: int, c: char|
            #![trigger crate::text::lowered(s)[i], is_mark(c)]
            0 <= i < s.len() && is_mark(c) ==> (crate::text::lowered(s)[i] == c <==> s[i] == c),
{
}

/// A character that lower case leaves alone and produces from nothing else.
pub open spec fn is_mark(c: char) -> bool {
    c == ':' || c == ']' || c == '[' || c == '!' || c == '|' || c == '1'
}

proof fn glob_reflexive(s: Seq<char>)
    requires
        forall|i: int| 0 <= i < s.len() ==> lower_first(#[trigger] s[i]) == s[i],
    ensures
        glob(s, s),
    decreases s.len(),
{
    if s.len() > 0 {
        let rest = s.skip(1);
        assert forall|i: int| 0 <= i < rest.len() implies lower_first(#[trigger] rest[i]) == rest[i] by {
            assert(rest[i] == s[i + 1]);
        }
        glob_reflexive(rest);
        assert(lower_first(s[0]) == s[0]);
        if s[0] == '*' {
            assert(glob(s, rest));
        }
    }
}

proof fn last_colon(s: Seq<char>, t: Seq<char>)
    requires
        s.len() == t.len(),
        forall|i: int| 0 <= i < s.len() ==> (s[i] == ':' <==> #[trigger] t[i] == ':'),
    ensures
        last_at(s, ':') == last_at(t, ':'),
{
    crate::text::last_at_finds(s, ':');
    crate::text::last_at_finds(t, ':');
    let a = last_at(s, ':');
    let b = last_at(t, ':');
    if a >= 0 {
        assert(t[a] == ':');
    }
    if b >= 0 {
        assert(s[b] == ':');
    }
}

/// The recorded name of a host stands for the host.
proof fn recorded_name_hits(host: Seq<char>, port: u16)
    requires
        recordable(host, port),
    ensures
        pattern_hits(host_name(host, port), host, port),
        !negated(host_name(host, port)),
{
    let low = crate::text::lowered(host);
    lowered_facts(host);
    glob_reflexive(low);
    let name = host_name(host, port);
    if port == 22 {
        assert(is_mark('!') && is_mark('|') && is_mark('1') && is_mark('[') && is_mark(':'));
        assert forall|i: int| 0 <= i < low.len() implies (host[i] == ':' <==> #[trigger] low[i]
            == ':') by {}
        last_colon(host, low);
        let colon = last_at(low, ':');
        if colon >= 0 {
            crate::text::last_at_finds(low, ':');
            let k = choose|k: int| 0 <= k < host.take(colon).len() && host.take(colon)[k] == ':';
            assert(low.take(colon)[k] == low[k]);
            assert(low[k] == ':');
            assert(low.take(colon).contains(':'));
        }
    } else {
        reveal_strlit("[");
        reveal_strlit("]:");
        assert(is_mark(']'));
        let digits = decimal(port as nat);
        crate::text::decimal_round_trip(port as nat, 65535);
        let rest = name.skip(1);
        assert(name[0] == '[');
        assert(rest =~= low + "]:"@ + digits);
        crate::text::first_at_finds(rest, ']');
        assert(rest[low.len() as int] == ']');
        assert(first_at(rest, ']') == low.len()) by {
            let k = first_at(rest, ']');
            if k < low.len() {
                assert(low[k] == ']');
                assert(host[k] == ']');
            }
        }
        assert(rest.take(low.len() as int) =~= low);
        let tail = rest.skip(low.len() as int + 1);
        assert(tail[0] == ':');
        assert(tail.skip(1) =~= digits);
    }
}

/// A recorded key is trusted afterwards, unless it is revoked.
pub proof fn recorded_keys_are_trusted(
    entries: Seq<EntryView>,
    host: Seq<char>,
    port: u16,
    key_type: Seq<char>,
    key: Seq<u8>,
    comment: Seq<char>,
)
    requires
        recordable(host, port),
        forall|i: int| 0 <= i < entries.len() ==> !revokes(#[trigger] entries[i], host, port, key),
    ensures
        key_status(
            recorded(entries, host, port, key_type, key, comment),
            host,
            port,
            key_type,
            key,
        ) is Trusted,
{
    let gone = |e: EntryView| superseded(e, host, port, key_type);
    let after = recorded(entries, host, port, key_type, key, comment);
    dropped_entries(entries, gone);
    recorded_name_hits(host, port);
    let last = after.len() - 1;
    assert(after[last].patterns[0] == host_name(host, port));
    assert(records(after[last], host, port, key));
    assert forall|i: int| 0 <= i < after.len() implies !revokes(
        #[trigger] after[i],
        host,
        port,
        key,
    ) by {
        if i < last {
            let e = dropped(entries, gone)[i];
            assert(after[i] == e);
            let k = choose|k: int| 0 <= k < entries.len() && entries[k] == e;
            assert(!revokes(entries[k], host, port, key));
        }
    }
}

proof fn others_stay(entries: Seq<EntryView>, gone: spec_fn(EntryView) -> bool, at: int)
    requires
        0 <= at < entries.len(),
        !gone(entries[at]),
    ensures
        dropped(entries, gone).contains(entries[at]),
    decreases entries.len(),
{
    let before = dropped(entries.drop_last(), gone);
    let after = dropped(entries, gone);
    if at == entries.len() - 1 {
        assert(after[after.len() - 1] == entries[at]);
    } else {
        assert(entries.drop_last()[at] == entries[at]);
        others_stay(entries.drop_last(), gone, at);
        let k = choose|k: int| 0 <= k < before.len() && before[k] == entries[at];
        assert(after[k] == entries[at]);
    }
}

/// Recording a key leaves what is known of other algorithms and of other hosts alone:
/// an entry of another key type, one that does not apply to the host, and one with a
/// marker are still listed. A key of another type that was trusted stays trusted.
pub proof fn recording_leaves_other_entries_alone(
    entries: Seq<EntryView>,
    at: int,
    host: Seq<char>,
    port: u16,
    key_type: Seq<char>,
    key: Seq<u8>,
    comment: Seq<char>,
)
    requires
        0 <= at < entries.len(),
        entries[at].key_type != key_type || !applies(entries[at], host, port)
            || entries[at].marker != Marker::Plain,
    ensures
        recorded(entries, host, port, key_type, key, comment).contains(entries[at]),
{
    let gone = |e: EntryView| superseded(e, host, port, key_type);
    others_stay(entries, gone, at);
    let kept = dropped(entries, gone);
    let after = recorded(entries, host, port, key_type, key, comment);
    let k = choose|k: int| 0 <= k < kept.len() && kept[k] == entries[at];
    assert(after[k] == entries[at]);
}

/// A key that a plain entry of another type makes trusted, for this host or another,
/// is trusted after a key was recorded as it was before.
pub proof fn recording_keeps_other_keys_trusted(
    entries: Seq<EntryView>,
    at: int,
    host: Seq<char>,
    port: u16,
    key_type: Seq<char>,
    key: Seq<u8>,
    comment: Seq<char>,
    other_host: Seq<char>,
    other_port: u16,
    asked: Seq<char>,
)
    requires
        0 <= at < entries.len(),
        entries[at].key_type != key_type || !applies(entries[at], host, port),
        entries[at].marker == Marker::Plain,
        applies(entries[at], other_host, other_port),
        key_status(entries, other_host, other_port, asked, entries[at].key) == StatusView::Trusted,
    ensures
        key_status(
            recorded(entries, host, port, key_type, key, comment),
            other_host,
            other_port,
            asked,
            entries[at].key,
        ) == StatusView::Trusted,
{
    let after = recorded(entries, host, port, key_type, key, comment);
    let gone = |e: EntryView| superseded(e, host, port, key_type);
    let wanted = entries[at].key;
    recording_leaves_other_entries_alone(entries, at, host, port, key_type, key, comment);
    dropped_entries(entries, gone);
    let k = choose|k: int| 0 <= k < after.len() && after[k] == entries[at];
    assert(records(after[k], other_host, other_port, wanted));
    assert forall|i: int| 0 <= i < after.len() implies !revokes(
        #[trigger] after[i],
        other_host,
        other_port,
        wanted,
    ) by {
        if i < dropped(entries, gone).len() {
            assert(after[i] == dropped(entries, gone)[i]);
            assert(entries.contains(after[i]));
            let n = choose|n: int| 0 <= n < entries.len() && entries[n] == after[i];
            if revokes(after[i], other_host, other_port, wanted) {
                assert(revokes(entries[n], other_host, other_port, wanted));
            }
        }
    }
}

/// Recording a key lists it last, as a plain entry for the host alone, and takes the
/// place of the earlier plain entries of the host and the type; nothing else is added.
pub proof fn recording_lists_the_key(
    entries: Seq<EntryView>,
    host: Seq<char>,
    port: u16,
    key_type: Seq<char>,
    key: Seq<u8>,
    comment: Seq<char>,
)
    ensures
        ({
            let after = recorded(entries, host, port, key_type, key, comment);
            &&& after.len() > 0
            &&& after.last().marker == Marker::Plain
            &&& after.last().key_type == key_type
            &&& after.last().key == key
            &&& after.last().comment == comment
            &&& after.last().patterns.len() == 1
            &&& port == 22 ==> after.last().patterns[0] == lower_case(host)
            &&& port != 22 ==> after.last().patterns[0] == seq!['['] + lower_case(host) + seq![
                ']',
                ':',
            ] + decimal(port as nat)
            &&& forall|i: int|
                0 <= i < after.len() - 1 ==> entries.contains(#[trigger] after[i]) && !(
                after[i].marker == Marker::Plain && after[i].key_type == key_type && applies(
                    after[i],
                    host,
                    port,
                ))
        }),
{
    let gone = |e: EntryView| superseded(e, host, port, key_type);
    let after = recorded(entries, host, port, key_type, key, comment);
    dropped_entries(entries, gone);
    reveal_strlit("[");
    reveal_strlit("]:");
    assert("["@ =~= seq!['[']);
    assert("]:"@ =~= seq![']', ':']);
    assert forall|i: int| 0 <= i < after.len() - 1 implies entries.contains(#[trigger] after[i]) && !(
    after[i].marker == Marker::Plain && after[i].key_type == key_type && applies(
        after[i],
        host,
        port,
    )) by {
        assert(after[i] == dropped(entries, gone)[i]);
    }
}

/// Forgetting a host takes the entries that apply to it and no others.
pub proof fn forgetting_takes_one_host(
    entries: Seq<EntryView>,
    host: Seq<char>,
    port: u16,
    e: EntryView,
)
    ensures
        dropped(entries, |x: EntryView| applies(x, host, port)).contains(e) <==> entries.contains(e)
            && !applies(e, host, port),
{
    let gone = |x: EntryView| applies(x, host, port);
    let left = dropped(entries, gone);
    dropped_entries(entries, gone);
    if left.contains(e) {
        let k = choose|k: int| 0 <= k < left.len() && left[k] == e;
        assert(!gone(left[k]));
    }
    if entries.contains(e) && !applies(e, host, port) {
        let k = choose|k: int| 0 <= k < entries.len() && entries[k] == e;
        others_stay(entries, gone, k);
    }
}

proof fn first_is_found(entries: Seq<EntryView>, p: spec_fn(EntryView) -> bool, at: int)
    requires
        0 <= at < entries.len(),
        p(entries[at]),
        forall|i: int| 0 <= i < at ==> !p(#[trigger] entries[i]),
    ensures
        first_entry(entries, p) == Some(entries[at]),
    decreases entries.len(),
{
    let front = entries.drop_last();
    if at == entries.len() - 1 {
        assert forall|i: int| 0 <= i < front.len() implies !p(#[trigger] front[i]) by {
            assert(front[i] == entries[i]);
        }
        nothing_found(front, p);
    } else {
        assert forall|i: int| 0 <= i < at implies !p(#[trigger] front[i]) by {
            assert(front[i] == entries[i]);
        }
        first_is_found(front, p, at);
    }
}

/// What a database says of a key is read off the entries that apply to the host: a
/// `@revoked` entry with the key decides first, then a plain entry with the key, then
/// the first entry of the same type with another key that is not revoked; without any
/// of these the key is unknown.
pub proof fn entries_decide_the_status(
    entries: Seq<EntryView>,
    host: Seq<char>,
    port: u16,
    key_type: Seq<char>,
    key: Seq<u8>,
    at: int,
)
    requires
        0 <= at < entries.len(),
        applies(entries[at], host, port),
    ensures
        entries[at].marker == Marker::Revoked && entries[at].key == key ==> key_status(
            entries,
            host,
            port,
            key_type,
            key,
        ) == StatusView::Revoked,
        entries[at].marker == Marker::Plain && entries[at].key == key && (forall|i: int|
            0 <= i < entries.len() && applies(#[trigger] entries[i], host, port)
                && entries[i].marker == Marker::Revoked ==> entries[i].key != key) ==> key_status(
            entries,
            host,
            port,
            key_type,
            key,
        ) == StatusView::Trusted,
        entries[at].marker != Marker::Revoked && entries[at].key_type == key_type
            && entries[at].key != key && (forall|i: int|
            0 <= i < entries.len() && applies(#[trigger] entries[i], host, port) && entries[i].key
                == key ==> entries[i].marker == Marker::CertAuthority) && (forall|i: int|
            0 <= i < at && applies(#[trigger] entries[i], host, port) && entries[i].marker
                != Marker::Revoked && entries[i].key != key ==> entries[i].key_type != key_type)
            ==> key_status(entries, host, port, key_type, key) == (StatusView::Changed {
            known_fingerprint: key_fingerprint(entries[at].key),
            known_key_type: key_type,
        }),
{
    let p = |e: EntryView| contradicts(e, host, port, key_type, key);
    if entries[at].marker == Marker::Revoked && entries[at].key == key {
        assert(revokes(entries[at], host, port, key));
    }
    if entries[at].marker == Marker::Plain && entries[at].key == key {
        assert(records(entries[at], host, port, key));
    }
    if p(entries[at]) && (forall|i: int|
        0 <= i < at && applies(#[trigger] entries[i], host, port) && entries[i].marker
            != Marker::Revoked && entries[i].key != key ==> entries[i].key_type != key_type) {
        assert forall|i: int| 0 <= i < at implies !p(#[trigger] entries[i]) by {}
        first_is_found(entries, p, at);
    }
}

/// A key of which no applying entry says anything is unknown: none holds the key, and
/// none holds another of the same type.
pub proof fn unmentioned_keys_are_unknown(
    entries: Seq<EntryView>,
    host: Seq<char>,
    port: u16,
    key_type: Seq<char>,
    key: Seq<u8>,
)
    requires
        forall|i: int|
            0 <= i < entries.len() && applies(#[trigger] entries[i], host, port) ==> entries[i].key
                != key && (entries[i].key_type != key_type || entries[i].marker == Marker::Revoked),
    ensures
        key_status(entries, host, port, key_type, key) == StatusView::Unknown,
{
    let p = |e: EntryView| contradicts(e, host, port, key_type, key);
    assert forall|i: int| 0 <= i < entries.len() implies !p(#[trigger] entries[i]) by {}
    nothing_found(entries, p);
}

/// A negated pattern that stands for the host excludes it, whatever the other
/// patterns are; and without a pattern that stands for it an entry does not apply.
pub proof fn negated_patterns_exclude(e: EntryView, host: Seq<char>, port: u16, at: int)
    requires
        0 <= at < e.patterns.len(),
        e.patterns[at].len() > 0,
        e.patterns[at][0] == '!',
        pattern_hits(e.patterns[at].skip(1), host, port),
    ensures
        !applies(e, host, port),
{
    assert(negated(e.patterns[at]));
}

/// An entry applies as soon as one of its patterns stands for the host, if none of
/// them is negated.
pub proof fn any_pattern_suffices(e: EntryView, host: Seq<char>, port: u16, at: int)
    requires
        0 <= at < e.patterns.len(),
        forall|i: int|
            0 <= i < e.patterns.len() ==> (#[trigger] e.patterns[i]).len() == 0 || e.patterns[i][0]
                != '!',
    ensures
        pattern_hits(e.patterns[at], host, port) ==> applies(e, host, port),
        (forall|i: int|
            0 <= i < e.patterns.len() ==> !pattern_hits(#[trigger] e.patterns[i], host, port))
            ==> !applies(e, host, port),
{
    assert(e.patterns[at].len() == 0 || e.patterns[at][0] != '!');
}

/// A star stands for any run of characters, a question mark for any one, and any
/// other character for itself in lower case.
pub proof fn wildcards_stand_for_text(rest: Seq<char>, text: Seq<char>, c: char)
    ensures
        glob(Seq::<char>::empty(), text) <==> text.len() == 0,
        glob(seq!['*'] + rest, text) <==> exists|k: int|
            0 <= k <= text.len() && #[trigger] glob(rest, text.skip(k)),
        glob(seq!['?'] + rest, text) <==> text.len() > 0 && glob(rest, text.skip(1)),
        c != '*' && c != '?' ==> (glob(seq![c] + rest, text) <==> text.len() > 0 && text[0]
            == lower_first(c) && glob(rest, text.skip(1))),
{
    assert((seq!['?'] + rest).skip(1) =~= rest);
    assert((seq![c] + rest).skip(1) =~= rest);
    star_stands_for_any_run(rest, text);
}

proof fn star_stands_for_any_run(rest: Seq<char>, text: Seq<char>)
    ensures
        glob(seq!['*'] + rest, text) <==> exists|k: int|
            0 <= k <= text.len() && #[trigger] glob(rest, text.skip(k)),
    decreases text.len(),
{
    let pattern = seq!['*'] + rest;
    assert(pattern.skip(1) =~= rest);
    assert(text.skip(0) =~= text);
    assert(pattern[0] == '*');
    assert(glob(rest, text) == glob(rest, text.skip(0)));
    if text.len() == 0 {
        if exists|k: int| 0 <= k <= text.len() && #[trigger] glob(rest, text.skip(k)) {
            let k = choose|k: int| 0 <= k <= text.len() && #[trigger] glob(rest, text.skip(k));
            assert(k == 0);
        }
    } else {
        let short = text.skip(1);
        star_stands_for_any_run(rest, short);
        if glob(pattern, short) {
            let k = choose|k: int| 0 <= k <= short.len() && #[trigger] glob(rest, short.skip(k));
            assert(short.skip(k) =~= text.skip(k + 1));
            assert(glob(rest, text.skip(k + 1)));
        }
        if exists|k: int| 0 <= k <= text.len() && #[trigger] glob(rest, text.skip(k)) {
            let k = choose|k: int| 0 <= k <= text.len() && #[trigger] glob(rest, text.skip(k));
            if k > 0 {
                assert(short.skip(k - 1) =~= text.skip(k));
                assert(glob(rest, short.skip(k - 1)));
            }
        }
    }
}

/// A pattern without wildcards stands for one name: its own in lower case.
pub proof fn plain_patterns_stand_for_themselves(pattern: Seq<char>, text: Seq<char>)
    requires
        forall|i: int| 0 <= i < pattern.len() ==> #[trigger] pattern[i] != '*' && pattern[i] != '?',
    ensures
        glob(pattern, text) <==> text.len() == pattern.len() && forall|i: int|
            0 <= i < text.len() ==> #[trigger] text[i] == lower_first(pattern[i]),
    decreases pattern.len(),
{
    if pattern.len() > 0 && text.len() > 0 {
        let p = pattern.skip(1);
        let t = text.skip(1);
        assert forall|i: int| 0 <= i < p.len() implies #[trigger] p[i] != '*' && p[i] != '?' by {
            assert(p[i] == pattern[i + 1]);
        }
        plain_patterns_stand_for_themselves(p, t);
        assert(pattern[0] != '*' && pattern[0] != '?');
        if glob(pattern, text) {
            assert forall|i: int| 0 <= i < text.len() implies #[trigger] text[i] == lower_first(
                pattern[i],
            ) by {
                if i > 0 {
                    assert(t[i - 1] == lower_first(p[i - 1]));
                }
            }
        }
        if text.len() == pattern.len() && (forall|i: int|
            0 <= i < text.len() ==> #[trigger] text[i] == lower_first(pattern[i])) {
            assert(text[0] == lower_first(pattern[0]));
            assert forall|i: int| 0 <= i < t.len() implies #[trigger] t[i] == lower_first(p[i]) by {
                assert(text[i + 1] == lower_first(pattern[i + 1]));
            }
        }
    }
}

/// A pattern in brackets with a port stands for that port alone, and so does a name
/// with one colon and a port; a name without a port, and an address with several
/// colons, stand for every port.
pub proof fn ports_are_part_of_patterns(name: Seq<char>, port: u16)
    ensures
        !name.contains(']') ==> host_and_port(
            seq!['['] + name + seq![']', ':'] + decimal(port as nat),
        ) == (name, Some(port)),
        !name.contains(']') ==> host_and_port(seq!['['] + name + seq![']']) == (name, None::<u16>),
        !name.contains(':') && !(name.len() > 0 && name[0] == '[') ==> host_and_port(name) == (
            name,
            None::<u16>,
        ),
        name.len() > 0 && !name.contains(':') && name[0] != '[' ==> host_and_port(
            name + seq![':'] + decimal(port as nat),
        ) == (name, Some(port)),
        name.len() > 0 && name[0] != '[' && last_at(name, ':') >= 0 && name.take(
            last_at(name, ':'),
        ).contains(':') ==> host_and_port(name) == (name, None::<u16>),
{
    let digits = decimal(port as nat);
    crate::text::decimal_round_trip(port as nat, 65535);
    crate::text::last_at_finds(name, ':');
    if !name.contains(']') {
        let tail = seq![']', ':'] + digits;
        let rest = name + tail;
        let p = seq!['['] + name + seq![']', ':'] + digits;
        assert(p.skip(1) =~= rest);
        first_behind(name, ']', tail);
        assert(rest.skip(name.len() as int + 1) =~= seq![':'] + digits);
        assert((seq![':'] + digits).skip(1) =~= digits);
        assert(rest.take(name.len() as int) =~= name);
        let q = seq!['['] + name + seq![']'];
        let short = name + seq![']'];
        assert(q.skip(1) =~= short);
        first_behind(name, ']', seq![']']);
        assert(short.take(name.len() as int) =~= name);
        assert(short.skip(name.len() as int + 1) =~= Seq::<char>::empty());
    }
    if name.len() > 0 && !name.contains(':') && name[0] != '[' {
        let p = name + seq![':'] + digits;
        crate::text::last_at_finds(p, ':');
        assert(p[name.len() as int] == ':');
        assert(p.contains(':'));
        assert forall|k: int| name.len() < k < p.len() implies p[k] != ':' by {
            assert(p[k] == digits[k - name.len() - 1]);
            assert(crate::text::is_digit(digits[k - name.len() - 1]));
        }
        assert(last_at(p, ':') == name.len());
        assert(p.take(name.len() as int) =~= name);
        assert(p.skip(name.len() as int + 1) =~= digits);
    }
}

proof fn first_behind(name: Seq<char>, c: char, tail: Seq<char>)
    requires
        !name.contains(c),
        tail.len() > 0,
        tail[0] == c,
    ensures
        first_at(name + tail, c) == name.len(),
{
    let s = name + tail;
    crate::text::first_at_finds(s, c);
    assert(s[name.len() as int] == c);
    assert(s.contains(c));
    let at = first_at(s, c);
    if at < name.len() {
        assert(name[at] == c);
    }
}

/// A plain pattern stands for a host under the rules of its parts: its port, if it
/// has one, and its name.
pub proof fn patterns_stand_for_name_and_port(pattern: Seq<char>, host: Seq<char>, port: u16)
    requires
        !(pattern.len() >= 3 && pattern[0] == '|' && pattern[1] == '1' && pattern[2] == '|'),
    ensures
        host_and_port(pattern).1 is None ==> (pattern_hits(pattern, host, port) <==> glob(
            host_and_port(pattern).0,
            lower_case(host),
        )),
        host_and_port(pattern).1 is Some ==> (pattern_hits(pattern, host, port) <==> port
            == host_and_port(pattern).1->0 && glob(host_and_port(pattern).0, lower_case(host))),
{
}

/// A hashed pattern stands for a host when its digest is the keyed hash of the name
/// under which the host is recorded: the host itself for port 22, and the host in
/// brackets with the port otherwise.
pub proof fn hashed_patterns_stand_for_one_name(
    salt: Seq<char>,
    digest: Seq<char>,
    host: Seq<char>,
    port: u16,
)
    requires
        !salt.contains('|'),
        base64_decoded(encode_utf8(salt)) is Some,
        base64_decoded(encode_utf8(digest)) is Some,
    ensures
        pattern_hits(seq!['|', '1', '|'] + salt + seq!['|'] + digest, host, port) <==> (
        base64_decoded(encode_utf8(digest))->0 == hmac_sha1(
            base64_decoded(encode_utf8(salt))->0,
            encode_utf8(
                if port == 22 {
                    lower_case(host)
                } else {
                    seq!['['] + lower_case(host) + seq![']', ':'] + decimal(port as nat)
                },
            ),
        )),
{
    let p = seq!['|', '1', '|'] + salt + seq!['|'] + digest;
    let body = p.skip(3);
    let tail = seq!['|'] + digest;
    assert(body =~= salt + tail);
    first_behind(salt, '|', tail);
    assert(body.take(salt.len() as int) =~= salt);
    assert(body.skip(salt.len() as int + 1) =~= digest);
    reveal_strlit("[");
    reveal_strlit("]:");
    assert("["@ =~= seq!['[']);
    assert("]:"@ =~= seq![']', ':']);
}

/// A line is read by its words: patterns parted by commas, the type, the key in
/// base64 and the comment, behind the marker if there is one. A line without words
/// and one whose first word starts with a number sign say nothing.
pub proof fn lines_are_read_by_their_words(text: Seq<char>, line: nat)
    ensures
        words(text).len() == 0 ==> line_parsed(text, line) == Ok::<
            Option<EntryView>,
            RdtErrorView,
        >(None),
        words(text).len() > 0 && words(text)[0].len() > 0 && words(text)[0][0] == '#'
            ==> line_parsed(text, line) == Ok::<Option<EntryView>, RdtErrorView>(None),
        ({
            let w = words(text);
            let marker = if w.len() > 0 && w[0] == "@revoked"@ {
                Marker::Revoked
            } else if w.len() > 0 && w[0] == "@cert-authority"@ {
                Marker::CertAuthority
            } else {
                Marker::Plain
            };
            let f = if marker == Marker::Plain {
                w
            } else {
                w.skip(1)
            };
            let read = line_parsed(text, line);
            w.len() > 0 && w[0].len() > 0 && w[0][0] != '#' ==> {
                &&& read is Ok <==> f.len() >= 3 && base64_decoded(encode_utf8(f[2])) is Some
                    && base64_decoded(encode_utf8(f[2]))->0.len() > 0
                &&& read is Ok ==> {
                    &&& read->Ok_0 is Some
                    &&& read->Ok_0->0.marker == marker
                    &&& read->Ok_0->0.patterns == split(f[0], ',')
                    &&& read->Ok_0->0.key_type == f[1]
                    &&& Some(read->Ok_0->0.key) == base64_decoded(encode_utf8(f[2]))
                    &&& read->Ok_0->0.comment == joined(f.skip(3), " "@)
                }
                &&& read is Err ==> read->Err_0.code == ErrorCode::Config
            }
        }),
{
    reveal_strlit("@revoked");
    reveal_strlit("@cert-authority");
}

/// Of a file every line that can be read counts, in order, and every other line is
/// passed over.
pub proof fn readable_lines_count(text: Seq<Seq<char>>, line: Seq<char>)
    ensures
        entries_parsed(Seq::<Seq<char>>::empty()) == Seq::<EntryView>::empty(),
        match line_parsed(line, text.len() + 1) {
            Ok(Some(e)) => entries_parsed(text.push(line)) == entries_parsed(text).push(e),
            _ => entries_parsed(text.push(line)) == entries_parsed(text),
        },
{
    assert(text.push(line).drop_last() =~= text);
}

/// A fingerprint is the SHA-256 of the key in unpadded base64 behind `SHA256:`.
pub proof fn fingerprints_are_digests(key: Seq<u8>)
    ensures
        key_fingerprint(key) == "SHA256:"@ + base64_unpadded(sha256_digest(key)),
{
}

/// A line holds the marker if there is one, the patterns parted by commas, the type, the
/// key in base64 and the comment if there is one, parted by blanks.
pub proof fn entries_are_written_in_one_line(e: EntryView)
    ensures
        e.marker == Marker::Plain && e.comment.len() == 0 ==> entry_line(e) == joined(
            e.patterns,
            ","@,
        ) + " "@ + e.key_type + " "@ + base64_text(e.key),
        e.marker == Marker::Plain && e.comment.len() > 0 ==> entry_line(e) == joined(
            e.patterns,
            ","@,
        ) + " "@ + e.key_type + " "@ + base64_text(e.key) + " "@ + e.comment,
        e.marker == Marker::Revoked && e.comment.len() == 0 ==> entry_line(e) == "@revoked "@
            + joined(e.patterns, ","@) + " "@ + e.key_type + " "@ + base64_text(e.key),
        e.marker == Marker::CertAuthority && e.comment.len() == 0 ==> entry_line(e)
            == "@cert-authority "@ + joined(e.patterns, ","@) + " "@ + e.key_type + " "@
            + base64_text(e.key),
{
    if e.marker == Marker::Plain && e.comment.len() == 0 {
        assert(entry_line(e) =~= joined(e.patterns, ","@) + " "@ + e.key_type + " "@ + base64_text(
            e.key,
        ));
    }
    if e.marker == Marker::Plain && e.comment.len() > 0 {
        assert(entry_line(e) =~= joined(e.patterns, ","@) + " "@ + e.key_type + " "@ + base64_text(
            e.key,
        ) + " "@ + e.comment);
    }
    if e.marker == Marker::Revoked && e.comment.len() == 0 {
        assert(entry_line(e) =~= "@revoked "@ + joined(e.patterns, ","@) + " "@ + e.key_type + " "@
            + base64_text(e.key));
    }
    if e.marker == Marker::CertAuthority && e.comment.len() == 0 {
        assert(entry_line(e) =~= "@cert-authority "@ + joined(e.patterns, ","@) + " "@ + e.key_type
            + " "@ + base64_text(e.key));
    }
}

/// A database is written one entry to a line, in order.
pub proof fn databases_are_written_line_by_line(entries: Seq<EntryView>, e: EntryView)
    ensures
        database_text(Seq::empty()) == Seq::<char>::empty(),
        database_text(entries.push(e)) == database_text(entries) + entry_line(e) + seq!['\n'],
{
    assert(entries.push(e).drop_last() =~= entries);
}

/// A status is fatal when the key changed, was revoked or is excluded, and not when it is
/// trusted or unknown.
pub proof fn fatal_statuses(status: StatusView)
    ensures
        status.fatal() <==> status is Changed || status is Revoked || status is Excluded,
        status.fatal() <==> !(status is Trusted) && !(status is Unknown),
{
}

/// Entries are numbered by their lines, from one on, and are otherwise as they were.
pub proof fn entries_are_numbered_from_one(entries: Seq<EntryView>, i: int)
    requires
        0 <= i < entries.len(),
    ensures
        numbered(entries).len() == entries.len(),
        numbered(entries)[i].line == i + 1,
        numbered(entries)[i].patterns == entries[i].patterns,
        numbered(entries)[i].key_type == entries[i].key_type,
        numbered(entries)[i].key == entries[i].key,
        numbered(entries)[i].marker == entries[i].marker,
        numbered(entries)[i].comment == entries[i].comment,
{
}

} // verus!
