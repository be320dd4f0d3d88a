//! Secret redaction helpers.
//!
//! Redaction is applied in two places: explicitly by code that formats
//! potentially sensitive values, and defensively by the logging layer, which
//! scrubs every line it writes for both known secret values and for the usual
//! `key=value` shapes used by tools such as OpenSSH and libcurl.
use crate::text::{
    chars_of, contains, ends_with, eq_ignore_ascii_case, is_space, lowered, occurs, occurs_at,
    replace, replaced, same, space, text_of, texts,
};
use vstd::prelude::*;

verus! {

/// Marker written in place of a secret.
pub const REDACTED: &'static str = "<redacted>";

/// Field names whose values are treated as secret by [`Redactor`].
pub const SENSITIVE_KEYS: [&'static str; 16] = [
    "password",
    "passwd",
    "passphrase",
    "pass",
    "secret",
    "token",
    "apikey",
    "api_key",
    "authorization",
    "auth",
    "credential",
    "credentials",
    "private_key",
    "privatekey",
    "otp",
    "pin",
];

/// A text with every occurrence of a secret replaced by the marker.
pub open spec fn secret_masked(text: Seq<char>, secret: Seq<char>) -> Seq<char> {
    replaced(text, secret, REDACTED@)
}

/// Replaces every occurrence of `secret` in `text` with [`REDACTED`].
pub fn redact_secret_in(text: &str, secret: &str) -> (r: String)
    ensures
        r@ == secret_masked(text@, secret@),
{
    if secret.is_empty() {
        return text.to_owned();
    }
    replace(text, secret, REDACTED)
}

/// A character that a key may contain.
pub open spec fn key_char(c: char) -> bool {
    'a' <= c <= 'z' || 'A' <= c <= 'Z' || '0' <= c <= '9' || c == '_' || c == '-'
}

/// Where the run of key characters that ends before `i` starts.
pub open spec fn key_start(s: Seq<char>, i: int) -> int
    decreases i,
{
    if 0 < i <= s.len() && key_char(s[i - 1]) {
        key_start(s, i - 1)
    } else {
        i
    }
}

/// The key in front of a separator at `i`.
pub open spec fn key_before(s: Seq<char>, i: int) -> Seq<char> {
    s.subrange(key_start(s, i), i)
}

/// Whether a key names something secret: it is one of the known names in any
/// case, or ends with one.
pub open spec fn sensitive(key: Seq<char>) -> bool {
    exists|k: int|
        0 <= k < SENSITIVE_KEYS@.len() && (lowered(key) == lowered(
            (#[trigger] SENSITIVE_KEYS@[k])@,
        ) || SENSITIVE_KEYS@[k]@.is_suffix_of(key))
}

/// Whether a character ends a value.  A header style value takes the rest of
/// the line; a `key=value` pair stops at the next delimiter.
pub open spec fn ends_value(c: char, header: bool) -> bool {
    if header {
        c == '\n'
    } else {
        space(c) || c == ',' || c == ';'
    }
}

/// Where the value that starts at `i` ends.
pub open spec fn value_end(s: Seq<char>, i: int, header: bool) -> int
    decreases s.len() - i,
{
    if 0 <= i < s.len() && !ends_value(s[i], header) {
        value_end(s, i + 1, header)
    } else {
        i
    }
}

/// Where the value that starts at `i` ends, if it belongs to a sensitive key: one
/// in front of `=`, or of a colon and a space.  Where none starts, `i` itself.
pub open spec fn secret_end(s: Seq<char>, i: int) -> int {
    if 1 <= i <= s.len() && s[i - 1] == '=' && sensitive(key_before(s, i - 1)) {
        value_end(s, i, false)
    } else if 2 <= i <= s.len() && s[i - 1] == ' ' && s[i - 2] == ':' && sensitive(
        key_before(s, i - 2),
    ) {
        value_end(s, i, true)
    } else {
        i
    }
}

/// Whether the character at `k` belongs to the value of a sensitive key.
pub open spec fn secret_at(s: Seq<char>, k: int) -> bool {
    exists|m: int| 0 <= m <= k < #[trigger] secret_end(s, m)
}

/// What is shown for the character at `k`: itself, or the marker once for a run of
/// characters that belong to a sensitive value.
pub open spec fn shown_at(s: Seq<char>, k: int) -> Seq<char> {
    if !secret_at(s, k) {
        seq![s[k]]
    } else if k > 0 && secret_at(s, k - 1) {
        Seq::empty()
    } else {
        REDACTED@
    }
}

/// What is shown for the characters of a text from `from` up to `to`.
pub open spec fn masked_span(s: Seq<char>, from: int, to: int) -> Seq<char>
    decreases to - from,
{
    if from >= to {
        Seq::empty()
    } else {
        shown_at(s, from) + masked_span(s, from + 1, to)
    }
}

/// A text with the values of sensitive keys masked.
pub open spec fn pairs_masked(s: Seq<char>) -> Seq<char> {
    masked_span(s, 0, s.len() as int)
}

/// No sensitive value goes on at `i` that started earlier.
pub open spec fn between_values(s: Seq<char>, i: int) -> bool {
    forall|m: int| 0 <= m < i ==> #[trigger] secret_end(s, m) <= i
}

proof fn value_end_bounds(s: Seq<char>, i: int, header: bool)
    requires
        0 <= i <= s.len(),
    ensures
        i <= value_end(s, i, header) <= s.len(),
        forall|k: int| i <= k < value_end(s, i, header) ==> !ends_value(#[trigger] s[k], header),
        value_end(s, i, header) < s.len() ==> ends_value(s[value_end(s, i, header)], header),
    decreases s.len() - i,
{
    if i < s.len() && !ends_value(s[i], header) {
        value_end_bounds(s, i + 1, header);
    }
}

/// What a sensitive value looks like: where it may start, what it holds and what
/// ends it.
proof fn secret_end_bounds(s: Seq<char>, i: int)
    requires
        0 <= i <= s.len(),
    ensures
        i <= secret_end(s, i) <= s.len(),
        secret_end(s, i) > i ==> {
            let header = s[i - 1] != '=';
            &&& i >= 1
            &&& header ==> i >= 2 && s[i - 1] == ' ' && s[i - 2] == ':'
            &&& forall|k: int| i <= k < secret_end(s, i) ==> !ends_value(#[trigger] s[k], header)
            &&& secret_end(s, i) < s.len() ==> ends_value(s[secret_end(s, i)], header)
        },
{
    value_end_bounds(s, i, false);
    value_end_bounds(s, i, true);
}

/// A sensitive value that starts inside another ends with it at the latest.
proof fn inner_value_ends(s: Seq<char>, i: int, m: int)
    requires
        0 <= i < m < secret_end(s, i) <= s.len(),
    ensures
        secret_end(s, m) <= secret_end(s, i),
{
    secret_end_bounds(s, i);
    secret_end_bounds(s, m);
    let end = secret_end(s, i);
    if secret_end(s, m) > end {
        assert(!ends_value(s[end], s[m - 1] != '='));
        assert(!ends_value(s[m - 1], s[i - 1] != '='));
        assert(space('\n'));
        assert(space(' '));
    }
}

/// A sensitive value that starts at `i` shows as one marker.
proof fn value_shows_the_marker(s: Seq<char>, i: int)
    requires
        0 <= i < s.len(),
        between_values(s, i),
        secret_end(s, i) > i,
    ensures
        secret_end(s, i) <= s.len(),
        between_values(s, secret_end(s, i)),
        masked_span(s, i, s.len() as int) == REDACTED@ + masked_span(
            s,
            secret_end(s, i),
            s.len() as int,
        ),
{
    let end = secret_end(s, i);
    secret_end_bounds(s, i);
    assert forall|m: int| 0 <= m < end implies #[trigger] secret_end(s, m) <= end by {
        if i < m {
            inner_value_ends(s, i, m);
        }
    }
    assert(secret_at(s, i));
    if i > 0 && secret_at(s, i - 1) {
        let m = choose|m: int| 0 <= m <= i - 1 < #[trigger] secret_end(s, m);
        secret_end_bounds(s, m);
        assert(secret_end(s, m) == i);
        assert(!ends_value(s[i - 1], s[m - 1] != '='));
        assert(!ends_value(s[i], s[i - 1] != '='));
        assert(space('\n'));
        assert(space(' '));
        assert(false);
    }
    hidden_run(s, i, i + 1, end);
}

/// Within a sensitive value nothing more is shown.
proof fn hidden_run(s: Seq<char>, i: int, k: int, end: int)
    requires
        0 <= i < k <= end <= s.len(),
        secret_end(s, i) == end,
    ensures
        masked_span(s, k, s.len() as int) == masked_span(s, end, s.len() as int),
    decreases end - k,
{
    if k < end {
        hidden_run(s, i, k + 1, end);
        assert(secret_at(s, k));
        assert(secret_at(s, k - 1));
        assert(Seq::<char>::empty() + masked_span(s, k + 1, s.len() as int) =~= masked_span(
            s,
            k + 1,
            s.len() as int,
        ));
    }
}

/// A character where no sensitive value stands is shown.
proof fn other_character_stays(s: Seq<char>, i: int)
    requires
        0 <= i < s.len(),
        between_values(s, i),
        secret_end(s, i) <= i,
    ensures
        between_values(s, i + 1),
        masked_span(s, i, s.len() as int) == seq![s[i]] + masked_span(s, i + 1, s.len() as int),
{
    assert(!secret_at(s, i));
}

/// A text with the known secrets masked, one after the other.
pub open spec fn secrets_masked(text: Seq<char>, secrets: Seq<Seq<char>>) -> Seq<char>
    decreases secrets.len(),
{
    if secrets.len() == 0 {
        text
    } else {
        secret_masked(secrets_masked(text, secrets.drop_last()), secrets.last())
    }
}

/// What a redactor that knows `secrets` makes of a text.
pub open spec fn redacted(secrets: Seq<Seq<char>>, text: Seq<char>) -> Seq<char> {
    pairs_masked(secrets_masked(text, secrets))
}

/// Streaming redactor that scrubs known secret values and `key=value` pairs
/// whose key looks sensitive.
#[derive(Debug)]
pub struct Redactor {
    secrets: Vec<String>,
}

impl Clone for Redactor {
    fn clone(&self) -> (r: Self)
        ensures
            r.secrets() == self.secrets(),
    {
        let mut secrets: Vec<String> = Vec::new();
        let mut i: usize = 0;
        while i < self.secrets.len()
            invariant
                i <= self.secrets@.len(),
                secrets@.len() == i,
                forall|k: int| 0 <= k < i ==> (#[trigger] secrets@[k])@ == self.secrets@[k]@,
            decreases self.secrets.len() - i,
        {
            secrets.push(self.secrets[i].clone());
            i = i + 1;
        }
        assert(texts(secrets@) =~= texts(self.secrets@));
        Redactor { secrets }
    }
}

impl Default for Redactor {
    fn default() -> (r: Self)
        ensures
            r.secrets() == Seq::<Seq<char>>::empty(),
    {
        Redactor::new()
    }
}

impl Redactor {
    /// The literal secrets, in the order in which they were registered.
    pub closed spec fn secrets(self) -> Seq<Seq<char>> {
        texts(self.secrets@)
    }

    /// An empty redactor that only scrubs sensitive looking `key=value` pairs.
    pub fn new() -> (r: Self)
        ensures
            r.secrets() == Seq::<Seq<char>>::empty(),
    {
        let r = Redactor { secrets: Vec::new() };
        assert(r.secrets() =~= Seq::<Seq<char>>::empty());
        r
    }

    /// Registers a literal value that must never appear in output.
    ///
    /// Short values (< 4 characters) are ignored on purpose: scrubbing them
    /// would mangle unrelated text (for example the word "the" for a 3 letter
    /// password) while providing no real protection.
    pub fn with_secret(self, secret: &str) -> (r: Self)
        ensures
            r.secrets() == if secret@.len() >= 4 && !self.secrets().contains(secret@) {
                self.secrets().push(secret@)
            } else {
                self.secrets()
            },
    {
        let mut known = false;
        let mut i: usize = 0;
        while i < self.secrets.len()
            invariant
                i <= self.secrets@.len(),
                known == (exists|k: int| 0 <= k < i && #[trigger] self.secrets()[k] == secret@),
            decreases self.secrets.len() - i,
        {
            let here = same(self.secrets[i].as_str(), secret);
            proof {
                assert(self.secrets()[i as int] == self.secrets@[i as int]@);
            }
            if here {
                known = true;
            }
            i = i + 1;
        }
        proof {
            if known {
                let k = choose|k: int| 0 <= k < i && #[trigger] self.secrets()[k] == secret@;
                assert(self.secrets().contains(secret@));
            }
        }
        let long = chars_of(secret).len() >= 4;
        let mut secrets = self.secrets;
        if long && !known {
            secrets.push(secret.to_owned());
            assert(texts(secrets@) =~= texts(self.secrets@).push(secret@));
        }
        Redactor { secrets }
    }

    /// Number of registered literal secrets.
    pub fn secret_count(&self) -> (r: usize)
        ensures
            r == self.secrets().len(),
    {
        self.secrets.len()
    }

    /// Returns `text` with every known secret and sensitive value removed.
    pub fn redact(&self, text: &str) -> (r: String)
        ensures
            r@ == redacted(self.secrets(), text@),
    {
        let mut output = text.to_owned();
        let mut i: usize = 0;
        let ghost all = self.secrets();
        assert(all.take(0) =~= Seq::<Seq<char>>::empty());
        while i < self.secrets.len()
            invariant
                i <= self.secrets@.len(),
                all == texts(self.secrets@),
                output@ == secrets_masked(text@, all.take(i as int)),
            decreases self.secrets.len() - i,
        {
            proof {
                let next = all.take(i + 1);
                assert(next.drop_last() =~= all.take(i as int));
                assert(next.last() == self.secrets@[i as int]@);
            }
            output = redact_secret_in(output.as_str(), self.secrets[i].as_str());
            i = i + 1;
        }
        assert(all.take(all.len() as int) =~= all);
        scrub_sensitive_pairs(output.as_str())
    }

    /// Convenience wrapper: returns `value` or [`REDACTED`] when it is secret.
    pub fn show(&self, value: &str, is_secret: bool) -> (r: String)
        ensures
            r@ == if is_secret {
                REDACTED@
            } else {
                redacted(self.secrets(), value@)
            },
    {
        if is_secret {
            REDACTED.to_owned()
        } else {
            self.redact(value)
        }
    }
}

fn is_key_char(c: char) -> (r: bool)
    ensures
        r == key_char(c),
{
    'a' <= c && c <= 'z' || 'A' <= c && c <= 'Z' || '0' <= c && c <= '9' || c == '_' || c == '-'
}

fn is_sensitive(key: &str) -> (r: bool)
    ensures
        r == sensitive(key@),
{
    let mut i: usize = 0;
    while i < 16
        invariant
            i <= 16,
            forall|k: int|
                0 <= k < i ==> !(lowered(key@) == lowered((#[trigger] SENSITIVE_KEYS@[k])@)
                    || SENSITIVE_KEYS@[k]@.is_suffix_of(key@)),
        decreases 16 - i,
    {
        let candidate = SENSITIVE_KEYS[i];
        if eq_ignore_ascii_case(key, candidate) || ends_with(key, candidate) {
            assert(sensitive(key@)) by {
                assert(SENSITIVE_KEYS@[i as int]@ == candidate@);
            }
            return true;
        }
        i = i + 1;
    }
    false
}

/// The key in front of a separator.
fn key_at(chars: &Vec<char>, index: usize) -> (r: String)
    requires
        index <= chars@.len(),
    ensures
        r@ == key_before(chars@, index as int),
{
    // Walk back over identifier characters.
    let mut start: usize = index;
    while start > 0 && is_key_char(chars[start - 1])
        invariant
            start <= index <= chars@.len(),
            key_start(chars@, index as int) == key_start(chars@, start as int),
        decreases start,
    {
        start = start - 1;
    }
    text_of(vstd::slice::slice_subrange(chars.as_slice(), start, index))
}

/// Where the sensitive value that starts at `index` ends; `index` if there is none.
///
/// A header style separator (`Key: value`) takes the rest of the line, because
/// headers such as `Authorization` carry multi-word credentials ("Bearer
/// <token>"); a `Key=value` pair stops at the next delimiter.
fn sensitive_value_end(chars: &Vec<char>, index: usize) -> (r: usize)
    requires
        index <= chars@.len(),
    ensures
        r == secret_end(chars@, index as int),
{
    let pair = index >= 1 && chars[index - 1] == '=' && is_sensitive(
        key_at(chars, index - 1).as_str(),
    );
    let header = index >= 2 && chars[index - 1] == ' ' && chars[index - 2] == ':' && is_sensitive(
        key_at(chars, index - 2).as_str(),
    );
    if !pair && !header {
        return index;
    }
    let mut end: usize = index;
    while end < chars.len() && !value_ends(chars[end], header)
        invariant
            end <= chars@.len(),
            index <= chars@.len(),
            value_end(chars@, index as int, header) == value_end(chars@, end as int, header),
        decreases chars.len() - end,
    {
        end = end + 1;
    }
    end
}

/// Rewrites `key=value` / `key: value` pairs with a sensitive looking key.
///
/// The scan is deliberately conservative: it only rewrites the value that
/// follows `=` or `: ` directly.  Behind any other key it goes on, so that a pair
/// is found whatever stands before it.
fn scrub_sensitive_pairs(text: &str) -> (r: String)
    ensures
        r@ == pairs_masked(text@),
{
    let chars = chars_of(text);
    let ghost s = chars@;
    let mut output = String::new();
    let mut index: usize = 0;
    assert(output@ + pairs_masked(s) =~= pairs_masked(s));
    while index < chars.len()
        invariant
            index <= chars@.len(),
            s == chars@,
            between_values(s, index as int),
            output@ + masked_span(s, index as int, s.len() as int) == pairs_masked(s),
        decreases chars.len() - index,
    {
        let ghost before = output@;
        let ghost at = index as int;
        let end = sensitive_value_end(&chars, index);
        if end > index {
            output.push_str(REDACTED);
            index = end;
            proof {
                value_shows_the_marker(s, at);
                assert(before + (REDACTED@ + masked_span(s, end as int, s.len() as int)) =~= output@
                    + masked_span(s, end as int, s.len() as int));
            }
        } else {
            output.push(chars[index]);
            index = index + 1;
            proof {
                secret_end_bounds(s, at);
                other_character_stays(s, at);
                assert(before + (seq![s[at]] + masked_span(s, at + 1, s.len() as int)) =~= output@
                    + masked_span(s, at + 1, s.len() as int));
            }
        }
    }
    assert(output@ + Seq::<char>::empty() =~= output@);
    output
}

fn value_ends(c: char, header: bool) -> (r: bool)
    ensures
        r == ends_value(c, header),
{
    if header {
        c == '\n'
    } else {
        is_space(c) || c == ',' || c == ';'
    }
}

/// A redacted text in pieces: single characters that were kept, and runs of
/// characters in place of which the marker stands.
pub struct Piece {
    pub masked: bool,
    pub text: Seq<char>,
}

/// What a piece shows.
pub open spec fn piece_shown(piece: Piece) -> Seq<char> {
    if piece.masked {
        REDACTED@
    } else {
        piece.text
    }
}

/// Kept pieces are single characters.
pub open spec fn well_cut(pieces: Seq<Piece>) -> bool {
    forall|k: int|
        0 <= k < pieces.len() && !(#[trigger] pieces[k]).masked ==> pieces[k].text.len() == 1
}

/// The text before redaction.
pub open spec fn source(pieces: Seq<Piece>) -> Seq<char>
    decreases pieces.len(),
{
    if pieces.len() == 0 {
        Seq::empty()
    } else {
        pieces[0].text + source(pieces.skip(1))
    }
}

/// The text after redaction.
pub open spec fn shown(pieces: Seq<Piece>) -> Seq<char>
    decreases pieces.len(),
{
    if pieces.len() == 0 {
        Seq::empty()
    } else {
        piece_shown(pieces[0]) + shown(pieces.skip(1))
    }
}

/// Whether a secret shifted by `shift` against the marker agrees with it on all
/// the characters where both stand.
pub open spec fn agrees(secret: Seq<char>, shift: int) -> bool {
    forall|k: int|
        0 <= k < secret.len() && 0 <= k + shift < REDACTED@.len() ==> secret[k]
            == #[trigger] REDACTED@[k + shift]
}

/// Whether a secret can overlap the marker: then masking one occurrence may
/// spell out another.
pub open spec fn overlaps_marker(secret: Seq<char>) -> bool {
    exists|shift: int| -secret.len() < shift < REDACTED@.len() && #[trigger] agrees(secret, shift)
}

/// A secret that starts the redacted text without touching a marker starts the
/// source.
proof fn kept_prefix(pieces: Seq<Piece>, secret: Seq<char>, n: int)
    requires
        well_cut(pieces),
        !overlaps_marker(secret),
        occurs_at(shown(pieces), secret, 0),
        secret.len() > 0,
        0 <= n <= secret.len(),
    ensures
        n <= pieces.len(),
        forall|k: int|
            0 <= k < n ==> !(#[trigger] pieces[k]).masked && pieces[k].text[0] == secret[k],
        shown(pieces).skip(n) == shown(pieces.skip(n)),
        source(pieces).len() >= n,
        source(pieces).take(n) == secret.take(n),
    decreases n,
{
    if n == 0 {
        assert(shown(pieces).skip(0) =~= shown(pieces));
        assert(pieces.skip(0) =~= pieces);
        assert(source(pieces).take(0) =~= secret.take(0));
    } else {
        kept_prefix(pieces, secret, n - 1);
        let rest = pieces.skip(n - 1);
        let all = shown(pieces);
        assert forall|k: int| 0 <= k < secret.len() implies all[k] == secret[k] by {
            assert(all.subrange(0, secret.len() as int)[k] == secret[k]);
        }
        assert(all.skip(n - 1)[0] == all[n - 1]);
        assert(shown(rest).len() > 0);
        assert(rest[0] == pieces[n - 1]);
        assert(rest.skip(1) =~= pieces.skip(n));
        if rest[0].masked {
            // The marker stands where the secret goes on.
            let shift = -(n - 1);
            assert(agrees(secret, shift)) by {
                assert forall|k: int|
                    0 <= k < secret.len() && 0 <= k + shift < REDACTED@.len() implies secret[k]
                    == #[trigger] REDACTED@[k + shift] by {
                    assert(shown(rest)[k + shift] == REDACTED@[k + shift]);
                    assert(all.skip(n - 1)[k + shift] == all[k]);
                }
            }
            assert(-secret.len() < shift < REDACTED@.len()) by {
                reveal_strlit("<redacted>");
            }
            assert(false);
        } else {
            assert(rest[0].text.len() == 1);
            assert(shown(rest)[0] == rest[0].text[0]);
            assert(pieces[n - 1].text[0] == secret[n - 1]);
            assert(shown(rest).skip(1) =~= shown(rest.skip(1)));
            assert(all.skip(n) =~= all.skip(n - 1).skip(1));
            kept_source(pieces, n);
            assert(source(pieces).take(n) =~= secret.take(n)) by {
                assert forall|k: int| 0 <= k < n implies source(pieces)[k] == secret[k] by {
                    assert(pieces[k].text[0] == secret[k]);
                }
            }
        }
    }
}

/// Kept pieces at the start are the start of the source.
proof fn kept_source(pieces: Seq<Piece>, n: int)
    requires
        well_cut(pieces),
        0 <= n <= pieces.len(),
        forall|k: int| 0 <= k < n ==> !(#[trigger] pieces[k]).masked,
    ensures
        source(pieces).len() >= n,
        forall|k: int| 0 <= k < n ==> #[trigger] source(pieces)[k] == pieces[k].text[0],
    decreases n,
{
    if n > 0 {
        let rest = pieces.skip(1);
        assert forall|k: int| 0 <= k < rest.len() && !(#[trigger] rest[k]).masked implies rest[k].text.len()
            == 1 by {
            assert(rest[k] == pieces[k + 1]);
        }
        assert forall|k: int| 0 <= k < n - 1 implies !(#[trigger] rest[k]).masked by {
            assert(rest[k] == pieces[k + 1]);
        }
        kept_source(rest, n - 1);
        assert(!pieces[0].masked);
        assert forall|k: int| 0 <= k < n implies #[trigger] source(pieces)[k] == pieces[k].text[0] by {
            if k > 0 {
                assert(source(rest)[k - 1] == rest[k - 1].text[0]);
            }
        }
    }
}

proof fn rest_well_cut(pieces: Seq<Piece>)
    requires
        well_cut(pieces),
        pieces.len() > 0,
    ensures
        well_cut(pieces.skip(1)),
{
    let rest = pieces.skip(1);
    assert forall|k: int| 0 <= k < rest.len() && !(#[trigger] rest[k]).masked implies rest[k].text.len()
        == 1 by {
        assert(rest[k] == pieces[k + 1]);
    }
}

/// A secret that cannot overlap the marker and does not stand in the source
/// does not stand in the redacted text.
proof fn masking_reveals_nothing(pieces: Seq<Piece>, secret: Seq<char>)
    requires
        well_cut(pieces),
        secret.len() > 0,
        !overlaps_marker(secret),
        occurs(shown(pieces), secret),
    ensures
        occurs(source(pieces), secret),
    decreases pieces.len(),
{
    let at = choose|i: int| #[trigger] occurs_at(shown(pieces), secret, i);
    if pieces.len() > 0 {
        let rest = pieces.skip(1);
        let head = piece_shown(pieces[0]);
        let taken = pieces[0].text;
        if at >= head.len() {
            assert(occurs_at(shown(rest), secret, at - head.len())) by {
                assert(shown(rest).subrange(at - head.len(), at - head.len() + secret.len())
                    =~= shown(pieces).subrange(at, at + secret.len()));
            }
            rest_well_cut(pieces);
            masking_reveals_nothing(rest, secret);
            let k = choose|i: int| #[trigger] occurs_at(source(rest), secret, i);
            assert(occurs_at(source(pieces), secret, k + taken.len())) by {
                assert(source(pieces).subrange(k + taken.len(), k + taken.len() + secret.len())
                    =~= source(rest).subrange(k, k + secret.len()));
            }
        } else if pieces[0].masked {
            assert(agrees(secret, at)) by {
                assert forall|k: int|
                    0 <= k < secret.len() && 0 <= k + at < REDACTED@.len() implies secret[k]
                    == #[trigger] REDACTED@[k + at] by {
                    assert(shown(pieces)[k + at] == REDACTED@[k + at]);
                    assert(shown(pieces).subrange(at, at + secret.len())[k] == secret[k]);
                }
            }
            assert(false);
        } else {
            assert(at == 0);
            kept_prefix(pieces, secret, secret.len() as int);
            assert(secret.take(secret.len() as int) =~= secret);
            assert(source(pieces).subrange(0, secret.len() as int) =~= source(pieces).take(
                secret.len() as int,
            ));
            assert(occurs_at(source(pieces), secret, 0));
        }
    }
}

/// The pieces of a text after a secret was masked.
pub open spec fn replaced_pieces(s: Seq<char>, secret: Seq<char>) -> Seq<Piece>
    decreases s.len(),
{
    if s.len() == 0 {
        Seq::empty()
    } else if secret.len() > 0 && occurs_at(s, secret, 0) {
        seq![Piece { masked: true, text: secret }] + replaced_pieces(s.skip(secret.len() as int), secret)
    } else {
        seq![Piece { masked: false, text: s.take(1) }] + replaced_pieces(s.skip(1), secret)
    }
}

proof fn joined_well_cut(pieces: Seq<Piece>)
    requires
        pieces.len() > 0,
        !pieces[0].masked ==> pieces[0].text.len() == 1,
        well_cut(pieces.skip(1)),
    ensures
        well_cut(pieces),
{
    assert forall|k: int| 0 <= k < pieces.len() && !(#[trigger] pieces[k]).masked implies pieces[k].text.len()
        == 1 by {
        if k > 0 {
            assert(pieces[k] == pieces.skip(1)[k - 1]);
        }
    }
}

proof fn replaced_is_masking(s: Seq<char>, secret: Seq<char>)
    ensures
        source(replaced_pieces(s, secret)) == s,
        shown(replaced_pieces(s, secret)) == secret_masked(s, secret),
        well_cut(replaced_pieces(s, secret)),
    decreases s.len(),
{
    let pieces = replaced_pieces(s, secret);
    if s.len() == 0 {
    } else if secret.len() > 0 && occurs_at(s, secret, 0) {
        let rest = s.skip(secret.len() as int);
        replaced_is_masking(rest, secret);
        assert(pieces.skip(1) =~= replaced_pieces(rest, secret));
        joined_well_cut(pieces);
        assert(source(pieces) =~= s) by {
            assert(s =~= s.subrange(0, secret.len() as int) + rest);
        }
    } else {
        replaced_is_masking(s.skip(1), secret);
        assert(pieces.skip(1) =~= replaced_pieces(s.skip(1), secret));
        joined_well_cut(pieces);
        assert(source(pieces) =~= s);
        assert(s.take(1) =~= seq![s[0]]);
        if secret.len() == 0 {
            assert(shown(pieces) =~= s);
        }
    }
}

/// After a secret was masked it no longer stands in the text.
proof fn replaced_is_gone(s: Seq<char>, secret: Seq<char>)
    requires
        secret.len() > 0,
        !overlaps_marker(secret),
    ensures
        !occurs(secret_masked(s, secret), secret),
    decreases s.len(),
{
    if occurs(secret_masked(s, secret), secret) {
        let t = secret_masked(s, secret);
        let at = choose|i: int| #[trigger] occurs_at(t, secret, i);
        let pieces = replaced_pieces(s, secret);
        replaced_is_masking(s, secret);
        if s.len() == 0 {
        } else if occurs_at(s, secret, 0) {
            let rest = s.skip(secret.len() as int);
            if at >= REDACTED@.len() {
                assert(t.subrange(at, at + secret.len()) =~= secret_masked(rest, secret).subrange(
                    at - REDACTED@.len(),
                    at - REDACTED@.len() + secret.len(),
                ));
                assert(occurs_at(secret_masked(rest, secret), secret, at - REDACTED@.len()));
                replaced_is_gone(rest, secret);
            } else {
                assert(agrees(secret, at)) by {
                    assert forall|k: int|
                        0 <= k < secret.len() && 0 <= k + at < REDACTED@.len() implies secret[k]
                        == #[trigger] REDACTED@[k + at] by {
                        assert(t[k + at] == REDACTED@[k + at]);
                        assert(t.subrange(at, at + secret.len())[k] == secret[k]);
                    }
                }
            }
        } else if at > 0 {
            let rest = s.skip(1);
            assert(t.subrange(at, at + secret.len()) =~= secret_masked(rest, secret).subrange(
                at - 1,
                at - 1 + secret.len(),
            ));
            assert(occurs_at(secret_masked(rest, secret), secret, at - 1));
            replaced_is_gone(rest, secret);
        } else {
            kept_prefix(pieces, secret, secret.len() as int);
            assert(secret.take(secret.len() as int) =~= secret);
            assert(s.subrange(0, secret.len() as int) =~= s.take(secret.len() as int));
            assert(occurs_at(s, secret, 0));
        }
    }
}

/// The pieces of a text from `i` on after its sensitive values were masked.
pub open spec fn pair_pieces(s: Seq<char>, i: int) -> Seq<Piece>
    decreases s.len() - i,
{
    if i < 0 || i >= s.len() {
        Seq::empty()
    } else if i < secret_end(s, i) <= s.len() {
        seq![Piece { masked: true, text: s.subrange(i, secret_end(s, i)) }] + pair_pieces(
            s,
            secret_end(s, i),
        )
    } else {
        seq![Piece { masked: false, text: seq![s[i]] }] + pair_pieces(s, i + 1)
    }
}

proof fn pairs_are_masking(s: Seq<char>, i: int)
    requires
        0 <= i <= s.len(),
        between_values(s, i),
    ensures
        source(pair_pieces(s, i)) == s.skip(i),
        shown(pair_pieces(s, i)) == masked_span(s, i, s.len() as int),
        well_cut(pair_pieces(s, i)),
    decreases s.len() - i,
{
    let pieces = pair_pieces(s, i);
    if i == s.len() {
        assert(s.skip(i) =~= Seq::<char>::empty());
    } else if secret_end(s, i) > i {
        let end = secret_end(s, i);
        value_shows_the_marker(s, i);
        pairs_are_masking(s, end);
        assert(pieces.skip(1) =~= pair_pieces(s, end));
        joined_well_cut(pieces);
        assert(s.skip(i) =~= s.subrange(i, end) + s.skip(end));
    } else {
        secret_end_bounds(s, i);
        other_character_stays(s, i);
        pairs_are_masking(s, i + 1);
        assert(pieces.skip(1) =~= pair_pieces(s, i + 1));
        joined_well_cut(pieces);
        assert(s.skip(i) =~= seq![s[i]] + s.skip(i + 1));
    }
}

/// Masking further secrets does not bring one back.
proof fn secrets_stay_gone(text: Seq<char>, secrets: Seq<Seq<char>>, k: int)
    requires
        0 <= k < secrets.len(),
        secrets[k].len() > 0,
        !overlaps_marker(secrets[k]),
    ensures
        !occurs(secrets_masked(text, secrets), secrets[k]),
    decreases secrets.len(),
{
    let before = secrets_masked(text, secrets.drop_last());
    if k == secrets.len() - 1 {
        replaced_is_gone(before, secrets.last());
    } else {
        assert(secrets.drop_last()[k] == secrets[k]);
        secrets_stay_gone(text, secrets.drop_last(), k);
        replaced_is_masking(before, secrets.last());
        if occurs(secret_masked(before, secrets.last()), secrets[k]) {
            masking_reveals_nothing(replaced_pieces(before, secrets.last()), secrets[k]);
        }
    }
}

/// Registered secrets never appear in output: whatever the text, what the
/// redactor returns does not contain any of its secrets, except possibly one
/// whose characters can overlap the marker itself.
pub proof fn secrets_never_appear(secrets: Seq<Seq<char>>, text: Seq<char>, k: int)
    requires
        0 <= k < secrets.len(),
        secrets[k].len() > 0,
        !overlaps_marker(secrets[k]),
    ensures
        !occurs(redacted(secrets, text), secrets[k]),
{
    secrets_stay_gone(text, secrets, k);
    let before = secrets_masked(text, secrets);
    pairs_are_masking(before, 0);
    assert(before.skip(0) =~= before);
    if occurs(redacted(secrets, text), secrets[k]) {
        masking_reveals_nothing(pair_pieces(before, 0), secrets[k]);
    }
}

/// A single masked secret does not appear in the result either.
pub proof fn masked_secret_never_appears(text: Seq<char>, secret: Seq<char>)
    requires
        secret.len() > 0,
        !overlaps_marker(secret),
    ensures
        !occurs(secret_masked(text, secret), secret),
{
    replaced_is_gone(text, secret);
}

/// Whether a text consists of key characters.
pub open spec fn key_like(s: Seq<char>) -> bool {
    forall|i: int| 0 <= i < s.len() ==> key_char(#[trigger] s[i])
}

/// Whether a text is a value as a whole.
pub open spec fn value_like(s: Seq<char>, header: bool) -> bool {
    s.len() > 0 && forall|i: int| 0 <= i < s.len() ==> !ends_value(#[trigger] s[i], header)
}

/// What stands between a key and its value.
pub open spec fn between(header: bool) -> Seq<char> {
    if header {
        seq![':', ' ']
    } else {
        seq!['=']
    }
}

proof fn value_ends_at(s: Seq<char>, i: int, end: int, header: bool)
    requires
        0 <= i <= end <= s.len(),
        forall|k: int| i <= k < end ==> !ends_value(#[trigger] s[k], header),
        end < s.len() ==> ends_value(s[end], header),
    ensures
        value_end(s, i, header) == end,
    decreases end - i,
{
    if i < end {
        assert(!ends_value(s[i], header));
        value_ends_at(s, i + 1, end, header);
    }
}

proof fn key_starts_at(s: Seq<char>, from: int, i: int)
    requires
        0 <= from <= i <= s.len(),
        forall|k: int| from <= k < i ==> key_char(#[trigger] s[k]),
        from > 0 ==> !key_char(s[from - 1]),
    ensures
        key_start(s, i) == from,
    decreases i - from,
{
    if from < i {
        assert(key_char(s[i - 1]));
        key_starts_at(s, from, i - 1);
    }
}

proof fn spans_join(s: Seq<char>, from: int, middle: int, to: int)
    requires
        from <= middle <= to,
    ensures
        masked_span(s, from, to) == masked_span(s, from, middle) + masked_span(s, middle, to),
    decreases middle - from,
{
    if from < middle {
        spans_join(s, from + 1, middle, to);
        assert(shown_at(s, from) + (masked_span(s, from + 1, middle) + masked_span(s, middle, to))
            =~= masked_span(s, from, middle) + masked_span(s, middle, to));
    } else {
        assert(masked_span(s, from, middle) + masked_span(s, middle, to) =~= masked_span(
            s,
            middle,
            to,
        ));
    }
}

proof fn secret_span_is_empty(s: Seq<char>, from: int, to: int)
    requires
        0 < from,
        forall|k: int| from - 1 <= k < to ==> secret_at(s, k),
    ensures
        masked_span(s, from, to) == Seq::<char>::empty(),
    decreases to - from,
{
    if from < to {
        secret_span_is_empty(s, from + 1, to);
        assert(secret_at(s, from) && secret_at(s, from - 1));
        assert(masked_span(s, from, to) =~= Seq::<char>::empty());
    }
}

/// The value of a sensitive key is masked, whether the key and the value are
/// written as `key=value` or as a header line, and whatever text, labels and other
/// pairs stand before it: in place of the value stands the marker, or nothing where
/// the value is part of a longer one that is masked already.
pub proof fn sensitive_values_are_masked(
    secrets: Seq<Seq<char>>,
    text: Seq<char>,
    lead: Seq<char>,
    key: Seq<char>,
    value: Seq<char>,
    tail: Seq<char>,
    header: bool,
)
    requires
        secrets_masked(text, secrets) == lead + key + between(header) + value + tail,
        lead.len() > 0 ==> !key_char(lead.last()),
        key_like(key),
        sensitive(key),
        value_like(value, header),
        tail.len() > 0 ==> ends_value(tail[0], header),
    ensures
        ({
            let s = lead + key + between(header) + value + tail;
            let start = (lead + key + between(header)).len() as int;
            let end = start + value.len();
            &&& forall|k: int| start <= k < end ==> secret_at(s, k)
            &&& redacted(secrets, text) == masked_span(s, 0, start) + (if secret_at(s, start - 1) {
                Seq::empty()
            } else {
                REDACTED@
            }) + masked_span(s, end, s.len() as int)
        }),
{
    let sep = between(header);
    let s = lead + key + sep + value + tail;
    let from = lead.len() as int;
    let n = from + key.len();
    let start = n + sep.len();
    let end = start + value.len();
    let size = s.len() as int;
    assert forall|k: int| from <= k < n implies key_char(#[trigger] s[k]) by {
        assert(s[k] == key[k - from]);
    }
    if from > 0 {
        assert(s[from - 1] == lead.last());
    }
    key_starts_at(s, from, n);
    assert(key_before(s, n) =~= key);
    assert(s[n] == sep[0]);
    if header {
        assert(s[n + 1] == sep[1]);
    }
    assert forall|k: int| start <= k < end implies !ends_value(#[trigger] s[k], header) by {
        assert(s[k] == value[k - start]);
    }
    if end < s.len() {
        assert(s[end] == tail[0]);
    }
    value_ends_at(s, start, end, header);
    assert(secret_end(s, start) == end);
    assert forall|k: int| start <= k < end implies secret_at(s, k) by {
        assert(0 <= start <= k < secret_end(s, start));
    }
    spans_join(s, 0, start, size);
    spans_join(s, start, end, size);
    secret_span_is_empty(s, start + 1, end);
    assert(masked_span(s, start, end) =~= shown_at(s, start));
    assert(masked_span(s, 0, start) + (shown_at(s, start) + masked_span(s, end, size))
        =~= masked_span(s, 0, start) + shown_at(s, start) + masked_span(s, end, size));
}

/// Whether a text is one of the field names whose values are secret.
pub open spec fn secret_name(name: Seq<char>) -> bool {
    ||| name == "password"@
    ||| name == "passwd"@
    ||| name == "passphrase"@
    ||| name == "pass"@
    ||| name == "secret"@
    ||| name == "token"@
    ||| name == "apikey"@
    ||| name == "api_key"@
    ||| name == "authorization"@
    ||| name == "auth"@
    ||| name == "credential"@
    ||| name == "credentials"@
    ||| name == "private_key"@
    ||| name == "privatekey"@
    ||| name == "otp"@
    ||| name == "pin"@
}

/// The keys whose values are masked are the secret field names in any case and what
/// ends with one of them, and no others.
pub proof fn secret_names_are_sensitive(key: Seq<char>)
    ensures
        sensitive(key) <==> exists|name: Seq<char>| #[trigger]
            secret_name(name) && (lowered(key) == name || name.is_suffix_of(key)),
{
    names_are_lower_case();
    let names = SENSITIVE_KEYS@;
    if sensitive(key) {
        let k = choose|k: int|
            0 <= k < SENSITIVE_KEYS@.len() && (lowered(key) == lowered(
                (#[trigger] SENSITIVE_KEYS@[k])@,
            ) || SENSITIVE_KEYS@[k]@.is_suffix_of(key));
        assert(secret_name(names[k]@));
        assert(lowered(names[k]@) == names[k]@);
    }
    if exists|name: Seq<char>| #[trigger]
        secret_name(name) && (lowered(key) == name || name.is_suffix_of(key)) {
        let name = choose|name: Seq<char>| #[trigger]
            secret_name(name) && (lowered(key) == name || name.is_suffix_of(key));
        assert(names[0]@ == "password"@ && names[1]@ == "passwd"@ && names[2]@ == "passphrase"@
            && names[3]@ == "pass"@ && names[4]@ == "secret"@ && names[5]@ == "token"@ && names[6]@
            == "apikey"@ && names[7]@ == "api_key"@ && names[8]@ == "authorization"@ && names[9]@
            == "auth"@ && names[10]@ == "credential"@ && names[11]@ == "credentials"@
            && names[12]@ == "private_key"@ && names[13]@ == "privatekey"@ && names[14]@ == "otp"@
            && names[15]@ == "pin"@);
        assert(exists|k: int| 0 <= k < 16 && (#[trigger] names[k])@ == name);
        let k = choose|k: int| 0 <= k < 16 && (#[trigger] names[k])@ == name;
        assert(lowered(names[k]@) == names[k]@);
        assert(lowered(key) == lowered(names[k]@) || names[k]@.is_suffix_of(key));
    }
}

proof fn names_are_lower_case()
    ensures
        forall|k: int| 0 <= k < 16 ==> lowered((#[trigger] SENSITIVE_KEYS@[k])@) == SENSITIVE_KEYS@[k]@,
{
    reveal_strlit("password");
    reveal_strlit("passwd");
    reveal_strlit("passphrase");
    reveal_strlit("pass");
    reveal_strlit("secret");
    reveal_strlit("token");
    reveal_strlit("apikey");
    reveal_strlit("api_key");
    reveal_strlit("authorization");
    reveal_strlit("auth");
    reveal_strlit("credential");
    reveal_strlit("credentials");
    reveal_strlit("private_key");
    reveal_strlit("privatekey");
    reveal_strlit("otp");
    reveal_strlit("pin");
    assert forall|k: int| 0 <= k < 16 implies lowered((#[trigger] SENSITIVE_KEYS@[k])@)
        == SENSITIVE_KEYS@[k]@ by {
        assert(lowered(SENSITIVE_KEYS@[k]@) =~= SENSITIVE_KEYS@[k]@);
    }
}

/// Whether a text holds no character that can separate a key from its value.
pub open spec fn unseparated(s: Seq<char>) -> bool {
    forall|i: int| 0 <= i < s.len() ==> #[trigger] s[i] != '=' && s[i] != ':'
}

/// From a position on, what is masked in a text is what is masked in the rest of it
/// alone, provided that no value reaches over the position and none starts there.
proof fn rest_is_masked_alone(s: Seq<char>, a: Seq<char>, b: Seq<char>)
    requires
        s == a + b,
        a.len() > 0,
        !key_char(a.last()),
        between_values(s, a.len() as int),
        secret_end(s, a.len() as int) <= a.len(),
        a.last() == ':' && b.len() > 0 && b[0] == ' ' ==> secret_end(s, a.len() as int + 1) <= a.len() + 1,
        !secret_at(s, a.len() - 1),
    ensures
        masked_span(s, a.len() as int, s.len() as int) == pairs_masked(b),
{
    let n = a.len() as int;
    assert forall|m: int| 0 <= m <= b.len() implies #[trigger] secret_end(b, m) == greatest_of(
        secret_end(s, n + m) - n,
        m,
    ) by {
        ends_shift(s, a, b, m);
    }
    spans_shift(s, a, b, 0);
}

spec fn greatest_of(a: int, b: int) -> int {
    if a >= b {
        a
    } else {
        b
    }
}

proof fn values_shift(s: Seq<char>, a: Seq<char>, b: Seq<char>, m: int, header: bool)
    requires
        s == a + b,
        0 <= m <= b.len(),
    ensures
        value_end(s, a.len() + m, header) == a.len() + value_end(b, m, header),
    decreases b.len() - m,
{
    if m < b.len() {
        assert(s[a.len() + m] == b[m]);
        values_shift(s, a, b, m + 1, header);
    }
}

proof fn keys_shift(s: Seq<char>, a: Seq<char>, b: Seq<char>, m: int)
    requires
        s == a + b,
        a.len() > 0,
        !key_char(a.last()),
        0 <= m <= b.len(),
    ensures
        key_start(s, a.len() + m) == a.len() + key_start(b, m),
        0 <= key_start(b, m) <= m,
        key_before(s, a.len() + m) == key_before(b, m),
    decreases m,
{
    if m == 0 {
        assert(s[a.len() - 1] == a.last());
    } else {
        assert(s[a.len() + m - 1] == b[m - 1]);
        keys_shift(s, a, b, m - 1);
    }
    assert(key_before(s, a.len() + m) =~= key_before(b, m));
}

proof fn ends_shift(s: Seq<char>, a: Seq<char>, b: Seq<char>, m: int)
    requires
        s == a + b,
        a.len() > 0,
        !key_char(a.last()),
        secret_end(s, a.len() as int) <= a.len(),
        a.last() == ':' && b.len() > 0 && b[0] == ' ' ==> secret_end(s, a.len() as int + 1) <= a.len() + 1,
        0 <= m <= b.len(),
    ensures
        secret_end(b, m) == greatest_of(secret_end(s, a.len() + m) - a.len(), m),
{
    let n = a.len() as int;
    values_shift(s, a, b, m, false);
    values_shift(s, a, b, m, true);
    secret_end_bounds(b, m);
    secret_end_bounds(s, n + m);
    if m >= 1 {
        keys_shift(s, a, b, m - 1);
        assert(s[n + m - 1] == b[m - 1]);
    }
    if m >= 2 {
        keys_shift(s, a, b, m - 2);
        assert(s[n + m - 2] == b[m - 2]);
    }
    if m == 1 {
        assert(s[n - 1] == a.last());
    }
}

proof fn secrets_shift(s: Seq<char>, a: Seq<char>, b: Seq<char>, k: int)
    requires
        s == a + b,
        between_values(s, a.len() as int),
        forall|m: int| 0 <= m <= b.len() ==> #[trigger] secret_end(b, m) == greatest_of(
            secret_end(s, a.len() + m) - a.len(),
            m,
        ),
        0 <= k < b.len(),
    ensures
        secret_at(s, a.len() + k) == secret_at(b, k),
{
    let n = a.len() as int;
    if secret_at(s, n + k) {
        let m = choose|m: int| 0 <= m <= n + k < #[trigger] secret_end(s, m);
        assert(m >= n);
        assert(secret_end(b, m - n) == greatest_of(secret_end(s, n + (m - n)) - n, m - n));
        assert(0 <= m - n <= k < secret_end(b, m - n));
    }
    if secret_at(b, k) {
        let m = choose|m: int| 0 <= m <= k < #[trigger] secret_end(b, m);
        assert(0 <= n + m <= n + k < secret_end(s, n + m));
    }
}

proof fn spans_shift(s: Seq<char>, a: Seq<char>, b: Seq<char>, k: int)
    requires
        s == a + b,
        a.len() > 0,
        between_values(s, a.len() as int),
        !secret_at(s, a.len() - 1),
        forall|m: int| 0 <= m <= b.len() ==> #[trigger] secret_end(b, m) == greatest_of(
            secret_end(s, a.len() + m) - a.len(),
            m,
        ),
        0 <= k <= b.len(),
    ensures
        masked_span(s, a.len() + k, s.len() as int) == masked_span(b, k, b.len() as int),
    decreases b.len() - k,
{
    if k < b.len() {
        spans_shift(s, a, b, k + 1);
        secrets_shift(s, a, b, k);
        if k > 0 {
            secrets_shift(s, a, b, k - 1);
        }
        assert(s[a.len() + k] == b[k]);
    }
}

/// A span without a sensitive value is shown as it is.
proof fn open_span_is_shown(s: Seq<char>, from: int, to: int)
    requires
        0 <= from <= to <= s.len(),
        forall|k: int| from <= k < to ==> !#[trigger] secret_at(s, k),
    ensures
        masked_span(s, from, to) == s.subrange(from, to),
    decreases to - from,
{
    if from < to {
        open_span_is_shown(s, from + 1, to);
        assert(!secret_at(s, from));
        assert(masked_span(s, from, to) =~= s.subrange(from, to));
    } else {
        assert(masked_span(s, from, to) =~= s.subrange(from, to));
    }
}

/// Up to the first separator there is no sensitive value.
proof fn lead_is_open(s: Seq<char>, n: int)
    requires
        0 <= n <= s.len(),
        forall|k: int| 0 <= k < n ==> #[trigger] s[k] != '=' && s[k] != ':',
    ensures
        forall|m: int| 0 <= m <= n ==> #[trigger] secret_end(s, m) == m,
        forall|k: int| 0 <= k < n ==> !#[trigger] secret_at(s, k),
{
    assert forall|m: int| 0 <= m <= n implies #[trigger] secret_end(s, m) == m by {
        if m >= 1 {
            assert(s[m - 1] != '=');
        }
        if m >= 2 {
            assert(s[m - 2] != ':');
        }
    }
    assert forall|k: int| 0 <= k < n implies !#[trigger] secret_at(s, k) by {
        if secret_at(s, k) {
            let m = choose|m: int| 0 <= m <= k < #[trigger] secret_end(s, m);
            assert(secret_end(s, m) == m);
        }
    }
}

/// Text without separators is shown as it is.
pub proof fn plain_text_stays(text: Seq<char>)
    requires
        unseparated(text),
    ensures
        redacted(Seq::empty(), text) == text,
{
    assert(secrets_masked(text, Seq::empty()) == text);
    lead_is_open(text, text.len() as int);
    open_span_is_shown(text, 0, text.len() as int);
    assert(text.subrange(0, text.len() as int) =~= text);
}

/// Whether a text could be a value: it is not empty and holds neither white space,
/// nor a comma, nor a semicolon; the value of a header may hold all but line feeds.
pub open spec fn whole_value(value: Seq<char>, header: bool) -> bool {
    &&& value.len() > 0
    &&& forall|i: int|
        0 <= i < value.len() ==> {
            let c = #[trigger] value[i];
            if header {
                c != '\n'
            } else {
                !space(c) && c != ',' && c != ';'
            }
        }
}

/// What can follow a value: nothing, a line feed, or behind a `key=value` pair white
/// space, a comma or a semicolon.
pub open spec fn follows_value(tail: Seq<char>, header: bool) -> bool {
    tail.len() > 0 ==> (tail[0] == '\n' || !header && (space(tail[0]) || tail[0] == ',' || tail[0]
        == ';'))
}

/// The value of a secret field is masked and nothing else of its line is changed:
/// where a text goes `key=value` or `key: value`, the key being any run of key
/// characters that ends with a secret name, or a secret name in any case, the marker
/// stands in place of the value, and what follows is treated like a text of its own.
pub proof fn secret_fields_are_masked(
    lead: Seq<char>,
    key: Seq<char>,
    name: Seq<char>,
    value: Seq<char>,
    tail: Seq<char>,
    header: bool,
)
    requires
        unseparated(lead),
        lead.len() > 0 ==> !key_char(lead.last()),
        key_like(key),
        secret_name(name),
        name.is_suffix_of(key) || lowered(key) == name,
        whole_value(value, header),
        follows_value(tail, header),
        !header ==> value.last() != ':',
    ensures
        !header ==> redacted(Seq::empty(), lead + key + seq!['='] + value + tail) == lead + key
            + seq!['='] + "<redacted>"@ + redacted(Seq::empty(), tail),
        header ==> redacted(Seq::empty(), lead + key + seq![':', ' '] + value + tail) == lead + key
            + seq![':', ' '] + "<redacted>"@ + redacted(Seq::empty(), tail),
{
    secret_names_are_sensitive(key);
    assert(sensitive(key));
    let sep = between(header);
    let s = lead + key + sep + value + tail;
    let from = lead.len() as int;
    let n = from + key.len();
    let start = n + sep.len();
    let end = start + value.len();
    let size = s.len() as int;
    assert(secrets_masked(s, Seq::empty()) == s);
    assert(secrets_masked(tail, Seq::empty()) == tail);
    assert(space('\n'));
    assert(value_like(value, header));
    assert forall|k: int| 0 <= k < n implies #[trigger] s[k] != '=' && s[k] != ':' by {
        if k < from {
            assert(s[k] == lead[k]);
        } else {
            assert(s[k] == key[k - from]);
            assert(key_char(key[k - from]));
        }
    }
    lead_is_open(s, n);
    sensitive_values_are_masked(Seq::empty(), s, lead, key, value, tail, header);
    assert(s[n] == sep[0]);
    if header {
        assert(s[n + 1] == sep[1]);
    }
    assert forall|k: int| from <= k < n implies key_char(#[trigger] s[k]) by {
        assert(s[k] == key[k - from]);
    }
    if from > 0 {
        assert(s[from - 1] == lead.last());
    }
    key_starts_at(s, from, n);
    assert(key_before(s, n) =~= key);
    assert forall|k: int| start <= k < end implies !ends_value(#[trigger] s[k], header) by {
        assert(s[k] == value[k - start]);
    }
    if end < size {
        assert(s[end] == tail[0]);
    }
    value_ends_at(s, start, end, header);
    assert(secret_end(s, start) == end);
    assert forall|m: int| n < m < start implies #[trigger] secret_end(s, m) == m by {
        assert(m == n + 1 && header);
        assert(s[m - 1] == ':');
        if m >= 2 {
            assert(s[m - 2] != ':') by {
                assert(m - 2 < n);
            }
        }
    }
    assert forall|k: int| 0 <= k < start implies !#[trigger] secret_at(s, k) by {
        if secret_at(s, k) {
            let m = choose|m: int| 0 <= m <= k < #[trigger] secret_end(s, m);
            assert(m < start);
            assert(secret_end(s, m) == m);
        }
    }
    open_span_is_shown(s, 0, start);
    assert(s.subrange(0, start) =~= lead + key + sep);
    assert(masked_span(s, end, size) == pairs_masked(tail)) by {
        tail_is_masked_alone(s, start, value, tail, header);
    }
    assert(REDACTED@ == "<redacted>"@);
    assert(!secret_at(s, start - 1));
    if header {
        assert(sep == seq![':', ' ']);
    } else {
        assert(sep == seq!['=']);
    }
}

proof fn tail_is_masked_alone(
    s: Seq<char>,
    start: int,
    value: Seq<char>,
    tail: Seq<char>,
    header: bool,
)
    requires
        0 < start,
        start + value.len() + tail.len() == s.len(),
        s == s.take(start) + value + tail,
        secret_end(s, start) == start + value.len(),
        forall|m: int| 0 <= m < start ==> #[trigger] secret_end(s, m) == m,
        s[start - 1] == if header { ' ' } else { '=' },
        value_like(value, header),
        follows_value(tail, header),
        !header ==> value.last() != ':',
    ensures
        masked_span(s, start + value.len(), s.len() as int) == pairs_masked(tail),
{
    let end = start + value.len();
    if tail.len() > 0 {
        assert(space('\n'));
        assert(space(' '));
        let a = s.take(end + 1);
        let b = tail.skip(1);
        assert(s =~= a + b);
        assert(s[end] == tail[0]);
        assert(a.last() == tail[0]);
        assert forall|m: int| 0 <= m < end + 1 implies #[trigger] secret_end(s, m) <= end by {
            if start < m < end {
                inner_value_ends(s, start, m);
            }
            if m == end {
                secret_end_bounds(s, end);
                if secret_end(s, end) > end {
                    assert(s[end - 1] == value.last());
                    assert(!ends_value(value.last(), header));
                    assert(!ends_value(s[end], s[end - 1] != '='));
                    if header {
                        assert(tail[0] == '\n');
                    }
                    assert(false);
                }
            }
        }
        assert(between_values(s, a.len() as int));
        secret_end_bounds(s, end + 1);
        if secret_end(s, end + 1) > end + 1 {
            assert(s[end] == ' ' && s[end - 1] == ':');
            assert(s[end - 1] == value.last());
            assert(false);
        }
        assert(!secret_at(s, end)) by {
            if secret_at(s, end) {
                let m = choose|m: int| 0 <= m <= end < #[trigger] secret_end(s, m);
                assert(secret_end(s, m) <= end);
            }
        }
        assert(!key_char(a.last()));
        rest_is_masked_alone(s, a, b);
        // The tail itself is cut in the same place.
        let c = tail.take(1);
        assert(tail =~= c + b);
        assert(secret_end(tail, 0) == 0);
        assert(secret_end(tail, 1) == 1);
        assert(!secret_at(tail, 0)) by {
            if secret_at(tail, 0) {
                let m = choose|m: int| 0 <= m <= 0 < #[trigger] secret_end(tail, m);
            }
        }
        assert(c.last() == tail[0]);
        assert(between_values(tail, 1)) by {
            assert forall|m: int| 0 <= m < 1 implies #[trigger] secret_end(tail, m) <= 1 by {
                assert(m == 0);
            }
        }
        rest_is_masked_alone(tail, c, b);
        assert(shown_at(s, end) == shown_at(tail, 0));
    }
}

/// Lines are redacted one by one: a line feed ends whatever stands before it.
pub proof fn lines_are_redacted_alone(first: Seq<char>, second: Seq<char>)
    ensures
        redacted(Seq::empty(), first + seq!['\n'] + second) == redacted(Seq::empty(), first)
            + seq!['\n'] + redacted(Seq::empty(), second),
{
    let s = first + seq!['\n'] + second;
    let a = first + seq!['\n'];
    let n = first.len() as int;
    assert(secrets_masked(s, Seq::empty()) == s);
    assert(secrets_masked(first, Seq::empty()) == first);
    assert(secrets_masked(second, Seq::empty()) == second);
    assert(space('\n'));
    assert(s =~= a + second);
    assert(s[n] == '\n');
    assert(s.skip(n + 1) =~= second);
    assert(s.take(n) =~= first);
    assert forall|m: int| 0 <= m <= n implies #[trigger] secret_end(s, m) == secret_end(first, m) by {
        front_ends(s, first, m);
    }
    assert forall|m: int| 0 <= m < n + 1 implies #[trigger] secret_end(s, m) <= n + 1 by {
        assert(secret_end(s, m) == secret_end(first, m));
        secret_end_bounds(first, m);
    }
    assert(secret_end(s, n + 1) == n + 1);
    assert(!secret_at(s, n)) by {
        if secret_at(s, n) {
            let m = choose|m: int| 0 <= m <= n < #[trigger] secret_end(s, m);
            assert(secret_end(s, m) == secret_end(first, m));
            secret_end_bounds(first, m);
        }
    }
    assert(a.last() == '\n');
    rest_is_masked_alone(s, a, second);
    spans_join(s, 0, n, s.len() as int);
    front_span(s, first, 0);
    assert(masked_span(s, n, s.len() as int) == seq!['\n'] + masked_span(s, n + 1, s.len() as int));
    assert(pairs_masked(first) + (seq!['\n'] + pairs_masked(second)) =~= pairs_masked(first)
        + seq!['\n'] + pairs_masked(second));
}

proof fn front_values(s: Seq<char>, first: Seq<char>, m: int, header: bool)
    requires
        first.len() < s.len(),
        s.take(first.len() as int) == first,
        s[first.len() as int] == '\n',
        0 <= m <= first.len(),
    ensures
        value_end(s, m, header) == value_end(first, m, header),
    decreases first.len() - m,
{
    assert(space('\n'));
    if m < first.len() {
        assert(s.take(first.len() as int)[m] == s[m]);
        front_values(s, first, m + 1, header);
    }
}

proof fn front_keys(s: Seq<char>, first: Seq<char>, m: int)
    requires
        first.len() < s.len(),
        s.take(first.len() as int) == first,
        0 <= m <= first.len(),
    ensures
        key_start(s, m) == key_start(first, m),
        0 <= key_start(first, m) <= m,
        key_before(s, m) == key_before(first, m),
    decreases m,
{
    if m > 0 {
        assert(s.take(first.len() as int)[m - 1] == s[m - 1]);
        front_keys(s, first, m - 1);
    }
    assert(key_before(s, m) =~= key_before(first, m));
}

proof fn front_ends(s: Seq<char>, first: Seq<char>, m: int)
    requires
        s.len() > first.len(),
        s == first + seq!['\n'] + s.skip(first.len() as int + 1),
        0 <= m <= first.len(),
    ensures
        secret_end(s, m) == secret_end(first, m),
{
    assert(s.take(first.len() as int) =~= first);
    assert(s[first.len() as int] == '\n');
    front_values(s, first, m, false);
    front_values(s, first, m, true);
    if m >= 1 {
        assert(s[m - 1] == first[m - 1]);
        front_keys(s, first, m - 1);
    }
    if m >= 2 {
        assert(s[m - 2] == first[m - 2]);
        front_keys(s, first, m - 2);
    }
}

proof fn front_secrets(s: Seq<char>, first: Seq<char>, k: int)
    requires
        forall|m: int| 0 <= m <= first.len() ==> #[trigger] secret_end(s, m) == secret_end(first, m),
        0 <= k < first.len(),
    ensures
        secret_at(s, k) == secret_at(first, k),
{
    if secret_at(s, k) {
        let m = choose|m: int| 0 <= m <= k < #[trigger] secret_end(s, m);
        assert(0 <= m <= k < secret_end(first, m));
    }
    if secret_at(first, k) {
        let m = choose|m: int| 0 <= m <= k < #[trigger] secret_end(first, m);
        assert(secret_end(s, m) == secret_end(first, m));
        assert(0 <= m <= k < secret_end(s, m));
    }
}

proof fn front_span(s: Seq<char>, first: Seq<char>, k: int)
    requires
        first.len() <= s.len(),
        s.take(first.len() as int) == first,
        forall|m: int| 0 <= m <= first.len() ==> #[trigger] secret_end(s, m) == secret_end(first, m),
        0 <= k <= first.len(),
    ensures
        masked_span(s, k, first.len() as int) == masked_span(first, k, first.len() as int),
    decreases first.len() - k,
{
    if k < first.len() {
        front_span(s, first, k + 1);
        front_secrets(s, first, k);
        if k > 0 {
            front_secrets(s, first, k - 1);
        }
        assert(s.take(first.len() as int)[k] == s[k]);
    }
}

/// A field that is not secret is shown, and what follows it is redacted like a text
/// of its own: behind a label and behind the value of a pair the scan goes on.
pub proof fn other_fields_are_passed_over(lead: Seq<char>, rest: Seq<char>, header: bool)
    requires
        unseparated(lead),
        forall|name: Seq<char>| #[trigger] secret_name(name) ==> !name.is_suffix_of(lowered(lead)),
    ensures
        header ==> redacted(Seq::empty(), lead + seq![':', ' '] + rest) == lead + seq![':', ' ']
            + redacted(Seq::empty(), rest),
        !header ==> redacted(Seq::empty(), lead + seq!['='] + rest) == lead + seq!['='] + redacted(
            Seq::empty(),
            rest,
        ),
{
    let sep = between(header);
    let a = lead + sep;
    let s = a + rest;
    let n = lead.len() as int;
    let key = key_before(s, n);
    assert(secrets_masked(s, Seq::empty()) == s);
    assert(secrets_masked(rest, Seq::empty()) == rest);
    assert forall|k: int| 0 <= k < n implies #[trigger] s[k] != '=' && s[k] != ':' by {
        assert(s[k] == lead[k]);
    }
    lead_is_open(s, n);
    assert(s[n] == sep[0]);
    if header {
        assert(s[n + 1] == sep[1]);
    }
    key_is_behind(s, n);
    assert(key.is_suffix_of(s.take(n)));
    assert(s.take(n) =~= lead);
    lowering_keeps_suffixes(key, lead);
    assert(!sensitive(key)) by {
        secret_names_are_sensitive(key);
        names_are_lower_case();
        if sensitive(key) {
            let name = choose|name: Seq<char>| #[trigger]
                secret_name(name) && (lowered(key) == name || name.is_suffix_of(key));
            if lowered(key) == name {
                assert(name.is_suffix_of(lowered(lead)));
            } else {
                lowering_keeps_suffixes(name, key);
                secret_names_are_lower_case(name);
                suffixes_compose(name, lowered(key), lowered(lead));
            }
            assert(false);
        }
    }
    assert(secret_end(s, n + 1) == n + 1) by {
        if header {
            if n >= 1 {
                assert(s[n - 1] != ':');
            }
        }
    }
    if header {
        assert(secret_end(s, n + 2) == n + 2);
    }
    let m0 = a.len() as int;
    assert forall|m: int| 0 <= m < m0 implies #[trigger] secret_end(s, m) <= m0 by {
        if m <= n {
            assert(secret_end(s, m) == m);
        } else {
            assert(m == n + 1);
        }
    }
    assert forall|k: int| 0 <= k < m0 implies !#[trigger] secret_at(s, k) by {
        if secret_at(s, k) {
            let m = choose|m: int| 0 <= m <= k < #[trigger] secret_end(s, m);
            if m <= n {
                assert(secret_end(s, m) == m);
            } else {
                assert(m == n + 1);
            }
        }
    }
    open_span_is_shown(s, 0, m0);
    assert(s.subrange(0, m0) =~= a);
    rest_is_masked_alone(s, a, rest);
    spans_join(s, 0, m0, s.len() as int);
    if header {
        assert(sep == seq![':', ' ']);
    } else {
        assert(sep == seq!['=']);
    }
}

proof fn key_is_behind(s: Seq<char>, i: int)
    requires
        0 <= i <= s.len(),
    ensures
        0 <= key_start(s, i) <= i,
        key_before(s, i).is_suffix_of(s.take(i)),
    decreases i,
{
    if i > 0 && key_char(s[i - 1]) {
        key_is_behind(s, i - 1);
    }
    let key = key_before(s, i);
    assert(key =~= s.take(i).subrange(i - key.len(), i));
}

proof fn lowering_keeps_suffixes(a: Seq<char>, b: Seq<char>)
    requires
        a.is_suffix_of(b),
    ensures
        lowered(a).is_suffix_of(lowered(b)),
{
    let n = b.len() - a.len();
    assert(a =~= b.subrange(n, b.len() as int));
    assert(lowered(a) =~= lowered(b).subrange(n, b.len() as int));
}

proof fn suffixes_compose(a: Seq<char>, b: Seq<char>, c: Seq<char>)
    requires
        a.is_suffix_of(b),
        b.is_suffix_of(c),
    ensures
        a.is_suffix_of(c),
{
    assert(a =~= b.subrange(b.len() - a.len(), b.len() as int));
    assert(b =~= c.subrange(c.len() - b.len(), c.len() as int));
    assert(a =~= c.subrange(c.len() - a.len(), c.len() as int));
}

proof fn secret_names_are_lower_case(name: Seq<char>)
    requires
        secret_name(name),
    ensures
        lowered(name) == name,
{
    names_are_lower_case();
    let names = SENSITIVE_KEYS@;
    assert(names[0]@ == "password"@ && names[1]@ == "passwd"@ && names[2]@ == "passphrase"@
        && names[3]@ == "pass"@ && names[4]@ == "secret"@ && names[5]@ == "token"@ && names[6]@
        == "apikey"@ && names[7]@ == "api_key"@ && names[8]@ == "authorization"@ && names[9]@
        == "auth"@ && names[10]@ == "credential"@ && names[11]@ == "credentials"@ && names[12]@
        == "private_key"@ && names[13]@ == "privatekey"@ && names[14]@ == "otp"@ && names[15]@
        == "pin"@);
    let k = choose|k: int| 0 <= k < 16 && (#[trigger] names[k])@ == name;
    assert(exists|k: int| 0 <= k < 16 && (#[trigger] names[k])@ == name);
    assert(lowered(names[k]@) == names[k]@);
}

/// The characters of a key are ASCII letters and digits, the underscore and the
/// hyphen.
pub proof fn key_characters(c: char)
    ensures
        key_char(c) <==> (0x61 <= c as u32 <= 0x7A || 0x41 <= c as u32 <= 0x5A || 0x30 <= c as u32
            <= 0x39 || c as u32 == 0x5F || c as u32 == 0x2D),
{
}

/// A text that does not hold a registered secret is redacted as if the secret were
/// not registered.
pub proof fn absent_secrets_change_nothing(secrets: Seq<Seq<char>>, text: Seq<char>)
    requires
        forall|k: int| 0 <= k < secrets.len() ==> !occurs(text, #[trigger] secrets[k]),
    ensures
        redacted(secrets, text) == redacted(Seq::empty(), text),
{
    absent_secrets_stay(secrets, text);
    assert(secrets_masked(text, Seq::empty()) == text);
}

proof fn absent_secrets_stay(secrets: Seq<Seq<char>>, text: Seq<char>)
    requires
        forall|k: int| 0 <= k < secrets.len() ==> !occurs(text, #[trigger] secrets[k]),
    ensures
        secrets_masked(text, secrets) == text,
    decreases secrets.len(),
{
    if secrets.len() > 0 {
        let front = secrets.drop_last();
        assert forall|k: int| 0 <= k < front.len() implies !occurs(text, #[trigger] front[k]) by {
            assert(front[k] == secrets[k]);
        }
        absent_secrets_stay(front, text);
        assert(!occurs(text, secrets[secrets.len() - 1]));
        crate::text::absent_text_is_not_replaced(text, secrets.last(), REDACTED@);
    }
}

/// The first occurrence of a secret gives way to the marker, and what follows it is
/// treated like a text of its own.
pub proof fn secrets_give_way_to_the_marker(lead: Seq<char>, secret: Seq<char>, rest: Seq<char>)
    requires
        secret.len() > 0,
        forall|i: int| 0 <= i < lead.len() ==> !#[trigger] occurs_at(lead + secret + rest, secret, i),
    ensures
        secret_masked(lead + secret + rest, secret) == lead + "<redacted>"@ + secret_masked(
            rest,
            secret,
        ),
{
    crate::text::first_occurrence_is_replaced(lead, secret, rest, REDACTED@);
}

} // verus!
