//! Text primitives shared by every module.
//!
//! The mathematical model of a text is a `Seq<char>`: the view of `str` and of
//! `String`.  The executable functions work on the characters of a text, and
//! each contract relates the views.
use vstd::prelude::*;

verus! {

/// `String::push` appends the given character to the end of the string.
pub assume_specification[ String::push ](s: &mut String, c: char)
    ensures
        final(s)@ == old(s)@.push(c),
;

/// `String::push_str` appends the given text to the end of the string.
pub assume_specification[ String::push_str ](s: &mut String, other: &str)
    ensures
        final(s)@ == old(s)@ + other@,
;

/// The characters of a text, in order.
pub fn chars_of(s: &str) -> (r: Vec<char>)
    ensures
        r@ == s@,
{
    let mut r: Vec<char> = Vec::new();
    for c in it: s.chars()
        invariant
            r@ == it.seq().take(it.index()),
            it.seq() == s@,
    {
        r.push(c);
        assert(it.seq().take(it.index() + 1) =~= it.seq().take(it.index()).push(c));
    }
    assert(s@.take(s@.len() as int) =~= s@);
    r
}

/// The text made of the given characters.
pub fn text_of(chars: &[char]) -> (r: String)
    ensures
        r@ == chars@,
{
    let mut r = String::new();
    let mut i: usize = 0;
    while i < chars.len()
        invariant
            i <= chars.len(),
            r@ == chars@.take(i as int),
        decreases chars.len() - i,
    {
        r.push(chars[i]);
        assert(chars@.take(i + 1) =~= chars@.take(i as int).push(chars@[i as int]));
        i = i + 1;
    }
    assert(chars@.take(chars@.len() as int) =~= chars@);
    r
}

/// Number of bytes in the UTF-8 encoding of a text.
pub fn byte_len(s: &str) -> (r: usize)
    ensures
        r == vstd::utf8::encode_utf8(s@).len(),
{
    s.as_bytes().len()
}

/// Whether two texts are the same.
pub fn same(a: &str, b: &str) -> (r: bool)
    ensures
        r == (a@ == b@),
{
    let x = chars_of(a);
    let y = chars_of(b);
    same_chars(x.as_slice(), y.as_slice())
}

/// Whether two runs of characters are the same.
pub fn same_chars(x: &[char], y: &[char]) -> (r: bool)
    ensures
        r == (x@ == y@),
{
    if x.len() != y.len() {
        return false;
    }
    let mut i: usize = 0;
    while i < x.len()
        invariant
            i <= x.len(),
            x.len() == y.len(),
            forall|k: int| 0 <= k < i ==> x@[k] == y@[k],
        decreases x.len() - i,
    {
        if x[i] != y[i] {
            return false;
        }
        i = i + 1;
    }
    assert(x@ =~= y@);
    true
}

/// Whether two runs of bytes are the same.
pub fn same_bytes(x: &[u8], y: &[u8]) -> (r: bool)
    ensures
        r == (x@ == y@),
{
    if x.len() != y.len() {
        return false;
    }
    let mut i: usize = 0;
    while i < x.len()
        invariant
            i <= x.len(),
            x.len() == y.len(),
            forall|k: int| 0 <= k < i ==> x@[k] == y@[k],
        decreases x.len() - i,
    {
        if x[i] != y[i] {
            return false;
        }
        i = i + 1;
    }
    assert(x@ =~= y@);
    true
}

/// Two texts in a row.
pub fn concat2(a: &str, b: &str) -> (r: String)
    ensures
        r@ == a@ + b@,
{
    let mut r = a.to_owned();
    r.push_str(b);
    r
}

/// Three texts in a row.
pub fn concat3(a: &str, b: &str, c: &str) -> (r: String)
    ensures
        r@ == a@ + b@ + c@,
{
    let mut r = a.to_owned();
    r.push_str(b);
    r.push_str(c);
    r
}

/// Four texts in a row.
pub fn concat4(a: &str, b: &str, c: &str, d: &str) -> (r: String)
    ensures
        r@ == a@ + b@ + c@ + d@,
{
    let mut r = a.to_owned();
    r.push_str(b);
    r.push_str(c);
    r.push_str(d);
    r
}

/// Five texts in a row.
pub fn concat5(a: &str, b: &str, c: &str, d: &str, e: &str) -> (r: String)
    ensures
        r@ == a@ + b@ + c@ + d@ + e@,
{
    let mut r = a.to_owned();
    r.push_str(b);
    r.push_str(c);
    r.push_str(d);
    r.push_str(e);
    r
}

/// Why bytes are not UTF-8, in words.
pub uninterp spec fn utf8_complaint(bytes: Seq<u8>) -> Seq<char>;

/// Turns bytes into the text that they encode, or says why they encode none.
///
/// Calls `String::from_utf8`, which accepts exactly the well-formed UTF-8
/// sequences; the wording of its error is left to the name.
#[verifier::external_body]
pub(crate) fn text_from_utf8(bytes: Vec<u8>) -> (r: Result<String, String>)
    ensures
        r is Ok <==> vstd::utf8::valid_utf8(bytes@),
        r is Ok ==> r->Ok_0@ == vstd::utf8::decode_utf8(bytes@),
        r is Err ==> r->Err_0@ == utf8_complaint(bytes@),
{
    match String::from_utf8(bytes) {
        Ok(text) => Ok(text),
        Err(error) => Err(error.to_string()),
    }
}

/// The text of bytes that are not UTF-8, with a replacement character for what
/// cannot be read.
pub uninterp spec fn utf8_replaced(bytes: Seq<u8>) -> Seq<char>;

/// The text of bytes, with a replacement character for what is not UTF-8.
pub open spec fn lossy(bytes: Seq<u8>) -> Seq<char> {
    if vstd::utf8::valid_utf8(bytes) {
        vstd::utf8::decode_utf8(bytes)
    } else {
        utf8_replaced(bytes)
    }
}

/// The text of bytes, with a replacement character for what is not UTF-8.
///
/// Calls `String::from_utf8_lossy`, which gives the text of well-formed UTF-8
/// unchanged; what it makes of other bytes is left to the name.
#[verifier::external_body]
pub(crate) fn lossy_text(bytes: &[u8]) -> (r: String)
    ensures
        r@ == if vstd::utf8::valid_utf8(bytes@) {
            vstd::utf8::decode_utf8(bytes@)
        } else {
            utf8_replaced(bytes@)
        },
{
    String::from_utf8_lossy(bytes).into_owned()
}

/// A text as a literal in the way of diagnostics, with quotes and escapes.
pub uninterp spec fn debug_literal(s: Seq<char>) -> Seq<char>;

/// A text as a literal in the way of diagnostics, with quotes and escapes.
///
/// Formats a `str` through its `Debug` implementation; the escapes are left to the
/// name.
#[verifier::external_body]
pub(crate) fn quoted(s: &str) -> (r: String)
    ensures
        r@ == debug_literal(s@),
{
    format!("{s:?}")
}

/// A character as a literal in the way of diagnostics, with quotes and escapes.
pub uninterp spec fn debug_character(c: char) -> Seq<char>;

/// A character as a literal in the way of diagnostics, with quotes and escapes.
///
/// Formats a `char` through its `Debug` implementation; the escapes are left to
/// the name.
#[verifier::external_body]
pub(crate) fn quoted_char(c: char) -> (r: String)
    ensures
        r@ == debug_character(c),
{
    format!("{c:?}")
}

/// The text that the bytes encode, when they are UTF-8.
///
/// Calls `std::str::from_utf8`, which accepts exactly the well-formed UTF-8
/// sequences and returns the text they encode.
#[verifier::external_body]
pub(crate) fn utf8_text(bytes: &[u8]) -> (r: Option<String>)
    ensures
        r is Some <==> vstd::utf8::valid_utf8(bytes@),
        r is Some ==> r->0@ == vstd::utf8::decode_utf8(bytes@),
{
    match std::str::from_utf8(bytes) {
        Ok(text) => Some(text.to_owned()),
        Err(_) => None,
    }
}

/// The Unicode `White_Space` property.
pub open spec fn space(c: char) -> bool {
    let u = c as u32;
    ||| 0x09 <= u <= 0x0D
    ||| u == 0x20
    ||| u == 0x85
    ||| u == 0xA0
    ||| u == 0x1680
    ||| 0x2000 <= u <= 0x200A
    ||| u == 0x2028
    ||| u == 0x2029
    ||| u == 0x202F
    ||| u == 0x205F
    ||| u == 0x3000
}

/// Whether a character is Unicode white space.
pub fn is_space(c: char) -> (r: bool)
    ensures
        r == space(c),
{
    let u: u32 = c as u32;
    (0x09 <= u && u <= 0x0D) || u == 0x20 || u == 0x85 || u == 0xA0 || u == 0x1680 || (0x2000 <= u
        && u <= 0x200A) || u == 0x2028 || u == 0x2029 || u == 0x202F || u == 0x205F || u == 0x3000
}

/// The text without its leading white space.
pub open spec fn trimmed_start(s: Seq<char>) -> Seq<char>
    decreases s.len(),
{
    if s.len() > 0 && space(s[0]) {
        trimmed_start(s.skip(1))
    } else {
        s
    }
}

/// The text without its trailing white space.
pub open spec fn trimmed_end(s: Seq<char>) -> Seq<char>
    decreases s.len(),
{
    if s.len() > 0 && space(s.last()) {
        trimmed_end(s.drop_last())
    } else {
        s
    }
}

/// The text without white space at either end.
pub open spec fn trimmed(s: Seq<char>) -> Seq<char> {
    trimmed_end(trimmed_start(s))
}

/// Removes leading white space.
pub fn trim_start(s: &str) -> (r: String)
    ensures
        r@ == trimmed_start(s@),
{
    let chars = chars_of(s);
    let mut from: usize = 0;
    assert(s@.skip(0) =~= s@);
    while from < chars.len() && is_space(chars[from])
        invariant
            from <= chars.len(),
            chars@ == s@,
            trimmed_start(s@) == trimmed_start(s@.skip(from as int)),
        decreases chars.len() - from,
    {
        assert(s@.skip(from as int).skip(1) =~= s@.skip(from + 1));
        from = from + 1;
    }
    text_of(vstd::slice::slice_subrange(chars.as_slice(), from, chars.len()))
}

/// Removes trailing white space.
pub fn trim_end(s: &str) -> (r: String)
    ensures
        r@ == trimmed_end(s@),
{
    let chars = chars_of(s);
    let mut to: usize = chars.len();
    assert(s@.take(to as int) =~= s@);
    while to > 0 && is_space(chars[to - 1])
        invariant
            to <= chars.len(),
            chars@ == s@,
            trimmed_end(s@) == trimmed_end(s@.take(to as int)),
        decreases to,
    {
        assert(s@.take(to as int).drop_last() =~= s@.take(to - 1));
        to = to - 1;
    }
    text_of(vstd::slice::slice_subrange(chars.as_slice(), 0, to))
}

/// Removes white space at both ends.
pub fn trim(s: &str) -> (r: String)
    ensures
        r@ == trimmed(s@),
{
    let front = trim_start(s);
    trim_end(front.as_str())
}

/// Whether `t` stands in `s` at position `i`.
pub open spec fn occurs_at(s: Seq<char>, t: Seq<char>, i: int) -> bool {
    0 <= i && i + t.len() <= s.len() && s.subrange(i, i + t.len()) == t
}

/// Whether `t` stands somewhere in `s`.
pub open spec fn occurs(s: Seq<char>, t: Seq<char>) -> bool {
    exists|i: int| #[trigger] occurs_at(s, t, i)
}

/// Whether `t` stands in `s` at position `i`.
pub fn stands_at(s: &[char], t: &[char], i: usize) -> (r: bool)
    requires
        i <= s@.len(),
    ensures
        r == occurs_at(s@, t@, i as int),
{
    if t.len() > s.len() - i {
        return false;
    }
    let mut k: usize = 0;
    while k < t.len()
        invariant
            k <= t@.len(),
            s@.len() == s.len(),
            i + t@.len() <= s@.len(),
            forall|j: int| 0 <= j < k ==> s@[i + j] == t@[j],
        decreases t.len() - k,
    {
        if s[i + k] != t[k] {
            assert(s@.subrange(i as int, i + t@.len())[k as int] != t@[k as int]);
            return false;
        }
        k = k + 1;
    }
    assert(s@.subrange(i as int, i + t@.len()) =~= t@);
    true
}

/// Whether one text contains another.
pub fn contains(s: &str, t: &str) -> (r: bool)
    ensures
        r == occurs(s@, t@),
{
    let text = chars_of(s);
    let part = chars_of(t);
    let mut i: usize = 0;
    while i < text.len()
        invariant
            i <= text@.len(),
            text@ == s@,
            part@ == t@,
            forall|j: int| 0 <= j < i ==> !occurs_at(s@, t@, j),
        decreases text.len() - i,
    {
        if stands_at(text.as_slice(), part.as_slice(), i) {
            assert(occurs_at(s@, t@, i as int));
            return true;
        }
        i = i + 1;
    }
    let last = stands_at(text.as_slice(), part.as_slice(), i);
    proof {
        if !last {
            assert forall|j: int| !occurs_at(s@, t@, j) by {
                if i < j {
                    assert(j + t@.len() > s@.len());
                }
            }
        }
    }
    last
}

/// Whether one text starts with another.
pub fn starts_with(s: &str, t: &str) -> (r: bool)
    ensures
        r == t@.is_prefix_of(s@),
{
    let s = chars_of(s);
    let t = chars_of(t);
    let r = stands_at(s.as_slice(), t.as_slice(), 0);
    assert(r == t@.is_prefix_of(s@));
    r
}

/// Whether one text ends with another.
pub fn ends_with(s: &str, t: &str) -> (r: bool)
    ensures
        r == t@.is_suffix_of(s@),
{
    let s = chars_of(s);
    let t = chars_of(t);
    if t.len() > s.len() {
        return false;
    }
    let r = stands_at(s.as_slice(), t.as_slice(), s.len() - t.len());
    assert(r == t@.is_suffix_of(s@));
    r
}

/// Every occurrence of `t` in `s`, found from the front, replaced by `with`.
pub open spec fn replaced(s: Seq<char>, t: Seq<char>, with: Seq<char>) -> Seq<char>
    decreases s.len(),
{
    if s.len() == 0 || t.len() == 0 {
        s
    } else if occurs_at(s, t, 0) {
        with + replaced(s.skip(t.len() as int), t, with)
    } else {
        seq![s[0]] + replaced(s.skip(1), t, with)
    }
}

/// Replaces every occurrence of a non-empty text.
pub fn replace(s: &str, t: &str, with: &str) -> (r: String)
    requires
        t@.len() > 0,
    ensures
        r@ == replaced(s@, t@, with@),
{
    let chars = chars_of(s);
    let pattern = chars_of(t);
    let mut out = String::new();
    let mut i: usize = 0;
    assert(chars@.skip(0) =~= chars@);
    assert(out@ + replaced(chars@, t@, with@) =~= replaced(chars@, t@, with@));
    while i < chars.len()
        invariant
            i <= chars@.len(),
            pattern@ == t@,
            t@.len() > 0,
            out@ + replaced(chars@.skip(i as int), t@, with@) == replaced(chars@, t@, with@),
        decreases chars.len() - i,
    {
        let ghost rest = chars@.skip(i as int);
        let found = stands_at(chars.as_slice(), pattern.as_slice(), i);
        proof {
            assert(found == occurs_at(rest, t@, 0)) by {
                if i + t@.len() <= chars@.len() {
                    assert(rest.subrange(0, t@.len() as int) =~= chars@.subrange(
                        i as int,
                        i + t@.len(),
                    ));
                }
            }
        }
        let ghost before = out@;
        if found {
            out.push_str(with);
            i = i + pattern.len();
            assert(rest.skip(t@.len() as int) =~= chars@.skip(i as int));
            assert(before + (with@ + replaced(chars@.skip(i as int), t@, with@)) =~= out@
                + replaced(chars@.skip(i as int), t@, with@));
        } else {
            out.push(chars[i]);
            i = i + 1;
            assert(rest.skip(1) =~= chars@.skip(i as int));
            assert(before + (seq![rest[0]] + replaced(chars@.skip(i as int), t@, with@)) =~= out@
                + replaced(chars@.skip(i as int), t@, with@));
        }
    }
    assert(out@ + Seq::<char>::empty() =~= out@);
    out
}

/// The ASCII lower case form of a character.
pub open spec fn lower_ascii(c: char) -> char {
    if 'A' <= c <= 'Z' {
        ((c as u32 + 32) as u32) as char
    } else {
        c
    }
}

/// A text with its ASCII letters in lower case.
pub open spec fn lowered(s: Seq<char>) -> Seq<char> {
    Seq::new(s.len(), |i: int| lower_ascii(s[i]))
}

/// The ASCII lower case form of a character.
pub fn lower_char(c: char) -> (r: char)
    ensures
        r == lower_ascii(c),
{
    if 'A' <= c && c <= 'Z' {
        (c as u8 + 32) as char
    } else {
        c
    }
}

/// Puts the ASCII letters of a text in lower case.
pub fn to_ascii_lowercase(s: &str) -> (r: String)
    ensures
        r@ == lowered(s@),
{
    let chars = chars_of(s);
    let mut r = String::new();
    let mut i: usize = 0;
    while i < chars.len()
        invariant
            i <= chars@.len(),
            chars@ == s@,
            r@ =~= lowered(s@).take(i as int),
        decreases chars.len() - i,
    {
        r.push(lower_char(chars[i]));
        i = i + 1;
    }
    assert(r@ =~= lowered(s@));
    r
}

/// Whether two texts are equal but for the case of ASCII letters.
pub fn eq_ignore_ascii_case(a: &str, b: &str) -> (r: bool)
    ensures
        r == (lowered(a@) == lowered(b@)),
{
    let x = to_ascii_lowercase(a);
    let y = to_ascii_lowercase(b);
    x == y
}

/// The first position of a character, the length of the text when it does not
/// occur.
pub open spec fn first_at(s: Seq<char>, c: char) -> int
    decreases s.len(),
{
    if s.len() == 0 || s[0] == c {
        0
    } else {
        1 + first_at(s.skip(1), c)
    }
}

/// The last position of a character, `-1` when it does not occur.
pub open spec fn last_at(s: Seq<char>, c: char) -> int
    decreases s.len(),
{
    if s.len() == 0 {
        -1
    } else if s.last() == c {
        s.len() - 1
    } else {
        last_at(s.drop_last(), c)
    }
}

/// What [`first_at`] finds.
pub proof fn first_at_finds(s: Seq<char>, c: char)
    ensures
        0 <= first_at(s, c) <= s.len(),
        first_at(s, c) < s.len() ==> s[first_at(s, c)] == c,
        forall|k: int| 0 <= k < first_at(s, c) ==> s[k] != c,
        first_at(s, c) < s.len() <==> s.contains(c),
    decreases s.len(),
{
    if s.len() > 0 && s[0] != c {
        let rest = s.skip(1);
        first_at_finds(rest, c);
        assert forall|k: int| 0 <= k < first_at(s, c) implies s[k] != c by {
            if k > 0 {
                assert(s[k] == rest[k - 1]);
            }
        }
        if s.contains(c) {
            let k = choose|k: int| 0 <= k < s.len() && s[k] == c;
            assert(rest[k - 1] == c);
        }
    }
}

/// What [`last_at`] finds.
pub proof fn last_at_finds(s: Seq<char>, c: char)
    ensures
        -1 <= last_at(s, c) < s.len(),
        last_at(s, c) >= 0 ==> s[last_at(s, c)] == c,
        forall|k: int| last_at(s, c) < k < s.len() ==> s[k] != c,
        last_at(s, c) >= 0 <==> s.contains(c),
    decreases s.len(),
{
    if s.len() > 0 && s.last() != c {
        let rest = s.drop_last();
        last_at_finds(rest, c);
        assert forall|k: int| last_at(s, c) < k < s.len() implies s[k] != c by {
            if k < rest.len() {
                assert(s[k] == rest[k]);
            }
        }
        if s.contains(c) {
            let k = choose|k: int| 0 <= k < s.len() && s[k] == c;
            assert(rest[k] == c);
        }
    }
}

/// The first position of a character, the length of the text when it does not
/// occur.
pub fn find_char(s: &[char], c: char) -> (r: usize)
    ensures
        r == first_at(s@, c),
        r <= s@.len(),
{
    let mut i: usize = 0;
    assert(s@.skip(0) =~= s@);
    while i < s.len()
        invariant
            i <= s@.len(),
            first_at(s@, c) == i + first_at(s@.skip(i as int), c),
        decreases s.len() - i,
    {
        if s[i] == c {
            return i;
        }
        assert(s@.skip(i as int).skip(1) =~= s@.skip(i + 1));
        i = i + 1;
    }
    i
}

/// The last position of a character.
pub fn rfind_char(s: &[char], c: char) -> (r: Option<usize>)
    ensures
        r is Some <==> last_at(s@, c) >= 0,
        r is Some ==> r->0 == last_at(s@, c) && r->0 < s@.len(),
{
    let mut i: usize = s.len();
    assert(s@.take(i as int) =~= s@);
    while i > 0
        invariant
            i <= s@.len(),
            last_at(s@, c) == last_at(s@.take(i as int), c),
        decreases i,
    {
        assert(s@.take(i as int).last() == s@[i - 1]);
        if s[i - 1] == c {
            return Some(i - 1);
        }
        assert(s@.take(i as int).drop_last() =~= s@.take(i - 1));
        i = i - 1;
    }
    None
}

/// Part of a text, by character positions.
pub fn part(s: &Vec<char>, from: usize, to: usize) -> (r: String)
    requires
        from <= to <= s@.len(),
    ensures
        r@ == s@.subrange(from as int, to as int),
{
    text_of(vstd::slice::slice_subrange(s.as_slice(), from, to))
}

/// The decimal digit of a number below ten.
pub open spec fn digit(n: int) -> char {
    ((0x30 + n) as u32) as char
}

/// The decimal notation of a number.
pub open spec fn decimal(n: nat) -> Seq<char>
    decreases n,
{
    if n < 10 {
        seq![digit(n as int)]
    } else {
        decimal(n / 10).push(digit((n % 10) as int))
    }
}

/// The decimal notation of a number, with leading zeros up to a width.
pub open spec fn padded(n: nat, width: nat) -> Seq<char> {
    let d = decimal(n);
    if d.len() >= width {
        d
    } else {
        Seq::new((width - d.len()) as nat, |i: int| '0') + d
    }
}

/// The decimal digit of a number below ten.
pub fn digit_of(n: u8) -> (r: char)
    requires
        n < 10,
    ensures
        r == digit(n as int),
{
    (0x30 + n) as char
}

/// The decimal notation of a number.
pub fn to_decimal(n: u64) -> (r: String)
    ensures
        r@ == decimal(n as nat),
    decreases n,
{
    if n < 10 {
        let mut r = String::new();
        r.push(digit_of(n as u8));
        assert(r@ =~= decimal(n as nat));
        r
    } else {
        let mut r = to_decimal(n / 10);
        r.push(digit_of((n % 10) as u8));
        r
    }
}

/// The decimal notation of a number, with leading zeros up to a width.
pub fn to_padded(n: u64, width: usize) -> (r: String)
    ensures
        r@ == padded(n as nat, width as nat),
{
    let d = to_decimal(n);
    let count = chars_of(d.as_str()).len();
    let mut r = String::new();
    let mut i: usize = count;
    while i < width
        invariant
            count <= i,
            i <= width || i == count,
            r@ =~= Seq::new((i - count) as nat, |k: int| '0'),
        decreases width - i,
    {
        r.push('0');
        i = i + 1;
    }
    r.push_str(d.as_str());
    assert(r@ =~= padded(n as nat, width as nat));
    r
}

/// Whether a character is a decimal digit.
pub open spec fn is_digit(c: char) -> bool {
    '0' <= c <= '9'
}

/// The number that a run of decimal digits denotes.
pub open spec fn digits_value(s: Seq<char>) -> nat
    decreases s.len(),
{
    if s.len() == 0 {
        0
    } else {
        digits_value(s.drop_last()) * 10 + (s.last() as int - 0x30) as nat
    }
}

/// Whether a text consists of decimal digits.
pub open spec fn all_digits(s: Seq<char>) -> bool {
    forall|i: int| 0 <= i < s.len() ==> is_digit(#[trigger] s[i])
}

/// A text without a leading plus sign.
pub open spec fn unsigned(s: Seq<char>) -> Seq<char> {
    if s.len() > 0 && s[0] == '+' {
        s.skip(1)
    } else {
        s
    }
}

/// The number that a text denotes: decimal digits, optionally after a plus sign,
/// with a value up to `max`.
pub open spec fn number(s: Seq<char>, max: nat) -> Option<nat> {
    let d = unsigned(s);
    if d.len() > 0 && all_digits(d) && digits_value(d) <= max {
        Some(digits_value(d))
    } else {
        None
    }
}

proof fn digits_value_grows(s: Seq<char>, k: int)
    requires
        0 <= k <= s.len(),
    ensures
        digits_value(s.take(k)) <= digits_value(s),
    decreases s.len() - k,
{
    if k < s.len() {
        digits_value_grows(s, k + 1);
        assert(s.take(k + 1).drop_last() =~= s.take(k));
    } else {
        assert(s.take(k) =~= s);
    }
}

/// Reads a number up to `max`.
pub fn parse_number(s: &str, max: u32) -> (r: Option<u32>)
    ensures
        match number(s@, max as nat) {
            Some(n) => r == Some(n as u32),
            None => r is None,
        },
{
    let chars = chars_of(s);
    let start: usize = if chars.len() > 0 && chars[0] == '+' { 1 } else { 0 };
    let ghost d = chars@.skip(start as int);
    proof {
        assert(chars@.skip(0) =~= chars@);
    }
    if start == chars.len() {
        return None;
    }
    let mut value: u64 = 0;
    let mut i: usize = start;
    assert(d.take(0) =~= Seq::<char>::empty());
    while i < chars.len()
        invariant
            start <= i <= chars@.len(),
            d == chars@.skip(start as int),
            d == unsigned(s@),
            d.len() > 0,
            value <= max,
            value == digits_value(d.take(i - start)),
            forall|k: int| 0 <= k < i - start ==> is_digit(#[trigger] d[k]),
        decreases chars.len() - i,
    {
        let c = chars[i];
        assert(d[i - start] == c);
        if !('0' <= c && c <= '9') {
            assert(!all_digits(d));
            return None;
        }
        let next: u64 = value * 10 + (c as u32 - 0x30) as u64;
        proof {
            assert(d.take(i - start + 1).drop_last() =~= d.take(i - start));
            digits_value_grows(d, i - start + 1);
        }
        if next > max as u64 {
            return None;
        }
        value = next;
        i = i + 1;
    }
    assert(d.take(d.len() as int) =~= d);
    Some(value as u32)
}

/// Decimal notation is read back as the number it denotes.
pub proof fn decimal_round_trip(n: nat, max: nat)
    requires
        n <= max,
    ensures
        number(decimal(n), max) == Some(n),
        decimal(n).len() > 0,
        all_digits(decimal(n)),
{
    decimal_digits(n);
    let d = decimal(n);
    assert(is_digit(d[0]));
}

proof fn decimal_digits(n: nat)
    ensures
        digits_value(decimal(n)) == n,
        decimal(n).len() > 0,
        all_digits(decimal(n)),
    decreases n,
{
    if n < 10 {
        let d = decimal(n);
        assert(d.drop_last() =~= Seq::<char>::empty());
        reveal_with_fuel(digits_value, 2);
    } else {
        decimal_digits(n / 10);
        let d = decimal(n);
        assert(d.drop_last() =~= decimal(n / 10));
    }
}

/// A text without white space in front or behind is its own trimmed form.
pub proof fn trimmed_is_itself(s: Seq<char>)
    requires
        s.len() > 0 ==> !space(s[0]) && !space(s.last()),
    ensures
        trimmed(s) == s,
{
}

/// The contents of a run of texts.
pub open spec fn texts(s: Seq<String>) -> Seq<Seq<char>> {
    Seq::new(s.len(), |i: int| s[i]@)
}

/// The parts of a text between the occurrences of a separator character.
pub open spec fn split(s: Seq<char>, c: char) -> Seq<Seq<char>>
    decreases s.len(),
{
    if s.len() == 0 {
        seq![Seq::<char>::empty()]
    } else {
        let before = split(s.drop_last(), c);
        if s.last() == c {
            before.push(Seq::empty())
        } else {
            before.update(before.len() - 1, before.last().push(s.last()))
        }
    }
}

/// Splits a text at every occurrence of a character.
pub fn split_at_char(s: &str, c: char) -> (r: Vec<String>)
    ensures
        texts(r@) == split(s@, c),
{
    let chars = chars_of(s);
    let mut parts: Vec<String> = Vec::new();
    let mut current = String::new();
    let mut i: usize = 0;
    assert(texts(parts@).push(current@) =~= split(chars@.take(0), c));
    while i < chars.len()
        invariant
            i <= chars@.len(),
            chars@ == s@,
            texts(parts@).push(current@) == split(chars@.take(i as int), c),
        decreases chars.len() - i,
    {
        let ghost before = texts(parts@).push(current@);
        let ghost next = chars@.take(i + 1);
        assert(next.drop_last() =~= chars@.take(i as int));
        if chars[i] == c {
            parts.push(current);
            current = String::new();
            assert(texts(parts@) =~= before);
            assert(texts(parts@).push(current@) =~= split(next, c));
        } else {
            current.push(chars[i]);
            assert(texts(parts@).push(current@) =~= split(next, c));
        }
        i = i + 1;
    }
    assert(chars@.take(chars@.len() as int) =~= chars@);
    let ghost before = texts(parts@).push(current@);
    parts.push(current);
    assert(texts(parts@) =~= before);
    parts
}

/// A list of words after one more character: white space ends a word, any other
/// character extends the last word when it is still open.
pub open spec fn words_state(s: Seq<char>) -> (Seq<Seq<char>>, Seq<char>)
    decreases s.len(),
{
    if s.len() == 0 {
        (Seq::empty(), Seq::empty())
    } else {
        let (done, open) = words_state(s.drop_last());
        if !space(s.last()) {
            (done, open.push(s.last()))
        } else if open.len() > 0 {
            (done.push(open), Seq::empty())
        } else {
            (done, open)
        }
    }
}

/// The words of a text: its maximal runs without white space.
pub open spec fn words(s: Seq<char>) -> Seq<Seq<char>> {
    let (done, open) = words_state(s);
    if open.len() > 0 {
        done.push(open)
    } else {
        done
    }
}

/// Splits a text into its words.
pub fn split_words(s: &str) -> (r: Vec<String>)
    ensures
        texts(r@) == words(s@),
{
    let chars = chars_of(s);
    let mut done: Vec<String> = Vec::new();
    let mut open = String::new();
    let mut any = false;
    let mut i: usize = 0;
    assert(chars@.take(0) =~= Seq::<char>::empty());
    assert(texts(done@) =~= Seq::<Seq<char>>::empty());
    while i < chars.len()
        invariant
            i <= chars@.len(),
            chars@ == s@,
            any == (open@.len() > 0),
            (texts(done@), open@) == words_state(chars@.take(i as int)),
        decreases chars.len() - i,
    {
        let ghost before = texts(done@);
        assert(chars@.take(i + 1).drop_last() =~= chars@.take(i as int));
        if !is_space(chars[i]) {
            open.push(chars[i]);
            any = true;
        } else if any {
            let ghost word = open@;
            done.push(open);
            open = String::new();
            any = false;
            assert(texts(done@) =~= before.push(word));
        }
        i = i + 1;
    }
    assert(chars@.take(chars@.len() as int) =~= chars@);
    if any {
        let ghost before = texts(done@);
        let ghost word = open@;
        done.push(open);
        assert(texts(done@) =~= before.push(word));
    }
    done
}

/// A line without a carriage return at its end.
pub open spec fn chomped(line: Seq<char>) -> Seq<char> {
    if line.len() > 0 && line.last() == '\r' {
        line.drop_last()
    } else {
        line
    }
}

/// The lines of a text: the parts between line feeds, without a carriage return
/// at their end; what follows the last line feed counts when it is not empty.
pub open spec fn lines(s: Seq<char>) -> Seq<Seq<char>> {
    let parts = split(s, '\n');
    let count: nat = if parts.last().len() == 0 { (parts.len() - 1) as nat } else { parts.len() };
    Seq::new(
        count,
        |i: int| if i < parts.len() - 1 { chomped(parts[i]) } else { parts[i] },
    )
}

/// A text has at least one part.
pub proof fn split_is_not_empty(s: Seq<char>, c: char)
    ensures
        split(s, c).len() > 0,
    decreases s.len(),
{
    if s.len() > 0 {
        split_is_not_empty(s.drop_last(), c);
    }
}

/// A line without a carriage return at its end.
fn chomp(line: &str) -> (r: String)
    ensures
        r@ == chomped(line@),
{
    let chars = chars_of(line);
    if chars.len() > 0 && chars[chars.len() - 1] == '\r' {
        let r = part(&chars, 0, chars.len() - 1);
        assert(r@ =~= line@.drop_last());
        r
    } else {
        line.to_owned()
    }
}

/// Splits a text into its lines.
pub fn split_lines(s: &str) -> (r: Vec<String>)
    ensures
        texts(r@) == lines(s@),
{
    let parts = split_at_char(s, '\n');
    proof {
        split_is_not_empty(s@, '\n');
    }
    let ghost all = split(s@, '\n');
    let mut r: Vec<String> = Vec::new();
    let mut i: usize = 0;
    while i < parts.len() - 1
        invariant
            i <= parts@.len() - 1,
            all == split(s@, '\n'),
            texts(parts@) == all,
            parts@.len() == all.len(),
            r@.len() == i,
            forall|k: int| 0 <= k < i ==> (#[trigger] r@[k])@ == chomped(all[k]),
        decreases parts.len() - i,
    {
        assert(all[i as int] == parts@[i as int]@);
        r.push(chomp(parts[i].as_str()));
        i = i + 1;
    }
    assert(all[i as int] == parts@[i as int]@);
    let last = parts[i].clone();
    if !last.as_str().is_empty() {
        r.push(last);
    }
    assert(texts(r@) =~= lines(s@));
    r
}

/// The Unicode lower case form of a text that is not ASCII.
pub uninterp spec fn unicode_lowercase(s: Seq<char>) -> Seq<char>;

/// The lower case form of a text.
pub open spec fn lower_case(s: Seq<char>) -> Seq<char> {
    if vstd::utf8::is_ascii_chars(s) {
        lowered(s)
    } else {
        unicode_lowercase(s)
    }
}

/// The lower case form of a text.
///
/// Calls `str::to_lowercase`, which maps ASCII letters to their lower case forms
/// and other characters by the Unicode tables.
#[verifier::external_body]
pub(crate) fn to_lowercase(s: &str) -> (r: String)
    ensures
        r@ == if vstd::utf8::is_ascii_chars(s@) {
            lowered(s@)
        } else {
            unicode_lowercase(s@)
        },
{
    s.to_lowercase()
}

/// The first character of the Unicode lower case form of a character that is not
/// ASCII.
pub uninterp spec fn unicode_lower_char(c: char) -> char;

/// The first character of the lower case form of a character.
pub open spec fn lower_first(c: char) -> char {
    if (c as u32) < 0x80 {
        lower_ascii(c)
    } else {
        unicode_lower_char(c)
    }
}

/// The first character of the lower case form of a character.
///
/// Calls `char::to_lowercase`, which maps ASCII letters to their lower case forms
/// and other characters by the Unicode tables.
#[verifier::external_body]
pub(crate) fn to_lower_first(c: char) -> (r: char)
    ensures
        r == if (c as u32) < 0x80 {
            lower_ascii(c)
        } else {
            unicode_lower_char(c)
        },
{
    c.to_lowercase().next().unwrap_or(c)
}

/// White space is what Unicode calls so: the ASCII controls from tab to carriage
/// return, the space, and seventeen characters beyond ASCII.
pub proof fn white_space(c: char)
    ensures
        space(c) <==> (0x09 <= c as u32 <= 0x0D || c as u32 == 0x20 || c as u32 == 0x85 || c as u32
            == 0xA0 || c as u32 == 0x1680 || 0x2000 <= c as u32 <= 0x200A || c as u32 == 0x2028
            || c as u32 == 0x2029 || c as u32 == 0x202F || c as u32 == 0x205F || c as u32
            == 0x3000),
{
}

/// Lower case is thirty-two further on for the letters A to Z; other characters are
/// their own lower case, and a text is put in lower case character by character.
pub proof fn letters_are_lowered(s: Seq<char>, i: int)
    requires
        0 <= i < s.len(),
    ensures
        lowered(s).len() == s.len(),
        0x41 <= s[i] as u32 <= 0x5A ==> lowered(s)[i] as u32 == s[i] as u32 + 32,
        !(0x41 <= s[i] as u32 <= 0x5A) ==> lowered(s)[i] == s[i],
{
}

/// Whether a text is white space throughout.
pub open spec fn blank(s: Seq<char>) -> bool {
    forall|i: int| 0 <= i < s.len() ==> space(#[trigger] s[i])
}

/// Trimming takes the white space off both ends and leaves the rest.
pub proof fn trimming_takes_the_ends(before: Seq<char>, core: Seq<char>, after: Seq<char>)
    requires
        blank(before),
        blank(after),
        core.len() > 0 ==> !space(core[0]) && !space(core.last()),
    ensures
        trimmed(before + core + after) == core,
        core.len() > 0 ==> trimmed_start(before + core + after) == core + after,
        core.len() > 0 ==> trimmed_end(before + core + after) == before + core,
{
    let s = before + core + after;
    if core.len() > 0 {
        start_is_taken(before, core + after);
        assert(s =~= before + (core + after));
        end_is_taken(core, after);
        end_is_taken(before + core, after);
    } else {
        assert(core =~= Seq::<char>::empty());
        start_is_taken(s, Seq::empty());
        assert(s + Seq::<char>::empty() =~= s);
    }
}

proof fn start_is_taken(before: Seq<char>, rest: Seq<char>)
    requires
        blank(before),
        rest.len() > 0 ==> !space(rest[0]),
    ensures
        trimmed_start(before + rest) == rest,
    decreases before.len(),
{
    let s = before + rest;
    if before.len() == 0 {
        assert(s =~= rest);
    } else {
        assert(s[0] == before[0]);
        assert(s.skip(1) =~= before.skip(1) + rest);
        start_is_taken(before.skip(1), rest);
    }
}

proof fn end_is_taken(front: Seq<char>, after: Seq<char>)
    requires
        blank(after),
        front.len() > 0 ==> !space(front.last()),
    ensures
        trimmed_end(front + after) == front,
    decreases after.len(),
{
    let s = front + after;
    if after.len() == 0 {
        assert(s =~= front);
    } else {
        assert(s.last() == after[after.len() - 1]);
        assert(s.drop_last() =~= front + after.drop_last());
        end_is_taken(front, after.drop_last());
    }
}

/// A text that does not occur is not replaced.
pub proof fn absent_text_is_not_replaced(s: Seq<char>, t: Seq<char>, with: Seq<char>)
    requires
        !occurs(s, t),
    ensures
        replaced(s, t, with) == s,
    decreases s.len(),
{
    if s.len() > 0 && t.len() > 0 {
        assert(!occurs_at(s, t, 0));
        let rest = s.skip(1);
        assert forall|i: int| !#[trigger] occurs_at(rest, t, i) by {
            if occurs_at(rest, t, i) {
                assert(s.subrange(i + 1, i + 1 + t.len()) =~= rest.subrange(i, i + t.len()));
                assert(occurs_at(s, t, i + 1));
            }
        }
        absent_text_is_not_replaced(rest, t, with);
        assert(seq![s[0]] + rest =~= s);
    }
}

/// The first occurrence of a text gives way, and the replacement goes on behind it.
pub proof fn first_occurrence_is_replaced(
    lead: Seq<char>,
    t: Seq<char>,
    rest: Seq<char>,
    with: Seq<char>,
)
    requires
        t.len() > 0,
        forall|i: int| 0 <= i < lead.len() ==> !#[trigger] occurs_at(lead + t + rest, t, i),
    ensures
        replaced(lead + t + rest, t, with) == lead + with + replaced(rest, t, with),
    decreases lead.len(),
{
    let s = lead + t + rest;
    if lead.len() == 0 {
        assert(s.subrange(0, t.len() as int) =~= t);
        assert(occurs_at(s, t, 0));
        assert(s.skip(t.len() as int) =~= rest);
        assert(lead + with =~= with);
    } else {
        assert(!occurs_at(s, t, 0));
        let short = lead.skip(1);
        assert(s.skip(1) =~= short + t + rest);
        assert forall|i: int| 0 <= i < short.len() implies !#[trigger] occurs_at(
            short + t + rest,
            t,
            i,
        ) by {
            assert(s.subrange(i + 1, i + 1 + t.len()) =~= s.skip(1).subrange(i, i + t.len()));
            assert(!occurs_at(s, t, i + 1));
        }
        first_occurrence_is_replaced(short, t, rest, with);
        assert(seq![s[0]] + (short + with + replaced(rest, t, with)) =~= lead + with + replaced(
            rest,
            t,
            with,
        ));
    }
}

/// Decimal notation: one character for a digit, and a tenfold number with a digit
/// added has that digit behind.
pub proof fn decimal_notation(n: nat, d: nat)
    requires
        d < 10,
    ensures
        decimal(d).len() == 1,
        decimal(d)[0] as u32 == 0x30 + d,
        n > 0 ==> decimal(10 * n + d).drop_last() == decimal(n),
        n > 0 ==> decimal(10 * n + d).last() as u32 == 0x30 + d,
{
    if n > 0 {
        let m = 10 * n + d;
        assert(m / 10 == n && m % 10 == d);
        assert(decimal(m) == decimal(n).push(digit(d as int)));
        assert(decimal(m).drop_last() =~= decimal(n));
    }
}

/// Padding puts zeros in front of the decimal notation, up to the width.
pub proof fn padding_is_zeros(n: nat, width: nat)
    ensures
        padded(n, width).len() == if decimal(n).len() >= width { decimal(n).len() } else { width },
        decimal(n).is_suffix_of(padded(n, width)),
        forall|i: int|
            0 <= i < padded(n, width).len() - decimal(n).len() ==> (#[trigger] padded(n, width)[i])
                == '0',
{
    let d = decimal(n);
    let p = padded(n, width);
    assert(d =~= p.subrange(p.len() - d.len(), p.len() as int));
}

/// A separator cuts a text in two: what stands before the first one is the first
/// part, and the other parts are those of what stands behind it.
pub proof fn separators_cut(x: Seq<char>, c: char, y: Seq<char>)
    requires
        forall|i: int| 0 <= i < x.len() ==> #[trigger] x[i] != c,
    ensures
        split(x, c) == seq![x],
        split(x + seq![c] + y, c) == seq![x] + split(y, c),
    decreases y.len(),
{
    uncut(x, c);
    let s = x + seq![c] + y;
    if y.len() == 0 {
        assert(s.drop_last() =~= x);
        assert(s.last() == c);
        assert(split(s, c) =~= seq![x] + split(y, c));
    } else {
        let front = y.drop_last();
        separators_cut(x, c, front);
        split_is_not_empty(front, c);
        assert(s.drop_last() =~= x + seq![c] + front);
        assert(split(s, c) =~= seq![x] + split(y, c));
    }
}

proof fn uncut(x: Seq<char>, c: char)
    requires
        forall|i: int| 0 <= i < x.len() ==> #[trigger] x[i] != c,
    ensures
        split(x, c) == seq![x],
    decreases x.len(),
{
    if x.len() > 0 {
        let front = x.drop_last();
        assert forall|i: int| 0 <= i < front.len() implies #[trigger] front[i] != c by {
            assert(x[i] != c);
        }
        uncut(front, c);
        assert(x[x.len() - 1] != c);
        assert(front.push(x.last()) =~= x);
        assert(split(x, c) =~= seq![x]);
    } else {
        assert(x =~= Seq::<char>::empty());
    }
}

/// Words are what stands between white space: a first word, then the words of what
/// follows the white space behind it; white space in front counts for nothing.
pub proof fn white_space_parts_words(word: Seq<char>, c: char, rest: Seq<char>)
    requires
        forall|i: int| 0 <= i < word.len() ==> !space(#[trigger] word[i]),
        space(c),
    ensures
        words(Seq::<char>::empty()) == Seq::<Seq<char>>::empty(),
        word.len() > 0 ==> words(word) == seq![word],
        word.len() > 0 ==> words(word + seq![c] + rest) == seq![word] + words(rest),
        words(seq![c] + rest) == words(rest),
{
    one_word(word);
    assert(words(Seq::<char>::empty()) =~= Seq::<Seq<char>>::empty());
    if word.len() > 0 {
        assert(words(word) =~= seq![word]);
        words_go_on(word + seq![c], rest);
        let front = word + seq![c];
        assert(front.drop_last() =~= word);
        assert(front.last() == c);
        assert(words_state(front) == (seq![word], Seq::<char>::empty())) by {
            assert(Seq::<Seq<char>>::empty().push(word) =~= seq![word]);
        }
        assert(words(front + rest) =~= seq![word] + words(rest));
    }
    let lone = seq![c];
    assert(lone.drop_last() =~= Seq::<char>::empty());
    assert(words_state(lone) == (Seq::<Seq<char>>::empty(), Seq::<char>::empty()));
    words_go_on(lone, rest);
    assert(words(lone + rest) =~= words(rest));
}

proof fn one_word(word: Seq<char>)
    requires
        forall|i: int| 0 <= i < word.len() ==> !space(#[trigger] word[i]),
    ensures
        words_state(word) == (Seq::<Seq<char>>::empty(), word),
    decreases word.len(),
{
    if word.len() > 0 {
        let front = word.drop_last();
        assert forall|i: int| 0 <= i < front.len() implies !space(#[trigger] front[i]) by {
            assert(!space(word[i]));
        }
        one_word(front);
        assert(!space(word[word.len() - 1]));
        assert(front.push(word.last()) =~= word);
    } else {
        assert(word =~= Seq::<char>::empty());
    }
}

proof fn words_go_on(front: Seq<char>, rest: Seq<char>)
    requires
        words_state(front).1.len() == 0,
    ensures
        words_state(front + rest) == (
            words_state(front).0 + words_state(rest).0,
            words_state(rest).1,
        ),
    decreases rest.len(),
{
    let s = front + rest;
    if rest.len() == 0 {
        assert(s =~= front);
        assert(words_state(front).1 =~= Seq::<char>::empty());
        assert(words_state(front).0 + Seq::<Seq<char>>::empty() =~= words_state(front).0);
    } else {
        let short = rest.drop_last();
        words_go_on(front, short);
        assert(s.drop_last() =~= front + short);
        assert(s.last() == rest.last());
        let (done, open) = words_state(short);
        assert(words_state(front).0 + done.push(open) =~= (words_state(front).0 + done).push(open));
    }
}

/// A line feed ends a line, which loses one carriage return at its end; the lines
/// that follow are those of the text behind it. A text without a line feed is one
/// line, unless it is empty.
pub proof fn line_feeds_end_lines(line: Seq<char>, rest: Seq<char>)
    requires
        forall|i: int| 0 <= i < line.len() ==> #[trigger] line[i] != '\n',
    ensures
        line.len() == 0 ==> lines(line) == Seq::<Seq<char>>::empty(),
        line.len() > 0 ==> lines(line) == seq![line],
        lines(line + seq!['\n'] + rest) == seq![
            if line.len() > 0 && line.last() == '\r' {
                line.drop_last()
            } else {
                line
            },
        ] + lines(rest),
{
    separators_cut(line, '\n', rest);
    assert(lines(line) =~= if line.len() == 0 {
        Seq::<Seq<char>>::empty()
    } else {
        seq![line]
    });
    split_is_not_empty(rest, '\n');
    let parts = split(rest, '\n');
    assert((seq![line] + parts).last() == parts.last());
    assert(lines(line + seq!['\n'] + rest) =~= seq![chomped(line)] + lines(rest));
}

} // verus!
