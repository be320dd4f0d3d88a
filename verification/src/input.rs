//! Keyboard input encoding for the terminal.
//!
//! The mapping follows the conventions documented in the xterm ctlseqs
//! reference: modified function keys use the `1;modifier` parameter form, the
//! cursor keys switch between `ESC [ A` and `ESC O A` depending on the
//! application cursor key mode, and bracketed paste wraps pasted text.
use crate::term::{Mode, Modes};
use vstd::prelude::*;
use vstd::utf8::encode_utf8;

verus! {

/// A keyboard key, in terminal terms.
///
/// The UI layer maps toolkit key events onto this model so the encoding logic
/// stays toolkit independent.
#[derive(Debug, Clone, Copy, PartialEq, Eq, Hash, Structural)]
pub enum Key {
    /// A printable character.
    Char(char),
    /// Enter / return.
    Enter,
    /// Backspace.
    Backspace,
    /// Tab.
    Tab,
    /// Escape.
    Escape,
    /// Arrow up.
    Up,
    /// Arrow down.
    Down,
    /// Arrow right.
    Right,
    /// Arrow left.
    Left,
    /// Home.
    Home,
    /// End.
    End,
    /// Page up.
    PageUp,
    /// Page down.
    PageDown,
    /// Insert.
    Insert,
    /// Delete.
    Delete,
    /// Function key 1-12 (and beyond, which are ignored).
    F(u8),
}

/// Modifier keys held during a press.
#[allow(non_camel_case_types)]
#[derive(Debug, Clone, Copy, PartialEq, Eq, Hash, Structural)]
pub enum KeyModifier {
    /// No modifiers.
    NONE,
    /// Shift.
    SHIFT,
    /// Alt / meta.
    ALT,
    /// Shift and alt.
    SHIFT_ALT,
    /// Control.
    CONTROL,
    /// Shift and control.
    SHIFT_CONTROL,
    /// Alt and control.
    ALT_CONTROL,
    /// Shift, alt and control.
    SHIFT_ALT_CONTROL,
}

impl Default for KeyModifier {
    fn default() -> (r: Self)
        ensures
            r == KeyModifier::NONE,
    {
        KeyModifier::NONE
    }
}

impl KeyModifier {
    /// Whether shift is held.
    pub open spec fn shift(self) -> bool {
        self is SHIFT || self is SHIFT_ALT || self is SHIFT_CONTROL || self is SHIFT_ALT_CONTROL
    }

    /// Whether alt is held.
    pub open spec fn alt(self) -> bool {
        self is ALT || self is SHIFT_ALT || self is ALT_CONTROL || self is SHIFT_ALT_CONTROL
    }

    /// Whether control is held.
    pub open spec fn control(self) -> bool {
        self is CONTROL || self is SHIFT_CONTROL || self is ALT_CONTROL || self is SHIFT_ALT_CONTROL
    }

    /// The modifier set as a number: shift 1, alt 2, control 4.
    pub open spec fn bits(self) -> int {
        (if self.shift() { 1int } else { 0 }) + (if self.alt() { 2int } else { 0 }) + (
        if self.control() { 4int } else { 0 })
    }

    /// The keys of the set: shift, alt and control.
    fn keys(self) -> (r: (bool, bool, bool))
        ensures
            r == (self.shift(), self.alt(), self.control()),
    {
        match self {
            KeyModifier::NONE => (false, false, false),
            KeyModifier::SHIFT => (true, false, false),
            KeyModifier::ALT => (false, true, false),
            KeyModifier::SHIFT_ALT => (true, true, false),
            KeyModifier::CONTROL => (false, false, true),
            KeyModifier::SHIFT_CONTROL => (true, false, true),
            KeyModifier::ALT_CONTROL => (false, true, true),
            KeyModifier::SHIFT_ALT_CONTROL => (true, true, true),
        }
    }

    /// Combines two modifier sets.
    pub fn union(self, other: Self) -> (r: Self)
        ensures
            r.shift() == (self.shift() || other.shift()),
            r.alt() == (self.alt() || other.alt()),
            r.control() == (self.control() || other.control()),
    {
        let (shift, alt, control) = self.keys();
        let (also_shift, also_alt, also_control) = other.keys();
        match (shift || also_shift, alt || also_alt, control || also_control) {
            (false, false, false) => KeyModifier::NONE,
            (true, false, false) => KeyModifier::SHIFT,
            (false, true, false) => KeyModifier::ALT,
            (true, true, false) => KeyModifier::SHIFT_ALT,
            (false, false, true) => KeyModifier::CONTROL,
            (true, false, true) => KeyModifier::SHIFT_CONTROL,
            (false, true, true) => KeyModifier::ALT_CONTROL,
            (true, true, true) => KeyModifier::SHIFT_ALT_CONTROL,
        }
    }

    /// True when the given modifier is held; of a set, when any of it is.
    pub fn contains(self, other: Self) -> (r: bool)
        ensures
            r == (self.shift() && other.shift() || self.alt() && other.alt() || self.control()
                && other.control()),
    {
        let (shift, alt, control) = self.keys();
        let (also_shift, also_alt, also_control) = other.keys();
        shift && also_shift || alt && also_alt || control && also_control
    }

    /// The xterm modifier parameter value (1 based).
    pub fn xterm_parameter(self) -> (r: u8)
        ensures
            r == self.bits() + 1,
    {
        let (shift, alt, control) = self.keys();
        let one: u8 = if shift { 1 } else { 0 };
        let two: u8 = if alt { 2 } else { 0 };
        let four: u8 = if control { 4 } else { 0 };
        one + two + four + 1
    }
}

/// The digit of the xterm modifier parameter.
pub open spec fn modifier_digit(m: KeyModifier) -> u8 {
    (0x30 + m.bits() + 1) as u8
}

/// A character key: control maps letters and the space bar to control codes,
/// everything else is sent as UTF-8.
pub open spec fn char_bytes(ch: char, m: KeyModifier) -> Seq<u8> {
    if m.control() && 'a' <= ch <= 'z' {
        seq![(ch as int - 'a' as int + 1) as u8]
    } else if m.control() && 'A' <= ch <= 'Z' {
        seq![(ch as int - 'A' as int + 1) as u8]
    } else if m.control() && ch == ' ' {
        seq![0u8]
    } else {
        encode_utf8(seq![ch])
    }
}

/// `ESC [ letter`, or `ESC [ 1 ; modifier letter`.
pub open spec fn letter_bytes(letter: u8, m: KeyModifier) -> Seq<u8> {
    if m.bits() == 0 {
        seq![0x1Bu8, 0x5B, letter]
    } else {
        seq![0x1Bu8, 0x5B, 0x31, 0x3B, modifier_digit(m), letter]
    }
}

/// `ESC [ digit ~`, or `ESC [ digit ; modifier ~`.
pub open spec fn tilde_bytes(digit: u8, m: KeyModifier) -> Seq<u8> {
    if m.bits() == 0 {
        seq![0x1Bu8, 0x5B, digit, 0x7E]
    } else {
        seq![0x1Bu8, 0x5B, digit, 0x3B, modifier_digit(m), 0x7E]
    }
}

/// The two digits that name the function keys 5 to 12.
pub open spec fn function_digits(number: u8) -> (u8, u8) {
    if number == 5 {
        (0x31, 0x35)
    } else if number == 6 {
        (0x31, 0x37)
    } else if number == 7 {
        (0x31, 0x38)
    } else if number == 8 {
        (0x31, 0x39)
    } else if number == 9 {
        (0x32, 0x30)
    } else if number == 10 {
        (0x32, 0x31)
    } else if number == 11 {
        (0x32, 0x33)
    } else {
        (0x32, 0x34)
    }
}

/// The xterm function key table: F1-F4 use the short `ESC O <letter>` form,
/// F5-F12 use `ESC [ <number> ~`, any modified function key uses the
/// `ESC [ 1 ; <modifier> <final>` form, and other numbers send nothing.
pub open spec fn function_bytes(number: u8, m: KeyModifier) -> Seq<u8> {
    if 1 <= number <= 4 {
        let letter = (0x50 + number - 1) as u8;
        if m.bits() == 0 {
            seq![0x1Bu8, 0x4F, letter]
        } else {
            letter_bytes(letter, m)
        }
    } else if 5 <= number <= 12 {
        let digits = function_digits(number);
        if m.bits() == 0 {
            seq![0x1Bu8, 0x5B, digits.0, digits.1, 0x7E]
        } else {
            letter_bytes(0x7E, m)
        }
    } else {
        Seq::empty()
    }
}

/// A cursor key: application mode changes the unmodified form.
pub open spec fn arrow_bytes(letter: u8, m: KeyModifier, application: bool) -> Seq<u8> {
    if m.bits() == 0 && application {
        seq![0x1Bu8, 0x4F, letter]
    } else {
        letter_bytes(letter, m)
    }
}

/// The bytes sent for a key press.
pub open spec fn key_bytes(key: Key, m: KeyModifier, modes: Set<Mode>) -> Seq<u8> {
    let application = modes.contains(Mode::ApplicationCursorKeys);
    match key {
        Key::Char(ch) => char_bytes(ch, m),
        Key::Enter => seq![0x0Du8],
        Key::Backspace => if m.alt() {
            seq![0x1Bu8, 0x7F]
        } else {
            seq![0x7Fu8]
        },
        Key::Tab => if m.shift() {
            seq![0x1Bu8, 0x5B, 0x5A]
        } else {
            seq![0x09u8]
        },
        Key::Escape => seq![0x1Bu8],
        Key::Up => arrow_bytes(0x41, m, application),
        Key::Down => arrow_bytes(0x42, m, application),
        Key::Right => arrow_bytes(0x43, m, application),
        Key::Left => arrow_bytes(0x44, m, application),
        Key::Home => letter_bytes(0x48, m),
        Key::End => letter_bytes(0x46, m),
        Key::PageUp => tilde_bytes(0x35, m),
        Key::PageDown => tilde_bytes(0x36, m),
        Key::Insert => tilde_bytes(0x32, m),
        Key::Delete => tilde_bytes(0x33, m),
        Key::F(number) => function_bytes(number, m),
    }
}

/// Encodes a key press into the byte sequence to send to the remote side.
pub fn encode_key(key: Key, modifiers: KeyModifier, modes: Modes) -> (r: Vec<u8>)
    ensures
        r@ == key_bytes(key, modifiers, modes@),
{
    let application = modes.get(Mode::ApplicationCursorKeys);
    match key {
        Key::Char(ch) => encode_char(ch, modifiers),
        Key::Enter => vec![0x0D],
        Key::Backspace => {
            if modifiers.contains(KeyModifier::ALT) {
                vec![0x1B, 0x7F]
            } else {
                vec![0x7F]
            }
        },
        Key::Tab => {
            if modifiers.contains(KeyModifier::SHIFT) {
                vec![0x1B, 0x5B, 0x5A]
            } else {
                vec![0x09]
            }
        },
        Key::Escape => vec![0x1B],
        Key::Up => encode_arrow(0x41, modifiers, application),
        Key::Down => encode_arrow(0x42, modifiers, application),
        Key::Right => encode_arrow(0x43, modifiers, application),
        Key::Left => encode_arrow(0x44, modifiers, application),
        Key::Home => encode_letter(0x48, modifiers),
        Key::End => encode_letter(0x46, modifiers),
        Key::PageUp => encode_tilde(0x35, modifiers),
        Key::PageDown => encode_tilde(0x36, modifiers),
        Key::Insert => encode_tilde(0x32, modifiers),
        Key::Delete => encode_tilde(0x33, modifiers),
        Key::F(number) => encode_function_key(number, modifiers),
    }
}

fn encode_char(ch: char, modifiers: KeyModifier) -> (r: Vec<u8>)
    ensures
        r@ == char_bytes(ch, modifiers),
{
    let control = modifiers.contains(KeyModifier::CONTROL);
    if control && 'a' <= ch && ch <= 'z' {
        return vec![(ch as u32 - 97 + 1) as u8];
    }
    if control && 'A' <= ch && ch <= 'Z' {
        return vec![(ch as u32 - 65 + 1) as u8];
    }
    if control && ch == ' ' {
        return vec![0];
    }
    let mut text = String::new();
    text.push(ch);
    assert(text@ =~= seq![ch]);
    let mut out: Vec<u8> = Vec::new();
    append_bytes(&mut out, text.as_str().as_bytes());
    assert(out@ =~= encode_utf8(seq![ch]));
    out
}

/// Appends a run of bytes.
fn append_bytes(out: &mut Vec<u8>, bytes: &[u8])
    ensures
        final(out)@ == old(out)@ + bytes@,
{
    out.extend_from_slice(bytes);
    assert(out@ =~= old(out)@ + bytes@);
}

fn encode_letter(letter: u8, modifiers: KeyModifier) -> (r: Vec<u8>)
    ensures
        r@ == letter_bytes(letter, modifiers),
{
    let parameter: u8 = modifiers.xterm_parameter();
    if parameter == 1 {
        vec![0x1B, 0x5B, letter]
    } else {
        vec![0x1B, 0x5B, 0x31, 0x3B, 0x30 + parameter, letter]
    }
}

fn encode_arrow(letter: u8, modifiers: KeyModifier, application: bool) -> (r: Vec<u8>)
    ensures
        r@ == arrow_bytes(letter, modifiers, application),
{
    if application && modifiers.xterm_parameter() == 1 {
        vec![0x1B, 0x4F, letter]
    } else {
        encode_letter(letter, modifiers)
    }
}

fn encode_tilde(digit: u8, modifiers: KeyModifier) -> (r: Vec<u8>)
    ensures
        r@ == tilde_bytes(digit, modifiers),
{
    let parameter: u8 = modifiers.xterm_parameter();
    if parameter == 1 {
        vec![0x1B, 0x5B, digit, 0x7E]
    } else {
        vec![0x1B, 0x5B, digit, 0x3B, 0x30 + parameter, 0x7E]
    }
}

/// The xterm function key table.
///
/// F1-F4 use the short `ESC O <letter>` form, F5-F12 use `ESC [ <number> ~`,
/// and any modified function key uses the `ESC [ 1 ; <modifier> <final>` form.
fn encode_function_key(number: u8, modifiers: KeyModifier) -> (r: Vec<u8>)
    ensures
        r@ == function_bytes(number, modifiers),
{
    let parameter: u8 = modifiers.xterm_parameter();
    if 1 <= number && number <= 4 {
        let letter: u8 = 0x50 + (number - 1);
        if parameter == 1 {
            return vec![0x1B, 0x4F, letter];
        }
        return encode_letter(letter, modifiers);
    }
    if 5 <= number && number <= 12 {
        let (first, second): (u8, u8) = match number {
            5 => (0x31, 0x35),
            6 => (0x31, 0x37),
            7 => (0x31, 0x38),
            8 => (0x31, 0x39),
            9 => (0x32, 0x30),
            10 => (0x32, 0x31),
            11 => (0x32, 0x33),
            _ => (0x32, 0x34),
        };
        if parameter == 1 {
            return vec![0x1B, 0x5B, first, second, 0x7E];
        }
        return encode_letter(0x7E, modifiers);
    }
    Vec::new()
}

/// The bracketed paste start marker, `ESC [ 200 ~`.
pub open spec fn paste_start() -> Seq<u8> {
    seq![0x1Bu8, 0x5B, 0x32, 0x30, 0x30, 0x7E]
}

/// The bracketed paste end marker, `ESC [ 201 ~`.
pub open spec fn paste_end() -> Seq<u8> {
    seq![0x1Bu8, 0x5B, 0x32, 0x30, 0x31, 0x7E]
}

/// The bytes sent for pasted text.
pub open spec fn paste_bytes(text: Seq<char>, modes: Set<Mode>) -> Seq<u8> {
    if modes.contains(Mode::BracketedPaste) {
        paste_start() + encode_utf8(text) + paste_end()
    } else {
        encode_utf8(text)
    }
}

/// Encodes pasted text, wrapping it when bracketed paste is enabled.
pub fn encode_paste(text: &str, modes: Modes) -> (r: Vec<u8>)
    ensures
        r@ == paste_bytes(text@, modes@),
{
    if !modes.get(Mode::BracketedPaste) {
        let mut out: Vec<u8> = Vec::new();
        append_bytes(&mut out, text.as_bytes());
        assert(out@ =~= encode_utf8(text@));
        return out;
    }
    let mut out: Vec<u8> = vec![0x1B, 0x5B, 0x32, 0x30, 0x30, 0x7E];
    assert(out@ =~= paste_start());
    append_bytes(&mut out, text.as_bytes());
    let end: Vec<u8> = vec![0x1B, 0x5B, 0x32, 0x30, 0x31, 0x7E];
    append_bytes(&mut out, end.as_slice());
    assert(out@ =~= paste_bytes(text@, modes@));
    out
}

/// Encodes a command followed by Enter, as typed into the prompt.
pub fn encode_line(command: &str, modes: Modes) -> (r: Vec<u8>)
    ensures
        r@ == paste_bytes(command@, modes@).push(0x0D),
{
    let mut out = encode_paste(command, modes);
    out.push(0x0D);
    out
}

/// The cursor keys send `ESC [` and their letter, or `ESC O` and the letter in
/// application mode.
pub proof fn arrows_send_their_letters(modes: Set<Mode>)
    ensures
        !modes.contains(Mode::ApplicationCursorKeys) ==> {
            &&& key_bytes(Key::Up, KeyModifier::NONE, modes) == seq![0x1Bu8, 0x5B, 0x41]
            &&& key_bytes(Key::Down, KeyModifier::NONE, modes) == seq![0x1Bu8, 0x5B, 0x42]
            &&& key_bytes(Key::Right, KeyModifier::NONE, modes) == seq![0x1Bu8, 0x5B, 0x43]
            &&& key_bytes(Key::Left, KeyModifier::NONE, modes) == seq![0x1Bu8, 0x5B, 0x44]
        },
        modes.contains(Mode::ApplicationCursorKeys) ==> {
            &&& key_bytes(Key::Up, KeyModifier::NONE, modes) == seq![0x1Bu8, 0x4F, 0x41]
            &&& key_bytes(Key::Down, KeyModifier::NONE, modes) == seq![0x1Bu8, 0x4F, 0x42]
            &&& key_bytes(Key::Right, KeyModifier::NONE, modes) == seq![0x1Bu8, 0x4F, 0x43]
            &&& key_bytes(Key::Left, KeyModifier::NONE, modes) == seq![0x1Bu8, 0x4F, 0x44]
        },
{
}

/// The editing keys send the sequences of xterm, whatever the modes are.
pub proof fn editing_keys_send_their_sequences(modes: Set<Mode>)
    ensures
        key_bytes(Key::Home, KeyModifier::NONE, modes) == seq![0x1Bu8, 0x5B, 0x48],
        key_bytes(Key::End, KeyModifier::NONE, modes) == seq![0x1Bu8, 0x5B, 0x46],
        key_bytes(Key::Insert, KeyModifier::NONE, modes) == seq![0x1Bu8, 0x5B, 0x32, 0x7E],
        key_bytes(Key::Delete, KeyModifier::NONE, modes) == seq![0x1Bu8, 0x5B, 0x33, 0x7E],
        key_bytes(Key::PageUp, KeyModifier::NONE, modes) == seq![0x1Bu8, 0x5B, 0x35, 0x7E],
        key_bytes(Key::PageDown, KeyModifier::NONE, modes) == seq![0x1Bu8, 0x5B, 0x36, 0x7E],
{
}

/// Enter, escape, tab and backspace send their control codes; backspace with alt is
/// preceded by escape, and tab with shift is the back tab.
pub proof fn control_keys_send_their_codes(m: KeyModifier, modes: Set<Mode>)
    ensures
        key_bytes(Key::Enter, m, modes) == seq![0x0Du8],
        key_bytes(Key::Escape, m, modes) == seq![0x1Bu8],
        key_bytes(Key::Tab, m, modes) == if m == KeyModifier::SHIFT || m == KeyModifier::SHIFT_ALT
            || m == KeyModifier::SHIFT_CONTROL || m == KeyModifier::SHIFT_ALT_CONTROL {
            seq![0x1Bu8, 0x5B, 0x5A]
        } else {
            seq![0x09u8]
        },
        key_bytes(Key::Backspace, m, modes) == if m == KeyModifier::ALT || m
            == KeyModifier::SHIFT_ALT || m == KeyModifier::ALT_CONTROL || m
            == KeyModifier::SHIFT_ALT_CONTROL {
            seq![0x1Bu8, 0x7F]
        } else {
            seq![0x7Fu8]
        },
{
}

/// The twelve function keys send the sequences of xterm, and other numbers nothing.
pub proof fn function_keys_send_their_sequences(number: u8, m: KeyModifier, modes: Set<Mode>)
    ensures
        key_bytes(Key::F(1), KeyModifier::NONE, modes) == seq![0x1Bu8, 0x4F, 0x50],
        key_bytes(Key::F(2), KeyModifier::NONE, modes) == seq![0x1Bu8, 0x4F, 0x51],
        key_bytes(Key::F(3), KeyModifier::NONE, modes) == seq![0x1Bu8, 0x4F, 0x52],
        key_bytes(Key::F(4), KeyModifier::NONE, modes) == seq![0x1Bu8, 0x4F, 0x53],
        key_bytes(Key::F(5), KeyModifier::NONE, modes) == seq![0x1Bu8, 0x5B, 0x31, 0x35, 0x7E],
        key_bytes(Key::F(6), KeyModifier::NONE, modes) == seq![0x1Bu8, 0x5B, 0x31, 0x37, 0x7E],
        key_bytes(Key::F(7), KeyModifier::NONE, modes) == seq![0x1Bu8, 0x5B, 0x31, 0x38, 0x7E],
        key_bytes(Key::F(8), KeyModifier::NONE, modes) == seq![0x1Bu8, 0x5B, 0x31, 0x39, 0x7E],
        key_bytes(Key::F(9), KeyModifier::NONE, modes) == seq![0x1Bu8, 0x5B, 0x32, 0x30, 0x7E],
        key_bytes(Key::F(10), KeyModifier::NONE, modes) == seq![0x1Bu8, 0x5B, 0x32, 0x31, 0x7E],
        key_bytes(Key::F(11), KeyModifier::NONE, modes) == seq![0x1Bu8, 0x5B, 0x32, 0x33, 0x7E],
        key_bytes(Key::F(12), KeyModifier::NONE, modes) == seq![0x1Bu8, 0x5B, 0x32, 0x34, 0x7E],
        number == 0 || number > 12 ==> key_bytes(Key::F(number), m, modes) == Seq::<u8>::empty(),
{
}

/// The digit that a modifier set has in a sequence: 2 for shift, 3 for alt, 4 for
/// both, and four more with control.
pub proof fn modifiers_have_their_digits()
    ensures
        modifier_digit(KeyModifier::SHIFT) == 0x32,
        modifier_digit(KeyModifier::ALT) == 0x33,
        modifier_digit(KeyModifier::SHIFT_ALT) == 0x34,
        modifier_digit(KeyModifier::CONTROL) == 0x35,
        modifier_digit(KeyModifier::SHIFT_CONTROL) == 0x36,
        modifier_digit(KeyModifier::ALT_CONTROL) == 0x37,
        modifier_digit(KeyModifier::SHIFT_ALT_CONTROL) == 0x38,
{
}

/// A key that is held with a modifier sends the sequence with the digit of the
/// modifier, whatever the modes are: `ESC [ 1 ; digit letter` for the cursor keys,
/// home, end and the function keys, `ESC [ number ; digit ~` for the others.
pub proof fn modified_keys_carry_the_modifier(m: KeyModifier, modes: Set<Mode>, number: u8)
    requires
        m != KeyModifier::NONE,
    ensures
        ({
            let d = modifier_digit(m);
            &&& key_bytes(Key::Up, m, modes) == seq![0x1Bu8, 0x5B, 0x31, 0x3B, d, 0x41]
            &&& key_bytes(Key::Down, m, modes) == seq![0x1Bu8, 0x5B, 0x31, 0x3B, d, 0x42]
            &&& key_bytes(Key::Right, m, modes) == seq![0x1Bu8, 0x5B, 0x31, 0x3B, d, 0x43]
            &&& key_bytes(Key::Left, m, modes) == seq![0x1Bu8, 0x5B, 0x31, 0x3B, d, 0x44]
            &&& key_bytes(Key::Home, m, modes) == seq![0x1Bu8, 0x5B, 0x31, 0x3B, d, 0x48]
            &&& key_bytes(Key::End, m, modes) == seq![0x1Bu8, 0x5B, 0x31, 0x3B, d, 0x46]
            &&& key_bytes(Key::Insert, m, modes) == seq![0x1Bu8, 0x5B, 0x32, 0x3B, d, 0x7E]
            &&& key_bytes(Key::Delete, m, modes) == seq![0x1Bu8, 0x5B, 0x33, 0x3B, d, 0x7E]
            &&& key_bytes(Key::PageUp, m, modes) == seq![0x1Bu8, 0x5B, 0x35, 0x3B, d, 0x7E]
            &&& key_bytes(Key::PageDown, m, modes) == seq![0x1Bu8, 0x5B, 0x36, 0x3B, d, 0x7E]
            &&& key_bytes(Key::F(1), m, modes) == seq![0x1Bu8, 0x5B, 0x31, 0x3B, d, 0x50]
            &&& key_bytes(Key::F(2), m, modes) == seq![0x1Bu8, 0x5B, 0x31, 0x3B, d, 0x51]
            &&& key_bytes(Key::F(3), m, modes) == seq![0x1Bu8, 0x5B, 0x31, 0x3B, d, 0x52]
            &&& key_bytes(Key::F(4), m, modes) == seq![0x1Bu8, 0x5B, 0x31, 0x3B, d, 0x53]
            &&& 5 <= number <= 12 ==> key_bytes(Key::F(number), m, modes) == seq![
                0x1Bu8,
                0x5B,
                0x31,
                0x3B,
                d,
                0x7E,
            ]
        }),
{
}

/// Without control a character is sent as itself in UTF-8; shift and alt change
/// nothing about it.
pub proof fn characters_are_sent_as_they_are(ch: char, m: KeyModifier, modes: Set<Mode>)
    requires
        m == KeyModifier::NONE || m == KeyModifier::SHIFT || m == KeyModifier::ALT || m
            == KeyModifier::SHIFT_ALT,
    ensures
        key_bytes(Key::Char(ch), m, modes) == encode_utf8(seq![ch]),
{
}

/// With control a letter of either case sends the code of its place in the alphabet,
/// the space bar sends zero, and any other character is sent as itself.
pub proof fn control_characters_are_sent(ch: char, m: KeyModifier, modes: Set<Mode>)
    requires
        m == KeyModifier::CONTROL || m == KeyModifier::SHIFT_CONTROL || m
            == KeyModifier::ALT_CONTROL || m == KeyModifier::SHIFT_ALT_CONTROL,
    ensures
        0x61 <= ch as u32 <= 0x7A ==> key_bytes(Key::Char(ch), m, modes) == seq![
            (ch as u32 - 0x60) as u8,
        ],
        0x41 <= ch as u32 <= 0x5A ==> key_bytes(Key::Char(ch), m, modes) == seq![
            (ch as u32 - 0x40) as u8,
        ],
        ch as u32 == 0x20 ==> key_bytes(Key::Char(ch), m, modes) == seq![0u8],
        !(0x61 <= ch as u32 <= 0x7A || 0x41 <= ch as u32 <= 0x5A || ch as u32 == 0x20)
            ==> key_bytes(Key::Char(ch), m, modes) == encode_utf8(seq![ch]),
{
}

/// Pasted text arrives whole: as it is, or between the two markers of bracketed
/// paste.
pub proof fn pastes_arrive_whole(text: Seq<char>, modes: Set<Mode>)
    ensures
        !modes.contains(Mode::BracketedPaste) ==> paste_bytes(text, modes) == encode_utf8(text),
        modes.contains(Mode::BracketedPaste) ==> paste_bytes(text, modes) == seq![
            0x1Bu8,
            0x5B,
            0x32,
            0x30,
            0x30,
            0x7E,
        ] + encode_utf8(text) + seq![0x1Bu8, 0x5B, 0x32, 0x30, 0x31, 0x7E],
{
}

} // verus!
