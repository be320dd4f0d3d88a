//! Byte oriented VT100/xterm escape sequence parser.
//!
//! The parser is a state machine over the input byte stream, modelled on the
//! state diagram published by Paul Flo Williams for `vttest` compatibility.  It
//! emits [`Action`] values and owns no screen state, which keeps the terminal
//! behaviour itself independently testable.
//!
//! [`transition`] is the machine: from a parser state and one byte to the next
//! state and the actions produced.  [`run`] folds it over a stream.
use crate::error::{join, joined};
use crate::text::{concat2, concat3, debug_character, debug_literal, decimal, quoted, quoted_char, to_decimal, chars_of, split, split_at_char, texts, utf8_text};
use vstd::prelude::*;
use vstd::utf8::{decode_utf8, valid_utf8};

verus! {

/// One parsed event from the input stream.
#[derive(Debug, Clone, PartialEq, Eq)]
pub enum Action {
    /// A printable character.
    Print(char),
    /// A C0/C1 control code (BEL, BS, HT, LF, VT, FF, CR).
    Execute(u8),
    /// A complete CSI sequence: `CSI params ; intermediates action`.
    Csi {
        /// Numeric parameters, with defaults already resolved to `0`.
        params: Vec<u16>,
        /// Private marker bytes such as `?`, `>`, `<`, `=`.
        intermediates: Vec<u8>,
        /// True when the sequence was malformed and should be ignored.
        ignore: bool,
        /// The final byte identifying the operation.
        action: u8,
    },
    /// A complete escape sequence (two or three bytes).
    Esc {
        /// Intermediate bytes, if any.
        intermediates: Vec<u8>,
        /// True when the sequence was malformed and should be ignored.
        ignore: bool,
        /// The final byte.
        action: u8,
    },
    /// A complete operating system command: `OSC 0 ; title ST`.
    Osc {
        /// The `;` separated parameters.
        params: Vec<String>,
        /// True when terminated by BEL instead of ST.
        bell_terminated: bool,
    },
    /// The start of a device control string.
    DcsStart {
        /// Numeric parameters.
        params: Vec<u16>,
        /// Private marker bytes.
        intermediates: Vec<u8>,
        /// The final byte identifying the operation.
        action: u8,
    },
    /// Data belonging to the current device control string.
    DcsData(Vec<u8>),
    /// The end of the current device control string.
    DcsEnd,
}

/// The content of an [`Action`].
pub enum ActionView {
    Print(char),
    Execute(u8),
    Csi { params: Seq<u16>, intermediates: Seq<u8>, ignore: bool, action: u8 },
    Esc { intermediates: Seq<u8>, ignore: bool, action: u8 },
    Osc { params: Seq<Seq<char>>, bell_terminated: bool },
    DcsStart { params: Seq<u16>, intermediates: Seq<u8>, action: u8 },
    DcsData(Seq<u8>),
    DcsEnd,
}

impl View for Action {
    type V = ActionView;

    open spec fn view(&self) -> ActionView {
        match *self {
            Action::Print(ch) => ActionView::Print(ch),
            Action::Execute(code) => ActionView::Execute(code),
            Action::Csi { params, intermediates, ignore, action } => ActionView::Csi {
                params: params@,
                intermediates: intermediates@,
                ignore,
                action,
            },
            Action::Esc { intermediates, ignore, action } => ActionView::Esc {
                intermediates: intermediates@,
                ignore,
                action,
            },
            Action::Osc { params, bell_terminated } => ActionView::Osc {
                params: texts(params@),
                bell_terminated,
            },
            Action::DcsStart { params, intermediates, action } => ActionView::DcsStart {
                params: params@,
                intermediates: intermediates@,
                action,
            },
            Action::DcsData(data) => ActionView::DcsData(data@),
            Action::DcsEnd => ActionView::DcsEnd,
        }
    }
}

/// An upper case hexadecimal digit.
pub open spec fn upper_hex(n: int) -> char {
    if n < 10 {
        (0x30 + n) as char
    } else {
        (0x41 + (n - 10)) as char
    }
}

/// A byte as two upper case hexadecimal digits.
pub open spec fn byte_text(byte: u8) -> Seq<char> {
    seq![upper_hex(byte as int / 16), upper_hex(byte as int % 16)]
}

/// How an action is shown in diagnostics.
pub open spec fn action_text(action: ActionView) -> Seq<char> {
    match action {
        ActionView::Print(ch) => "print "@ + debug_character(ch),
        ActionView::Execute(code) => "execute 0x"@ + byte_text(code),
        ActionView::Csi { params, intermediates, ignore, action } => "csi "@ + decimal(
            action as nat,
        ),
        ActionView::Esc { intermediates, ignore, action } => "esc "@ + decimal(action as nat),
        ActionView::Osc { params, bell_terminated } => "osc ["@ + joined(
            Seq::new(params.len(), |i: int| debug_literal(params[i])),
            ", "@,
        ) + "]"@,
        ActionView::DcsStart { params, intermediates, action } => "dcs "@ + decimal(action as nat),
        ActionView::DcsData(data) => "dcs-data "@ + decimal(data.len()) + " bytes"@,
        ActionView::DcsEnd => "dcs-end"@,
    }
}

fn upper_hex_of(n: u8) -> (r: char)
    requires
        n < 16,
    ensures
        r == upper_hex(n as int),
{
    if n < 10 {
        (0x30 + n) as char
    } else {
        (0x41 + (n - 10)) as char
    }
}

fn byte_to_text(byte: u8) -> (r: String)
    ensures
        r@ == byte_text(byte),
{
    let mut r = String::new();
    r.push(upper_hex_of(byte / 16));
    r.push(upper_hex_of(byte % 16));
    assert(r@ =~= byte_text(byte));
    r
}

fn quote_params(params: &Vec<String>) -> (r: String)
    ensures
        r@ == joined(
            Seq::new(params@.len(), |i: int| debug_literal(texts(params@)[i])),
            ", "@,
        ),
{
    let mut parts: Vec<String> = Vec::new();
    let mut i: usize = 0;
    while i < params.len()
        invariant
            i <= params@.len(),
            parts@.len() == i,
            forall|k: int| 0 <= k < i ==> (#[trigger] parts@[k])@ == debug_literal(params@[k]@),
        decreases params.len() - i,
    {
        parts.push(quoted(params[i].as_str()));
        i = i + 1;
    }
    assert(texts(parts@) =~= Seq::new(params@.len(), |i: int| debug_literal(texts(params@)[i])));
    join(&parts, ", ")
}

impl Action {
    /// How the action is shown in diagnostics.
    pub fn to_string(&self) -> (r: String)
        ensures
            r@ == action_text(self@),
    {
        match self {
            Action::Print(ch) => concat2("print ", quoted_char(*ch).as_str()),
            Action::Execute(code) => concat2("execute 0x", byte_to_text(*code).as_str()),
            Action::Csi { action, .. } => concat2("csi ", to_decimal(*action as u64).as_str()),
            Action::Esc { action, .. } => concat2("esc ", to_decimal(*action as u64).as_str()),
            Action::Osc { params, .. } => concat3("osc [", quote_params(params).as_str(), "]"),
            Action::DcsStart { action, .. } => concat2("dcs ", to_decimal(*action as u64).as_str()),
            Action::DcsData(data) => concat3(
                "dcs-data ",
                to_decimal(data.len() as u64).as_str(),
                " bytes",
            ),
            Action::DcsEnd => "dcs-end".to_owned(),
        }
    }
}

/// The contents of a run of actions.
pub open spec fn action_views(s: Seq<Action>) -> Seq<ActionView> {
    Seq::new(s.len(), |i: int| s[i]@)
}

/// Parser states.
#[derive(Debug, Clone, Copy, PartialEq, Eq, Structural)]
pub enum State {
    Ground,
    Escape,
    EscapeIntermediate,
    CsiEntry,
    CsiParam,
    CsiIntermediate,
    CsiIgnore,
    DcsEntry,
    DcsParam,
    DcsIntermediate,
    DcsPassthrough,
    DcsIgnore,
    OscString,
    SosPmApcString,
}

/// Everything a parser remembers between two bytes.
#[verifier::ext_equal]
pub struct ParserView {
    /// Position in the state diagram.
    pub state: State,
    /// Finished numeric parameters.
    pub params: Seq<u16>,
    /// The parameter being read, if a digit was seen.
    pub current: Option<u16>,
    /// Intermediate and private marker bytes.
    pub intermediates: Seq<u8>,
    /// The sequence is malformed.
    pub ignore: bool,
    /// Text of the operating system command being read.
    pub osc: Seq<char>,
    /// Data of the device control string being read.
    pub dcs: Seq<u8>,
    /// Bytes of the UTF-8 sequence being read.
    pub utf8: Seq<u8>,
    /// Length that the UTF-8 sequence being read will have.
    pub expected: nat,
    /// Head of a device control string that no data byte followed yet.
    pub dcs_start: Option<(Seq<u16>, Seq<u8>, u8)>,
}

/// The parser at the start of a stream.
pub open spec fn initial() -> ParserView {
    ParserView {
        state: State::Ground,
        params: Seq::empty(),
        current: None,
        intermediates: Seq::empty(),
        ignore: false,
        osc: Seq::empty(),
        dcs: Seq::empty(),
        utf8: Seq::empty(),
        expected: 0,
        dcs_start: None,
    }
}

/// What one byte does: the next parser state and the actions produced.
pub struct Outcome {
    pub parser: ParserView,
    pub actions: Seq<ActionView>,
}

/// The parser moves on silently.
pub open spec fn quiet(parser: ParserView) -> Outcome {
    Outcome { parser, actions: Seq::empty() }
}

/// The parser moves on with one action.
pub open spec fn one(parser: ParserView, action: ActionView) -> Outcome {
    Outcome { parser, actions: seq![action] }
}

/// The character shown for undecodable input.
pub open spec fn replacement() -> char {
    '\u{FFFD}'
}

/// The partially read sequence is dropped.
pub open spec fn cleared(p: ParserView) -> ParserView {
    ParserView {
        params: Seq::empty(),
        current: None,
        intermediates: Seq::empty(),
        ignore: false,
        osc: Seq::empty(),
        dcs: Seq::empty(),
        utf8: Seq::empty(),
        expected: 0,
        ..p
    }
}

/// The parameter being read is finished; a missing one counts as zero.
pub open spec fn pushed(p: ParserView) -> ParserView {
    ParserView {
        params: p.params.push(if p.current is Some { p.current->0 } else { 0 }),
        current: None,
        ..p
    }
}

/// Appends an intermediate byte and moves on.
pub open spec fn collected(p: ParserView, byte: u8, state: State) -> ParserView {
    ParserView { intermediates: p.intermediates.push(byte), state, ..p }
}

/// Appends a decimal digit to a parameter, saturating at the largest value.
pub open spec fn digit_appended(current: Option<u16>, byte: u8) -> u16 {
    let before: int = if current is Some { current->0 as int } else { 0 };
    let value = before * 10 + (byte - 0x30);
    if value > u16::MAX {
        u16::MAX
    } else {
        value as u16
    }
}

/// Number of bytes announced by the first byte of a UTF-8 sequence, zero when
/// the byte cannot start one.
pub open spec fn utf8_length(byte: u8) -> nat {
    if 0xC0 <= byte <= 0xDF {
        2
    } else if 0xE0 <= byte <= 0xEF {
        3
    } else if 0xF0 <= byte <= 0xF7 {
        4
    } else {
        0
    }
}

/// The character encoded by a complete sequence, the replacement character for
/// an invalid one.
pub open spec fn utf8_char(bytes: Seq<u8>) -> char {
    if valid_utf8(bytes) && decode_utf8(bytes).len() > 0 {
        decode_utf8(bytes)[0]
    } else {
        replacement()
    }
}

/// A byte of plain text while no UTF-8 sequence is open.
pub open spec fn plain_byte(p: ParserView, byte: u8) -> Outcome {
    if byte < 0x20 {
        one(p, ActionView::Execute(byte))
    } else if byte < 0x80 {
        one(p, ActionView::Print(byte as char))
    } else if utf8_length(byte) == 0 {
        one(p, ActionView::Print(replacement()))
    } else {
        quiet(ParserView { utf8: seq![byte], expected: utf8_length(byte), ..p })
    }
}

/// Plain text: an open UTF-8 sequence takes continuation bytes; any other byte
/// breaks it, which is reported by a replacement character.
pub open spec fn ground_step(p: ParserView, byte: u8) -> Outcome {
    if p.utf8.len() == 0 {
        plain_byte(p, byte)
    } else if !(0x80 <= byte <= 0xBF) {
        let rest = plain_byte(ParserView { utf8: Seq::empty(), expected: 0, ..p }, byte);
        Outcome {
            parser: rest.parser,
            actions: seq![ActionView::Print(replacement())] + rest.actions,
        }
    } else if p.utf8.len() + 1 == p.expected {
        one(
            ParserView { utf8: Seq::empty(), expected: 0, ..p },
            ActionView::Print(utf8_char(p.utf8.push(byte))),
        )
    } else {
        quiet(ParserView { utf8: p.utf8.push(byte), ..p })
    }
}

/// An escape sequence is complete.
pub open spec fn esc_dispatched(p: ParserView, byte: u8) -> Outcome {
    one(
        ParserView { intermediates: Seq::empty(), state: State::Ground, ..p },
        ActionView::Esc { intermediates: p.intermediates, ignore: false, action: byte },
    )
}

pub open spec fn escape_step(p: ParserView, byte: u8) -> Outcome {
    if byte == 0x5B {
        quiet(ParserView { state: State::CsiEntry, ..p })
    } else if byte == 0x5D {
        quiet(ParserView { osc: Seq::empty(), state: State::OscString, ..p })
    } else if byte == 0x50 {
        quiet(ParserView { state: State::DcsEntry, ..p })
    } else if byte == 0x58 || byte == 0x5E || byte == 0x5F {
        quiet(ParserView { state: State::SosPmApcString, ..p })
    } else if byte == 0x5C {
        quiet(ParserView { state: State::Ground, ..p })
    } else if 0x20 <= byte <= 0x2F {
        quiet(collected(p, byte, State::EscapeIntermediate))
    } else if 0x30 <= byte <= 0x7E {
        esc_dispatched(p, byte)
    } else {
        quiet(ParserView { state: State::Ground, ..p })
    }
}

pub open spec fn escape_intermediate_step(p: ParserView, byte: u8) -> Outcome {
    if 0x20 <= byte <= 0x2F {
        quiet(collected(p, byte, p.state))
    } else if 0x30 <= byte <= 0x7E {
        esc_dispatched(p, byte)
    } else {
        quiet(ParserView { state: State::Ground, ..p })
    }
}

/// The state after a control sequence was reported.
pub open spec fn csi_finished(p: ParserView) -> ParserView {
    ParserView {
        params: Seq::empty(),
        current: None,
        intermediates: Seq::empty(),
        ignore: false,
        state: State::Ground,
        ..p
    }
}

/// A control sequence is complete.
pub open spec fn csi_dispatched(p: ParserView, byte: u8) -> Outcome {
    one(
        csi_finished(p),
        ActionView::Csi {
            params: pushed(p).params,
            intermediates: p.intermediates,
            ignore: p.ignore,
            action: byte,
        },
    )
}

pub open spec fn csi_entry_step(p: ParserView, byte: u8) -> Outcome {
    if 0x30 <= byte <= 0x39 {
        quiet(ParserView { current: Some((byte - 0x30) as u16), state: State::CsiParam, ..p })
    } else if byte == 0x3B {
        quiet(ParserView { state: State::CsiParam, ..pushed(p) })
    } else if byte == 0x3A {
        quiet(ParserView { state: State::CsiIgnore, ..pushed(p) })
    } else if 0x3C <= byte <= 0x3F {
        quiet(collected(p, byte, State::CsiParam))
    } else if 0x20 <= byte <= 0x2F {
        quiet(collected(p, byte, State::CsiIntermediate))
    } else if 0x40 <= byte <= 0x7E {
        csi_dispatched(p, byte)
    } else {
        quiet(p)
    }
}

pub open spec fn csi_param_step(p: ParserView, byte: u8) -> Outcome {
    if 0x30 <= byte <= 0x39 {
        quiet(ParserView { current: Some(digit_appended(p.current, byte)), ..p })
    } else if byte == 0x3B {
        quiet(pushed(p))
    } else if byte == 0x3A {
        quiet(ParserView { state: State::CsiIgnore, ..pushed(p) })
    } else if 0x20 <= byte <= 0x2F {
        quiet(collected(p, byte, State::CsiIntermediate))
    } else if 0x40 <= byte <= 0x7E {
        csi_dispatched(p, byte)
    } else if 0x3C <= byte <= 0x3F {
        quiet(ParserView { ignore: true, state: State::CsiIgnore, ..p })
    } else {
        quiet(p)
    }
}

pub open spec fn csi_intermediate_step(p: ParserView, byte: u8) -> Outcome {
    if 0x20 <= byte <= 0x2F {
        quiet(collected(p, byte, p.state))
    } else if 0x30 <= byte <= 0x3F {
        quiet(ParserView { ignore: true, state: State::CsiIgnore, ..p })
    } else if 0x40 <= byte <= 0x7E {
        csi_dispatched(p, byte)
    } else {
        quiet(p)
    }
}

/// The rest of a control sequence is passed over: it is malformed, or what is left
/// are sub-parameters, which collapse to the value in front of them.
pub open spec fn csi_ignore_step(p: ParserView, byte: u8) -> Outcome {
    if 0x40 <= byte <= 0x7E {
        one(
            csi_finished(p),
            ActionView::Csi {
                params: p.params,
                intermediates: p.intermediates,
                ignore: p.ignore,
                action: byte,
            },
        )
    } else {
        quiet(p)
    }
}

/// The head of a device control string is complete.
pub open spec fn dcs_dispatched(p: ParserView, byte: u8) -> Outcome {
    quiet(
        ParserView {
            params: Seq::empty(),
            current: None,
            intermediates: Seq::empty(),
            dcs: Seq::empty(),
            state: State::DcsPassthrough,
            dcs_start: Some((pushed(p).params, p.intermediates, byte)),
            ..p
        },
    )
}

pub open spec fn dcs_entry_step(p: ParserView, byte: u8) -> Outcome {
    if 0x30 <= byte <= 0x39 {
        quiet(ParserView { current: Some((byte - 0x30) as u16), state: State::DcsParam, ..p })
    } else if byte == 0x3B {
        quiet(ParserView { state: State::DcsParam, ..pushed(p) })
    } else if 0x3C <= byte <= 0x3F {
        quiet(collected(p, byte, State::DcsParam))
    } else if 0x20 <= byte <= 0x2F {
        quiet(collected(p, byte, State::DcsIntermediate))
    } else if 0x40 <= byte <= 0x7E {
        dcs_dispatched(p, byte)
    } else {
        quiet(p)
    }
}

pub open spec fn dcs_param_step(p: ParserView, byte: u8) -> Outcome {
    if 0x30 <= byte <= 0x39 {
        quiet(ParserView { current: Some(digit_appended(p.current, byte)), ..p })
    } else if byte == 0x3B {
        quiet(pushed(p))
    } else if 0x3C <= byte <= 0x3F {
        quiet(ParserView { state: State::DcsIgnore, ..p })
    } else if 0x20 <= byte <= 0x2F {
        quiet(collected(p, byte, State::DcsIntermediate))
    } else if 0x40 <= byte <= 0x7E {
        dcs_dispatched(p, byte)
    } else {
        quiet(p)
    }
}

pub open spec fn dcs_intermediate_step(p: ParserView, byte: u8) -> Outcome {
    if 0x20 <= byte <= 0x2F {
        quiet(collected(p, byte, p.state))
    } else if 0x30 <= byte <= 0x3F {
        quiet(ParserView { state: State::DcsIgnore, ..p })
    } else if 0x40 <= byte <= 0x7E {
        dcs_dispatched(p, byte)
    } else {
        quiet(p)
    }
}

/// The report owed for the head of the current device control string.
pub open spec fn dcs_head(p: ParserView) -> Seq<ActionView> {
    match p.dcs_start {
        Some(start) => seq![
            ActionView::DcsStart { params: start.0, intermediates: start.1, action: start.2 },
        ],
        None => Seq::empty(),
    }
}

/// The report of the data of the current device control string, and of its end.
pub open spec fn dcs_tail(p: ParserView) -> Seq<ActionView> {
    if p.dcs.len() > 0 {
        seq![ActionView::DcsData(p.dcs), ActionView::DcsEnd]
    } else {
        seq![ActionView::DcsEnd]
    }
}

pub open spec fn dcs_passthrough_step(p: ParserView, byte: u8) -> Outcome {
    let q = ParserView { dcs_start: None, ..p };
    if byte == 0x1B {
        Outcome {
            parser: ParserView { state: State::Escape, ..cleared(q) },
            actions: dcs_head(p) + dcs_tail(p),
        }
    } else if byte <= 0x7E && byte != 0x18 && byte != 0x1A {
        Outcome { parser: ParserView { dcs: p.dcs.push(byte), ..q }, actions: dcs_head(p) }
    } else if byte == 0x7F {
        Outcome { parser: q, actions: dcs_head(p) }
    } else {
        Outcome {
            parser: ParserView { dcs: Seq::empty(), state: State::Ground, ..q },
            actions: dcs_head(p) + dcs_tail(p),
        }
    }
}

pub open spec fn osc_step(p: ParserView, byte: u8) -> Outcome {
    if byte == 0x07 || byte == 0x1B {
        one(
            ParserView {
                osc: Seq::empty(),
                state: if byte == 0x07 { State::Ground } else { State::Escape },
                ..p
            },
            ActionView::Osc { params: split(p.osc, ';'), bell_terminated: byte == 0x07 },
        )
    } else if 0x20 <= byte <= 0x7F {
        quiet(ParserView { osc: p.osc.push(byte as char), ..p })
    } else {
        quiet(p)
    }
}

pub open spec fn sos_step(p: ParserView, byte: u8) -> Outcome {
    if byte == 0x07 {
        quiet(ParserView { state: State::Ground, ..p })
    } else {
        quiet(p)
    }
}

/// Whether a state reads a string that ESC may terminate.
pub open spec fn in_string(state: State) -> bool {
    state == State::OscString || state == State::DcsPassthrough || state == State::SosPmApcString
}

/// The state machine: what one byte does to a parser.
pub open spec fn transition(p: ParserView, byte: u8) -> Outcome {
    if byte == 0x18 || byte == 0x1A {
        one(ParserView { state: State::Ground, ..cleared(p) }, ActionView::Execute(byte))
    } else if byte == 0x1B && !in_string(p.state) {
        quiet(ParserView { state: State::Escape, ..cleared(p) })
    } else {
        match p.state {
            State::Ground => ground_step(p, byte),
            State::Escape => escape_step(p, byte),
            State::EscapeIntermediate => escape_intermediate_step(p, byte),
            State::CsiEntry => csi_entry_step(p, byte),
            State::CsiParam => csi_param_step(p, byte),
            State::CsiIntermediate => csi_intermediate_step(p, byte),
            State::CsiIgnore => csi_ignore_step(p, byte),
            State::DcsEntry => dcs_entry_step(p, byte),
            State::DcsParam => dcs_param_step(p, byte),
            State::DcsIntermediate => dcs_intermediate_step(p, byte),
            State::DcsPassthrough => dcs_passthrough_step(p, byte),
            State::DcsIgnore => quiet(p),
            State::OscString => osc_step(p, byte),
            State::SosPmApcString => sos_step(p, byte),
        }
    }
}

/// What a stream of bytes does to a parser, byte after byte.
pub open spec fn run(p: ParserView, bytes: Seq<u8>) -> Outcome
    decreases bytes.len(),
{
    if bytes.len() == 0 {
        quiet(p)
    } else {
        let before = run(p, bytes.drop_last());
        let last = transition(before.parser, bytes.last());
        Outcome { parser: last.parser, actions: before.actions + last.actions }
    }
}

/// Where a stream is cut makes no difference: parsing it in two pieces gives the
/// same actions and leaves the same parser as parsing it whole.
pub proof fn chunking_is_invisible(p: ParserView, a: Seq<u8>, b: Seq<u8>)
    ensures
        run(p, a + b).parser == run(run(p, a).parser, b).parser,
        run(p, a + b).actions == run(p, a).actions + run(run(p, a).parser, b).actions,
    decreases b.len(),
{
    if b.len() == 0 {
        assert(a + b =~= a);
        assert(run(p, a).actions + Seq::<ActionView>::empty() =~= run(p, a).actions);
    } else {
        assert((a + b).drop_last() =~= a + b.drop_last());
        chunking_is_invisible(p, a, b.drop_last());
        assert(run(p, a + b).actions =~= run(p, a).actions + run(run(p, a).parser, b).actions);
    }
}

/// CAN and SUB abort whatever was being read: afterwards the parser is in the
/// ground state with nothing pending but the head of a device control string.
pub proof fn cancel_aborts_any_sequence(p: ParserView, byte: u8)
    requires
        byte == 0x18 || byte == 0x1A,
    ensures
        transition(p, byte).actions == seq![ActionView::Execute(byte)],
        transition(p, byte).parser == (ParserView { dcs_start: p.dcs_start, ..initial() }),
{
}

/// The VT parser.
///
/// Feed bytes with [`Parser::advance`]; it returns every action produced.
#[derive(Debug, Clone)]
pub struct Parser {
    state: State,
    params: Vec<u16>,
    current_param: Option<u16>,
    intermediates: Vec<u8>,
    ignore: bool,
    osc_buffer: String,
    dcs_buffer: Vec<u8>,
    utf8: Vec<u8>,
    utf8_expected: usize,
    pending_dcs_start: Option<(Vec<u16>, Vec<u8>, u8)>,
}

impl View for Parser {
    type V = ParserView;

    closed spec fn view(&self) -> ParserView {
        ParserView {
            state: self.state,
            params: self.params@,
            current: self.current_param,
            intermediates: self.intermediates@,
            ignore: self.ignore,
            osc: self.osc_buffer@,
            dcs: self.dcs_buffer@,
            utf8: self.utf8@,
            expected: self.utf8_expected as nat,
            dcs_start: match self.pending_dcs_start {
                Some(start) => Some((start.0@, start.1@, start.2)),
                None => None,
            },
        }
    }
}

impl Default for Parser {
    fn default() -> (r: Self)
        ensures
            r@ == initial(),
    {
        Parser::new()
    }
}

/// Empties a vector and hands its content out.
fn take_bytes(v: &mut Vec<u8>) -> (r: Vec<u8>)
    ensures
        r@ == old(v)@,
        final(v)@ == Seq::<u8>::empty(),
{
    let mut r: Vec<u8> = Vec::new();
    r.append(v);
    assert(r@ =~= old(v)@);
    r
}

/// Empties a vector and hands its content out.
fn take_params(v: &mut Vec<u16>) -> (r: Vec<u16>)
    ensures
        r@ == old(v)@,
        final(v)@ == Seq::<u16>::empty(),
{
    let mut r: Vec<u16> = Vec::new();
    r.append(v);
    assert(r@ =~= old(v)@);
    r
}

/// Appends an action.
fn emit(out: &mut Vec<Action>, action: Action)
    ensures
        action_views(final(out)@) == action_views(old(out)@) + seq![action@],
{
    out.push(action);
    assert(action_views(out@) =~= action_views(old(out)@) + seq![action@]);
}

impl Parser {
    /// Creates a parser positioned at the start of the stream.
    pub fn new() -> (r: Self)
        ensures
            r@ == initial(),
    {
        let r = Parser {
            state: State::Ground,
            params: Vec::new(),
            current_param: None,
            intermediates: Vec::new(),
            ignore: false,
            osc_buffer: String::new(),
            dcs_buffer: Vec::new(),
            utf8: Vec::new(),
            utf8_expected: 0,
            pending_dcs_start: None,
        };
        assert(r@ =~= initial());
        r
    }

    /// Feeds one byte and returns every action it produced.
    pub fn advance_byte(&mut self, byte: u8) -> (out: Vec<Action>)
        ensures
            final(self)@ == transition(old(self)@, byte).parser,
            action_views(out@) == transition(old(self)@, byte).actions,
    {
        let mut out: Vec<Action> = Vec::new();
        self.step(byte, &mut out);
        assert(action_views(out@) =~= transition(old(self)@, byte).actions);
        out
    }

    /// Feeds a slice and returns every action it produced.
    pub fn advance(&mut self, bytes: &[u8]) -> (out: Vec<Action>)
        ensures
            final(self)@ == run(old(self)@, bytes@).parser,
            action_views(out@) == run(old(self)@, bytes@).actions,
    {
        let mut out: Vec<Action> = Vec::with_capacity(bytes.len());
        let mut i: usize = 0;
        assert(action_views(out@) =~= Seq::<ActionView>::empty());
        assert(bytes@.take(0) =~= Seq::<u8>::empty());
        while i < bytes.len()
            invariant
                i <= bytes.len(),
                self@ == run(old(self)@, bytes@.take(i as int)).parser,
                action_views(out@) == run(old(self)@, bytes@.take(i as int)).actions,
            decreases bytes.len() - i,
        {
            proof {
                let next = bytes@.take(i + 1);
                assert(next.drop_last() =~= bytes@.take(i as int));
                assert(next.last() == bytes@[i as int]);
            }
            self.step(bytes[i], &mut out);
            i = i + 1;
        }
        assert(bytes@.take(bytes@.len() as int) =~= bytes@);
        out
    }

    /// Discards any partially parsed sequence (used after a reconnect).
    pub fn reset(&mut self)
        ensures
            final(self)@ == initial(),
    {
        *self = Parser::new();
    }

    fn step(&mut self, byte: u8, out: &mut Vec<Action>)
        ensures
            final(self)@ == transition(old(self)@, byte).parser,
            action_views(final(out)@) == action_views(old(out)@) + transition(
                old(self)@,
                byte,
            ).actions,
    {
        if byte == 0x18 || byte == 0x1A {
            // CAN / SUB abort the current sequence.
            self.clear();
            self.state = State::Ground;
            emit(out, Action::Execute(byte));
            assert(self@ =~= transition(old(self)@, byte).parser);
            return;
        }
        let string = match self.state {
            State::OscString => true,
            State::DcsPassthrough => true,
            State::SosPmApcString => true,
            _ => false,
        };
        if byte == 0x1B && !string {
            self.clear();
            self.state = State::Escape;
            assert(self@ =~= transition(old(self)@, byte).parser);
            assert(action_views(out@) + Seq::<ActionView>::empty() =~= action_views(out@));
            return;
        }
        match self.state {
            State::Ground => self.ground(byte, out),
            State::Escape => self.escape(byte, out),
            State::EscapeIntermediate => self.escape_intermediate(byte, out),
            State::CsiEntry => self.csi_entry(byte, out),
            State::CsiParam => self.csi_param(byte, out),
            State::CsiIntermediate => self.csi_intermediate(byte, out),
            State::CsiIgnore => self.csi_ignore(byte, out),
            State::DcsEntry => self.dcs_entry(byte),
            State::DcsParam => self.dcs_param(byte),
            State::DcsIntermediate => self.dcs_intermediate(byte),
            State::DcsPassthrough => self.dcs_passthrough(byte, out),
            State::DcsIgnore => {},
            State::OscString => self.osc_string(byte, out),
            State::SosPmApcString => self.sos_pm_apc(byte),
        }
        assert(action_views(old(out)@) + Seq::<ActionView>::empty() =~= action_views(old(out)@));
    }

    fn clear(&mut self)
        ensures
            final(self)@ == cleared(old(self)@),
    {
        self.params.clear();
        self.current_param = None;
        self.intermediates.clear();
        self.ignore = false;
        self.osc_buffer = String::new();
        self.dcs_buffer.clear();
        self.utf8.clear();
        self.utf8_expected = 0;
        assert(self@ =~= cleared(old(self)@));
    }

    fn push_param(&mut self)
        ensures
            final(self)@ == pushed(old(self)@),
    {
        let value: u16 = match self.current_param {
            Some(value) => value,
            None => 0,
        };
        self.current_param = None;
        self.params.push(value);
        assert(self@ =~= pushed(old(self)@));
    }

    /// Appends a digit to the parameter being read.
    fn push_digit(&mut self, byte: u8)
        requires
            0x30 <= byte <= 0x39,
        ensures
            final(self)@ == (ParserView {
                current: Some(digit_appended(old(self)@.current, byte)),
                ..old(self)@
            }),
    {
        let before: u32 = match self.current_param {
            Some(value) => value as u32,
            None => 0,
        };
        let value: u32 = before * 10 + (byte - 0x30) as u32;
        self.current_param = Some(if value > 0xFFFF { 0xFFFF } else { value as u16 });
        assert(self@ =~= (ParserView {
            current: Some(digit_appended(old(self)@.current, byte)),
            ..old(self)@
        }));
    }

    /// Appends an intermediate byte and moves on.
    fn collect(&mut self, byte: u8, state: State)
        ensures
            final(self)@ == collected(old(self)@, byte, state),
    {
        self.intermediates.push(byte);
        self.state = state;
        assert(self@ =~= collected(old(self)@, byte, state));
    }

    fn ground(&mut self, byte: u8, out: &mut Vec<Action>)
        requires
            old(self)@.state == State::Ground,
        ensures
            final(self)@ == ground_step(old(self)@, byte).parser,
            action_views(final(out)@) == action_views(old(out)@) + ground_step(
                old(self)@,
                byte,
            ).actions,
    {
        if self.utf8.len() == 0 {
            self.plain(byte, out);
            return;
        }
        self.utf8(byte, out);
    }

    /// A byte of plain text while no UTF-8 sequence is open.
    fn plain(&mut self, byte: u8, out: &mut Vec<Action>)
        requires
            old(self)@.utf8.len() == 0,
        ensures
            final(self)@ == plain_byte(old(self)@, byte).parser,
            action_views(final(out)@) == action_views(old(out)@) + plain_byte(
                old(self)@,
                byte,
            ).actions,
    {
        if byte < 0x20 {
            emit(out, Action::Execute(byte));
        } else if byte < 0x80 {
            emit(out, Action::Print(byte as char));
        } else {
            let expected: usize = if 0xC0 <= byte && byte <= 0xDF {
                2
            } else if 0xE0 <= byte && byte <= 0xEF {
                3
            } else if 0xF0 <= byte && byte <= 0xF7 {
                4
            } else {
                0
            };
            if expected == 0 {
                emit(out, Action::Print('\u{FFFD}'));
            } else {
                self.utf8.push(byte);
                self.utf8_expected = expected;
                assert(self@ =~= plain_byte(old(self)@, byte).parser);
                assert(action_views(out@) + Seq::<ActionView>::empty() =~= action_views(out@));
            }
        }
    }

    /// Minimal UTF-8 decoder for the ground state, inside an open sequence.
    fn utf8(&mut self, byte: u8, out: &mut Vec<Action>)
        requires
            old(self)@.utf8.len() > 0,
        ensures
            final(self)@ == ground_step(old(self)@, byte).parser,
            action_views(final(out)@) == action_views(old(out)@) + ground_step(
                old(self)@,
                byte,
            ).actions,
    {
        if byte < 0x80 || byte > 0xBF {
            // Invalid continuation: emit a replacement and reprocess the byte.
            self.utf8.clear();
            self.utf8_expected = 0;
            emit(out, Action::Print('\u{FFFD}'));
            proof {
                assert(self@ =~= (ParserView { utf8: Seq::empty(), expected: 0, ..old(self)@ }));
            }
            self.plain(byte, out);
            assert(action_views(out@) =~= action_views(old(out)@) + ground_step(
                old(self)@,
                byte,
            ).actions);
            return;
        }
        self.utf8.push(byte);
        if self.utf8.len() == self.utf8_expected {
            let decoded = match utf8_text(self.utf8.as_slice()) {
                Some(text) => {
                    let chars = chars_of(text.as_str());
                    if chars.len() > 0 {
                        chars[0]
                    } else {
                        '\u{FFFD}'
                    }
                },
                None => '\u{FFFD}',
            };
            emit(out, Action::Print(decoded));
            self.utf8.clear();
            self.utf8_expected = 0;
            assert(self@ =~= ground_step(old(self)@, byte).parser);
        } else {
            assert(self@ =~= ground_step(old(self)@, byte).parser);
            assert(action_views(out@) + Seq::<ActionView>::empty() =~= action_views(out@));
        }
    }

    /// Reports a complete escape sequence.
    fn esc_dispatch(&mut self, byte: u8, out: &mut Vec<Action>)
        ensures
            final(self)@ == esc_dispatched(old(self)@, byte).parser,
            action_views(final(out)@) == action_views(old(out)@) + esc_dispatched(
                old(self)@,
                byte,
            ).actions,
    {
        let intermediates = take_bytes(&mut self.intermediates);
        self.state = State::Ground;
        emit(out, Action::Esc { intermediates, ignore: false, action: byte });
        assert(self@ =~= esc_dispatched(old(self)@, byte).parser);
    }

    fn escape(&mut self, byte: u8, out: &mut Vec<Action>)
        ensures
            final(self)@ == escape_step(old(self)@, byte).parser,
            action_views(final(out)@) == action_views(old(out)@) + escape_step(
                old(self)@,
                byte,
            ).actions,
    {
        proof {
            assert(action_views(out@) + Seq::<ActionView>::empty() =~= action_views(out@));
        }
        if byte == 0x5B {
            self.state = State::CsiEntry;
        } else if byte == 0x5D {
            self.osc_buffer = String::new();
            self.state = State::OscString;
        } else if byte == 0x50 {
            self.state = State::DcsEntry;
        } else if byte == 0x58 || byte == 0x5E || byte == 0x5F {
            self.state = State::SosPmApcString;
        } else if byte == 0x5C {
            // The string terminator (ST): nothing to dispatch.
            self.state = State::Ground;
        } else if 0x20 <= byte && byte <= 0x2F {
            self.collect(byte, State::EscapeIntermediate);
        } else if 0x30 <= byte && byte <= 0x7E {
            self.esc_dispatch(byte, out);
        } else {
            self.state = State::Ground;
        }
        assert(self@ =~= escape_step(old(self)@, byte).parser);
    }

    fn escape_intermediate(&mut self, byte: u8, out: &mut Vec<Action>)
        ensures
            final(self)@ == escape_intermediate_step(old(self)@, byte).parser,
            action_views(final(out)@) == action_views(old(out)@) + escape_intermediate_step(
                old(self)@,
                byte,
            ).actions,
    {
        proof {
            assert(action_views(out@) + Seq::<ActionView>::empty() =~= action_views(out@));
        }
        if 0x20 <= byte && byte <= 0x2F {
            self.intermediates.push(byte);
        } else if 0x30 <= byte && byte <= 0x7E {
            self.esc_dispatch(byte, out);
        } else {
            self.state = State::Ground;
        }
        assert(self@ =~= escape_intermediate_step(old(self)@, byte).parser);
    }

    fn csi_entry(&mut self, byte: u8, out: &mut Vec<Action>)
        ensures
            final(self)@ == csi_entry_step(old(self)@, byte).parser,
            action_views(final(out)@) == action_views(old(out)@) + csi_entry_step(
                old(self)@,
                byte,
            ).actions,
    {
        proof {
            assert(action_views(out@) + Seq::<ActionView>::empty() =~= action_views(out@));
        }
        if 0x30 <= byte && byte <= 0x39 {
            self.current_param = Some((byte - 0x30) as u16);
            self.state = State::CsiParam;
        } else if byte == 0x3B {
            self.push_param();
            self.state = State::CsiParam;
        } else if byte == 0x3A {
            // Sub-parameters (used by modern SGR underline styles): collapse
            // to the first value, which is what terminals display.
            self.push_param();
            self.state = State::CsiIgnore;
        } else if 0x3C <= byte && byte <= 0x3F {
            self.collect(byte, State::CsiParam);
        } else if 0x20 <= byte && byte <= 0x2F {
            self.collect(byte, State::CsiIntermediate);
        } else if 0x40 <= byte && byte <= 0x7E {
            self.csi_dispatch(byte, out);
        }
        assert(self@ =~= csi_entry_step(old(self)@, byte).parser);
    }

    fn csi_param(&mut self, byte: u8, out: &mut Vec<Action>)
        ensures
            final(self)@ == csi_param_step(old(self)@, byte).parser,
            action_views(final(out)@) == action_views(old(out)@) + csi_param_step(
                old(self)@,
                byte,
            ).actions,
    {
        proof {
            assert(action_views(out@) + Seq::<ActionView>::empty() =~= action_views(out@));
        }
        if 0x30 <= byte && byte <= 0x39 {
            self.push_digit(byte);
        } else if byte == 0x3B {
            self.push_param();
        } else if byte == 0x3A {
            self.push_param();
            self.state = State::CsiIgnore;
        } else if 0x20 <= byte && byte <= 0x2F {
            self.collect(byte, State::CsiIntermediate);
        } else if 0x40 <= byte && byte <= 0x7E {
            self.csi_dispatch(byte, out);
        } else if 0x3C <= byte && byte <= 0x3F {
            // A private marker after parameters makes the sequence invalid.
            self.ignore = true;
            self.state = State::CsiIgnore;
        }
        assert(self@ =~= csi_param_step(old(self)@, byte).parser);
    }

    fn csi_intermediate(&mut self, byte: u8, out: &mut Vec<Action>)
        ensures
            final(self)@ == csi_intermediate_step(old(self)@, byte).parser,
            action_views(final(out)@) == action_views(old(out)@) + csi_intermediate_step(
                old(self)@,
                byte,
            ).actions,
    {
        proof {
            assert(action_views(out@) + Seq::<ActionView>::empty() =~= action_views(out@));
        }
        if 0x20 <= byte && byte <= 0x2F {
            self.intermediates.push(byte);
        } else if 0x30 <= byte && byte <= 0x3F {
            self.ignore = true;
            self.state = State::CsiIgnore;
        } else if 0x40 <= byte && byte <= 0x7E {
            self.csi_dispatch(byte, out);
        }
        assert(self@ =~= csi_intermediate_step(old(self)@, byte).parser);
    }

    fn csi_ignore(&mut self, byte: u8, out: &mut Vec<Action>)
        ensures
            final(self)@ == csi_ignore_step(old(self)@, byte).parser,
            action_views(final(out)@) == action_views(old(out)@) + csi_ignore_step(
                old(self)@,
                byte,
            ).actions,
    {
        proof {
            assert(action_views(out@) + Seq::<ActionView>::empty() =~= action_views(out@));
        }
        if 0x40 <= byte && byte <= 0x7E {
            let params = take_params(&mut self.params);
            let intermediates = take_bytes(&mut self.intermediates);
            let ignore = self.ignore;
            self.ignore = false;
            self.current_param = None;
            self.state = State::Ground;
            emit(out, Action::Csi { params, intermediates, ignore, action: byte });
        }
        assert(self@ =~= csi_ignore_step(old(self)@, byte).parser);
    }

    fn csi_dispatch(&mut self, byte: u8, out: &mut Vec<Action>)
        ensures
            final(self)@ == csi_dispatched(old(self)@, byte).parser,
            action_views(final(out)@) == action_views(old(out)@) + csi_dispatched(
                old(self)@,
                byte,
            ).actions,
    {
        self.push_param();
        let params = take_params(&mut self.params);
        let intermediates = take_bytes(&mut self.intermediates);
        let ignore = self.ignore;
        self.ignore = false;
        self.current_param = None;
        self.state = State::Ground;
        emit(out, Action::Csi { params, intermediates, ignore, action: byte });
        assert(self@ =~= csi_dispatched(old(self)@, byte).parser);
    }

    fn dcs_entry(&mut self, byte: u8)
        ensures
            final(self)@ == dcs_entry_step(old(self)@, byte).parser,
            dcs_entry_step(old(self)@, byte).actions == Seq::<ActionView>::empty(),
    {
        if 0x30 <= byte && byte <= 0x39 {
            self.current_param = Some((byte - 0x30) as u16);
            self.state = State::DcsParam;
        } else if byte == 0x3B {
            self.push_param();
            self.state = State::DcsParam;
        } else if 0x3C <= byte && byte <= 0x3F {
            self.collect(byte, State::DcsParam);
        } else if 0x20 <= byte && byte <= 0x2F {
            self.collect(byte, State::DcsIntermediate);
        } else if 0x40 <= byte && byte <= 0x7E {
            self.dcs_dispatch_start(byte);
        }
        assert(self@ =~= dcs_entry_step(old(self)@, byte).parser);
    }

    fn dcs_param(&mut self, byte: u8)
        ensures
            final(self)@ == dcs_param_step(old(self)@, byte).parser,
            dcs_param_step(old(self)@, byte).actions == Seq::<ActionView>::empty(),
    {
        if 0x30 <= byte && byte <= 0x39 {
            self.push_digit(byte);
        } else if byte == 0x3B {
            self.push_param();
        } else if 0x3C <= byte && byte <= 0x3F {
            self.state = State::DcsIgnore;
        } else if 0x20 <= byte && byte <= 0x2F {
            self.collect(byte, State::DcsIntermediate);
        } else if 0x40 <= byte && byte <= 0x7E {
            self.dcs_dispatch_start(byte);
        }
        assert(self@ =~= dcs_param_step(old(self)@, byte).parser);
    }

    fn dcs_intermediate(&mut self, byte: u8)
        ensures
            final(self)@ == dcs_intermediate_step(old(self)@, byte).parser,
            dcs_intermediate_step(old(self)@, byte).actions == Seq::<ActionView>::empty(),
    {
        if 0x20 <= byte && byte <= 0x2F {
            self.intermediates.push(byte);
        } else if 0x30 <= byte && byte <= 0x3F {
            self.state = State::DcsIgnore;
        } else if 0x40 <= byte && byte <= 0x7E {
            self.dcs_dispatch_start(byte);
        }
        assert(self@ =~= dcs_intermediate_step(old(self)@, byte).parser);
    }

    fn dcs_dispatch_start(&mut self, byte: u8)
        ensures
            final(self)@ == dcs_dispatched(old(self)@, byte).parser,
    {
        self.push_param();
        let params = take_params(&mut self.params);
        let intermediates = take_bytes(&mut self.intermediates);
        self.current_param = None;
        self.dcs_buffer.clear();
        self.state = State::DcsPassthrough;
        self.pending_dcs_start = Some((params, intermediates, byte));
        assert(self@ =~= dcs_dispatched(old(self)@, byte).parser);
    }

    fn dcs_passthrough(&mut self, byte: u8, out: &mut Vec<Action>)
        requires
            byte != 0x18 && byte != 0x1A,
        ensures
            final(self)@ == dcs_passthrough_step(old(self)@, byte).parser,
            action_views(final(out)@) == action_views(old(out)@) + dcs_passthrough_step(
                old(self)@,
                byte,
            ).actions,
    {
        let head = self.pending_dcs_start.take();
        if let Some((params, intermediates, action)) = head {
            emit(out, Action::DcsStart { params, intermediates, action });
        }
        assert(action_views(out@) =~= action_views(old(out)@) + dcs_head(old(self)@));
        if byte == 0x1B {
            // ESC starts the string terminator; the following `\` is
            // consumed by the escape state as a no-op.
            self.dcs_end(out);
            self.clear();
            self.state = State::Escape;
        } else if byte <= 0x7E {
            self.dcs_buffer.push(byte);
        } else if byte != 0x7F {
            self.dcs_end(out);
            self.state = State::Ground;
        }
        assert(self@ =~= dcs_passthrough_step(old(self)@, byte).parser);
        assert(action_views(out@) =~= action_views(old(out)@) + dcs_passthrough_step(
            old(self)@,
            byte,
        ).actions);
    }

    /// Reports the collected data, if any, and the end of the string.
    fn dcs_end(&mut self, out: &mut Vec<Action>)
        ensures
            final(self)@ == (ParserView { dcs: Seq::empty(), ..old(self)@ }),
            action_views(final(out)@) == action_views(old(out)@) + dcs_tail(old(self)@),
    {
        if self.dcs_buffer.len() > 0 {
            let data = take_bytes(&mut self.dcs_buffer);
            emit(out, Action::DcsData(data));
        }
        emit(out, Action::DcsEnd);
        assert(self@ =~= (ParserView { dcs: Seq::empty(), ..old(self)@ }));
        assert(action_views(out@) =~= action_views(old(out)@) + dcs_tail(old(self)@));
    }

    fn osc_string(&mut self, byte: u8, out: &mut Vec<Action>)
        ensures
            final(self)@ == osc_step(old(self)@, byte).parser,
            action_views(final(out)@) == action_views(old(out)@) + osc_step(
                old(self)@,
                byte,
            ).actions,
    {
        proof {
            assert(action_views(out@) + Seq::<ActionView>::empty() =~= action_views(out@));
        }
        if byte == 0x07 || byte == 0x1B {
            // ST is ESC \ : emit the OSC now and treat ESC as a new sequence.
            let params = split_at_char(self.osc_buffer.as_str(), ';');
            self.osc_buffer = String::new();
            self.state = if byte == 0x07 { State::Ground } else { State::Escape };
            emit(out, Action::Osc { params, bell_terminated: byte == 0x07 });
        } else if 0x20 <= byte && byte <= 0x7F {
            self.osc_buffer.push(byte as char);
        }
        assert(self@ =~= osc_step(old(self)@, byte).parser);
    }

    fn sos_pm_apc(&mut self, byte: u8)
        ensures
            final(self)@ == sos_step(old(self)@, byte).parser,
    {
        if byte == 0x07 {
            self.state = State::Ground;
        }
        assert(self@ =~= sos_step(old(self)@, byte).parser);
    }
}

/// Actions are shown by their kind and what they carry: codes in hexadecimal, final bytes
/// in decimal and data by its length.
pub proof fn actions_are_shown(
    code: u8,
    params: Seq<u16>,
    intermediates: Seq<u8>,
    ignore: bool,
    data: Seq<u8>,
)
    ensures
        action_text(ActionView::Execute(code)) == "execute 0x"@ + seq![
            upper_hex(code as int / 16),
            upper_hex(code as int % 16),
        ],
        upper_hex(0) == '0' && upper_hex(9) == '9' && upper_hex(10) == 'A' && upper_hex(11) == 'B'
            && upper_hex(12) == 'C' && upper_hex(13) == 'D' && upper_hex(14) == 'E' && upper_hex(15)
            == 'F',
        action_text(ActionView::Csi { params, intermediates, ignore, action: code }) == "csi "@
            + decimal(code as nat),
        action_text(ActionView::Esc { intermediates, ignore, action: code }) == "esc "@ + decimal(
            code as nat,
        ),
        action_text(ActionView::DcsStart { params, intermediates, action: code }) == "dcs "@
            + decimal(code as nat),
        action_text(ActionView::DcsData(data)) == "dcs-data "@ + decimal(data.len()) + " bytes"@,
        action_text(ActionView::DcsEnd) == "dcs-end"@,
{
}

} // verus!
