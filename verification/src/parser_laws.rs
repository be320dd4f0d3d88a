//! Laws of the parser: which bytes make which action.
use crate::parser::{
    chunking_is_invisible, cleared, csi_finished, in_string, one, quiet, run, transition,
    utf8_char, ActionView, Outcome, ParserView, State,
};
use crate::text::split;
use vstd::prelude::*;
use vstd::utf8::{
    decode_utf8, encode_utf8, encode_utf8_decode_utf8, encode_utf8_valid_utf8,
    length_of_first_scalar, pop_first_scalar, valid_first_scalar,
};

verus! {

/// A parser that stands between two sequences and two characters.
pub open spec fn idle(p: ParserView) -> bool {
    p.state == State::Ground && p.utf8.len() == 0
}

/// What a stream of bytes does to a parser.
#[verifier::opaque]
spec fn after(p: ParserView, bytes: Seq<u8>) -> Outcome {
    run(p, bytes)
}

/// What one byte does to a parser.
#[verifier::opaque]
spec fn step(p: ParserView, byte: u8) -> Outcome {
    transition(p, byte)
}

proof fn first_byte(p: ParserView, byte: u8, o: Outcome)
    requires
        step(p, byte) == o,
    ensures
        after(p, seq![byte]) == o,
{
    reveal(after);
    reveal(step);
    one_byte(p, byte);
}

proof fn one_byte(p: ParserView, byte: u8)
    ensures
        run(p, seq![byte]).parser == transition(p, byte).parser,
        run(p, seq![byte]).actions == transition(p, byte).actions,
{
    assert(seq![byte].drop_last() =~= Seq::<u8>::empty());
    assert(run(p, Seq::<u8>::empty()) == quiet(p));
    assert(run(p, seq![byte]).actions =~= transition(p, byte).actions);
}

proof fn one_more(p: ParserView, bytes: Seq<u8>, byte: u8)
    ensures
        run(p, bytes.push(byte)).parser == transition(run(p, bytes).parser, byte).parser,
        run(p, bytes.push(byte)).actions == run(p, bytes).actions + transition(
            run(p, bytes).parser,
            byte,
        ).actions,
{
    assert(bytes.push(byte).drop_last() =~= bytes);
}

/// A byte of printable ASCII prints its character, and a control code is executed; the
/// exceptions are escape, which starts a sequence, and nothing else.
pub proof fn single_bytes_act(p: ParserView, byte: u8)
    requires
        idle(p),
    ensures
        0x20 <= byte <= 0x7E ==> run(p, seq![byte]).actions == seq![
            ActionView::Print(byte as char),
        ] && run(p, seq![byte]).parser == p,
        byte < 0x20 && byte != 0x1B ==> run(p, seq![byte]).actions == seq![
            ActionView::Execute(byte),
        ] && idle(run(p, seq![byte]).parser),
        byte == 0x1B ==> run(p, seq![byte]).actions.len() == 0 && run(p, seq![byte]).parser.state
            == State::Escape,
{
    one_byte(p, byte);
}

/// A parser that has read some bytes of a character.
spec fn inside(p: ParserView, bytes: Seq<u8>, k: int) -> ParserView {
    ParserView { utf8: bytes.take(k), expected: bytes.len(), ..p }
}

proof fn lead_is_read(p: ParserView, bytes: Seq<u8>)
    requires
        idle(p),
        bytes.len() == 2 && 0xC0 <= bytes[0] <= 0xDF || bytes.len() == 3 && 0xE0 <= bytes[0] <= 0xEF
            || bytes.len() == 4 && 0xF0 <= bytes[0] <= 0xF7,
    ensures
        step(p, bytes[0]) == quiet(inside(p, bytes, 1)),
{
    reveal(step);
    assert(bytes.take(1) =~= seq![bytes[0]]);
}

proof fn middle_is_read(p: ParserView, bytes: Seq<u8>, k: int)
    requires
        idle(p),
        1 <= k < bytes.len() - 1,
        0x80 <= bytes[k] <= 0xBF,
    ensures
        step(inside(p, bytes, k), bytes[k]) == quiet(inside(p, bytes, k + 1)),
{
    reveal(step);
    assert(bytes.take(k).push(bytes[k]) =~= bytes.take(k + 1));
}

proof fn end_is_read(p: ParserView, bytes: Seq<u8>)
    requires
        idle(p),
        bytes.len() >= 2,
        0x80 <= bytes.last() <= 0xBF,
    ensures
        step(inside(p, bytes, bytes.len() - 1), bytes.last()) == one(
            ParserView { utf8: Seq::empty(), expected: 0, ..p },
            ActionView::Print(utf8_char(bytes)),
        ),
{
    reveal(step);
    assert(bytes.take(bytes.len() - 1).push(bytes.last()) =~= bytes);
}

proof fn bytes_are_collected(p: ParserView, bytes: Seq<u8>, k: int)
    requires
        idle(p),
        bytes.len() == 2 && 0xC0 <= bytes[0] <= 0xDF || bytes.len() == 3 && 0xE0 <= bytes[0] <= 0xEF
            || bytes.len() == 4 && 0xF0 <= bytes[0] <= 0xF7,
        forall|i: int| 1 <= i < bytes.len() ==> 0x80 <= #[trigger] bytes[i] <= 0xBF,
        1 <= k < bytes.len(),
    ensures
        after(p, bytes.take(k)) == quiet(inside(p, bytes, k)),
    decreases k,
{
    if k == 1 {
        lead_is_read(p, bytes);
        first_byte(p, bytes[0], quiet(inside(p, bytes, 1)));
        assert(bytes.take(1) =~= seq![bytes[0]]);
    } else {
        bytes_are_collected(p, bytes, k - 1);
        middle_is_read(p, bytes, k - 1);
        then_byte(
            p,
            bytes.take(k - 1),
            quiet(inside(p, bytes, k - 1)),
            bytes[k - 1],
            quiet(inside(p, bytes, k)),
        );
        quiet_stays_quiet(Seq::empty());
        assert(bytes.take(k - 1) + seq![bytes[k - 1]] =~= bytes.take(k));
    }
}

/// What the encoding of one character looks like.
proof fn encodings_have_their_form(c: char)
    ensures
        ({
            let bytes = encode_utf8(seq![c]);
            &&& bytes.len() == 1 && bytes[0] < 0x80 && bytes[0] as char == c || bytes.len() == 2
                && 0xC0 <= bytes[0] <= 0xDF || bytes.len() == 3 && 0xE0 <= bytes[0] <= 0xEF
                || bytes.len() == 4 && 0xF0 <= bytes[0] <= 0xF7
            &&& forall|i: int| 1 <= i < bytes.len() ==> 0x80 <= #[trigger] bytes[i] <= 0xBF
            &&& utf8_char(bytes) == c
        }),
{
    let bytes = encode_utf8(seq![c]);
    encode_utf8_valid_utf8(seq![c]);
    encode_utf8_decode_utf8(seq![c]);
    let rest = pop_first_scalar(bytes);
    assert(decode_utf8(Seq::<u8>::empty()) =~= Seq::<char>::empty());
    assert(bytes.len() > 0) by {
        if bytes.len() == 0 {
            assert(bytes =~= Seq::<u8>::empty());
        }
    }
    assert(valid_first_scalar(bytes));
    assert(decode_utf8(bytes)[0] == c);
    assert(decode_utf8(bytes).len() == 1 + decode_utf8(rest).len());
    assert(rest.len() == 0) by {
        if rest.len() > 0 {
            assert(decode_utf8(rest).len() > 0);
        }
    }
    assert(bytes.len() == length_of_first_scalar(bytes));
    if bytes.len() == 1 {
        let b = bytes[0];
        assert((b & 0x7F) == b) by (bit_vector)
            requires
                b <= 0x7f,
        ;
        assert(decode_utf8(bytes)[0] == (b as u32) as char);
    }
}

/// A character in UTF-8 prints itself.
pub proof fn characters_print_themselves(p: ParserView, c: char)
    requires
        idle(p),
        c as u32 >= 0x20,
    ensures
        run(p, encode_utf8(seq![c])).actions == seq![ActionView::Print(c)],
        idle(run(p, encode_utf8(seq![c])).parser),
{
    let bytes = encode_utf8(seq![c]);
    encodings_have_their_form(c);
    if bytes.len() == 1 {
        let o = one(p, ActionView::Print(c));
        assert(step(p, bytes[0]) == o) by {
            reveal(step);
        }
        first_byte(p, bytes[0], o);
        assert(bytes =~= seq![bytes[0]]);
    } else {
        let n = bytes.len() as int;
        let o = one(
            ParserView { utf8: Seq::empty(), expected: 0, ..p },
            ActionView::Print(utf8_char(bytes)),
        );
        bytes_are_collected(p, bytes, n - 1);
        end_is_read(p, bytes);
        then_byte(p, bytes.take(n - 1), quiet(inside(p, bytes, n - 1)), bytes[n - 1], o);
        quiet_stays_quiet(o.actions);
        assert(bytes.take(n - 1) + seq![bytes[n - 1]] =~= bytes);
    }
    reveal(after);
}

/// The action that prints a character.
pub open spec fn print_of(c: char) -> ActionView {
    ActionView::Print(c)
}

/// The characters of a text as actions that print them.
pub open spec fn prints(text: Seq<char>) -> Seq<ActionView> {
    Seq::new(text.len(), |i: int| print_of(text[i]))
}

/// Text in UTF-8 without control characters prints its characters in order.
pub proof fn text_prints_its_characters(p: ParserView, text: Seq<char>)
    requires
        idle(p),
        forall|i: int| 0 <= i < text.len() ==> (#[trigger] text[i]) as u32 >= 0x20,
    ensures
        run(p, encode_utf8(text)).actions == prints(text),
        idle(run(p, encode_utf8(text)).parser),
    decreases text.len(),
{
    let whole = encode_utf8(text);
    if text.len() == 0 {
        assert(text =~= Seq::<char>::empty());
        assert(whole =~= Seq::<u8>::empty());
        assert(run(p, whole) == quiet(p));
        assert(Seq::<ActionView>::empty() =~= prints(text)) by {
            assert(prints(text).len() == 0);
        }
    } else {
        let first = encode_utf8(seq![text[0]]);
        let rest = text.drop_first();
        first_character_is_encoded(text);
        assert(text[0] as u32 >= 0x20);
        characters_print_themselves(p, text[0]);
        let q = run(p, first).parser;
        assert forall|i: int| 0 <= i < rest.len() implies (#[trigger] rest[i]) as u32 >= 0x20 by {
            assert(rest[i] == text[i + 1]);
        }
        text_prints_its_characters(q, rest);
        chunking_is_invisible(p, first, encode_utf8(rest));
        printing_goes_on(text);
        let c = text[0];
        assert(seq![ActionView::Print(c)] == seq![print_of(c)]);
        assert(run(p, first).actions == seq![print_of(c)]);
    }
}

proof fn first_character_is_encoded(text: Seq<char>)
    requires
        text.len() > 0,
    ensures
        encode_utf8(text) == encode_utf8(seq![text[0]]) + encode_utf8(text.drop_first()),
{
    let first = seq![text[0]];
    assert(first.drop_first() =~= Seq::<char>::empty());
    assert(encode_utf8(Seq::<char>::empty()) =~= Seq::<u8>::empty());
    assert(encode_utf8(first) =~= vstd::utf8::encode_scalar(text[0] as u32));
    assert(encode_utf8(text) =~= encode_utf8(first) + encode_utf8(text.drop_first()));
}

proof fn printing_goes_on(text: Seq<char>)
    requires
        text.len() > 0,
    ensures
        seq![print_of(text[0])] + prints(text.drop_first()) == prints(text),
{
    assert(seq![print_of(text[0])] + prints(text.drop_first()) =~= prints(text));
}

/// The decimal notation of a number as bytes.
pub open spec fn number_bytes(n: nat) -> Seq<u8>
    decreases n,
{
    if n < 10 {
        seq![(0x30 + n) as u8]
    } else {
        number_bytes(n / 10).push((0x30 + n % 10) as u8)
    }
}

/// Numbers as bytes, parted by semicolons.
pub open spec fn numbers_bytes(params: Seq<u16>) -> Seq<u8>
    decreases params.len(),
{
    if params.len() == 0 {
        Seq::empty()
    } else if params.len() == 1 {
        number_bytes(params[0] as nat)
    } else {
        numbers_bytes(params.drop_last()) + seq![0x3Bu8] + number_bytes(params.last() as nat)
    }
}

/// Whether a parser is about to read a number of a control sequence.
spec fn ready(p: ParserView) -> bool {
    (p.state == State::CsiEntry || p.state == State::CsiParam) && p.current is None
}

proof fn numbers_are_read(p: ParserView, n: nat)
    requires
        ready(p),
        n <= 0xFFFF,
    ensures
        run(p, number_bytes(n)) == quiet(
            ParserView { state: State::CsiParam, current: Some(n as u16), ..p },
        ),
    decreases n,
{
    if n < 10 {
        one_byte(p, (0x30 + n) as u8);
        assert(run(p, number_bytes(n)).actions =~= Seq::<ActionView>::empty());
    } else {
        numbers_are_read(p, n / 10);
        let q = ParserView { state: State::CsiParam, current: Some((n / 10) as u16), ..p };
        let byte = (0x30 + n % 10) as u8;
        one_more(p, number_bytes(n / 10), byte);
        assert((n / 10) * 10 + n % 10 == n);
        assert(transition(q, byte) == quiet(
            ParserView { state: State::CsiParam, current: Some(n as u16), ..p },
        ));
        assert(run(p, number_bytes(n)).actions =~= Seq::<ActionView>::empty());
    }
}

proof fn lists_are_read(p: ParserView, params: Seq<u16>)
    requires
        ready(p),
        p.params.len() == 0,
        params.len() > 0,
    ensures
        run(p, numbers_bytes(params)) == quiet(
            ParserView {
                state: State::CsiParam,
                params: params.drop_last(),
                current: Some(params.last()),
                ..p
            },
        ),
    decreases params.len(),
{
    if params.len() == 1 {
        numbers_are_read(p, params[0] as nat);
        assert(params.drop_last() =~= p.params);
    } else {
        let front = params.drop_last();
        lists_are_read(p, front);
        let a = numbers_bytes(front);
        let q = run(p, a).parser;
        let semi = seq![0x3Bu8];
        let b = number_bytes(params.last() as nat);
        one_byte(q, 0x3B);
        let r = run(q, semi).parser;
        assert(r.params =~= front) by {
            assert(front.drop_last().push(front.last()) =~= front);
        }
        assert(r == (ParserView { state: State::CsiParam, params: front, current: None, ..p }));
        numbers_are_read(r, params.last() as nat);
        chunking_is_invisible(p, a, semi);
        chunking_is_invisible(p, a + semi, b);
        assert(run(p, a + semi + b).actions =~= Seq::<ActionView>::empty());
    }
}

proof fn introducer_is_read(p: ParserView, marker: Seq<u8>)
    requires
        !in_string(p.state),
        marker.len() <= 1,
        marker.len() == 1 ==> 0x3C <= marker[0] <= 0x3F,
    ensures
        ({
            let q = run(p, seq![0x1Bu8, 0x5B] + marker);
            &&& q.actions.len() == 0
            &&& ready(q.parser)
            &&& q.parser == (ParserView {
                intermediates: marker,
                state: if marker.len() == 0 {
                    State::CsiEntry
                } else {
                    State::CsiParam
                },
                ..cleared(p)
            })
        }),
{
    one_byte(p, 0x1B);
    assert(seq![0x1Bu8].push(0x5B) =~= seq![0x1Bu8, 0x5B]);
    one_more(p, seq![0x1Bu8], 0x5B);
    if marker.len() == 0 {
        assert(seq![0x1Bu8, 0x5B] + marker =~= seq![0x1Bu8, 0x5B]);
        assert(marker =~= Seq::<u8>::empty());
    } else {
        assert(seq![0x1Bu8, 0x5B] + marker =~= seq![0x1Bu8, 0x5B].push(marker[0]));
        one_more(p, seq![0x1Bu8, 0x5B], marker[0]);
        assert(Seq::<u8>::empty().push(marker[0]) =~= marker);
    }
}

/// A control sequence is read as it is written: escape, an opening bracket, a private
/// marker if there is one, numbers in decimal notation parted by semicolons, and a
/// final byte make one action with that marker, those numbers and that byte. Without
/// numbers there is one, zero.
pub proof fn control_sequences_are_read(
    p: ParserView,
    marker: Seq<u8>,
    params: Seq<u16>,
    action: u8,
)
    requires
        !in_string(p.state),
        marker.len() <= 1,
        marker.len() == 1 ==> 0x3C <= marker[0] <= 0x3F,
        0x40 <= action <= 0x7E,
    ensures
        ({
            let r = run(p, seq![0x1Bu8, 0x5B] + marker + numbers_bytes(params) + seq![action]);
            &&& idle(r.parser)
            &&& r.actions == seq![
                ActionView::Csi {
                    params: if params.len() == 0 {
                        seq![0u16]
                    } else {
                        params
                    },
                    intermediates: marker,
                    ignore: false,
                    action,
                },
            ]
        }),
{
    let a = seq![0x1Bu8, 0x5B] + marker;
    let b = numbers_bytes(params);
    introducer_is_read(p, marker);
    let q = run(p, a).parser;
    assert(q.params =~= Seq::<u16>::empty());
    if params.len() > 0 {
        lists_are_read(q, params);
        chunking_is_invisible(p, a, b);
        assert(params.drop_last().push(params.last()) =~= params);
    } else {
        assert(b =~= Seq::<u8>::empty());
        assert(a + b =~= a);
        assert(q.params.push(0u16) =~= seq![0u16]);
    }
    let m = run(p, a + b).parser;
    assert(run(p, a + b).actions =~= Seq::<ActionView>::empty());
    assert(a + b + seq![action] =~= (a + b).push(action));
    one_more(p, a + b, action);
    assert(transition(m, action).parser == csi_finished(m));
    assert(run(p, (a + b).push(action)).actions =~= transition(m, action).actions);
}

proof fn then_byte(p: ParserView, bytes: Seq<u8>, so_far: Outcome, byte: u8, o: Outcome)
    requires
        after(p, bytes) == so_far,
        step(so_far.parser, byte) == o,
    ensures
        after(p, bytes + seq![byte]) == (Outcome {
            parser: o.parser,
            actions: so_far.actions + o.actions,
        }),
{
    reveal(after);
    reveal(step);
    one_more(p, bytes, byte);
    assert(bytes + seq![byte] =~= bytes.push(byte));
}

proof fn then_bytes(p: ParserView, bytes: Seq<u8>, so_far: Outcome, more: Seq<u8>, o: Outcome)
    requires
        after(p, bytes) == so_far,
        after(so_far.parser, more) == o,
    ensures
        after(p, bytes + more) == (Outcome {
            parser: o.parser,
            actions: so_far.actions + o.actions,
        }),
{
    reveal(after);
    chunking_is_invisible(p, bytes, more);
}

proof fn quiet_stays_quiet(a: Seq<ActionView>)
    ensures
        a + Seq::<ActionView>::empty() == a,
        Seq::<ActionView>::empty() + a == a,
{
    assert(a + Seq::<ActionView>::empty() =~= a);
    assert(Seq::<ActionView>::empty() + a =~= a);
}

/// What a parser holds behind the numbers of a control sequence.
spec fn behind_numbers(p: ParserView, params: Seq<u16>) -> ParserView {
    ParserView {
        state: State::CsiParam,
        params: params.drop_last(),
        current: Some(params.last()),
        ..cleared(p)
    }
}

proof fn head_is_read(p: ParserView, params: Seq<u16>)
    requires
        !in_string(p.state),
        params.len() > 0,
    ensures
        after(p, seq![0x1Bu8, 0x5B] + numbers_bytes(params)) == quiet(behind_numbers(p, params)),
{
    reveal(after);
    let none = Seq::<u8>::empty();
    let a = seq![0x1Bu8, 0x5B];
    assert(a + none =~= a);
    introducer_is_read(p, none);
    let q = run(p, a).parser;
    lists_are_read(q, params);
    chunking_is_invisible(p, a, numbers_bytes(params));
    assert(run(p, a + numbers_bytes(params)).actions =~= Seq::<ActionView>::empty());
}

/// A colon ends a number: what follows it up to the final byte is passed over.
pub proof fn sub_parameters_are_passed_over(
    p: ParserView,
    params: Seq<u16>,
    passed: Seq<u8>,
    action: u8,
)
    requires
        !in_string(p.state),
        params.len() > 0,
        0x40 <= action <= 0x7E,
        forall|i: int| 0 <= i < passed.len() ==> 0x20 <= #[trigger] passed[i] < 0x40,
    ensures
        ({
            let r = run(
                p,
                seq![0x1Bu8, 0x5B] + numbers_bytes(params) + seq![0x3Au8] + passed + seq![action],
            );
            &&& idle(r.parser)
            &&& r.actions == seq![
                ActionView::Csi { params, intermediates: Seq::empty(), ignore: false, action },
            ]
        }),
{
    let a = seq![0x1Bu8, 0x5B] + numbers_bytes(params);
    let m = behind_numbers(p, params);
    let k = ParserView { state: State::CsiIgnore, params, ..cleared(p) };
    let c = a + seq![0x3Au8];
    let o = one(
        csi_finished(k),
        ActionView::Csi { params, intermediates: Seq::empty(), ignore: false, action },
    );
    head_is_read(p, params);
    assert(step(m, 0x3A) == quiet(k)) by {
        reveal(step);
        assert(params.drop_last().push(params.last()) =~= params);
    }
    then_byte(p, a, quiet(m), 0x3A, quiet(k));
    quiet_stays_quiet(Seq::empty());
    assert(after(k, passed) == quiet(k)) by {
        reveal(after);
        passed_over(k, passed);
    }
    then_bytes(p, c, quiet(k), passed, quiet(k));
    assert(step(k, action) == o) by {
        reveal(step);
    }
    then_byte(p, c + passed, quiet(k), action, o);
    quiet_stays_quiet(o.actions);
    reveal(after);
}

proof fn passed_over(p: ParserView, passed: Seq<u8>)
    requires
        p.state == State::CsiIgnore,
        forall|i: int| 0 <= i < passed.len() ==> 0x20 <= #[trigger] passed[i] < 0x40,
    ensures
        run(p, passed) == quiet(p),
    decreases passed.len(),
{
    if passed.len() > 0 {
        let front = passed.drop_last();
        assert forall|i: int| 0 <= i < front.len() implies 0x20 <= #[trigger] front[i] < 0x40 by {
            assert(front[i] == passed[i]);
        }
        passed_over(p, front);
        assert(0x20 <= passed[passed.len() - 1] < 0x40);
        assert(run(p, passed).actions =~= Seq::<ActionView>::empty());
    } else {
        assert(passed =~= Seq::<u8>::empty());
    }
}

/// A private marker behind a number makes a sequence malformed.
pub proof fn late_markers_are_malformed(p: ParserView, params: Seq<u16>, marker: u8, action: u8)
    requires
        !in_string(p.state),
        params.len() > 0,
        0x3C <= marker <= 0x3F,
        0x40 <= action <= 0x7E,
    ensures
        ({
            let r = run(p, seq![0x1Bu8, 0x5B] + numbers_bytes(params) + seq![marker] + seq![action]);
            &&& idle(r.parser)
            &&& r.actions.len() == 1
            &&& r.actions[0] is Csi
            &&& r.actions[0]->Csi_ignore
        }),
{
    let a = seq![0x1Bu8, 0x5B] + numbers_bytes(params);
    let m = behind_numbers(p, params);
    let k = ParserView { state: State::CsiIgnore, ignore: true, ..m };
    let o = one(
        csi_finished(k),
        ActionView::Csi {
            params: k.params,
            intermediates: k.intermediates,
            ignore: true,
            action,
        },
    );
    head_is_read(p, params);
    assert(step(m, marker) == quiet(k)) by {
        reveal(step);
    }
    then_byte(p, a, quiet(m), marker, quiet(k));
    quiet_stays_quiet(Seq::empty());
    assert(step(k, action) == o) by {
        reveal(step);
    }
    then_byte(p, a + seq![marker], quiet(k), action, o);
    quiet_stays_quiet(o.actions);
    reveal(after);
}

/// An escape sequence is read as it is written: escape, any intermediate bytes and a
/// final byte; behind escape alone the brackets and the letters that start strings are
/// no final bytes.
pub proof fn escape_sequences_are_read(p: ParserView, between: Seq<u8>, action: u8)
    requires
        !in_string(p.state),
        forall|i: int| 0 <= i < between.len() ==> 0x20 <= #[trigger] between[i] <= 0x2F,
        0x30 <= action <= 0x7E,
        between.len() == 0 ==> action != 0x50 && action != 0x58 && action != 0x5B && action != 0x5C
            && action != 0x5D && action != 0x5E && action != 0x5F,
    ensures
        ({
            let r = run(p, seq![0x1Bu8] + between + seq![action]);
            &&& idle(r.parser)
            &&& r.actions == seq![
                ActionView::Esc { intermediates: between, ignore: false, action },
            ]
        }),
{
    one_byte(p, 0x1B);
    let a = seq![0x1Bu8];
    let q = run(p, a).parser;
    assert(q == (ParserView { state: State::Escape, ..cleared(p) }));
    intermediates_are_read(q, between);
    chunking_is_invisible(p, a, between);
    let c = a + between;
    assert(run(p, c).actions =~= Seq::<ActionView>::empty());
    assert(c + seq![action] =~= c.push(action));
    one_more(p, c, action);
    let m = run(p, c).parser;
    assert(m.intermediates =~= between);
    assert(run(p, c.push(action)).actions =~= transition(m, action).actions);
}

proof fn intermediates_are_read(p: ParserView, between: Seq<u8>)
    requires
        p.state == State::Escape,
        p.intermediates.len() == 0,
        forall|i: int| 0 <= i < between.len() ==> 0x20 <= #[trigger] between[i] <= 0x2F,
    ensures
        run(p, between) == quiet(
            ParserView {
                state: if between.len() == 0 {
                    State::Escape
                } else {
                    State::EscapeIntermediate
                },
                intermediates: between,
                ..p
            },
        ),
    decreases between.len(),
{
    if between.len() > 0 {
        let front = between.drop_last();
        assert forall|i: int| 0 <= i < front.len() implies 0x20 <= #[trigger] front[i] <= 0x2F by {
            assert(front[i] == between[i]);
        }
        intermediates_are_read(p, front);
        assert(0x20 <= between[between.len() - 1] <= 0x2F);
        assert(front.push(between.last()) =~= between);
        assert(run(p, between).actions =~= Seq::<ActionView>::empty());
    } else {
        assert(between =~= Seq::<u8>::empty());
        assert(p.intermediates =~= between);
    }
}

/// The characters of ASCII bytes.
pub open spec fn ascii_text(bytes: Seq<u8>) -> Seq<char> {
    Seq::new(bytes.len(), |i: int| bytes[i] as char)
}

/// An operating system command is read as it is written: escape, a closing bracket, the
/// text, and a bell or an escape sequence with a backslash; the parts of the text
/// between semicolons are its parameters.
pub proof fn commands_are_read(p: ParserView, text: Seq<u8>)
    requires
        !in_string(p.state),
        forall|i: int| 0 <= i < text.len() ==> 0x20 <= #[trigger] text[i] <= 0x7E,
    ensures
        ({
            let head = seq![0x1Bu8, 0x5D] + text;
            let by_bell = run(p, head + seq![0x07u8]);
            let by_escape = run(p, head + seq![0x1Bu8, 0x5C]);
            &&& idle(by_bell.parser)
            &&& by_bell.actions == seq![
                ActionView::Osc { params: split(ascii_text(text), ';'), bell_terminated: true },
            ]
            &&& by_escape.parser.state == State::Ground
            &&& by_escape.actions == seq![
                ActionView::Osc { params: split(ascii_text(text), ';'), bell_terminated: false },
            ]
        }),
{
    let q1 = ParserView { state: State::Escape, ..cleared(p) };
    let q2 = ParserView { state: State::OscString, ..cleared(p) };
    let q3 = ParserView { osc: ascii_text(text), ..q2 };
    let q4 = ParserView { state: State::Ground, ..cleared(p) };
    let head = seq![0x1Bu8, 0x5D] + text;
    let params = split(ascii_text(text), ';');
    let bell = one(q4, ActionView::Osc { params, bell_terminated: true });
    let end = one(q1, ActionView::Osc { params, bell_terminated: false });
    quiet_stays_quiet(Seq::empty());
    quiet_stays_quiet(bell.actions);
    quiet_stays_quiet(end.actions);
    assert(step(p, 0x1B) == quiet(q1)) by {
        reveal(step);
    }
    assert(step(q1, 0x5D) == quiet(q2)) by {
        reveal(step);
    }
    first_byte(p, 0x1B, quiet(q1));
    then_byte(p, seq![0x1Bu8], quiet(q1), 0x5D, quiet(q2));
    assert(seq![0x1Bu8] + seq![0x5Du8] =~= seq![0x1Bu8, 0x5D]);
    assert(after(q2, text) == quiet(q3)) by {
        reveal(after);
        command_text_is_read(q2, text);
    }
    then_bytes(p, seq![0x1Bu8, 0x5D], quiet(q2), text, quiet(q3));
    assert(step(q3, 0x07) == bell) by {
        reveal(step);
    }
    assert(step(q3, 0x1B) == end) by {
        reveal(step);
    }
    assert(step(q1, 0x5C) == quiet(q4)) by {
        reveal(step);
    }
    then_byte(p, head, quiet(q3), 0x07, bell);
    then_byte(p, head, quiet(q3), 0x1B, end);
    then_byte(p, head + seq![0x1Bu8], end, 0x5C, quiet(q4));
    assert(head + seq![0x1Bu8] + seq![0x5Cu8] =~= head + seq![0x1Bu8, 0x5C]);
    reveal(after);
}

proof fn command_text_is_read(p: ParserView, text: Seq<u8>)
    requires
        p.state == State::OscString,
        p.osc.len() == 0,
        forall|i: int| 0 <= i < text.len() ==> 0x20 <= #[trigger] text[i] <= 0x7E,
    ensures
        run(p, text) == quiet(ParserView { osc: ascii_text(text), ..p }),
    decreases text.len(),
{
    if text.len() > 0 {
        let front = text.drop_last();
        assert forall|i: int| 0 <= i < front.len() implies 0x20 <= #[trigger] front[i] <= 0x7E by {
            assert(front[i] == text[i]);
        }
        command_text_is_read(p, front);
        assert(0x20 <= text[text.len() - 1] <= 0x7E);
        assert(ascii_text(front).push(text.last() as char) =~= ascii_text(text));
        assert(run(p, text).actions =~= Seq::<ActionView>::empty());
    } else {
        assert(text =~= Seq::<u8>::empty());
        assert(p.osc =~= ascii_text(text));
    }
}

/// A byte that cannot start a character prints the replacement character; so does one
/// that breaks a character off, and is then read itself.
pub proof fn broken_characters_are_replaced(p: ParserView, byte: u8)
    requires
        p.state == State::Ground,
    ensures
        p.utf8.len() == 0 && (0x80 <= byte <= 0xBF || byte >= 0xF8) ==> run(p, seq![byte]).actions
            == seq![ActionView::Print('\u{FFFD}')],
        p.utf8.len() > 0 && 0x20 <= byte <= 0x7E ==> run(p, seq![byte]).actions == seq![
            ActionView::Print('\u{FFFD}'),
            ActionView::Print(byte as char),
        ] && idle(run(p, seq![byte]).parser),
{
    one_byte(p, byte);
    if p.utf8.len() > 0 && 0x20 <= byte <= 0x7E {
        assert(run(p, seq![byte]).actions =~= seq![
            ActionView::Print('\u{FFFD}'),
            ActionView::Print(byte as char),
        ]);
    }
}

} // verus!
