//! Line assembly with redaction: log output is collected into lines, redacted and
//! mirrored into the buffer of the log viewer before it reaches the real sink.
use crate::audit::newest;
use crate::buffer::{pushed, LogBuffer, LogEntry};
use crate::redact::{redacted, Redactor};
use crate::ssh_session::{copy_option, text_option};
use crate::text::{chars_of, lossy, lossy_text, part, split, split_at_char, split_is_not_empty, texts};
use crate::timeutil::UtcStamp;
use vstd::prelude::*;

verus! {

/// A text without line feeds and carriage returns at its end.
pub open spec fn without_line_end(s: Seq<char>) -> Seq<char>
    decreases s.len(),
{
    if s.len() > 0 && (s.last() == '\n' || s.last() == '\r') {
        without_line_end(s.drop_last())
    } else {
        s
    }
}

/// A text without line feeds and carriage returns at its end.
fn trim_line_end(s: &str) -> (r: String)
    ensures
        r@ == without_line_end(s@),
{
    let chars = chars_of(s);
    let mut end: usize = chars.len();
    assert(s@.take(s@.len() as int) =~= s@);
    while end > 0 && (chars[end - 1] == '\n' || chars[end - 1] == '\r')
        invariant
            end <= chars@.len(),
            chars@ == s@,
            without_line_end(s@) == without_line_end(s@.take(end as int)),
        decreases end,
    {
        assert(s@.take(end as int).drop_last() =~= s@.take(end - 1));
        end = end - 1;
    }
    let r = part(&chars, 0, end);
    assert(r@ =~= s@.take(end as int));
    r
}

/// The lines of a text that are complete, without their line feeds.
pub open spec fn complete_lines(text: Seq<char>) -> Seq<Seq<char>> {
    split(text, '\n').drop_last()
}

/// What follows the last line feed of a text.
pub open spec fn incomplete_line(text: Seq<char>) -> Seq<char> {
    split(text, '\n').last()
}

/// What a complete line becomes in the sink.
pub open spec fn line_written(secrets: Seq<Seq<char>>, line: Seq<char>) -> Seq<char> {
    let content = without_line_end(line);
    if content.len() == 0 {
        "\n"@
    } else {
        redacted(secrets, content) + "\n"@
    }
}

/// What complete lines become in the sink.
pub open spec fn lines_written(secrets: Seq<Seq<char>>, lines: Seq<Seq<char>>) -> Seq<char>
    decreases lines.len(),
{
    if lines.len() == 0 {
        Seq::empty()
    } else {
        lines_written(secrets, lines.drop_last()) + line_written(secrets, lines.last())
    }
}

/// What an entry in the log viewer says, besides when it was made.
pub ghost struct EntryView {
    /// Severity.
    pub level: Seq<char>,
    /// Target.
    pub target: Seq<char>,
    /// Message.
    pub message: Seq<char>,
}

impl View for LogEntry {
    type V = EntryView;

    open spec fn view(&self) -> EntryView {
        EntryView { level: self.level@, target: self.target@, message: self.message@ }
    }
}

/// What entries in the log viewer say.
pub open spec fn entry_views(entries: Seq<LogEntry>) -> Seq<EntryView> {
    Seq::new(entries.len(), |i: int| entries[i]@)
}

/// The entries that complete lines lead to; blank lines lead to none.
pub open spec fn line_entries(
    secrets: Seq<Seq<char>>,
    level: Seq<char>,
    target: Seq<char>,
    lines: Seq<Seq<char>>,
) -> Seq<EntryView>
    decreases lines.len(),
{
    if lines.len() == 0 {
        Seq::empty()
    } else {
        let before = line_entries(secrets, level, target, lines.drop_last());
        let content = without_line_end(lines.last());
        if content.len() == 0 {
            before
        } else {
            before.push(EntryView { level, target, message: redacted(secrets, content) })
        }
    }
}

/// Whether a log was continued by `n` entries: those that it still holds of the
/// earlier ones are unchanged, when they were made included.
pub open spec fn continued(
    before: Seq<LogEntry>,
    after: Seq<LogEntry>,
    capacity: nat,
    n: nat,
) -> bool {
    exists|more: Seq<LogEntry>|
        more.len() == n && after == #[trigger] newest(before + more, capacity)
}

/// Collects log output into redacted lines.
#[derive(Debug)]
pub struct RedactingWriter {
    redactor: Redactor,
    buffer: LogBuffer,
    pending: String,
    level: Option<String>,
    target: Option<String>,
}

/// What a writer holds.
pub ghost struct WriterView {
    /// The secrets that no line may hold.
    pub secrets: Seq<Seq<char>>,
    /// The entries of the log viewer.
    pub entries: Seq<EntryView>,
    /// The most entries that are held.
    pub capacity: nat,
    /// How many entries the log viewer has discarded.
    pub dropped: nat,
    /// Text after the last line feed.
    pub pending: Seq<char>,
    /// Severity of the lines, if one was given.
    pub level: Option<Seq<char>>,
    /// Target of the lines, if one was given.
    pub target: Option<Seq<char>>,
}

impl View for RedactingWriter {
    type V = WriterView;

    closed spec fn view(&self) -> WriterView {
        WriterView {
            secrets: self.redactor.secrets(),
            entries: entry_views(self.buffer@.entries),
            capacity: self.buffer@.capacity,
            dropped: self.buffer@.dropped,
            pending: self.pending@,
            level: text_option(self.level),
            target: text_option(self.target),
        }
    }
}

impl WriterView {
    /// The severity that entries get.
    pub open spec fn entry_level(self) -> Seq<char> {
        match self.level {
            Some(level) => level,
            None => "INFO"@,
        }
    }

    /// The target that entries get.
    pub open spec fn entry_target(self) -> Seq<char> {
        match self.target {
            Some(target) => target,
            None => "rdt"@,
        }
    }

    /// The writer with more entries: the oldest ones beyond the capacity are
    /// discarded and counted, unless nothing is held at all.
    pub open spec fn with_entries(self, more: Seq<EntryView>) -> WriterView {
        let all = self.entries + more;
        WriterView {
            entries: newest(all, self.capacity),
            dropped: if self.capacity > 0 && all.len() > self.capacity {
                (self.dropped + all.len() - self.capacity) as nat
            } else {
                self.dropped
            },
            ..self
        }
    }
}

impl RedactingWriter {
    /// The buffer of the log viewer is within its capacity.
    pub closed spec fn wf(self) -> bool {
        self.buffer.wf()
    }

    /// The entries of the log viewer, oldest first.
    pub closed spec fn log(self) -> Seq<LogEntry> {
        self.buffer@.entries
    }

    /// Wraps a redactor and a buffer.
    pub fn new(redactor: Redactor, buffer: LogBuffer) -> (r: Self)
        requires
            buffer.wf(),
        ensures
            r.wf(),
            r@ == (WriterView {
                secrets: redactor.secrets(),
                entries: entry_views(buffer@.entries),
                capacity: buffer@.capacity,
                dropped: buffer@.dropped,
                pending: Seq::empty(),
                level: None,
                target: None,
            }),
            r.log() == buffer@.entries,
    {
        let r = RedactingWriter { redactor, buffer, pending: String::new(), level: None, target: None };
        assert(r@.pending =~= Seq::<char>::empty());
        r
    }

    /// Sets the severity and the target of the lines that follow.
    pub fn with_meta(self, level: &str, target: &str) -> (r: Self)
        ensures
            r@ == (WriterView { level: Some(level@), target: Some(target@), ..self@ }),
            r.log() == self.log(),
            self.wf() ==> r.wf(),
    {
        let mut r = self;
        r.level = Some(level.to_owned());
        r.target = Some(target.to_owned());
        r
    }

    /// The buffer of the log viewer.
    pub fn buffer(&self) -> (r: &LogBuffer)
        ensures
            r@.entries == self.log(),
            entry_views(r@.entries) == self@.entries,
            r@.capacity == self@.capacity,
            r@.dropped == self@.dropped,
    {
        &self.buffer
    }

    /// Redacts a single line and mirrors it into the buffer.
    ///
    /// A zero capacity buffer silently drops the entry (the file sink uses one).
    pub fn redact_line(&mut self, line: &str) -> (r: String)
        requires
            old(self).wf(),
            old(self)@.dropped < u64::MAX,
        ensures
            final(self).wf(),
            r@ == redacted(old(self)@.secrets, line@),
            final(self)@ == old(self)@.with_entries(
                seq![
                    EntryView {
                        level: old(self)@.entry_level(),
                        target: old(self)@.entry_target(),
                        message: redacted(old(self)@.secrets, line@),
                    },
                ],
            ),
            continued(old(self).log(), final(self).log(), old(self)@.capacity, 1),
    {
        let text = self.redactor.redact(line);
        let level = match copy_option(&self.level) {
            Some(level) => level,
            None => "INFO".to_owned(),
        };
        let target = match copy_option(&self.target) {
            Some(target) => target,
            None => "rdt".to_owned(),
        };
        let entry = LogEntry {
            stamp: UtcStamp::now(),
            level,
            target,
            message: text.as_str().to_owned(),
        };
        let ghost before = self.buffer@;
        let ghost view = entry@;
        self.buffer.push(entry);
        proof {
            let more = seq![entry];
            assert(before.entries.push(entry) =~= before.entries + more);
            assert(self.buffer@.entries == newest(before.entries + more, before.capacity));
            assert(entry_views(pushed(before, entry).entries) =~= newest(
                entry_views(before.entries) + seq![view],
                before.capacity,
            ));
        }
        text
    }

    /// Takes in text and gives what goes to the sink: every line that is complete
    /// by now, redacted.
    pub fn write_text(&mut self, text: &str) -> (r: String)
        requires
            old(self).wf(),
            old(self)@.dropped + old(self)@.pending.len() + text@.len() <= u64::MAX,
        ensures
            final(self).wf(),
            ({
                let whole = old(self)@.pending + text@;
                let lines = complete_lines(whole);
                let marked = old(self)@.with_entries(
                    line_entries(
                        old(self)@.secrets,
                        old(self)@.entry_level(),
                        old(self)@.entry_target(),
                        lines,
                    ),
                );
                &&& r@ == lines_written(old(self)@.secrets, lines)
                &&& final(self)@ == (WriterView { pending: incomplete_line(whole), ..marked })
                &&& continued(
                    old(self).log(),
                    final(self).log(),
                    old(self)@.capacity,
                    line_entries(
                        old(self)@.secrets,
                        old(self)@.entry_level(),
                        old(self)@.entry_target(),
                        lines,
                    ).len(),
                )
            }),
    {
        let ghost start = self@;
        let ghost held = self.log();
        let ghost base = self@.dropped;
        self.pending.push_str(text);
        let ghost whole = self.pending@;
        let pieces = split_at_char(self.pending.as_str(), '\n');
        proof {
            split_is_not_empty(whole, '\n');
            split_is_short(whole, '\n');
            assert(pieces@.len() == texts(pieces@).len());
        }
        let count: usize = pieces.len() - 1;
        let ghost lines = complete_lines(whole);
        let mut out = String::new();
        let mut i: usize = 0;
        assert(lines.take(0) =~= Seq::<Seq<char>>::empty());
        proof {
            self.keeps_newest();
            assert(start.entries + Seq::<EntryView>::empty() =~= start.entries);
            assert(newest(start.entries, start.capacity) =~= start.entries);
            assert(held + Seq::<LogEntry>::empty() =~= held);
            assert(held == newest(held + Seq::<LogEntry>::empty(), start.capacity));
        }
        while i < count
            invariant
                i <= count,
                count + 1 == pieces@.len(),
                count <= whole.len(),
                texts(pieces@) == split(whole, '\n'),
                lines == complete_lines(whole),
                self.wf(),
                self.pending@ == whole,
                self@.dropped <= base + i,
                base + whole.len() <= u64::MAX,
                out@ == lines_written(start.secrets, lines.take(i as int)),
                continued(
                    held,
                    self.log(),
                    start.capacity,
                    line_entries(
                        start.secrets,
                        start.entry_level(),
                        start.entry_target(),
                        lines.take(i as int),
                    ).len(),
                ),
                self@ == (WriterView {
                    pending: whole,
                    ..start.with_entries(
                        line_entries(
                            start.secrets,
                            start.entry_level(),
                            start.entry_target(),
                            lines.take(i as int),
                        ),
                    )
                }),
            decreases count - i,
        {
            proof {
                assert(lines.take(i + 1).drop_last() =~= lines.take(i as int));
                assert(lines.take(i + 1).last() == lines[i as int]);
                assert(texts(pieces@)[i as int] == pieces@[i as int]@);
                assert(lines[i as int] == pieces@[i as int]@);
            }
            let ghost made = line_entries(
                start.secrets,
                start.entry_level(),
                start.entry_target(),
                lines.take(i as int),
            );
            let content = trim_line_end(pieces[i].as_str());
            if content.as_str().is_empty() {
                out.push_str("\n");
            } else {
                let ghost logged = self.log();
                let line = self.redact_line(content.as_str());
                proof {
                    log_goes_on(held, logged, self.log(), start.capacity, made.len());
                }
                out.push_str(line.as_str());
                out.push_str("\n");
                proof {
                    let one = EntryView {
                        level: start.entry_level(),
                        target: start.entry_target(),
                        message: redacted(start.secrets, content@),
                    };
                    newest_absorbs(start.entries + made, seq![one], start.capacity);
                    assert((start.entries + made) + seq![one] =~= start.entries + made.push(one));
                    assert(out@ =~= lines_written(start.secrets, lines.take(i as int)) + (redacted(
                        start.secrets,
                        content@,
                    ) + "\n"@));
                }
            }
            i = i + 1;
        }
        assert(lines.take(lines.len() as int) =~= lines);
        assert(texts(pieces@)[count as int] == pieces@[count as int]@);
        self.pending = pieces[count].as_str().to_owned();
        out
    }

    proof fn keeps_newest(self)
        requires
            self.wf(),
        ensures
            self@.entries.len() <= self@.capacity,
    {
    }

    /// Takes in bytes and gives what goes to the sink; nothing happens when the
    /// count of discarded entries could run over.
    pub fn write(&mut self, bytes: &[u8]) -> (r: Option<String>)
        requires
            old(self).wf(),
        ensures
            final(self).wf(),
            ({
                let text = lossy(bytes@);
                let whole = old(self)@.pending + text;
                let lines = complete_lines(whole);
                let marked = old(self)@.with_entries(
                    line_entries(
                        old(self)@.secrets,
                        old(self)@.entry_level(),
                        old(self)@.entry_target(),
                        lines,
                    ),
                );
                if old(self)@.dropped + old(self)@.pending.len() + text.len() <= u64::MAX {
                    &&& r is Some
                    &&& r->0@ == lines_written(old(self)@.secrets, lines)
                    &&& final(self)@ == (WriterView { pending: incomplete_line(whole), ..marked })
                    &&& continued(
                        old(self).log(),
                        final(self).log(),
                        old(self)@.capacity,
                        line_entries(
                            old(self)@.secrets,
                            old(self)@.entry_level(),
                            old(self)@.entry_target(),
                            lines,
                        ).len(),
                    )
                } else {
                    &&& r is None
                    &&& *final(self) == *old(self)
                }
            }),
    {
        let text = lossy_text(bytes);
        let added: usize = chars_of(text.as_str()).len();
        let held: usize = chars_of(self.pending.as_str()).len();
        let room: u128 = self.buffer.dropped() as u128 + held as u128 + added as u128;
        if room > 0xFFFF_FFFF_FFFF_FFFF {
            return None;
        }
        Some(self.write_text(text.as_str()))
    }

    /// Gives what goes to the sink when it is flushed: the text that waits for its
    /// line feed, redacted.
    pub fn flush(&mut self) -> (r: String)
        requires
            old(self).wf(),
            old(self)@.dropped < u64::MAX,
        ensures
            final(self).wf(),
            ({
                let content = without_line_end(old(self)@.pending);
                let text = redacted(old(self)@.secrets, content);
                if old(self)@.pending.len() == 0 {
                    &&& r@ == Seq::<char>::empty()
                    &&& *final(self) == *old(self)
                } else {
                    &&& r@ == text
                    &&& continued(old(self).log(), final(self).log(), old(self)@.capacity, 1)
                    &&& final(self)@ == (WriterView {
                        pending: Seq::empty(),
                        ..old(self)@.with_entries(
                            seq![
                                EntryView {
                                    level: old(self)@.entry_level(),
                                    target: old(self)@.entry_target(),
                                    message: text,
                                },
                            ],
                        )
                    })
                }
            }),
    {
        if self.pending.as_str().is_empty() {
            let r = String::new();
            assert(r@ =~= Seq::<char>::empty());
            return r;
        }
        let content = trim_line_end(self.pending.as_str());
        self.pending = String::new();
        assert(self.pending@ =~= Seq::<char>::empty());
        self.redact_line(content.as_str())
    }
}

proof fn newest_absorbs<T>(items: Seq<T>, more: Seq<T>, limit: nat)
    ensures
        newest(newest(items, limit) + more, limit) == newest(items + more, limit),
{
    assert(newest(newest(items, limit) + more, limit) =~= newest(items + more, limit));
}

proof fn log_goes_on(
    before: Seq<LogEntry>,
    middle: Seq<LogEntry>,
    after: Seq<LogEntry>,
    capacity: nat,
    n: nat,
)
    requires
        continued(before, middle, capacity, n),
        continued(middle, after, capacity, 1),
    ensures
        continued(before, after, capacity, n + 1),
{
    let first = choose|more: Seq<LogEntry>|
        more.len() == n && middle == #[trigger] newest(before + more, capacity);
    let second = choose|more: Seq<LogEntry>|
        more.len() == 1 && after == #[trigger] newest(middle + more, capacity);
    newest_absorbs(before + first, second, capacity);
    assert((before + first) + second =~= before + (first + second));
    assert(after == newest(before + (first + second), capacity));
}

proof fn split_is_short(s: Seq<char>, c: char)
    ensures
        split(s, c).len() <= s.len() + 1,
    decreases s.len(),
{
    if s.len() > 0 {
        split_is_short(s.drop_last(), c);
        split_is_not_empty(s.drop_last(), c);
    }
}

/// Whether a character does not occur in a text.
spec fn lacks(s: Seq<char>, c: char) -> bool {
    forall|i: int| 0 <= i < s.len() ==> #[trigger] s[i] != c
}

proof fn pieces_lack_the_separator(s: Seq<char>, c: char)
    ensures
        split(s, c).len() > 0,
        lacks(split(s, c).last(), c),
    decreases s.len(),
{
    if s.len() > 0 {
        pieces_lack_the_separator(s.drop_last(), c);
    }
}

proof fn unsplit_piece(s: Seq<char>, c: char)
    requires
        lacks(s, c),
    ensures
        split(s, c) == seq![s],
    decreases s.len(),
{
    if s.len() > 0 {
        let front = s.drop_last();
        assert forall|i: int| 0 <= i < front.len() implies #[trigger] front[i] != c by {
            assert(s[i] != c);
        }
        unsplit_piece(front, c);
        assert(s[s.len() - 1] != c);
        assert(front.push(s.last()) =~= s);
        assert(split(s, c) =~= seq![s]);
    } else {
        assert(s =~= Seq::<char>::empty());
        assert(split(s, c) =~= seq![s]);
    }
}

proof fn split_of_concatenation(x: Seq<char>, y: Seq<char>, c: char)
    ensures
        split(x + y, c) == split(x, c).drop_last() + split(split(x, c).last() + y, c),
    decreases y.len(),
{
    pieces_lack_the_separator(x, c);
    let lead = split(x, c).drop_last();
    let rest = split(x, c).last();
    if y.len() == 0 {
        assert(x + y =~= x);
        assert(rest + y =~= rest);
        unsplit_piece(rest, c);
        assert(lead + seq![rest] =~= split(x, c));
    } else {
        let front = y.drop_last();
        split_of_concatenation(x, front, c);
        assert((x + y).drop_last() =~= x + front);
        assert((rest + y).drop_last() =~= rest + front);
        split_is_not_empty(rest + front, c);
        split_is_not_empty(x + front, c);
        let inner = split(rest + front, c);
        assert(split(x + y, c) =~= lead + split(rest + y, c));
    }
}

proof fn written_concatenation(secrets: Seq<Seq<char>>, a: Seq<Seq<char>>, b: Seq<Seq<char>>)
    ensures
        lines_written(secrets, a + b) == lines_written(secrets, a) + lines_written(secrets, b),
    decreases b.len(),
{
    if b.len() == 0 {
        assert(a + b =~= a);
        assert(lines_written(secrets, a) + Seq::<char>::empty() =~= lines_written(secrets, a));
    } else {
        written_concatenation(secrets, a, b.drop_last());
        assert((a + b).drop_last() =~= a + b.drop_last());
        assert((lines_written(secrets, a) + lines_written(secrets, b.drop_last())) + line_written(
            secrets,
            b.last(),
        ) =~= lines_written(secrets, a) + (lines_written(secrets, b.drop_last()) + line_written(
            secrets,
            b.last(),
        )));
    }
}

proof fn entries_concatenation(
    secrets: Seq<Seq<char>>,
    level: Seq<char>,
    target: Seq<char>,
    a: Seq<Seq<char>>,
    b: Seq<Seq<char>>,
)
    ensures
        line_entries(secrets, level, target, a + b) == line_entries(secrets, level, target, a)
            + line_entries(secrets, level, target, b),
    decreases b.len(),
{
    if b.len() == 0 {
        assert(a + b =~= a);
        assert(line_entries(secrets, level, target, a) + Seq::<EntryView>::empty() =~= line_entries(
            secrets,
            level,
            target,
            a,
        ));
    } else {
        entries_concatenation(secrets, level, target, a, b.drop_last());
        assert((a + b).drop_last() =~= a + b.drop_last());
        assert(line_entries(secrets, level, target, a + b) =~= line_entries(
            secrets,
            level,
            target,
            a,
        ) + line_entries(secrets, level, target, b));
    }
}

/// Text that arrives in pieces leaves the same lines, the same entries and the
/// same rest as text that arrives at once: lines are assembled before they are
/// redacted.
pub proof fn pieces_are_assembled(
    secrets: Seq<Seq<char>>,
    level: Seq<char>,
    target: Seq<char>,
    pending: Seq<char>,
    first: Seq<char>,
    second: Seq<char>,
)
    ensures
        ({
            let whole = pending + (first + second);
            let early = pending + first;
            let late = incomplete_line(early) + second;
            &&& incomplete_line(whole) == incomplete_line(late)
            &&& lines_written(secrets, complete_lines(whole)) == lines_written(
                secrets,
                complete_lines(early),
            ) + lines_written(secrets, complete_lines(late))
            &&& line_entries(secrets, level, target, complete_lines(whole)) == line_entries(
                secrets,
                level,
                target,
                complete_lines(early),
            ) + line_entries(secrets, level, target, complete_lines(late))
        }),
{
    let whole = pending + (first + second);
    let early = pending + first;
    let late = incomplete_line(early) + second;
    assert(whole =~= early + second);
    split_of_concatenation(early, second, '\n');
    split_is_not_empty(early, '\n');
    split_is_not_empty(late, '\n');
    assert(complete_lines(whole) =~= complete_lines(early) + complete_lines(late));
    written_concatenation(secrets, complete_lines(early), complete_lines(late));
    entries_concatenation(secrets, level, target, complete_lines(early), complete_lines(late));
}

/// A complete line goes to the sink redacted and with its line feed, without the carriage
/// returns at its end; a blank line is a line feed alone. It leads to one entry in the log
/// viewer with the same text, and a blank line to none.
pub proof fn lines_are_written_redacted(
    secrets: Seq<Seq<char>>,
    level: Seq<char>,
    target: Seq<char>,
    lines: Seq<Seq<char>>,
    line: Seq<char>,
)
    requires
        line.len() > 0 ==> line.last() != '\n' && line.last() != '\r',
    ensures
        line.len() > 0 ==> lines_written(secrets, lines.push(line)) == lines_written(
            secrets,
            lines,
        ) + (redacted(secrets, line) + seq!['\n']),
        line.len() == 0 ==> lines_written(secrets, lines.push(line)) == lines_written(
            secrets,
            lines,
        ) + seq!['\n'],
        lines_written(secrets, lines.push(line.push('\r'))) == lines_written(
            secrets,
            lines.push(line),
        ),
        line.len() > 0 ==> line_entries(secrets, level, target, lines.push(line)) == line_entries(
            secrets,
            level,
            target,
            lines,
        ).push(EntryView { level, target, message: redacted(secrets, line) }),
        line.len() == 0 ==> line_entries(secrets, level, target, lines.push(line)) == line_entries(
            secrets,
            level,
            target,
            lines,
        ),
{
    reveal_strlit("\n");
    assert("\n"@ =~= seq!['\n']);
    assert(lines.push(line).drop_last() =~= lines);
    let ended = line.push('\r');
    assert(lines.push(ended).drop_last() =~= lines);
    assert(ended.drop_last() =~= line);
    assert(without_line_end(ended) == without_line_end(line));
    assert(without_line_end(line) == line);
}

/// What is complete ends with a line feed, and what follows the last one waits.
pub proof fn line_feeds_complete_lines(line: Seq<char>, rest: Seq<char>)
    requires
        forall|i: int| 0 <= i < line.len() ==> #[trigger] line[i] != '\n',
    ensures
        complete_lines(line) == Seq::<Seq<char>>::empty(),
        incomplete_line(line) == line,
        complete_lines(line + seq!['\n'] + rest) == seq![line] + complete_lines(rest),
        incomplete_line(line + seq!['\n'] + rest) == incomplete_line(rest),
{
    crate::text::separators_cut(line, '\n', rest);
    split_is_not_empty(rest, '\n');
    let parts = split(rest, '\n');
    assert(seq![line].drop_last() =~= Seq::<Seq<char>>::empty());
    assert((seq![line] + parts).drop_last() =~= seq![line] + parts.drop_last());
    assert((seq![line] + parts).last() == parts.last());
}

/// Entries get the level and the target of the writer, or the usual ones.
pub proof fn entries_get_level_and_target(w: WriterView)
    ensures
        w.level is Some ==> w.entry_level() == w.level->0,
        w.level is None ==> w.entry_level() == "INFO"@,
        w.target is Some ==> w.entry_target() == w.target->0,
        w.target is None ==> w.entry_target() == "rdt"@,
{
}

} // verus!
