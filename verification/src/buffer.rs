//! In-memory buffer of recent log lines, backing the Logs page.
use crate::audit::newest;
use crate::text::{contains, lowered, occurs, same, to_ascii_lowercase, trim, trimmed};
use crate::timeutil::UtcStamp;
use std::collections::VecDeque;
use vstd::prelude::*;

verus! {

/// One captured log line.
#[derive(Debug, Clone, PartialEq, Eq)]
pub struct LogEntry {
    /// When the line was produced.
    pub stamp: UtcStamp,
    /// Severity (`TRACE`, `DEBUG`, `INFO`, `WARN`, `ERROR`).
    pub level: String,
    /// Target, usually the module path.
    pub target: String,
    /// Message text (already redacted).
    pub message: String,
}

/// Severity levels understood by the log viewer.
#[derive(Debug, Clone, Copy, PartialEq, Eq, Structural)]
pub enum Level {
    /// Everything.
    Trace,
    /// Debugging output.
    Debug,
    /// Normal operation.
    Info,
    /// Something needs attention.
    Warn,
    /// Failures.
    Error,
}

impl Default for Level {
    fn default() -> (r: Self)
        ensures
            r == Level::Info,
    {
        Level::Info
    }
}

impl Level {
    /// The name of a level.
    pub open spec fn name(self) -> Seq<char> {
        match self {
            Level::Trace => "trace"@,
            Level::Debug => "debug"@,
            Level::Info => "info"@,
            Level::Warn => "warn"@,
            Level::Error => "error"@,
        }
    }

    /// The rank of a level; a higher rank is more severe.
    pub open spec fn rank(self) -> int {
        match self {
            Level::Trace => 0,
            Level::Debug => 1,
            Level::Info => 2,
            Level::Warn => 3,
            Level::Error => 4,
        }
    }

    /// Stable lowercase name.
    pub fn as_str(self) -> (r: &'static str)
        ensures
            r@ == self.name(),
    {
        match self {
            Level::Trace => "trace",
            Level::Debug => "debug",
            Level::Info => "info",
            Level::Warn => "warn",
            Level::Error => "error",
        }
    }

    /// How severe the level is.
    pub fn severity(self) -> (r: u8)
        ensures
            r == self.rank(),
    {
        match self {
            Level::Trace => 0,
            Level::Debug => 1,
            Level::Info => 2,
            Level::Warn => 3,
            Level::Error => 4,
        }
    }
}

/// The rank of a level by its name, in any case; an unknown name ranks like
/// normal operation.
pub open spec fn named_rank(level: Seq<char>) -> int {
    let name = lowered(level);
    if name == "trace"@ {
        0
    } else if name == "debug"@ {
        1
    } else if name == "info"@ {
        2
    } else if name == "warn"@ {
        3
    } else if name == "error"@ {
        4
    } else {
        2
    }
}

/// The rank of a level by its name.
pub fn level_rank(level: &str) -> (r: u8)
    ensures
        r == named_rank(level@),
{
    let name = to_ascii_lowercase(level);
    if same(name.as_str(), "trace") {
        0
    } else if same(name.as_str(), "debug") {
        1
    } else if same(name.as_str(), "info") {
        2
    } else if same(name.as_str(), "warn") {
        3
    } else if same(name.as_str(), "error") {
        4
    } else {
        2
    }
}

/// Whether an entry is severe enough and mentions a text, in any case; a blank
/// text is mentioned by every entry.
pub open spec fn shown(entry: LogEntry, needle: Seq<char>, min_level: Level) -> bool {
    let wanted = lowered(trimmed(needle));
    &&& named_rank(entry.level@) >= min_level.rank()
    &&& trimmed(needle).len() == 0 || occurs(lowered(entry.message@), wanted) || occurs(
        lowered(entry.target@),
        wanted,
    )
}

/// The entries that are shown, in order.
pub open spec fn selected(entries: Seq<LogEntry>, needle: Seq<char>, min_level: Level) -> Seq<
    LogEntry,
>
    decreases entries.len(),
{
    if entries.len() == 0 {
        Seq::empty()
    } else if shown(entries.last(), needle, min_level) {
        selected(entries.drop_last(), needle, min_level).push(entries.last())
    } else {
        selected(entries.drop_last(), needle, min_level)
    }
}

/// Fixed capacity buffer of recent entries.
#[derive(Debug, Clone)]
pub struct LogBuffer {
    entries: VecDeque<LogEntry>,
    capacity: usize,
    dropped: u64,
}

/// What a buffer holds.
pub ghost struct BufferView {
    /// The entries, oldest first.
    pub entries: Seq<LogEntry>,
    /// The most entries that are held.
    pub capacity: nat,
    /// How many entries were discarded.
    pub dropped: nat,
}

impl View for LogBuffer {
    type V = BufferView;

    closed spec fn view(&self) -> BufferView {
        BufferView {
            entries: self.entries@,
            capacity: self.capacity as nat,
            dropped: self.dropped as nat,
        }
    }
}

/// A buffer after one more entry: the oldest one leaves when there is no room.
pub open spec fn pushed(buffer: BufferView, entry: LogEntry) -> BufferView {
    BufferView {
        entries: newest(buffer.entries.push(entry), buffer.capacity),
        capacity: buffer.capacity,
        dropped: if buffer.capacity > 0 && buffer.entries.len() >= buffer.capacity {
            buffer.dropped + 1
        } else {
            buffer.dropped
        },
    }
}

impl LogBuffer {
    /// The buffer never holds more than its capacity.
    pub open spec fn wf(self) -> bool {
        self@.entries.len() <= self@.capacity
    }

    /// Creates a buffer holding at most `capacity` entries; a capacity of zero
    /// disables buffering (used by the file sink, which does not need it).
    pub fn new(capacity: usize) -> (r: Self)
        ensures
            r.wf(),
            r@ == (BufferView { entries: Seq::empty(), capacity: capacity as nat, dropped: 0 }),
    {
        LogBuffer { entries: VecDeque::new(), capacity, dropped: 0 }
    }

    /// Appends an entry, dropping the oldest one when full.
    pub fn push(&mut self, entry: LogEntry)
        requires
            old(self).wf(),
            pushed(old(self)@, entry).dropped <= u64::MAX,
        ensures
            final(self).wf(),
            final(self)@ == pushed(old(self)@, entry),
    {
        let ghost before = self.entries@;
        if self.capacity == 0 {
            assert(newest(before.push(entry), 0) =~= before);
            return;
        }
        if self.entries.len() >= self.capacity {
            let _oldest = self.entries.pop_front();
            self.dropped = self.dropped + 1;
        }
        self.entries.push_back(entry);
        assert(self.entries@ =~= newest(before.push(entry), self.capacity as nat));
    }

    /// Every buffered entry, oldest first.
    pub fn entries(&self) -> (r: Vec<&LogEntry>)
        ensures
            r@.len() == self@.entries.len(),
            forall|i: int| 0 <= i < r@.len() ==> *(#[trigger] r@[i]) == self@.entries[i],
    {
        let mut r: Vec<&LogEntry> = Vec::new();
        let mut i: usize = 0;
        while i < self.entries.len()
            invariant
                i <= self.entries@.len(),
                r@.len() == i,
                forall|k: int| 0 <= k < i ==> *(#[trigger] r@[k]) == self.entries@[k],
            decreases self.entries@.len() - i,
        {
            r.push(&self.entries[i]);
            i = i + 1;
        }
        r
    }

    /// Entries whose text contains `needle` (case insensitive) and whose level
    /// is at least `min_level`.
    pub fn filter(&self, needle: &str, min_level: Level) -> (r: Vec<&LogEntry>)
        ensures
            r@.len() == selected(self@.entries, needle@, min_level).len(),
            forall|i: int|
                0 <= i < r@.len() ==> *(#[trigger] r@[i]) == selected(
                    self@.entries,
                    needle@,
                    min_level,
                )[i],
    {
        let wanted = to_ascii_lowercase(trim(needle).as_str());
        let all = trim(needle).as_str().is_empty();
        let ghost entries = self.entries@;
        let mut r: Vec<&LogEntry> = Vec::new();
        let mut i: usize = 0;
        assert(entries.take(0) =~= Seq::<LogEntry>::empty());
        while i < self.entries.len()
            invariant
                i <= entries.len(),
                entries == self.entries@,
                wanted@ == lowered(trimmed(needle@)),
                all == (trimmed(needle@).len() == 0),
                r@.len() == selected(entries.take(i as int), needle@, min_level).len(),
                forall|k: int|
                    0 <= k < r@.len() ==> *(#[trigger] r@[k]) == selected(
                        entries.take(i as int),
                        needle@,
                        min_level,
                    )[k],
            decreases entries.len() - i,
        {
            proof {
                assert(entries.take(i + 1).drop_last() =~= entries.take(i as int));
                assert(entries.take(i + 1).last() == entries[i as int]);
            }
            let entry = &self.entries[i];
            if level_rank(entry.level.as_str()) >= min_level.severity() && (all || contains(
                to_ascii_lowercase(entry.message.as_str()).as_str(),
                wanted.as_str(),
            ) || contains(to_ascii_lowercase(entry.target.as_str()).as_str(), wanted.as_str())) {
                r.push(entry);
            }
            i = i + 1;
        }
        assert(entries.take(entries.len() as int) =~= entries);
        r
    }

    /// Number of buffered entries.
    pub fn len(&self) -> (r: usize)
        ensures
            r == self@.entries.len(),
    {
        self.entries.len()
    }

    /// Whether the buffer is empty.
    pub fn is_empty(&self) -> (r: bool)
        ensures
            r == (self@.entries.len() == 0),
    {
        self.entries.len() == 0
    }

    /// How many entries were discarded because the buffer was full.
    pub fn dropped(&self) -> (r: u64)
        ensures
            r == self@.dropped,
    {
        self.dropped
    }

    /// Removes every entry.
    pub fn clear(&mut self)
        ensures
            final(self).wf(),
            final(self)@ == (BufferView { entries: Seq::empty(), ..old(self)@ }),
    {
        self.entries = VecDeque::new();
    }
}

/// A buffer holds the newest entries of everything that was ever pushed, and has
/// counted the rest.
pub proof fn buffers_keep_the_newest(history: Seq<LogEntry>, buffer: BufferView, entry: LogEntry)
    requires
        buffer.capacity > 0,
        buffer.entries == newest(history, buffer.capacity),
        buffer.entries.len() + buffer.dropped == history.len(),
    ensures
        pushed(buffer, entry).entries == newest(history.push(entry), buffer.capacity),
        pushed(buffer, entry).entries.len() + pushed(buffer, entry).dropped == history.push(
            entry,
        ).len(),
{
    assert(pushed(buffer, entry).entries =~= newest(history.push(entry), buffer.capacity));
}

/// Every shown entry satisfies the filter and every entry that satisfies it is
/// shown.
pub proof fn filters_show_what_matches(
    entries: Seq<LogEntry>,
    needle: Seq<char>,
    min_level: Level,
    entry: LogEntry,
)
    ensures
        selected(entries, needle, min_level).contains(entry) <==> entries.contains(entry) && shown(
            entry,
            needle,
            min_level,
        ),
    decreases entries.len(),
{
    let after = selected(entries, needle, min_level);
    if entries.len() > 0 {
        let front = entries.drop_last();
        let kept = selected(front, needle, min_level);
        filters_show_what_matches(front, needle, min_level, entry);
        if entries.contains(entry) && shown(entry, needle, min_level) {
            let i = entries.index_of(entry);
            if i < front.len() {
                assert(front[i] == entry);
                let k = kept.index_of(entry);
                assert(after[k] == entry);
            } else {
                assert(after[kept.len() as int] == entry);
            }
        }
        if after.contains(entry) {
            let i = after.index_of(entry);
            if i < kept.len() {
                assert(kept[i] == entry);
                let k = front.index_of(entry);
                assert(entries[k] == entry);
            } else {
                assert(entries[entries.len() - 1] == entry);
            }
        }
    }
}

/// The levels rise from trace to error, whatever the case of their names; a level with
/// another name counts as information.
pub proof fn levels_rise(level: Seq<char>)
    ensures
        Level::Trace.rank() < Level::Debug.rank() < Level::Info.rank() < Level::Warn.rank()
            < Level::Error.rank(),
        lowered(level) == "trace"@ ==> named_rank(level) == Level::Trace.rank(),
        lowered(level) == "debug"@ ==> named_rank(level) == Level::Debug.rank(),
        lowered(level) == "info"@ ==> named_rank(level) == Level::Info.rank(),
        lowered(level) == "warn"@ ==> named_rank(level) == Level::Warn.rank(),
        lowered(level) == "error"@ ==> named_rank(level) == Level::Error.rank(),
        lowered(level) != "trace"@ && lowered(level) != "debug"@ && lowered(level) != "warn"@
            && lowered(level) != "error"@ ==> named_rank(level) == Level::Info.rank(),
{
    reveal_strlit("trace");
    reveal_strlit("debug");
    reveal_strlit("info");
    reveal_strlit("warn");
    reveal_strlit("error");
    assert("trace"@[0] == 't' && "debug"@[0] == 'd' && "info"@[0] == 'i' && "warn"@[0] == 'w'
        && "error"@[0] == 'e');
}

/// An entry is shown when its level is high enough and the text that is looked for,
/// without white space around it, stands in its message or its target in any case; a
/// blank text is found everywhere.
pub proof fn entries_are_found_by_text(entry: LogEntry, needle: Seq<char>, min_level: Level)
    ensures
        shown(entry, needle, min_level) <==> named_rank(entry.level@) >= min_level.rank() && (
        trimmed(needle).len() == 0 || occurs(lowered(entry.message@), lowered(trimmed(needle)))
            || occurs(lowered(entry.target@), lowered(trimmed(needle)))),
{
}

/// Pushing lists the entry last; a full buffer loses its oldest entry and counts it, and
/// one without capacity holds nothing.
pub proof fn pushing_lists_the_entry(buffer: BufferView, entry: LogEntry)
    requires
        buffer.entries.len() <= buffer.capacity,
    ensures
        ({
            let after = pushed(buffer, entry);
            &&& after.capacity == buffer.capacity
            &&& buffer.capacity == 0 ==> after.entries.len() == 0 && after.dropped
                == buffer.dropped
            &&& buffer.entries.len() < buffer.capacity ==> after.entries == buffer.entries.push(
                entry,
            ) && after.dropped == buffer.dropped
            &&& buffer.capacity > 0 && buffer.entries.len() == buffer.capacity ==> after.entries
                == buffer.entries.skip(1).push(entry) && after.dropped == buffer.dropped + 1
        }),
{
    let after = pushed(buffer, entry);
    if buffer.capacity > 0 && buffer.entries.len() == buffer.capacity {
        assert(after.entries =~= buffer.entries.skip(1).push(entry));
    }
}

} // verus!
