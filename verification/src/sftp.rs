//! SFTP file transfer on an existing SSH connection.
//!
//! Transfers report progress and can be cancelled between chunks, so a large
//! upload never blocks the UI and never leaves a partial file behind: a cancelled
//! or failed transfer removes the temporary name it was writing to.  [`Transfer`]
//! decides what to do next; the reading and writing is done by its caller.
use crate::error::{fail, ErrorCode, RdtError, RdtErrorView, RdtResult};
use crate::sort::{key_views, positions, sorted_positions, stably_sorted, KeyView, SortKey};
use crate::ssh_session::{about_path, path_error};
use crate::text::{decimal, lower_case, occurs, to_decimal, to_lowercase};
use vstd::prelude::*;

verus! {

/// Direction of a transfer, used by progress reporting.
#[derive(Debug, Clone, Copy, PartialEq, Eq, Structural)]
pub enum TransferDirection {
    /// Local to remote.
    Upload,
    /// Remote to local.
    Download,
}

/// Progress of one transfer.
#[derive(Debug, Clone, Copy, PartialEq, Eq)]
pub struct TransferProgress {
    /// Direction.
    pub direction: TransferDirection,
    /// Bytes transferred so far.
    pub transferred: u64,
    /// Total size in bytes, when known.
    pub total: Option<u64>,
}

impl TransferProgress {
    /// Thousandths complete, at most a thousand; zero when the total is unknown or
    /// zero.
    pub fn permille(&self) -> (r: u32)
        ensures
            r == match self.total {
                None => 0,
                Some(total) => if total == 0 {
                    0
                } else if self.transferred >= total {
                    1000
                } else {
                    self.transferred * 1000 / total as int
                },
            },
            r <= 1000,
    {
        match self.total {
            None => 0,
            Some(total) => {
                if total == 0 {
                    return 0;
                }
                if self.transferred >= total {
                    return 1000;
                }
                let scaled: u128 = (self.transferred as u128) * 1000;
                let t = total as u128;
                assert(scaled / t <= 1000) by (nonlinear_arith)
                    requires
                        scaled < t * 1000,
                        t > 0,
                ;
                (scaled / t) as u32
            },
        }
    }
}

/// One entry of a remote directory listing.
#[derive(Debug, Clone, PartialEq, Eq)]
pub struct RemoteEntry {
    /// File name (not the full path).
    pub name: String,
    /// True for directories.
    pub is_dir: bool,
    /// True for symbolic links.
    pub is_symlink: bool,
    /// Size in bytes, when the server reports it.
    pub size: Option<u64>,
    /// Modification time as a Unix timestamp, when reported.
    pub modified: Option<i64>,
    /// POSIX permissions, when reported.
    pub permissions: Option<u32>,
}

/// The content of a [`RemoteEntry`].
pub struct RemoteView {
    pub name: Seq<char>,
    pub is_dir: bool,
    pub is_symlink: bool,
    pub size: Option<u64>,
    pub modified: Option<i64>,
    pub permissions: Option<u32>,
}

impl View for RemoteEntry {
    type V = RemoteView;

    open spec fn view(&self) -> RemoteView {
        RemoteView {
            name: self.name@,
            is_dir: self.is_dir,
            is_symlink: self.is_symlink,
            size: self.size,
            modified: self.modified,
            permissions: self.permissions,
        }
    }
}

/// Chunk size used for streaming transfers.
pub const CHUNK_SIZE: usize = 262_144;

/// Extension of the temporary name of a transfer.
pub const PART_EXTENSION: &'static str = "rdt-part";

/// The key by which a listing is sorted: directories first, then by name without
/// regard to case.
pub open spec fn listing_key(e: RemoteView) -> KeyView {
    KeyView {
        number: if e.is_dir {
            0
        } else {
            1
        },
        major: lower_case(e.name),
        minor: Seq::empty(),
    }
}

/// The keys of a listing.
pub open spec fn listing_keys(entries: Seq<RemoteEntry>) -> Seq<KeyView> {
    Seq::new(entries.len(), |i: int| listing_key(entries[i]@))
}

/// Sorts a directory listing: directories first, then by name without regard to
/// case.
pub fn sort_listing(entries: &Vec<RemoteEntry>) -> (r: Vec<RemoteEntry>)
    ensures
        exists|order: Seq<int>| #[trigger]
            stably_sorted(listing_keys(entries@), order) && r@.len() == order.len() && forall|i: int|
                0 <= i < r@.len() ==> (#[trigger] r@[i])@ == entries@[order[i]]@,
{
    let mut keys: Vec<SortKey> = Vec::with_capacity(entries.len());
    let mut i: usize = 0;
    while i < entries.len()
        invariant
            i <= entries@.len(),
            keys@.len() == i,
            forall|k: int| 0 <= k < i ==> (#[trigger] keys@[k])@ == listing_key(entries@[k]@),
        decreases entries.len() - i,
    {
        let entry = &entries[i];
        keys.push(
            SortKey {
                number: if entry.is_dir { 0 } else { 1 },
                major: to_lowercase(entry.name.as_str()),
                minor: String::new(),
            },
        );
        i = i + 1;
    }
    assert(key_views(keys@) =~= listing_keys(entries@));
    let order = sorted_positions(&keys);
    let ghost places = positions(order@);
    let mut r: Vec<RemoteEntry> = Vec::with_capacity(entries.len());
    let mut k: usize = 0;
    while k < order.len()
        invariant
            k <= order@.len(),
            places == positions(order@),
            stably_sorted(listing_keys(entries@), places),
            r@.len() == k,
            forall|a: int| 0 <= a < k ==> (#[trigger] r@[a])@ == entries@[places[a]]@,
        decreases order.len() - k,
    {
        assert(0 <= places[k as int] < entries@.len());
        let entry = &entries[order[k]];
        r.push(
            RemoteEntry {
                name: entry.name.clone(),
                is_dir: entry.is_dir,
                is_symlink: entry.is_symlink,
                size: entry.size,
                modified: entry.modified,
                permissions: entry.permissions,
            },
        );
        k = k + 1;
    }
    assert(stably_sorted(listing_keys(entries@), places));
    r
}

/// The temporary name an upload is written to.
pub fn upload_temporary(remote: &str) -> (r: String)
    ensures
        r@ == remote@ + ".rdt-part"@,
{
    let mut r = remote.to_owned();
    r.push_str(".rdt-part");
    r
}

/// What to do next in a transfer.
#[derive(Debug)]
pub enum TransferStep {
    /// Read the next chunk from the source.
    Read,
    /// Write the chunk that was read to the temporary file.
    Write,
    /// Flush and close the temporary file.
    Flush,
    /// Move the temporary file into place.
    Replace,
    /// Remove the temporary file and fail.
    Discard(RdtError),
    /// The transfer is complete.
    Done(u64),
}

/// What happened after a step of a transfer.
#[derive(Debug)]
pub enum TransferEvent {
    /// A chunk of this many bytes was read; none are left when it is empty.
    Read(usize),
    /// The chunk was written.
    Written,
    /// The temporary file was flushed and closed.
    Flushed,
    /// The temporary file was moved into place.
    Replaced,
    /// The step failed.
    Failed(RdtError),
}

/// What an event says.
pub ghost enum EventView {
    /// See [`TransferEvent::Read`].
    Read(nat),
    /// See [`TransferEvent::Written`].
    Written,
    /// See [`TransferEvent::Flushed`].
    Flushed,
    /// See [`TransferEvent::Replaced`].
    Replaced,
    /// See [`TransferEvent::Failed`].
    Failed(RdtErrorView),
}

impl View for TransferEvent {
    type V = EventView;

    open spec fn view(&self) -> EventView {
        match self {
            TransferEvent::Read(count) => EventView::Read(*count as nat),
            TransferEvent::Written => EventView::Written,
            TransferEvent::Flushed => EventView::Flushed,
            TransferEvent::Replaced => EventView::Replaced,
            TransferEvent::Failed(error) => EventView::Failed(error@),
        }
    }
}

/// What a step says.
pub ghost enum StepView {
    /// See [`TransferStep::Read`].
    Read,
    /// See [`TransferStep::Write`].
    Write,
    /// See [`TransferStep::Flush`].
    Flush,
    /// See [`TransferStep::Replace`].
    Replace,
    /// See [`TransferStep::Discard`].
    Discard(RdtErrorView),
    /// See [`TransferStep::Done`].
    Done(nat),
}

impl View for TransferStep {
    type V = StepView;

    open spec fn view(&self) -> StepView {
        match self {
            TransferStep::Read => StepView::Read,
            TransferStep::Write => StepView::Write,
            TransferStep::Flush => StepView::Flush,
            TransferStep::Replace => StepView::Replace,
            TransferStep::Discard(error) => StepView::Discard(error@),
            TransferStep::Done(count) => StepView::Done(*count as nat),
        }
    }
}

/// Which step of a transfer is under way.
#[derive(Debug, Clone, Copy, PartialEq, Eq, Structural)]
pub enum TransferPhase {
    /// A chunk is being read.
    Reading,
    /// A chunk of this many bytes is being written.
    Writing(usize),
    /// The temporary file is being flushed.
    Flushing,
    /// The temporary file is being moved into place.
    Replacing,
    /// The transfer is over.
    Finished,
}

/// A running transfer.
///
/// Data is written to a temporary name and moved into place only after a
/// successful, complete transfer, so an interruption cannot leave a truncated file
/// at the destination.
#[derive(Debug)]
pub struct Transfer {
    direction: TransferDirection,
    remote: String,
    transferred: u64,
    total: Option<u64>,
    phase: TransferPhase,
}

/// The content of a [`Transfer`].
pub struct TransferView {
    pub direction: TransferDirection,
    pub remote: Seq<char>,
    pub transferred: nat,
    pub total: Option<u64>,
    pub phase: TransferPhase,
}

impl View for Transfer {
    type V = TransferView;

    closed spec fn view(&self) -> TransferView {
        TransferView {
            direction: self.direction,
            remote: self.remote@,
            transferred: self.transferred as nat,
            total: self.total,
            phase: self.phase,
        }
    }
}

/// The message of a cancelled transfer.
pub open spec fn cancelled_message(direction: TransferDirection) -> Seq<char> {
    match direction {
        TransferDirection::Upload => "the upload was cancelled"@,
        TransferDirection::Download => "the download was cancelled"@,
    }
}

/// A transfer before its first step.
pub open spec fn started(
    direction: TransferDirection,
    remote: Seq<char>,
    total: Option<u64>,
) -> TransferView {
    TransferView { direction, remote, transferred: 0, total, phase: TransferPhase::Reading }
}

/// The step between two chunks: stops when cancellation was requested.
pub open spec fn next_chunk(t: TransferView, cancelled: bool) -> (TransferView, StepView) {
    if cancelled {
        (
            TransferView { phase: TransferPhase::Finished, ..t },
            StepView::Discard(
                path_error(ErrorCode::Cancelled, cancelled_message(t.direction), t.remote),
            ),
        )
    } else {
        (TransferView { phase: TransferPhase::Reading, ..t }, StepView::Read)
    }
}

/// The transfer and the next step after an event, if the event answers the step
/// that is under way.
pub open spec fn advanced(t: TransferView, event: EventView, cancelled: bool) -> Option<
    (TransferView, StepView),
> {
    match (t.phase, event) {
        (TransferPhase::Finished, _) => None,
        (_, EventView::Failed(error)) => Some(
            (TransferView { phase: TransferPhase::Finished, ..t }, StepView::Discard(error)),
        ),
        (TransferPhase::Reading, EventView::Read(count)) => if count == 0 {
            Some((TransferView { phase: TransferPhase::Flushing, ..t }, StepView::Flush))
        } else if count <= usize::MAX {
            Some(
                (
                    TransferView { phase: TransferPhase::Writing(count as usize), ..t },
                    StepView::Write,
                ),
            )
        } else {
            None
        },
        (TransferPhase::Writing(count), EventView::Written) => Some(
            next_chunk(
                TransferView { transferred: t.transferred + count as nat, ..t },
                cancelled,
            ),
        ),
        (TransferPhase::Flushing, EventView::Flushed) => Some(
            (TransferView { phase: TransferPhase::Replacing, ..t }, StepView::Replace),
        ),
        (TransferPhase::Replacing, EventView::Replaced) => Some(
            (
                TransferView { phase: TransferPhase::Finished, ..t },
                StepView::Done(t.transferred),
            ),
        ),
        _ => None,
    }
}

impl Transfer {
    /// Starts a transfer; the first step is to read, unless it was cancelled
    /// already.
    pub fn start(
        direction: TransferDirection,
        remote: &str,
        total: Option<u64>,
        cancelled: bool,
    ) -> (r: (Self, TransferStep))
        ensures
            (r.0@, r.1@) == next_chunk(started(direction, remote@, total), cancelled),
    {
        let mut transfer = Transfer {
            direction,
            remote: remote.to_owned(),
            transferred: 0,
            total,
            phase: TransferPhase::Reading,
        };
        let step = transfer.next(cancelled);
        (transfer, step)
    }

    /// Between two chunks: stops when cancellation was requested.
    fn next(&mut self, cancelled: bool) -> (r: TransferStep)
        ensures
            (final(self)@, r@) == next_chunk(old(self)@, cancelled),
    {
        if !cancelled {
            self.phase = TransferPhase::Reading;
            return TransferStep::Read;
        }
        self.phase = TransferPhase::Finished;
        let message = match self.direction {
            TransferDirection::Upload => "the upload was cancelled",
            TransferDirection::Download => "the download was cancelled",
        };
        TransferStep::Discard(about_path(ErrorCode::Cancelled, message, self.remote.as_str()))
    }

    /// The next step after an event; `cancelled` says whether cancellation was
    /// requested by then.
    pub fn step(&mut self, event: TransferEvent, cancelled: bool) -> (r: TransferStep)
        requires
            advanced(old(self)@, event@, cancelled) is Some,
            old(self)@.phase is Writing ==> old(self)@.transferred + old(self)@.phase->Writing_0
                <= u64::MAX,
        ensures
            advanced(old(self)@, event@, cancelled) == Some((final(self)@, r@)),
    {
        if let TransferEvent::Failed(error) = event {
            self.phase = TransferPhase::Finished;
            return TransferStep::Discard(error);
        }
        match (self.phase, event) {
            (TransferPhase::Reading, TransferEvent::Read(count)) => {
                if count == 0 {
                    self.phase = TransferPhase::Flushing;
                    TransferStep::Flush
                } else {
                    self.phase = TransferPhase::Writing(count);
                    TransferStep::Write
                }
            },
            (TransferPhase::Writing(count), _) => {
                self.transferred = self.transferred + count as u64;
                self.next(cancelled)
            },
            (TransferPhase::Flushing, _) => {
                self.phase = TransferPhase::Replacing;
                TransferStep::Replace
            },
            (_, _) => {
                self.phase = TransferPhase::Finished;
                TransferStep::Done(self.transferred)
            },
        }
    }

    /// Whether an event answers the step that is under way and the transferred
    /// bytes can be counted.
    pub fn expects(&self, event: &TransferEvent) -> (r: bool)
        ensures
            r == ((advanced(self@, event@, false) is Some) && (self@.phase is Writing
                ==> self@.transferred + self@.phase->Writing_0 <= u64::MAX)),
            forall|cancelled: bool|
                #[trigger] advanced(self@, event@, cancelled) is Some <==> advanced(
                    self@,
                    event@,
                    false,
                ) is Some,
    {
        let countable = match self.phase {
            TransferPhase::Writing(count) => self.transferred <= 0xFFFF_FFFF_FFFF_FFFF
                - count as u64,
            _ => true,
        };
        let answers = match (self.phase, event) {
            (TransferPhase::Finished, _) => false,
            (_, TransferEvent::Failed(_)) => true,
            (TransferPhase::Reading, TransferEvent::Read(_)) => true,
            (TransferPhase::Writing(_), TransferEvent::Written) => true,
            (TransferPhase::Flushing, TransferEvent::Flushed) => true,
            (TransferPhase::Replacing, TransferEvent::Replaced) => true,
            _ => false,
        };
        answers && countable
    }

    /// The progress to report.
    pub fn progress(&self) -> (r: TransferProgress)
        ensures
            r.direction == self@.direction,
            r.transferred == self@.transferred,
            r.total == self@.total,
    {
        TransferProgress {
            direction: self.direction,
            transferred: self.transferred,
            total: self.total,
        }
    }
}

/// The next step after an event that answers the step under way.
pub open spec fn answer(t: TransferView, event: EventView, cancelled: bool) -> StepView {
    (advanced(t, event, cancelled)->0).1
}

/// A transfer after a run of events, each with whether cancellation was requested
/// by then.
pub open spec fn reached(t: TransferView, events: Seq<(EventView, bool)>) -> Option<TransferView>
    decreases events.len(),
{
    if events.len() == 0 {
        Some(t)
    } else {
        match reached(t, events.drop_last()) {
            None => None,
            Some(u) => match advanced(u, events.last().0, events.last().1) {
                None => None,
                Some(next) => Some(next.0),
            },
        }
    }
}

/// The number of bytes that a run of events reports as read.
pub open spec fn bytes_read(events: Seq<(EventView, bool)>) -> nat
    decreases events.len(),
{
    if events.len() == 0 {
        0
    } else {
        bytes_read(events.drop_last()) + match events.last().0 {
            EventView::Read(count) => count,
            _ => 0nat,
        }
    }
}

/// Whether a run of events reports that no data is left.
pub open spec fn data_ended(events: Seq<(EventView, bool)>) -> bool {
    exists|i: int| 0 <= i < events.len() && (#[trigger] events[i]).0 == EventView::Read(0)
}

/// What holds in each phase of a transfer that started afresh.
spec fn consistent(t: TransferView, events: Seq<(EventView, bool)>) -> bool {
    match t.phase {
        TransferPhase::Reading => t.transferred == bytes_read(events),
        TransferPhase::Writing(count) => t.transferred + count == bytes_read(events),
        TransferPhase::Flushing => t.transferred == bytes_read(events) && data_ended(events),
        TransferPhase::Replacing => {
            &&& t.transferred == bytes_read(events)
            &&& data_ended(events)
            &&& events.last().0 is Flushed
        },
        TransferPhase::Finished => true,
    }
}

proof fn runs_are_consistent(t: TransferView, events: Seq<(EventView, bool)>)
    requires
        t.phase is Reading,
        t.transferred == 0,
        reached(t, events) is Some,
    ensures
        consistent(reached(t, events)->0, events),
    decreases events.len(),
{
    if events.len() > 0 {
        let front = events.drop_last();
        runs_are_consistent(t, front);
        let u = reached(t, front)->0;
        if data_ended(front) {
            let i = choose|i: int|
                0 <= i < front.len() && (#[trigger] front[i]).0 == EventView::Read(0);
            assert(events[i].0 == EventView::Read(0));
        }
        if events.last().0 == EventView::Read(0) {
            assert(events[events.len() - 1].0 == EventView::Read(0));
        }
    }
}

/// The destination is replaced only by complete data: when the temporary file is
/// to be moved into place, the source has reported its end, every byte that was
/// read has been written, and the file was flushed.
pub proof fn only_complete_data_is_moved_into_place(
    direction: TransferDirection,
    remote: Seq<char>,
    total: Option<u64>,
    events: Seq<(EventView, bool)>,
)
    requires
        reached(started(direction, remote, total), events) is Some,
        reached(started(direction, remote, total), events)->0.phase is Replacing,
    ensures
        data_ended(events),
        events.last().0 is Flushed,
        reached(started(direction, remote, total), events)->0.transferred == bytes_read(events),
{
    runs_are_consistent(started(direction, remote, total), events);
}

/// A transfer that reports completion has transferred every byte that was read.
pub proof fn completed_transfers_are_complete(
    direction: TransferDirection,
    remote: Seq<char>,
    total: Option<u64>,
    events: Seq<(EventView, bool)>,
    event: EventView,
    cancelled: bool,
)
    requires
        reached(started(direction, remote, total), events) is Some,
        advanced(reached(started(direction, remote, total), events)->0, event, cancelled) is Some,
        answer(
            reached(started(direction, remote, total), events)->0,
            event,
            cancelled,
        ) is Done,
    ensures
        data_ended(events),
        answer(
            reached(started(direction, remote, total), events)->0,
            event,
            cancelled,
        )->Done_0 == bytes_read(events),
{
    runs_are_consistent(started(direction, remote, total), events);
}

/// A failure ends a transfer at any step, and the temporary file is removed.
pub proof fn failures_discard_the_temporary_file(
    t: TransferView,
    error: RdtErrorView,
    cancelled: bool,
)
    requires
        !(t.phase is Finished),
    ensures
        advanced(t, EventView::Failed(error), cancelled) is Some,
        (advanced(t, EventView::Failed(error), cancelled)->0).0.phase is Finished,
        answer(t, EventView::Failed(error), cancelled) == StepView::Discard(error),
{
}

/// Checks the size of a file that is to be shown as a preview.
///
/// # Errors
///
/// Returns [`ErrorCode::InvalidInput`] when the file is larger than `limit`.
pub fn check_preview(size: Option<u64>, limit: u64) -> (r: RdtResult<()>)
    ensures
        ({
            let bytes = match size {
                Some(bytes) => bytes,
                None => 0,
            };
            if bytes > limit {
                r is Err && r->Err_0@ == fail(
                    ErrorCode::InvalidInput,
                    "the file is "@ + decimal(bytes as nat) + " bytes, which exceeds the "@
                        + decimal(limit as nat) + " byte preview limit"@,
                )
            } else {
                r is Ok
            }
        }),
{
    let bytes: u64 = match size {
        Some(bytes) => bytes,
        None => 0,
    };
    if bytes > limit {
        let mut message = "the file is ".to_owned();
        let bytes_text = to_decimal(bytes);
        message.push_str(bytes_text.as_str());
        message.push_str(" bytes, which exceeds the ");
        let limit_text = to_decimal(limit);
        message.push_str(limit_text.as_str());
        message.push_str(" byte preview limit");
        return Err(RdtError::new(ErrorCode::InvalidInput, message.as_str()));
    }
    Ok(())
}

/// Failures of an SFTP request.
#[derive(Debug, Clone, Copy, PartialEq, Eq, Structural)]
pub enum SftpFailure {
    /// The path does not exist.
    NotFound,
    /// The server denied access.
    PermissionDenied,
    /// Anything else.
    Other,
}

/// Maps an SFTP failure onto the error taxonomy.
pub fn map_sftp(failure: SftpFailure, message: &str, path: &str) -> (r: RdtError)
    ensures
        r@ == path_error(
            match failure {
                SftpFailure::NotFound => ErrorCode::NotFound,
                SftpFailure::PermissionDenied => ErrorCode::Permission,
                SftpFailure::Other => ErrorCode::Transfer,
            },
            message@,
            path@,
        ),
{
    let code = match failure {
        SftpFailure::NotFound => ErrorCode::NotFound,
        SftpFailure::PermissionDenied => ErrorCode::Permission,
        SftpFailure::Other => ErrorCode::Transfer,
    };
    about_path(code, message, path)
}

/// The error of an SFTP subsystem that does not start.
pub fn subsystem_failed(reason: &str) -> (r: RdtError)
    ensures
        r@ == if occurs(reason@, "subsystem"@) {
            fail(ErrorCode::Unsupported, "the server does not offer SFTP"@)
        } else {
            fail(ErrorCode::Protocol, "cannot start SFTP: "@ + reason@)
        },
{
    if crate::text::contains(reason, "subsystem") {
        RdtError::new(ErrorCode::Unsupported, "the server does not offer SFTP")
    } else {
        let mut message = "cannot start SFTP: ".to_owned();
        message.push_str(reason);
        RdtError::new(ErrorCode::Protocol, message.as_str())
    }
}

/// The error of a local file operation.
pub fn local_failed(what: &str, reason: &str) -> (r: RdtError)
    ensures
        r@ == fail(ErrorCode::Io, what@ + ": "@ + reason@),
{
    let mut message = what.to_owned();
    message.push_str(": ");
    message.push_str(reason);
    RdtError::new(ErrorCode::Io, message.as_str())
}

/// A transfer reads a piece, writes it and reads on, counting what was written; at the
/// end of the data it flushes, then replaces the target, and then is done with what it
/// counted. It starts by reading, with nothing counted.
pub proof fn transfers_take_their_steps(
    direction: TransferDirection,
    remote: Seq<char>,
    total: Option<u64>,
    t: TransferView,
    count: usize,
    cancelled: bool,
)
    ensures
        started(direction, remote, total).phase == TransferPhase::Reading,
        started(direction, remote, total).transferred == 0,
        t.phase == TransferPhase::Reading && count > 0 ==> advanced(
            t,
            EventView::Read(count as nat),
            cancelled,
        ) == Some((TransferView { phase: TransferPhase::Writing(count), ..t }, StepView::Write)),
        t.phase == TransferPhase::Writing(count) && !cancelled ==> advanced(
            t,
            EventView::Written,
            cancelled,
        ) == Some(
            (
                TransferView {
                    phase: TransferPhase::Reading,
                    transferred: t.transferred + count as nat,
                    ..t
                },
                StepView::Read,
            ),
        ),
        t.phase == TransferPhase::Reading ==> advanced(t, EventView::Read(0), cancelled) == Some(
            (TransferView { phase: TransferPhase::Flushing, ..t }, StepView::Flush),
        ),
        t.phase == TransferPhase::Flushing ==> advanced(t, EventView::Flushed, cancelled) == Some(
            (TransferView { phase: TransferPhase::Replacing, ..t }, StepView::Replace),
        ),
        t.phase == TransferPhase::Replacing ==> advanced(t, EventView::Replaced, cancelled) == Some(
            (TransferView { phase: TransferPhase::Finished, ..t }, StepView::Done(t.transferred)),
        ),
{
}

/// A cancelled transfer stops before its next piece: the temporary file is discarded,
/// and nothing is moved into place.
pub proof fn cancelled_transfers_are_discarded(t: TransferView, count: usize)
    requires
        t.phase == TransferPhase::Writing(count),
    ensures
        advanced(t, EventView::Written, true) is Some,
        (advanced(t, EventView::Written, true)->0).0.phase == TransferPhase::Finished,
        answer(t, EventView::Written, true) is Discard,
        answer(t, EventView::Written, true)->Discard_0.code == ErrorCode::Cancelled,
        next_chunk(t, true).0.phase == TransferPhase::Finished,
        next_chunk(t, true).1 is Discard,
        next_chunk(t, false).1 == StepView::Read,
{
}

/// A finished transfer takes no further event.
pub proof fn finished_transfers_stay_finished(t: TransferView, event: EventView, cancelled: bool)
    requires
        t.phase == TransferPhase::Finished,
    ensures
        advanced(t, event, cancelled) is None,
{
}

/// In a listing directories come before files, and among each other both are ordered by
/// their names in lower case.
pub proof fn listings_start_with_directories(a: RemoteView, b: RemoteView)
    ensures
        a.is_dir && !b.is_dir ==> crate::sort::key_le(listing_key(a), listing_key(b))
            && !crate::sort::key_le(listing_key(b), listing_key(a)),
        a.is_dir == b.is_dir && lower_case(a.name) != lower_case(b.name) ==> (crate::sort::key_le(
            listing_key(a),
            listing_key(b),
        ) <==> crate::sort::text_le(lower_case(a.name), lower_case(b.name))),
{
}

} // verus!
