//! Session orchestration.
//!
//! One [`SessionManager`] keeps track of every live connection in the
//! application. It enforces the configured concurrency limit, applies the
//! reconnection policy and produces an audit record for every state transition.
//!
//! The state machine is explicit so the user interface can never show a state
//! the session is not actually in:
//!
//! ```text
//! Idle -> Connecting -> Authenticating -> Connected
//!   ^                                          |
//!   |                                          v
//!   +------ Cancelled / Disconnected <- Reconnecting <- Failed
//! ```
use crate::audit::{AuditEvent, AuditEventKind, AuditEventView, AuditOutcome};
use crate::error::{fail, ErrorCode, RdtError, RdtResult};
use crate::ids::{hex_text, ProfileId, SessionId};
use crate::proto::{reconnect_defaults, Protocol, ReconnectPolicy};
use crate::sort::{key_views, positions, sorted_positions, stably_sorted, KeyView, SortKey};
use crate::text::{concat3, decimal, to_decimal};
use vstd::prelude::*;

verus! {

/// The state of one session.
#[derive(Debug, Clone, Copy, PartialEq, Eq, Structural)]
pub enum SessionState {
    /// Created but not started.
    Idle,
    /// TCP/TLS negotiation in progress.
    Connecting,
    /// Authentication in progress.
    Authenticating,
    /// Connected and interactive.
    Connected,
    /// Reconnecting after a drop.
    Reconnecting,
    /// Cleanly finished.
    Disconnected,
    /// Finished with an error.
    Failed,
    /// Stopped by the user.
    Cancelled,
}

impl SessionState {
    /// Whether the session is finished.
    pub open spec fn terminal(self) -> bool {
        self is Disconnected || self is Failed || self is Cancelled
    }

    /// True when the session can accept input.
    pub fn is_active(self) -> (r: bool)
        ensures
            r == self is Connected,
    {
        matches!(self, SessionState::Connected)
    }

    /// True when the session is finished and its resources can be released.
    pub fn is_terminal(self) -> (r: bool)
        ensures
            r == self.terminal(),
    {
        matches!(self, SessionState::Disconnected | SessionState::Failed | SessionState::Cancelled)
    }

    /// True while a connection attempt is in flight.
    pub fn is_pending(self) -> (r: bool)
        ensures
            r == (self is Connecting || self is Authenticating || self is Reconnecting),
    {
        matches!(
            self,
            SessionState::Connecting | SessionState::Authenticating | SessionState::Reconnecting
        )
    }

    /// The name of a state.
    pub open spec fn name(self) -> Seq<char> {
        match self {
            SessionState::Idle => "Idle"@,
            SessionState::Connecting => "Connecting"@,
            SessionState::Authenticating => "Authenticating"@,
            SessionState::Connected => "Connected"@,
            SessionState::Reconnecting => "Reconnecting"@,
            SessionState::Disconnected => "Disconnected"@,
            SessionState::Failed => "Failed"@,
            SessionState::Cancelled => "Cancelled"@,
        }
    }

    /// The name of the state.
    pub fn as_str(self) -> (r: &'static str)
        ensures
            r@ == self.name(),
    {
        match self {
            SessionState::Idle => "Idle",
            SessionState::Connecting => "Connecting",
            SessionState::Authenticating => "Authenticating",
            SessionState::Connected => "Connected",
            SessionState::Reconnecting => "Reconnecting",
            SessionState::Disconnected => "Disconnected",
            SessionState::Failed => "Failed",
            SessionState::Cancelled => "Cancelled",
        }
    }
}

/// A snapshot of one session, safe to hand to the user interface.
#[derive(Debug)]
pub struct SessionInfo {
    /// Session identifier.
    pub id: SessionId,
    /// Profile the session was started from, when there was one.
    pub profile: Option<ProfileId>,
    /// Protocol in use.
    pub protocol: Protocol,
    /// `host:port`.
    pub address: String,
    /// Current state.
    pub state: SessionState,
    /// Human readable description of the current state.
    pub detail: String,
    /// When the session was created, on a clock that never goes back.
    pub started: u64,
    /// Reconnect attempt in progress (0 when not reconnecting).
    pub attempt: u32,
}

/// What a snapshot says.
pub ghost struct SessionInfoView {
    /// Session identifier.
    pub id: Seq<u8>,
    /// Profile the session was started from.
    pub profile: Option<Seq<u8>>,
    /// Protocol in use.
    pub protocol: Protocol,
    /// `host:port`.
    pub address: Seq<char>,
    /// Current state.
    pub state: SessionState,
    /// Description of the current state.
    pub detail: Seq<char>,
    /// When the session was created.
    pub started: u64,
    /// Reconnect attempt in progress.
    pub attempt: u32,
}

/// An optional profile identifier.
pub open spec fn profile_option(profile: Option<ProfileId>) -> Option<Seq<u8>> {
    match profile {
        Some(id) => Some(id@),
        None => None,
    }
}

impl View for SessionInfo {
    type V = SessionInfoView;

    open spec fn view(&self) -> SessionInfoView {
        SessionInfoView {
            id: self.id@,
            profile: profile_option(self.profile),
            protocol: self.protocol,
            address: self.address@,
            state: self.state,
            detail: self.detail@,
            started: self.started,
            attempt: self.attempt,
        }
    }
}

impl Clone for SessionInfo {
    fn clone(&self) -> (r: Self)
        ensures
            r@ == self@,
    {
        SessionInfo {
            id: self.id,
            profile: self.profile,
            protocol: self.protocol,
            address: self.address.as_str().to_owned(),
            state: self.state,
            detail: self.detail.as_str().to_owned(),
            started: self.started,
            attempt: self.attempt,
        }
    }
}

/// Limits and defaults applied to every session.
#[derive(Debug, Clone, Copy, PartialEq, Eq)]
pub struct ManagerPolicy {
    /// Maximum number of concurrent sessions.
    pub max_concurrent: usize,
    /// Reconnection policy for sessions that drop unexpectedly.
    pub reconnect: ReconnectPolicy,
    /// Write an audit record for every transition.
    pub audit: bool,
}

impl Default for ManagerPolicy {
    fn default() -> (r: Self)
        ensures
            r.max_concurrent == 16,
            r.reconnect == reconnect_defaults(),
            r.audit,
    {
        ManagerPolicy { max_concurrent: 16, reconnect: ReconnectPolicy::default(), audit: true }
    }
}

/// A session with its command channel.
struct SessionSlot {
    info: SessionInfo,
    open: bool,
}

/// What is known of a session.
pub ghost struct SlotView {
    /// The snapshot.
    pub info: SessionInfoView,
    /// Whether the command channel and the cancellation token are still held.
    pub open: bool,
}

impl View for SessionSlot {
    type V = SlotView;

    closed spec fn view(&self) -> SlotView {
        SlotView { info: self.info@, open: self.open }
    }
}

/// What subscribers are told about a transition, and what goes into the audit
/// trail.
#[derive(Debug)]
pub struct Notice {
    /// The session.
    pub id: SessionId,
    /// Its new state.
    pub state: SessionState,
    /// Description of the state.
    pub detail: String,
    /// The audit record, when the policy asks for one.
    pub audit: Option<AuditEvent>,
}

/// What a notice says.
pub ghost struct NoticeView {
    /// The session.
    pub id: Seq<u8>,
    /// Its new state.
    pub state: SessionState,
    /// Description of the state.
    pub detail: Seq<char>,
    /// The audit record.
    pub audit: Option<AuditEventView>,
}

impl View for Notice {
    type V = NoticeView;

    open spec fn view(&self) -> NoticeView {
        NoticeView {
            id: self.id@,
            state: self.state,
            detail: self.detail@,
            audit: match self.audit {
                Some(event) => Some(event@),
                None => None,
            },
        }
    }
}

/// The kind of audit record for a state.
pub open spec fn audit_kind(state: SessionState) -> AuditEventKind {
    match state {
        SessionState::Connecting => AuditEventKind::SessionConnect,
        SessionState::Authenticating => AuditEventKind::AuthAttempt,
        SessionState::Connected => AuditEventKind::SessionEstablished,
        SessionState::Reconnecting => AuditEventKind::SessionReconnect,
        SessionState::Disconnected => AuditEventKind::SessionClosed,
        SessionState::Cancelled => AuditEventKind::SessionClosed,
        SessionState::Failed => AuditEventKind::SessionClosed,
        SessionState::Idle => AuditEventKind::SessionConnect,
    }
}

/// The outcome in the audit record for a state.
pub open spec fn audit_outcome(state: SessionState) -> AuditOutcome {
    match state {
        SessionState::Failed => AuditOutcome::Failure,
        SessionState::Cancelled => AuditOutcome::Denied,
        SessionState::Connected => AuditOutcome::Success,
        _ => AuditOutcome::Info,
    }
}

/// What is announced about a transition.
pub open spec fn announced(id: Seq<u8>, state: SessionState, detail: Seq<char>, audit: bool) -> NoticeView {
    NoticeView {
        id,
        state,
        detail,
        audit: if audit {
            Some(
                AuditEventView {
                    kind: audit_kind(state),
                    outcome: audit_outcome(state),
                    session: Some(hex_text(id)),
                    profile: None,
                    detail,
                },
            )
        } else {
            None
        },
    }
}

/// A session after a transition.
pub open spec fn moved(slot: SlotView, state: SessionState, detail: Seq<char>) -> SlotView {
    SlotView {
        info: SessionInfoView {
            state,
            detail,
            attempt: if state is Reconnecting {
                (slot.info.attempt + 1) as u32
            } else {
                slot.info.attempt
            },
            ..slot.info
        },
        open: slot.open && !state.terminal(),
    }
}

/// Whether a session is listed.
pub open spec fn known(sessions: Seq<SlotView>, id: Seq<u8>) -> bool {
    exists|i: int| 0 <= i < sessions.len() && (#[trigger] sessions[i]).info.id == id
}

/// Where a session is listed.
pub open spec fn position(sessions: Seq<SlotView>, id: Seq<u8>) -> int {
    choose|i: int| 0 <= i < sessions.len() && (#[trigger] sessions[i]).info.id == id
}

/// Whether no session is listed twice.
pub open spec fn distinct(sessions: Seq<SlotView>) -> bool {
    forall|i: int, j: int|
        #![trigger sessions[i], sessions[j]]
        0 <= i < j < sessions.len() ==> sessions[i].info.id != sessions[j].info.id
}

/// The sessions after a transition of one of them.
pub open spec fn transitioned(
    sessions: Seq<SlotView>,
    id: Seq<u8>,
    state: SessionState,
    detail: Seq<char>,
) -> Seq<SlotView> {
    if known(sessions, id) {
        sessions.update(
            position(sessions, id),
            moved(sessions[position(sessions, id)], state, detail),
        )
    } else {
        sessions
    }
}

/// The number of sessions that are not finished.
pub open spec fn unfinished(sessions: Seq<SlotView>) -> nat {
    remaining(sessions).len()
}

/// The sessions that are not finished, in order.
pub open spec fn remaining(sessions: Seq<SlotView>) -> Seq<SlotView>
    decreases sessions.len(),
{
    if sessions.len() == 0 {
        Seq::empty()
    } else if sessions.last().info.state.terminal() {
        remaining(sessions.drop_last())
    } else {
        remaining(sessions.drop_last()).push(sessions.last())
    }
}

/// A session as it is registered.
pub open spec fn registered(
    id: Seq<u8>,
    profile: Option<Seq<u8>>,
    protocol: Protocol,
    address: Seq<char>,
    started: u64,
) -> SlotView {
    SlotView {
        info: SessionInfoView {
            id,
            profile,
            protocol,
            address,
            state: SessionState::Connecting,
            detail: "connecting"@,
            started,
            attempt: 0,
        },
        open: true,
    }
}

/// The sessions with one more, which replaces one of the same identifier.
pub open spec fn enlisted(sessions: Seq<SlotView>, slot: SlotView) -> Seq<SlotView> {
    if known(sessions, slot.info.id) {
        sessions.update(position(sessions, slot.info.id), slot)
    } else {
        sessions.push(slot)
    }
}

/// What is said of a cancelled session.
pub open spec fn cancel_detail() -> Seq<char> {
    "cancelled by the user"@
}

/// The sessions after all of them were cancelled.
pub open spec fn all_cancelled(sessions: Seq<SlotView>) -> Seq<SlotView> {
    Seq::new(
        sessions.len(),
        |i: int| moved(sessions[i], SessionState::Cancelled, cancel_detail()),
    )
}

/// Sorting keys that put the newest session first.
pub open spec fn newest_first(sessions: Seq<SlotView>) -> Seq<KeyView> {
    Seq::new(
        sessions.len(),
        |i: int|
            KeyView {
                number: 0x7FFF_FFFF_FFFF_FFFF - sessions[i].info.started,
                major: Seq::empty(),
                minor: Seq::empty(),
            },
    )
}

/// The snapshots of sessions in a given order.
pub open spec fn arranged(sessions: Seq<SlotView>, order: Seq<int>) -> Seq<SessionInfoView> {
    Seq::new(sessions.len(), |i: int| sessions[order[i]].info)
}

/// The snapshots of sessions.
pub open spec fn snapshots(infos: Seq<SessionInfo>) -> Seq<SessionInfoView> {
    Seq::new(infos.len(), |i: int| infos[i]@)
}

/// A cancellation: whether the session is to be signalled, and what is announced.
#[derive(Debug)]
pub struct Cancellation {
    /// The cancellation token of the session is to be triggered.
    pub signal: bool,
    /// What is announced.
    pub notice: Notice,
}

/// Owns every live session.
pub struct SessionManager {
    sessions: Vec<SessionSlot>,
    policy: ManagerPolicy,
}

impl View for SessionManager {
    type V = Seq<SlotView>;

    /// The sessions in the order in which they were registered.
    closed spec fn view(&self) -> Seq<SlotView> {
        Seq::new(self.sessions@.len(), |i: int| self.sessions@[i]@)
    }
}

impl SessionManager {
    /// The limits in force.
    pub closed spec fn limits(self) -> ManagerPolicy {
        self.policy
    }

    /// Every session is listed once and the limit admits at least one.
    pub open spec fn wf(self) -> bool {
        distinct(self@) && self.limits().max_concurrent >= 1
    }

    /// Creates a manager.
    ///
    /// # Errors
    ///
    /// Returns [`ErrorCode::Config`] when the policy is inconsistent.
    pub fn new(policy: ManagerPolicy) -> (r: RdtResult<Self>)
        ensures
            r is Err <==> policy.max_concurrent == 0,
            r is Err ==> r->Err_0@ == fail(
                ErrorCode::Config,
                "at least one concurrent session must be allowed"@,
            ),
            r is Ok ==> r->Ok_0.wf() && r->Ok_0@ == Seq::<SlotView>::empty() && r->Ok_0.limits()
                == policy,
    {
        if policy.max_concurrent == 0 {
            return Err(
                RdtError::new(
                    ErrorCode::Config,
                    "at least one concurrent session must be allowed",
                ),
            );
        }
        let r = SessionManager { sessions: Vec::new(), policy };
        assert(r@ =~= Seq::<SlotView>::empty());
        Ok(r)
    }

    /// Where a session is listed.
    fn find(&self, id: SessionId) -> (r: Option<usize>)
        requires
            distinct(self@),
        ensures
            r is Some <==> known(self@, id@),
            r is Some ==> r->0 < self@.len() && r->0 == position(self@, id@) && self@[r->0 as int].info.id
                == id@,
    {
        let mut i: usize = 0;
        while i < self.sessions.len()
            invariant
                i <= self.sessions@.len(),
                distinct(self@),
                forall|k: int| 0 <= k < i ==> (#[trigger] self@[k]).info.id != id@,
            decreases self.sessions.len() - i,
        {
            assert(self@[i as int].info.id == self.sessions@[i as int].info.id@);
            if self.sessions[i].info.id.same(&id) {
                proof {
                    let p = position(self@, id@);
                    assert(self@[p].info.id == id@);
                    if p < i {
                        assert(self@[p].info.id != id@);
                    } else if i < p {
                        assert(self@[i as int].info.id != self@[p].info.id);
                    }
                }
                return Some(i);
            }
            i = i + 1;
        }
        None
    }

    /// Number of sessions that are not finished.
    pub fn active_count(&self) -> (r: usize)
        ensures
            r == unfinished(self@),
    {
        let mut count: usize = 0;
        let mut i: usize = 0;
        assert(self@.take(0) =~= Seq::<SlotView>::empty());
        while i < self.sessions.len()
            invariant
                i <= self.sessions@.len(),
                count <= i,
                count == unfinished(self@.take(i as int)),
            decreases self.sessions.len() - i,
        {
            assert(self@.take(i + 1).drop_last() =~= self@.take(i as int));
            assert(self@.take(i + 1).last() == self.sessions@[i as int]@);
            if !self.sessions[i].info.state.is_terminal() {
                count = count + 1;
            }
            i = i + 1;
        }
        assert(self@.take(self@.len() as int) =~= self@);
        count
    }

    /// Snapshots of every session, newest first.
    pub fn list(&self) -> (r: Vec<SessionInfo>)
        ensures
            exists|order: Seq<int>|
                #[trigger] stably_sorted(newest_first(self@), order) && snapshots(r@) == arranged(
                    self@,
                    order,
                ),
    {
        let mut keys: Vec<SortKey> = Vec::new();
        let mut i: usize = 0;
        while i < self.sessions.len()
            invariant
                i <= self.sessions@.len(),
                keys@.len() == i,
                forall|k: int| 0 <= k < i ==> (#[trigger] keys@[k])@ == newest_first(self@)[k],
            decreases self.sessions.len() - i,
        {
            let number = (0x7FFF_FFFF_FFFF_FFFFi128 - self.sessions[i].info.started as i128) as i64;
            let key = SortKey { number, major: String::new(), minor: String::new() };
            proof {
                assert(key@.major =~= Seq::<char>::empty());
                assert(key@.minor =~= Seq::<char>::empty());
                assert(self@[i as int].info.started == self.sessions@[i as int].info.started);
            }
            keys.push(key);
            i = i + 1;
        }
        assert(key_views(keys@) =~= newest_first(self@));
        let order = sorted_positions(&keys);
        let ghost chosen = positions(order@);
        let mut r: Vec<SessionInfo> = Vec::new();
        let mut j: usize = 0;
        while j < order.len()
            invariant
                j <= order@.len(),
                r@.len() == j,
                chosen == positions(order@),
                order@.len() == self.sessions@.len(),
                stably_sorted(newest_first(self@), chosen),
                forall|k: int| 0 <= k < j ==> (#[trigger] r@[k])@ == self@[chosen[k]].info,
            decreases order.len() - j,
        {
            assert(chosen[j as int] == order@[j as int]);
            assert(0 <= chosen[j as int] < self@.len());
            let at = order[j];
            r.push(self.sessions[at].info.clone());
            j = j + 1;
        }
        assert(snapshots(r@) =~= arranged(self@, chosen));
        r
    }

    /// Looks one session up.
    pub fn get(&self, id: SessionId) -> (r: Option<SessionInfo>)
        requires
            self.wf(),
        ensures
            r is Some <==> known(self@, id@),
            r is Some ==> r->0@ == self@[position(self@, id@)].info,
    {
        match self.find(id) {
            Some(at) => Some(self.sessions[at].info.clone()),
            None => None,
        }
    }

    /// Registers a session that has just been started.
    ///
    /// # Errors
    ///
    /// Returns [`ErrorCode::SessionState`] when the concurrency limit is
    /// reached.
    pub fn register(
        &mut self,
        id: SessionId,
        profile: Option<ProfileId>,
        protocol: Protocol,
        address: String,
        started: u64,
    ) -> (r: RdtResult<(SessionHandle, Notice)>)
        requires
            old(self).wf(),
        ensures
            final(self).wf(),
            final(self).limits() == old(self).limits(),
            r is Ok <==> unfinished(old(self)@) < old(self).limits().max_concurrent,
            r is Err ==> r->Err_0@ == fail(
                ErrorCode::SessionState,
                "the limit of "@ + decimal(old(self).limits().max_concurrent as nat)
                    + " concurrent sessions is reached"@,
            ),
            r is Err ==> final(self)@ == old(self)@,
            r is Ok ==> {
                &&& final(self)@ == enlisted(
                    old(self)@,
                    registered(id@, profile_option(profile), protocol, address@, started),
                )
                &&& r->Ok_0.0.id == id
                &&& r->Ok_0.1@ == announced(
                    id@,
                    SessionState::Connecting,
                    "connecting"@,
                    old(self).limits().audit,
                )
            },
    {
        let active = self.active_count();
        if active >= self.policy.max_concurrent {
            let message = concat3(
                "the limit of ",
                to_decimal(self.policy.max_concurrent as u64).as_str(),
                " concurrent sessions is reached",
            );
            return Err(RdtError::new(ErrorCode::SessionState, message.as_str()));
        }
        let ghost before = self@;
        let slot = SessionSlot {
            info: SessionInfo {
                id,
                profile,
                protocol,
                address,
                state: SessionState::Connecting,
                detail: "connecting".to_owned(),
                started,
                attempt: 0,
            },
            open: true,
        };
        let ghost view = slot@;
        match self.find(id) {
            Some(at) => {
                self.sessions[at] = slot;
                assert(self@ =~= before.update(at as int, view));
            },
            None => {
                self.sessions.push(slot);
                assert(self@ =~= before.push(view));
            },
        }
        proof {
            enlisting_keeps_distinct(before, view);
        }
        let notice = self.announce(id, SessionState::Connecting, "connecting");
        Ok((SessionHandle { id }, notice))
    }

    /// What is announced about a transition.
    fn announce(&self, id: SessionId, state: SessionState, detail: &str) -> (r: Notice)
        ensures
            r@ == announced(id@, state, detail@, self.limits().audit),
            r.id == id,
    {
        let audit = if self.policy.audit {
            let kind = match state {
                SessionState::Connecting => AuditEventKind::SessionConnect,
                SessionState::Authenticating => AuditEventKind::AuthAttempt,
                SessionState::Connected => AuditEventKind::SessionEstablished,
                SessionState::Reconnecting => AuditEventKind::SessionReconnect,
                SessionState::Disconnected => AuditEventKind::SessionClosed,
                SessionState::Cancelled => AuditEventKind::SessionClosed,
                SessionState::Failed => AuditEventKind::SessionClosed,
                SessionState::Idle => AuditEventKind::SessionConnect,
            };
            let outcome = match state {
                SessionState::Failed => AuditOutcome::Failure,
                SessionState::Cancelled => AuditOutcome::Denied,
                SessionState::Connected => AuditOutcome::Success,
                _ => AuditOutcome::Info,
            };
            Some(AuditEvent::new(kind, outcome, detail).with_session(id.to_string().as_str()))
        } else {
            None
        };
        Notice { id, state, detail: detail.to_owned(), audit }
    }

    /// Records a state transition and says what is broadcast and audited.
    ///
    /// The snapshot of a finished session stays in the list until it is pruned,
    /// but its command channel and cancellation token are released.
    pub fn transition(&mut self, id: SessionId, state: SessionState, detail: &str) -> (r: Notice)
        requires
            old(self).wf(),
            state is Reconnecting && known(old(self)@, id@) ==> old(self)@[position(
                old(self)@,
                id@,
            )].info.attempt < u32::MAX,
        ensures
            final(self).wf(),
            final(self).limits() == old(self).limits(),
            final(self)@ == transitioned(old(self)@, id@, state, detail@),
            r@ == announced(id@, state, detail@, old(self).limits().audit),
    {
        if let Some(at) = self.find(id) {
            self.change(at, state, detail);
        }
        self.announce(id, state, detail)
    }

    /// Changes the state of a listed session.
    fn change(&mut self, at: usize, state: SessionState, detail: &str)
        requires
            at < old(self)@.len(),
            distinct(old(self)@),
            state is Reconnecting ==> old(self)@[at as int].info.attempt < u32::MAX,
        ensures
            final(self).limits() == old(self).limits(),
            distinct(final(self)@),
            final(self)@ == old(self)@.update(
                at as int,
                moved(old(self)@[at as int], state, detail@),
            ),
    {
        let ghost before = self@;
        assert(before[at as int] == self.sessions@[at as int]@);
        self.sessions[at].info.state = state;
        self.sessions[at].info.detail = detail.to_owned();
        if matches!(state, SessionState::Reconnecting) {
            self.sessions[at].info.attempt = self.sessions[at].info.attempt + 1;
        }
        if state.is_terminal() {
            self.sessions[at].open = false;
        }
        let ghost after = moved(before[at as int], state, detail@);
        assert(self.sessions@[at as int]@ == after);
        assert(self@ =~= before.update(at as int, after));
    }

    /// Whether a command may be handed to the channel of a session; `accepted`
    /// says whether the channel still has a receiver.
    ///
    /// # Errors
    ///
    /// Returns [`ErrorCode::SessionState`] when the session is gone.
    pub fn send(&self, id: SessionId, accepted: bool) -> (r: RdtResult<()>)
        requires
            self.wf(),
        ensures
            r is Ok <==> known(self@, id@) && self@[position(self@, id@)].open && accepted,
            r is Err ==> r->Err_0@ == fail(
                ErrorCode::SessionState,
                if known(self@, id@) {
                    "the session is closed"@
                } else {
                    "no such session"@
                },
            ),
    {
        match self.find(id) {
            Some(at) => {
                assert(self@[at as int] == self.sessions@[at as int]@);
                if !self.sessions[at].open || !accepted {
                    return Err(RdtError::new(ErrorCode::SessionState, "the session is closed"));
                }
                Ok(())
            },
            None => Err(RdtError::new(ErrorCode::SessionState, "no such session")),
        }
    }

    /// Cancels a session.  Idempotent.
    pub fn cancel(&mut self, id: SessionId) -> (r: Cancellation)
        requires
            old(self).wf(),
        ensures
            final(self).wf(),
            final(self).limits() == old(self).limits(),
            final(self)@ == transitioned(
                old(self)@,
                id@,
                SessionState::Cancelled,
                cancel_detail(),
            ),
            r.signal == (known(old(self)@, id@) && old(self)@[position(old(self)@, id@)].open),
            r.notice@ == announced(
                id@,
                SessionState::Cancelled,
                cancel_detail(),
                old(self).limits().audit,
            ),
    {
        let signal = match self.find(id) {
            Some(at) => {
                assert(self@[at as int] == self.sessions@[at as int]@);
                self.sessions[at].open
            },
            None => false,
        };
        let notice = self.transition(id, SessionState::Cancelled, "cancelled by the user");
        Cancellation { signal, notice }
    }

    /// Cancels every session, used on application shutdown.
    pub fn cancel_all(&mut self) -> (r: Vec<Cancellation>)
        requires
            old(self).wf(),
        ensures
            final(self).wf(),
            final(self).limits() == old(self).limits(),
            final(self)@ == all_cancelled(old(self)@),
            r@.len() == old(self)@.len(),
            forall|i: int|
                0 <= i < r@.len() ==> {
                    &&& (#[trigger] r@[i]).signal == old(self)@[i].open
                    &&& r@[i].notice@ == announced(
                        old(self)@[i].info.id,
                        SessionState::Cancelled,
                        cancel_detail(),
                        old(self).limits().audit,
                    )
                },
    {
        let ghost before = self@;
        let mut r: Vec<Cancellation> = Vec::new();
        let mut i: usize = 0;
        while i < self.sessions.len()
            invariant
                i <= self.sessions@.len(),
                before == old(self)@,
                self.limits() == old(self).limits(),
                self@.len() == before.len(),
                distinct(self@),
                r@.len() == i,
                forall|k: int|
                    0 <= k < before.len() ==> #[trigger] self@[k] == if k < i {
                        moved(before[k], SessionState::Cancelled, cancel_detail())
                    } else {
                        before[k]
                    },
                forall|k: int|
                    0 <= k < i ==> {
                        &&& (#[trigger] r@[k]).signal == before[k].open
                        &&& r@[k].notice@ == announced(
                            before[k].info.id,
                            SessionState::Cancelled,
                            cancel_detail(),
                            old(self).limits().audit,
                        )
                    },
            decreases before.len() - i,
        {
            assert(self@[i as int] == self.sessions@[i as int]@);
            let id = self.sessions[i].info.id;
            let signal = self.sessions[i].open;
            let ghost held = self@;
            self.change(i, SessionState::Cancelled, "cancelled by the user");
            assert forall|k: int| 0 <= k < before.len() implies #[trigger] self@[k] == if k < i + 1 {
                moved(before[k], SessionState::Cancelled, cancel_detail())
            } else {
                before[k]
            } by {
                assert(held[k] == if k < i {
                    moved(before[k], SessionState::Cancelled, cancel_detail())
                } else {
                    before[k]
                });
            }
            let notice = self.announce(id, SessionState::Cancelled, "cancelled by the user");
            r.push(Cancellation { signal, notice });
            assert(self@.len() == self.sessions@.len());
            i = i + 1;
        }
        assert(self@ =~= all_cancelled(before));
        r
    }

    /// Removes finished sessions from the list and says how many there were.
    pub fn prune(&mut self) -> (r: usize)
        requires
            old(self).wf(),
        ensures
            final(self).wf(),
            final(self).limits() == old(self).limits(),
            final(self)@ == remaining(old(self)@),
            r == old(self)@.len() - remaining(old(self)@).len(),
    {
        let ghost before = self@;
        let count: usize = self.sessions.len();
        let mut kept: Vec<SessionSlot> = Vec::new();
        let mut rest: Vec<SessionSlot> = Vec::new();
        std::mem::swap(&mut rest, &mut self.sessions);
        let ghost all = rest@;
        let mut removed: usize = 0;
        let mut backward: Vec<SessionSlot> = Vec::new();
        // Turn the list round, so that it can be taken apart from the front.
        while rest.len() > 0
            invariant
                rest@ + backward@.reverse() == all,
            decreases rest.len(),
        {
            let ghost held = rest@;
            let ghost done = backward@;
            if let Some(slot) = rest.pop() {
                backward.push(slot);
                assert(backward@.reverse() =~= seq![slot] + done.reverse());
                assert(rest@ + backward@.reverse() =~= held + done.reverse());
            }
        }
        assert(backward@.reverse() =~= all);
        let ghost mut i: int = 0;
        assert(slot_views(all) =~= before);
        assert(all.take(0) =~= Seq::<SessionSlot>::empty());
        assert(slot_views(kept@) =~= remaining(slot_views(all.take(0)))) by {
            assert(slot_views(all.take(0)) =~= Seq::<SlotView>::empty());
            assert(slot_views(kept@) =~= Seq::<SlotView>::empty());
        }
        while backward.len() > 0
            invariant
                0 <= i <= all.len(),
                all.len() == count,
                backward@.len() + i == all.len(),
                forall|k: int|
                    0 <= k < backward@.len() ==> #[trigger] backward@[k] == all[all.len() - 1 - k],
                slot_views(kept@) == remaining(slot_views(all.take(i))),
                removed + kept@.len() == i,
            decreases backward.len(),
        {
            if let Some(slot) = backward.pop() {
                proof {
                    assert(slot == all[i]);
                    assert(slot_views(all.take(i + 1)).drop_last() =~= slot_views(all.take(i)));
                    assert(slot_views(all.take(i + 1)).last() == slot@);
                    i = i + 1;
                }
                if slot.info.state.is_terminal() {
                    removed = removed + 1;
                } else {
                    let ghost held = kept@;
                    let ghost view = slot@;
                    kept.push(slot);
                    assert(slot_views(kept@) =~= slot_views(held).push(view));
                }
            }
        }
        assert(all.take(all.len() as int) =~= all);
        self.sessions = kept;
        proof {
            assert(self@ =~= slot_views(kept@));
            remaining_is_distinct(before);
            assert(slot_views(kept@).len() == kept@.len());
        }
        removed
    }

    /// The delay in seconds before the next reconnect attempt, when a retry is
    /// due.
    pub fn next_retry_delay(&self, attempt: u32) -> (r: Option<u64>)
        ensures
            r is Some <==> self.limits().reconnect.tries(attempt as nat),
            r is Some ==> r->0 == self.limits().reconnect.delay(attempt as nat),
    {
        self.policy.reconnect.delay_for(attempt)
    }
}

/// The sessions of a run of slots.
spec fn slot_views(slots: Seq<SessionSlot>) -> Seq<SlotView> {
    Seq::new(slots.len(), |i: int| slots[i]@)
}

proof fn enlisting_keeps_distinct(sessions: Seq<SlotView>, slot: SlotView)
    requires
        distinct(sessions),
    ensures
        distinct(enlisted(sessions, slot)),
{
    let id = slot.info.id;
    let after = enlisted(sessions, slot);
    if known(sessions, id) {
        let p = position(sessions, id);
        assert(sessions[p].info.id == id);
        assert forall|i: int, j: int|
            #![trigger after[i], after[j]]
            0 <= i < j < after.len() implies after[i].info.id != after[j].info.id by {
            assert(sessions[i].info.id != sessions[j].info.id);
        }
    } else {
        assert forall|i: int, j: int|
            #![trigger after[i], after[j]]
            0 <= i < j < after.len() implies after[i].info.id != after[j].info.id by {
            if j == sessions.len() {
                assert(sessions[i].info.id != id);
            } else {
                assert(sessions[i].info.id != sessions[j].info.id);
            }
        }
    }
}

/// Whether every session of one list is in another.
spec fn included(part: Seq<SlotView>, whole: Seq<SlotView>) -> bool {
    forall|i: int| 0 <= i < part.len() ==> whole.contains(#[trigger] part[i])
}

proof fn remaining_is_distinct(sessions: Seq<SlotView>)
    requires
        distinct(sessions),
    ensures
        distinct(remaining(sessions)),
        included(remaining(sessions), sessions),
        remaining(sessions).len() <= sessions.len(),
        forall|i: int|
            0 <= i < remaining(sessions).len() ==> !(#[trigger] remaining(
                sessions,
            )[i]).info.state.terminal(),
    decreases sessions.len(),
{
    if sessions.len() > 0 {
        let front = sessions.drop_last();
        assert(distinct(front)) by {
            assert forall|i: int, j: int|
                #![trigger front[i], front[j]]
                0 <= i < j < front.len() implies front[i].info.id != front[j].info.id by {
                assert(sessions[i].info.id != sessions[j].info.id);
            }
        }
        remaining_is_distinct(front);
        let kept = remaining(front);
        let after = remaining(sessions);
        assert forall|i: int| 0 <= i < after.len() implies sessions.contains(#[trigger] after[i]) by {
            if i < kept.len() {
                assert(after[i] == kept[i]);
                let k = front.index_of(kept[i]);
                assert(front.contains(kept[i]));
                assert(sessions[k] == after[i]);
            } else {
                assert(sessions[sessions.len() - 1] == after[i]);
            }
        }
        assert forall|i: int, j: int|
            #![trigger after[i], after[j]]
            0 <= i < j < after.len() implies after[i].info.id != after[j].info.id by {
            if j < kept.len() {
                assert(kept[i].info.id != kept[j].info.id);
            } else {
                assert(front.contains(kept[i]));
                let k = front.index_of(kept[i]);
                assert(sessions[k].info.id != sessions[sessions.len() - 1].info.id);
            }
        }
    }
}

/// A handle on one session.
#[derive(Debug, Clone, Copy)]
pub struct SessionHandle {
    /// The session this handle controls.
    pub id: SessionId,
}

impl SessionHandle {
    /// The outcome of handing a command to the channel of the session.
    ///
    /// # Errors
    ///
    /// Returns [`ErrorCode::SessionState`] when the session ended.
    pub fn send(&self, accepted: bool) -> (r: RdtResult<()>)
        ensures
            r is Ok <==> accepted,
            r is Err ==> r->Err_0@ == fail(ErrorCode::SessionState, "the session is closed"@),
    {
        if !accepted {
            return Err(RdtError::new(ErrorCode::SessionState, "the session is closed"));
        }
        Ok(())
    }

    /// The command that disconnects the session.
    pub fn disconnect(&self) -> (r: SessionCommand)
        ensures
            r is Disconnect,
    {
        SessionCommand::Disconnect
    }
}

/// Commands the user interface can send to one session.
#[derive(Debug, Clone)]
pub enum SessionCommand {
    /// Terminal input for an SSH session.
    TerminalInput(Vec<u8>),
    /// New terminal geometry.
    Resize {
        /// Columns.
        cols: u32,
        /// Rows.
        rows: u32,
    },
    /// Pointer or keyboard input for an RDP session.
    RemoteInput(Vec<u8>),
    /// Text to place on the remote clipboard.
    Clipboard(String),
    /// Start an SFTP listing of a path.
    ListDirectory(String),
    /// Upload a local file.
    Upload {
        /// Local path.
        local: String,
        /// Remote path.
        remote: String,
    },
    /// Download a remote file.
    Download {
        /// Remote path.
        remote: String,
        /// Local path.
        local: String,
    },
    /// Cancel the transfer in progress.
    CancelTransfer,
    /// End the session.
    Disconnect,
}

/// Events a session reports to the user interface.
#[derive(Debug, Clone)]
pub enum SessionEvent {
    /// Terminal output.
    Output(Vec<u8>),
    /// A new frame for the RDP view.
    Frame,
    /// A transfer made progress.
    TransferProgress {
        /// Remote path.
        path: String,
        /// Bytes transferred.
        transferred: u64,
        /// Total bytes, when known.
        total: Option<u64>,
    },
    /// A transfer finished.
    TransferComplete {
        /// Remote path.
        path: String,
        /// Bytes transferred.
        bytes: u64,
    },
    /// A transfer failed.
    TransferFailed {
        /// Remote path.
        path: String,
        /// Reason.
        reason: String,
    },
    /// A remote directory listing.
    Directory {
        /// Listed path.
        path: String,
        /// Entry names with a directory flag.
        entries: Vec<(String, bool, Option<u64>)>,
    },
    /// The session needs a password or OTP.
    CredentialNeeded {
        /// Text shown next to the prompt.
        prompt: String,
        /// Whether the answer may be echoed.
        echo: bool,
    },
    /// The session ended.
    Closed(String),
}

/// The number of unfinished sessions never passes the limit by registering.
pub proof fn registering_respects_the_limit(sessions: Seq<SlotView>, slot: SlotView, limit: nat)
    requires
        distinct(sessions),
        unfinished(sessions) < limit,
        !slot.info.state.terminal(),
    ensures
        unfinished(enlisted(sessions, slot)) <= limit,
{
    if known(sessions, slot.info.id) {
        let p = position(sessions, slot.info.id);
        assert(sessions[p].info.id == slot.info.id);
        one_change_counts_once(sessions, p, slot);
    } else {
        assert(enlisted(sessions, slot).drop_last() =~= sessions);
    }
}

proof fn one_change_counts_once(sessions: Seq<SlotView>, at: int, slot: SlotView)
    requires
        0 <= at < sessions.len(),
    ensures
        unfinished(sessions.update(at, slot)) == unfinished(sessions) + (if slot.info.state.terminal() {
            0int
        } else {
            1
        }) - (if sessions[at].info.state.terminal() {
            0int
        } else {
            1
        }),
    decreases sessions.len(),
{
    let after = sessions.update(at, slot);
    if at == sessions.len() - 1 {
        assert(after.drop_last() =~= sessions.drop_last());
    } else {
        one_change_counts_once(sessions.drop_last(), at, slot);
        assert(after.drop_last() =~= sessions.drop_last().update(at, slot));
    }
}

/// A transition touches no other session.
pub proof fn transitions_touch_one_session(
    sessions: Seq<SlotView>,
    id: Seq<u8>,
    state: SessionState,
    detail: Seq<char>,
    i: int,
)
    requires
        0 <= i < sessions.len(),
        sessions[i].info.id != id,
    ensures
        transitioned(sessions, id, state, detail).len() == sessions.len(),
        transitioned(sessions, id, state, detail)[i] == sessions[i],
{
    if known(sessions, id) {
        let p = position(sessions, id);
        assert(sessions[p].info.id == id);
    }
}

/// Cancelling a session twice does what cancelling it once does, and a cancelled
/// session accepts no command.
pub proof fn cancelling_is_idempotent(sessions: Seq<SlotView>, id: Seq<u8>)
    requires
        distinct(sessions),
    ensures
        ({
            let once = transitioned(sessions, id, SessionState::Cancelled, cancel_detail());
            &&& transitioned(once, id, SessionState::Cancelled, cancel_detail()) == once
            &&& known(sessions, id) ==> known(once, id) && {
                let slot = once[position(once, id)];
                slot.info.state is Cancelled && !slot.open
            }
        }),
{
    let once = transitioned(sessions, id, SessionState::Cancelled, cancel_detail());
    let twice = transitioned(once, id, SessionState::Cancelled, cancel_detail());
    if known(sessions, id) {
        let p = position(sessions, id);
        assert(sessions[p].info.id == id);
        assert(once[p].info.id == id);
        let q = position(once, id);
        assert(once[q].info.id == id);
        if q < p {
            assert(sessions[q].info.id != sessions[p].info.id);
        } else if p < q {
            assert(sessions[p].info.id != sessions[q].info.id);
        }
        assert(twice =~= once);
    } else {
        assert(once =~= sessions);
    }
}

/// After all sessions are cancelled none is active, none accepts a command, and
/// pruning empties the list.
pub proof fn cancelling_all_leaves_none(sessions: Seq<SlotView>)
    ensures
        unfinished(all_cancelled(sessions)) == 0,
        remaining(all_cancelled(sessions)) == Seq::<SlotView>::empty(),
        forall|i: int|
            0 <= i < sessions.len() ==> !(#[trigger] all_cancelled(sessions)[i]).open,
    decreases sessions.len(),
{
    if sessions.len() > 0 {
        cancelling_all_leaves_none(sessions.drop_last());
        assert(all_cancelled(sessions).drop_last() =~= all_cancelled(sessions.drop_last()));
    }
}

/// Pruning keeps exactly the unfinished sessions and does not change their
/// number.
pub proof fn pruning_keeps_the_unfinished(sessions: Seq<SlotView>, i: int)
    requires
        distinct(sessions),
        0 <= i < sessions.len(),
    ensures
        remaining(sessions).contains(sessions[i]) <==> !sessions[i].info.state.terminal(),
        unfinished(remaining(sessions)) == unfinished(sessions),
{
    remaining_is_distinct(sessions);
    unfinished_stay(remaining(sessions));
    if !sessions[i].info.state.terminal() {
        unfinished_are_kept(sessions, i);
    }
    if remaining(sessions).contains(sessions[i]) {
        let k = remaining(sessions).index_of(sessions[i]);
        assert(!remaining(sessions)[k].info.state.terminal());
    }
}

proof fn unfinished_stay(sessions: Seq<SlotView>)
    requires
        forall|i: int|
            0 <= i < sessions.len() ==> !(#[trigger] sessions[i]).info.state.terminal(),
    ensures
        remaining(sessions) == sessions,
    decreases sessions.len(),
{
    if sessions.len() > 0 {
        let front = sessions.drop_last();
        assert forall|i: int| 0 <= i < front.len() implies !(#[trigger] front[i]).info.state.terminal() by {
            assert(front[i] == sessions[i]);
        }
        unfinished_stay(front);
        assert(remaining(sessions) =~= sessions);
    } else {
        assert(remaining(sessions) =~= sessions);
    }
}

proof fn unfinished_are_kept(sessions: Seq<SlotView>, i: int)
    requires
        0 <= i < sessions.len(),
        !sessions[i].info.state.terminal(),
    ensures
        remaining(sessions).contains(sessions[i]),
    decreases sessions.len(),
{
    let kept = remaining(sessions.drop_last());
    if i == sessions.len() - 1 {
        assert(remaining(sessions)[kept.len() as int] == sessions[i]);
    } else {
        unfinished_are_kept(sessions.drop_last(), i);
        let k = kept.index_of(sessions[i]);
        assert(remaining(sessions)[k] == sessions[i]);
    }
}

/// A transition gives the session the new state and its reason, counts a reconnection,
/// closes the channel of a session that has ended, and changes nothing else of it.
pub proof fn transitions_change_the_state(
    sessions: Seq<SlotView>,
    id: Seq<u8>,
    state: SessionState,
    detail: Seq<char>,
    i: int,
)
    requires
        distinct(sessions),
        0 <= i < sessions.len(),
        sessions[i].info.id == id,
        sessions[i].info.attempt < u32::MAX,
    ensures
        ({
            let before = sessions[i];
            let after = transitioned(sessions, id, state, detail)[i];
            &&& after.info.state == state
            &&& after.info.detail == detail
            &&& after.info.attempt == before.info.attempt + if state == SessionState::Reconnecting {
                1int
            } else {
                0
            }
            &&& after.open <==> before.open && state != SessionState::Disconnected && state
                != SessionState::Failed && state != SessionState::Cancelled
            &&& after.info.id == before.info.id
            &&& after.info.profile == before.info.profile
            &&& after.info.protocol == before.info.protocol
            &&& after.info.address == before.info.address
            &&& after.info.started == before.info.started
        }),
{
    let at = position(sessions, id);
    assert(0 <= at < sessions.len() && sessions[at].info.id == id);
    if at < i {
        assert(sessions[at].info.id != sessions[i].info.id);
    } else if i < at {
        assert(sessions[i].info.id != sessions[at].info.id);
    }
}

/// A transition of a session that is not known changes nothing.
pub proof fn unknown_sessions_change_nothing(
    sessions: Seq<SlotView>,
    id: Seq<u8>,
    state: SessionState,
    detail: Seq<char>,
)
    requires
        forall|i: int| 0 <= i < sessions.len() ==> (#[trigger] sessions[i]).info.id != id,
    ensures
        transitioned(sessions, id, state, detail) == sessions,
        !known(sessions, id),
{
}

/// A session is over when it is disconnected, has failed or was cancelled, and not
/// before.
pub proof fn ended_states(state: SessionState)
    ensures
        state.terminal() <==> state == SessionState::Disconnected || state == SessionState::Failed
            || state == SessionState::Cancelled,
{
}

/// A new session is connecting, is open and has not been tried again; it is listed
/// after the others.
pub proof fn new_sessions_connect(
    sessions: Seq<SlotView>,
    id: Seq<u8>,
    profile: Option<Seq<u8>>,
    protocol: Protocol,
    address: Seq<char>,
    started: u64,
)
    ensures
        ({
            let slot = registered(id, profile, protocol, address, started);
            &&& slot.open
            &&& slot.info.state == SessionState::Connecting
            &&& slot.info.attempt == 0
            &&& slot.info.id == id
            &&& slot.info.profile == profile
            &&& slot.info.protocol == protocol
            &&& slot.info.address == address
            &&& slot.info.started == started
            &&& !known(sessions, id) ==> enlisted(sessions, slot) == sessions.push(slot)
        }),
{
}

/// Of two listed sessions the one that started later comes first.
pub proof fn newer_sessions_come_first(sessions: Seq<SlotView>, i: int, j: int)
    requires
        0 <= i < sessions.len(),
        0 <= j < sessions.len(),
        sessions[i].info.started > sessions[j].info.started,
    ensures
        crate::sort::key_le(newest_first(sessions)[i], newest_first(sessions)[j]),
        !crate::sort::key_le(newest_first(sessions)[j], newest_first(sessions)[i]),
{
}

/// What is written to the audit trail for each state.
pub proof fn states_are_audited()
    ensures
        audit_kind(SessionState::Connecting) == AuditEventKind::SessionConnect,
        audit_kind(SessionState::Authenticating) == AuditEventKind::AuthAttempt,
        audit_kind(SessionState::Connected) == AuditEventKind::SessionEstablished,
        audit_kind(SessionState::Reconnecting) == AuditEventKind::SessionReconnect,
        audit_kind(SessionState::Disconnected) == AuditEventKind::SessionClosed,
        audit_kind(SessionState::Cancelled) == AuditEventKind::SessionClosed,
        audit_kind(SessionState::Failed) == AuditEventKind::SessionClosed,
        audit_outcome(SessionState::Connected) == AuditOutcome::Success,
        audit_outcome(SessionState::Failed) == AuditOutcome::Failure,
        audit_outcome(SessionState::Cancelled) == AuditOutcome::Denied,
        audit_outcome(SessionState::Connecting) == AuditOutcome::Info,
        audit_outcome(SessionState::Authenticating) == AuditOutcome::Info,
        audit_outcome(SessionState::Reconnecting) == AuditOutcome::Info,
        audit_outcome(SessionState::Disconnected) == AuditOutcome::Info,
{
}

/// A notice says which session is in which state and why, and carries a record for the
/// audit trail when one is kept.
pub proof fn notices_name_the_session(id: Seq<u8>, state: SessionState, detail: Seq<char>)
    ensures
        announced(id, state, detail, true).id == id,
        announced(id, state, detail, true).state == state,
        announced(id, state, detail, true).detail == detail,
        announced(id, state, detail, true).audit is Some,
        announced(id, state, detail, true).audit->0.session == Some(hex_text(id)),
        announced(id, state, detail, true).audit->0.detail == detail,
        announced(id, state, detail, true).audit->0.kind == audit_kind(state),
        announced(id, state, detail, true).audit->0.outcome == audit_outcome(state),
        announced(id, state, detail, false).audit is None,
        announced(id, state, detail, false).id == id,
        announced(id, state, detail, false).state == state,
{
}

} // verus!
