//! The session manager and its handles.
use rdt::audit::{AuditEventKind, AuditOutcome};
use rdt::error::ErrorCode;
use rdt::ids::SessionId;
use rdt::proto::{Protocol, ReconnectPolicy};
use rdt::session::{ManagerPolicy, SessionCommand, SessionHandle, SessionManager, SessionState};

fn manager() -> SessionManager {
    SessionManager::new(ManagerPolicy::default()).expect("manager")
}

fn register(manager: &mut SessionManager, address: &str, started: u64) -> SessionId {
    let id = SessionId::new();
    manager
        .register(id, None, Protocol::Ssh, address.to_owned(), started)
        .expect("register");
    id
}

#[test]
fn states_classify_correctly() {
    assert!(SessionState::Connected.is_active());
    assert!(SessionState::Disconnected.is_terminal());
    assert!(SessionState::Reconnecting.is_pending());
    assert!(!SessionState::Idle.is_active());
}

#[test]
fn registering_a_session_starts_it_connecting() {
    let mut manager = manager();
    let id = register(&mut manager, "host:22", 1);
    let info = manager.get(id).expect("info");
    assert_eq!(info.state, SessionState::Connecting);
    assert_eq!(info.address, "host:22");
    assert_eq!(manager.active_count(), 1);
}

#[test]
fn the_concurrency_limit_is_enforced() {
    let policy = ManagerPolicy { max_concurrent: 2, ..ManagerPolicy::default() };
    let mut manager = SessionManager::new(policy).expect("manager");
    for _ in 0..2 {
        register(&mut manager, "h:22", 1);
    }
    let error = manager
        .register(SessionId::new(), None, Protocol::Ssh, "h:22".to_owned(), 2)
        .expect_err("must be refused");
    assert_eq!(error.code(), ErrorCode::SessionState);
    assert_eq!(error.message(), "the limit of 2 concurrent sessions is reached");
}

#[test]
fn a_zero_limit_is_refused() {
    let policy = ManagerPolicy { max_concurrent: 0, ..ManagerPolicy::default() };
    let error = SessionManager::new(policy).err().expect("must fail");
    assert_eq!(error.code(), ErrorCode::Config);
}

#[test]
fn transitions_are_broadcast() {
    let mut manager = manager();
    let id = SessionId::new();
    manager
        .register(id, None, Protocol::Rdp, "host:3389".to_owned(), 1)
        .expect("register");
    let notice = manager.transition(id, SessionState::Connected, "shell ready");
    assert_eq!(notice.id, id);
    assert_eq!(notice.state, SessionState::Connected);
    assert_eq!(notice.detail, "shell ready");
    let audit = notice.audit.expect("audited by default");
    assert_eq!(audit.kind, AuditEventKind::SessionEstablished);
    assert_eq!(audit.outcome, AuditOutcome::Success);
    assert_eq!(audit.session, Some(id.to_string()));
    assert!(manager.get(id).expect("info").state.is_active());
}

#[test]
fn cancelling_marks_the_session_and_releases_it() {
    let mut manager = manager();
    let id = register(&mut manager, "h:22", 1);
    let cancellation = manager.cancel(id);
    assert!(cancellation.signal);
    assert_eq!(manager.get(id).expect("info").state, SessionState::Cancelled);
    assert_eq!(manager.active_count(), 0);
    assert_eq!(manager.prune(), 1);
    assert!(manager.get(id).is_none());
}

#[test]
fn cancelling_again_changes_nothing() {
    let mut manager = manager();
    let id = register(&mut manager, "h:22", 1);
    manager.cancel(id);
    let again = manager.cancel(id);
    assert!(!again.signal);
    assert_eq!(again.notice.audit.expect("audited").outcome, AuditOutcome::Denied);
    assert_eq!(manager.list().len(), 1);
    let unknown = manager.cancel(SessionId::new());
    assert!(!unknown.signal);
    assert_eq!(manager.list().len(), 1);
}

#[test]
fn sending_to_an_unknown_session_fails() {
    let manager = manager();
    let error = manager.send(SessionId::new(), true).expect_err("must fail");
    assert_eq!(error.code(), ErrorCode::SessionState);
}

#[test]
fn finished_sessions_accept_no_commands() {
    let mut manager = manager();
    let id = register(&mut manager, "h:22", 1);
    assert!(manager.send(id, true).is_ok());
    assert!(manager.send(id, false).is_err());
    manager.transition(id, SessionState::Failed, "dropped");
    assert_eq!(manager.send(id, true).expect_err("closed").message(), "the session is closed");
}

#[test]
fn reconnect_delays_follow_the_policy() {
    let manager = manager();
    let first = manager.next_retry_delay(1).expect("delay");
    let second = manager.next_retry_delay(2).expect("delay");
    assert!(first > 0);
    assert!(second >= first, "{second:?} should not shrink below {first:?}");
    let disabled = SessionManager::new(ManagerPolicy {
        reconnect: ReconnectPolicy { enabled: false, ..ReconnectPolicy::default() },
        ..ManagerPolicy::default()
    })
    .expect("manager");
    assert!(disabled.next_retry_delay(1).is_none());
}

#[test]
fn cancel_all_empties_the_manager() {
    let mut manager = manager();
    for started in 0..3 {
        register(&mut manager, "h:22", started);
    }
    assert_eq!(manager.list().len(), 3);
    assert_eq!(manager.cancel_all().len(), 3);
    assert_eq!(manager.active_count(), 0);
    assert_eq!(manager.prune(), 3);
}

#[test]
fn the_newest_session_is_listed_first() {
    let mut manager = manager();
    register(&mut manager, "old:22", 10);
    register(&mut manager, "new:22", 30);
    register(&mut manager, "middle:22", 20);
    let addresses: Vec<String> = manager.list().into_iter().map(|info| info.address).collect();
    assert_eq!(addresses, vec!["new:22", "middle:22", "old:22"]);
}

#[test]
fn reconnecting_counts_attempts() {
    let mut manager = manager();
    let id = register(&mut manager, "h:22", 1);
    manager.transition(id, SessionState::Reconnecting, "retry");
    manager.transition(id, SessionState::Reconnecting, "retry");
    assert_eq!(manager.get(id).expect("info").attempt, 2);
}

#[test]
fn auditing_can_be_switched_off() {
    let policy = ManagerPolicy { audit: false, ..ManagerPolicy::default() };
    let mut manager = SessionManager::new(policy).expect("manager");
    let notice = manager.transition(SessionId::new(), SessionState::Failed, "gone");
    assert!(notice.audit.is_none());
}

#[test]
fn a_handle_reports_a_closed_session() {
    let handle = SessionHandle { id: SessionId::new() };
    let error = handle.send(false).expect_err("must fail");
    assert_eq!(error.code(), ErrorCode::SessionState);
    assert!(handle.send(true).is_ok());
    assert!(matches!(handle.disconnect(), SessionCommand::Disconnect));
}
