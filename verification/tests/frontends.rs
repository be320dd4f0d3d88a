//! The agent, the command line and the desktop interface.
use rdt::agent::{
    listen_failed, verify_peer, Agent, Command, Handled, ListenStage, Reply,
};
use rdt::audit::AuditEventKind;
use rdt::cli::{
    config_action, connect, describe_dependency, describe_profile, doctor_verdict, fill,
    load_failure, parse, require_terminal, service_action, vault_action, ConfigAction, Invocation,
    ServiceAction, VaultAction, HELP,
};
use rdt::deps::{report, DependencyId, DependencyStatus, DependencySuite};
use rdt::error::{ErrorCode, RdtError};
use rdt::grid::Color;
use rdt::ids::{ProfileId, SessionId};
use rdt::profile::ConnectionProfile;
use rdt::proto::{CertPolicy, HostKeyPolicy, Protocol, VERSION};
use rdt::session::{ManagerPolicy, SessionCommand, SessionManager, SessionState};
use rdt::settings::{Settings, Theme};
use rdt::store::{ConfigStore, LoadError, SortOrder};
use rdt::ui::{
    apply_settings, cell_color, create_profile, delete_profile, dependency_icon,
    describe_certificates, describe_host_keys, initial_size, pointer_input, profile_details,
    profiles_of, quick_connects, save_status, security_line, session_row, shown_session,
    worker_step, App, AppState, CellColor, Page, Palette, Rgb, UiCommand, WorkerStep,
};

fn agent() -> Agent {
    let sessions = SessionManager::new(ManagerPolicy::default()).expect("manager");
    Agent::new(ConfigStore::in_memory(), sessions, "/tmp/rdt-agent-test.sock".to_owned())
}

fn answer(handled: Handled) -> Reply {
    match handled {
        Handled::Answer(reply) => reply,
        other => panic!("unexpected {other:?}"),
    }
}

#[test]
fn status_reports_the_version_and_platform() {
    let reply = answer(agent().handle(Command::Status, "linux x86_64").expect("status"));
    assert!(reply.ok);
    assert!(reply.message.contains(VERSION));
    assert!(reply.message.contains("linux x86_64"));
}

#[test]
fn listing_sessions_returns_json() {
    let reply = answer(agent().handle(Command::ListSessions, "").expect("list"));
    assert!(reply.ok);
    assert_eq!(reply.message, "[]");
}

#[test]
fn listed_sessions_are_json_objects() {
    let mut sessions = SessionManager::new(ManagerPolicy::default()).expect("manager");
    let id = SessionId::from_bytes([1; 8]);
    sessions
        .register(id, None, Protocol::Ssh, "a\"b:22".to_owned(), 1)
        .expect("register");
    let mut agent = Agent::new(ConfigStore::in_memory(), sessions, "/tmp/a.sock".to_owned());
    let reply = answer(agent.handle(Command::ListSessions, "").expect("list"));
    assert_eq!(
        reply.message,
        "[{\"address\":\"a\\\"b:22\",\"id\":\"0101010101010101\",\"protocol\":\"Ssh\",\"state\":\"Connecting\"}]"
    );
    let handled = agent
        .handle(Command::Disconnect { session: id.to_string() }, "")
        .expect("disconnect");
    match handled {
        Handled::Cancel(reply, cancellation) => {
            assert_eq!(reply.message, "the session was disconnected");
            assert!(cancellation.signal);
        },
        other => panic!("unexpected {other:?}"),
    }
    assert_eq!(agent.sessions().active_count(), 0);
    assert_eq!(agent.socket(), "/tmp/a.sock");
}

#[test]
fn connecting_to_an_unknown_profile_fails() {
    let error = agent()
        .handle(Command::Connect { profile: ProfileId::new().to_string() }, "")
        .expect_err("must fail");
    assert_eq!(error.code(), ErrorCode::NotFound);
}

#[test]
fn malformed_identifiers_are_rejected() {
    let error = agent()
        .handle(Command::Connect { profile: "not-an-id".to_owned() }, "")
        .expect_err("must fail");
    assert_eq!(error.code(), ErrorCode::InvalidInput);
}

#[test]
fn replies_carry_the_error_code() {
    let error = RdtError::new(ErrorCode::Permission, "denied");
    let reply = Reply::failure(&error);
    assert!(!reply.ok);
    assert_eq!(reply.code.as_deref(), Some("permission"));
    assert!(reply.message.contains("denied"));
}

#[test]
fn connecting_is_audited() {
    let mut config = ConfigStore::in_memory();
    let id = config
        .add(ConnectionProfile::new("build", "build.example.com", 22, Protocol::Ssh))
        .expect("add");
    let sessions = SessionManager::new(ManagerPolicy::default()).expect("manager");
    let mut agent = Agent::new(config, sessions, "/tmp/a.sock".to_owned());
    match agent.handle(Command::Connect { profile: id.to_string() }, "").expect("connect") {
        Handled::Connect(reply, event) => {
            assert_eq!(reply.message, "connecting to build.example.com:22");
            assert_eq!(event.kind, AuditEventKind::SessionConnect);
            assert_eq!(event.profile, Some(id.to_string()));
            assert_eq!(event.detail, "build.example.com:22");
        },
        other => panic!("unexpected {other:?}"),
    }
    assert!(matches!(agent.handle(Command::ReloadConfig, "").expect("reload"), Handled::Reload));
    let reply = agent.reload(Ok(ConfigStore::in_memory())).expect("reloaded");
    assert_eq!(reply.message, "the configuration was reloaded");
    assert!(agent.config().profiles(SortOrder::Name).is_empty());
    let error = agent.reload(Err(LoadError::Missing)).expect_err("missing");
    assert_eq!(error.message(), "the configuration file is missing");
}

#[test]
fn only_the_owner_may_command_the_agent() {
    assert!(verify_peer(true, Some(1000), 1000).is_ok());
    assert!(verify_peer(false, None, 1000).is_ok());
    let error = verify_peer(true, Some(0), 1000).expect_err("foreign");
    assert_eq!(error.code(), ErrorCode::Permission);
    assert_eq!(
        error.message(),
        "the control connection came from uid 0 but the agent runs as 1000"
    );
    assert!(verify_peer(true, None, 1000).is_err());
    let error = listen_failed(ListenStage::Bind, "in use", "/tmp/a.sock");
    assert_eq!(error.message(), "cannot bind /tmp/a.sock: in use");
    let reply = Reply::not_a_command("expected value");
    assert_eq!(reply.code.as_deref(), Some("invalid_input"));
    assert_eq!(reply.message, "cannot parse the command: expected value");
}

fn args(list: &[&str]) -> Vec<String> {
    list.iter().map(|value| (*value).to_owned()).collect()
}

#[test]
fn no_arguments_starts_the_gui() {
    assert_eq!(parse(&args(&[])).expect("parse"), Invocation::Gui);
}

#[test]
fn every_documented_subcommand_is_recognised() {
    assert_eq!(parse(&args(&["version"])).expect("parse"), Invocation::Version);
    assert_eq!(parse(&args(&["help"])).expect("parse"), Invocation::Help);
    assert_eq!(parse(&args(&["doctor"])).expect("parse"), Invocation::Doctor);
    assert_eq!(parse(&args(&["profiles"])).expect("parse"), Invocation::Profiles);
    assert_eq!(parse(&args(&["agent"])).expect("parse"), Invocation::Agent);
    assert_eq!(
        parse(&args(&["ssh", "build"])).expect("parse"),
        Invocation::Ssh("build".to_owned())
    );
    assert_eq!(
        parse(&args(&["rdp", "windows"])).expect("parse"),
        Invocation::Rdp("windows".to_owned())
    );
    assert_eq!(
        parse(&args(&["service", "status"])).expect("parse"),
        Invocation::Service("status".to_owned())
    );
    assert_eq!(
        parse(&args(&["vault", "list"])).expect("parse"),
        Invocation::Vault("list".to_owned())
    );
    assert_eq!(
        parse(&args(&["config"])).expect("parse"),
        Invocation::Config("show".to_owned())
    );
}

#[test]
fn missing_arguments_are_reported() {
    let error = parse(&args(&["ssh"])).expect_err("must fail");
    assert_eq!(error.code(), ErrorCode::InvalidInput);
    assert!(error.to_string().contains("usage"));
}

#[test]
fn unknown_commands_are_refused() {
    let error = parse(&args(&["teleport"])).expect_err("must fail");
    assert!(error.to_string().contains("rdt help"));
    assert_eq!(error.message(), "unknown command \"teleport\"; run `rdt help`");
}

#[test]
fn unknown_service_actions_are_refused() {
    let error = parse(&args(&["service", "reboot"])).expect_err("must fail");
    assert_eq!(error.code(), ErrorCode::InvalidInput);
}

#[test]
fn the_help_text_documents_every_command() {
    for command in [
        "ssh", "rdp", "profiles", "doctor", "service", "agent", "vault", "config", "version",
        "help",
    ] {
        assert!(HELP.contains(command), "{command} is not documented");
    }
}

#[test]
fn subcommand_actions_are_read() {
    assert_eq!(config_action("path").expect("path"), ConfigAction::Path);
    assert_eq!(config_action("show").expect("show"), ConfigAction::Show);
    assert_eq!(
        config_action("edit").expect_err("unknown").message(),
        "unknown config action \"edit\""
    );
    assert_eq!(service_action("install").expect("install"), ServiceAction::Install);
    assert!(service_action("reboot").is_err());
    assert_eq!(vault_action("list").expect("list"), VaultAction::List);
    assert!(matches!(vault_action("lock").expect("lock"), VaultAction::Remark(_)));
    assert!(vault_action("burn").is_err());
    assert!(require_terminal(true).is_ok());
    assert_eq!(require_terminal(false).expect_err("refused").code(), ErrorCode::Platform);
    assert_eq!(load_failure(LoadError::Missing).message(), "no configuration file yet");
}

#[test]
fn command_line_listings_are_aligned() {
    assert_eq!(fill("ab", 4), "ab  ");
    assert_eq!(fill("abcde", 4), "abcde");
    let missing = report(DependencyId::KnownHosts, DependencyStatus::Missing, "gone", false);
    assert_eq!(describe_dependency(&missing), "missing  known-hosts — gone");
    assert_eq!(dependency_icon(&missing), "❌");
    let suite = DependencySuite { reports: vec![missing], ready: false };
    assert!(!doctor_verdict(&suite).0);
    let mut profile = ConnectionProfile::new("build", "h", 22, Protocol::Ssh);
    profile.id = ProfileId::from_bytes([0; 8]);
    assert_eq!(
        describe_profile(&profile),
        "0000000000000000  build                    ssh    h:22"
    );
}

#[test]
fn connecting_by_name_checks_the_protocol() {
    let mut store = ConfigStore::in_memory();
    store.add(ConnectionProfile::new("build", "h", 22, Protocol::Ssh)).expect("add");
    assert_eq!(
        connect(&store, "Build", Protocol::Ssh).expect("found"),
        "connecting to h:22 (ssh)"
    );
    assert_eq!(
        connect(&store, "build", Protocol::Rdp).expect_err("wrong").message(),
        "profile \"build\" is a Ssh profile; use the matching command"
    );
    assert_eq!(
        connect(&store, "x", Protocol::Ssh).expect_err("missing").message(),
        "no profile named \"x\""
    );
}

#[test]
fn commands_are_queued_and_drained() {
    let mut state = AppState::new();
    state.push(UiCommand::RefreshLogs);
    state.push(UiCommand::SaveConfig);
    assert_eq!(state.drain().len(), 2);
    assert!(state.drain().is_empty());
}

#[test]
fn the_status_line_is_shared() {
    let mut state = AppState::new();
    state.set_status("ready");
    assert_eq!(state.status(), "ready");
}

#[test]
fn every_page_is_reachable_by_name() {
    for page in Page::all() {
        assert_eq!(Page::from_name(page.name()), page);
    }
    assert_eq!(Page::from_name("nonsense"), Page::Dashboard);
}

#[test]
fn page_names_round_trip() {
    for page in Page::all() {
        assert_eq!(Page::from_name(page.name()), page);
        assert!(!page.title().is_empty());
    }
}

#[test]
fn unknown_pages_fall_back_to_the_dashboard() {
    assert_eq!(Page::from_name("nope"), Page::Dashboard);
    assert_eq!(Page::from_name(""), Page::Dashboard);
}

#[test]
fn there_are_exactly_eight_pages() {
    assert_eq!(Page::all().len(), 8);
}

#[test]
fn policy_descriptions_are_lowercase() {
    assert_eq!(describe_host_keys(HostKeyPolicy::Strict), "strict");
    assert_eq!(describe_certificates(CertPolicy::TrustOnFirstUse), "trust on first use");
    assert!(security_line().starts_with("host keys strict · certificates verify"));
}

#[test]
fn palettes_map_from_settings() {
    assert_eq!(Palette::for_theme(Theme::Dark), Palette::Dark);
    assert_eq!(Palette::for_theme(Theme::Light), Palette::Light);
    assert_eq!(Palette::for_theme(Theme::System), Palette::System);
}

#[test]
fn dark_and_light_differ() {
    assert!(Palette::Dark.is_dark(None));
    assert!(!Palette::Light.is_dark(None));
    assert_ne!(
        Palette::Dark.terminal_background(None),
        Palette::Light.terminal_background(None)
    );
    assert!(Palette::System.is_dark(Some("0;15")));
    assert!(!Palette::System.is_dark(Some("15;0")));
    assert!(Palette::System.is_dark(None));
}

#[test]
fn ansi_indices_stay_in_range() {
    for index in 0..=255u8 {
        let _ = Palette::Dark.ansi(index, None);
        let _ = Palette::Light.ansi(index, None);
    }
    assert_ne!(Palette::Dark.ansi(1, None), Palette::Dark.ansi(2, None));
    assert_eq!(Palette::Dark.ansi(9, None).rgb, Palette::Dark.ansi(1, None).rgb);
    assert!(Palette::Dark.ansi(9, None).bright);
    assert_eq!(Palette::Dark.ansi(200, None), Palette::Dark.ansi(7, None));
    assert_eq!(cell_color(Color::Default), CellColor::Text);
    assert_eq!(cell_color(Color::Rgb(1, 2, 3)), CellColor::Exact(Rgb { r: 1, g: 2, b: 3 }));
}

#[test]
fn the_worker_translates_commands() {
    let session = SessionId::from_bytes([2; 8]);
    match worker_step(UiCommand::Connect { profile: ProfileId::from_bytes([0; 8]), size: (80, 24) }) {
        WorkerStep::Show(line) => {
            assert_eq!(line, "connecting to profile 0000000000000000 at (80, 24)");
        },
        other => panic!("unexpected {other:?}"),
    }
    let transfer = UiCommand::Transfer {
        session,
        local: "l".to_owned(),
        remote: "r".to_owned(),
        upload: false,
    };
    match worker_step(transfer) {
        WorkerStep::Send(id, SessionCommand::Download { remote, local }) => {
            assert_eq!(id, session);
            assert_eq!((remote.as_str(), local.as_str()), ("r", "l"));
        },
        other => panic!("unexpected {other:?}"),
    }
    assert!(matches!(worker_step(UiCommand::SaveConfig), WorkerStep::Save));
    assert_eq!(save_status(Ok(())), "settings saved");
    assert_eq!(
        save_status(Err(RdtError::new(ErrorCode::Io, "full"))),
        "cannot save settings: io: full"
    );
}

#[test]
fn profiles_are_created_and_deleted_from_the_interface() {
    let mut store = ConfigStore::in_memory();
    assert_eq!(create_profile(&mut store, Protocol::Ssh), "profile created");
    assert!(create_profile(&mut store, Protocol::Ssh).starts_with("cannot create the profile: "));
    assert_eq!(create_profile(&mut store, Protocol::Rdp), "profile created");
    let id = store.find_by_name("new rdp").expect("created").id;
    let profiles = store.profiles(SortOrder::Name);
    assert_eq!(profiles_of(&profiles, Protocol::Ssh).len(), 1);
    let buttons = quick_connects(&profiles);
    assert_eq!(buttons[0].label, "new rdp (host.example.com:3389)");
    assert_eq!(buttons[0].status, "connecting to new rdp");
    let details = profile_details(profiles[1]);
    assert_eq!(details[1].label, "Host key policy");
    assert_eq!(details[1].value, "Strict");
    assert_eq!(details[2].value, "30 s");
    assert_eq!(delete_profile(&mut store, id), "profile deleted");
    assert!(delete_profile(&mut store, id).starts_with("cannot delete: "));
}

#[test]
fn pages_show_the_first_session_of_their_protocol() {
    let mut manager = SessionManager::new(ManagerPolicy::default()).expect("manager");
    let id = SessionId::from_bytes([3; 8]);
    manager.register(id, None, Protocol::Rdp, "h:3389".to_owned(), 1).expect("register");
    manager.transition(id, SessionState::Connected, "ready");
    let sessions = manager.list();
    assert_eq!(shown_session(&sessions, Protocol::Rdp), Some(0));
    assert_eq!(shown_session(&sessions, Protocol::Ssh), None);
    assert_eq!(session_row(&sessions[0]).state, "Connected — ready");
    assert_eq!(initial_size(Protocol::Ssh), (80, 24));
    match pointer_input(0x0102, 0x0304) {
        SessionCommand::RemoteInput(bytes) => assert_eq!(bytes, vec![1, 2, 3, 4]),
        other => panic!("unexpected {other:?}"),
    }
}

#[test]
fn edited_settings_are_kept_for_saving() {
    let mut store = ConfigStore::in_memory();
    store.saved();
    assert_eq!(apply_settings(&mut store, Settings::default(), false), None);
    assert!(!store.is_dirty());
    assert!(apply_settings(&mut store, Settings::default(), true).is_some());
    assert!(store.is_dirty());
    let app = App::new(store.settings());
    assert_eq!(app.page, Page::Dashboard);
    assert!(App::needs_repaint(true, 0));
    assert!(!App::needs_repaint(false, 0));
}
