//! The operating system, locations, dependencies and services.
use rdt::deps::{
    probe_dependencies, report, run_capture, which, Candidate, DependencyId, DependencyStatus,
    DependencySuite, Observations, WritableProbe,
};
use rdt::error::ErrorCode;
use rdt::info::{
    display_server, graphical_session, host_name, DistroInfo, OsFamily, PlatformInfo,
};
use rdt::keystore::ToolExit;
use rdt::paths::{expand_tilde, home_dir, join_path, user_token, AppPaths, PathEnvironment};
use rdt::service::{
    account_created, ensure_service_user, has_account, install_service, is_absolute,
    render_systemd_unit, service_status, shell_quote, status_call, systemctl, uninstall_service,
    unit_path, ServiceHost, ServiceInstallRequest, ServiceSpec, ServiceState,
};

const UBUNTU: &str = r#"PRETTY_NAME="Ubuntu 24.04.1 LTS"
NAME="Ubuntu"
VERSION_ID="24.04"
ID=ubuntu
ID_LIKE=debian
"#;

const ROCKY: &str = r#"NAME="Rocky Linux"
VERSION_ID="9.4"
ID="rocky"
ID_LIKE="rhel centos fedora"
"#;

#[test]
fn parses_os_release_files() {
    let ubuntu = DistroInfo::parse(UBUNTU);
    assert_eq!(ubuntu.id, "ubuntu");
    assert_eq!(ubuntu.name, "Ubuntu");
    assert_eq!(ubuntu.version, "24.04");
    assert!(ubuntu.is_debian_like());
    assert!(!ubuntu.is_rhel_like());
    assert_eq!(ubuntu.package_format(), "deb");

    let rocky = DistroInfo::parse(ROCKY);
    assert_eq!(rocky.id, "rocky");
    assert!(rocky.is_rhel_like());
    assert_eq!(rocky.package_format(), "rpm");
}

#[test]
fn rhel_derivatives_are_recognised_through_id_like() {
    let alma = DistroInfo::parse("ID=almalinux\nID_LIKE=\"rhel centos fedora\"\nNAME=\"AlmaLinux\"\nVERSION_ID=\"9.5\"\n");
    assert!(alma.is_rhel_like());
    let fedora = DistroInfo::parse("ID=fedora\nNAME=Fedora\nVERSION_ID=41\n");
    assert!(fedora.is_rhel_like());
}

#[test]
fn unknown_distro_falls_back_to_tarball() {
    let other = DistroInfo::parse("ID=gentoo\nNAME=Gentoo\n");
    assert_eq!(other.package_format(), "tar.gz");
    assert!(!other.is_debian_like() && !other.is_rhel_like());
}

fn machine(distro: Option<DistroInfo>) -> PlatformInfo {
    PlatformInfo {
        os: OsFamily::Linux,
        arch: "x86_64".to_owned(),
        os_version: "Linux 6.8".to_owned(),
        hostname: "box".to_owned(),
        distro,
        elevated: false,
        graphical_session: true,
        systemd_active: true,
        display_server: "x11".to_owned(),
    }
}

#[test]
fn platform_detection_produces_a_summary() {
    let info = machine(Some(DistroInfo::parse(UBUNTU)));
    assert!(!info.arch.is_empty());
    assert!(info.summary().contains(&info.arch));
    assert_eq!(info.summary(), "linux x86_64 (Ubuntu 24.04) on box");
    assert!(info.is_supported());
    assert_eq!(machine(None).summary(), "linux x86_64 (Linux 6.8) on box");
    assert!(!machine(None).is_supported());
}

#[test]
fn the_first_file_that_names_a_distribution_counts() {
    let files = vec!["NAME=nothing\n".to_owned(), "ID='void'\n".to_owned(), ROCKY.to_owned()];
    let found = DistroInfo::from_files(&files).expect("found");
    assert_eq!(found.id, "void");
    assert_eq!(found.name, "void");
    assert!(DistroInfo::from_files(&vec![]).is_none());
}

#[test]
fn desktops_are_recognised() {
    assert_eq!(display_server(Some("wayland-0"), true), "wayland");
    assert_eq!(display_server(Some(""), true), "x11");
    assert_eq!(display_server(None, false), "");
    assert!(graphical_session(OsFamily::Windows, false, false));
    assert!(!graphical_session(OsFamily::Linux, false, false));
    assert_eq!(host_name(Some(b"box\0junk".to_vec())), "box");
    assert_eq!(host_name(Some(vec![0xFF])), "localhost");
    assert_eq!(host_name(None), "localhost");
}

fn paths() -> AppPaths {
    AppPaths::new(
        "/etc/rdt".to_owned(),
        "/var/lib/rdt".to_owned(),
        "/var/log/rdt".to_owned(),
        "/run/rdt".to_owned(),
    )
}

#[test]
fn paths_are_derived_from_the_environment() {
    let paths = paths();
    assert_eq!(paths.config_file(), "/etc/rdt/config.toml");
    assert_eq!(paths.profiles_file(), "/var/lib/rdt/profiles.toml");
    assert_eq!(paths.vault_file(), "/var/lib/rdt/secrets.vault");
    assert_eq!(paths.known_hosts_file(), "/var/lib/rdt/known_hosts");
    assert!(paths.audit_file().ends_with("audit.jsonl"));
    assert_eq!(paths.log_file(), "/var/log/rdt/rdt.log");
    assert_eq!(paths.lock_file(), "/run/rdt/rdt.lock");
    assert_eq!(paths.directories().len(), 4);
}

fn environment(os: OsFamily) -> PathEnvironment {
    PathEnvironment {
        os,
        home: Some("/home/alice".to_owned()),
        user_profile: None,
        app_data: None,
        local_app_data: None,
        xdg_config_home: None,
        xdg_data_home: Some(String::new()),
        xdg_state_home: Some("/state".to_owned()),
        config_override: None,
        data_override: None,
        log_override: None,
        runtime_override: None,
        temp_dir: "/tmp".to_owned(),
        uid: Some(1000),
        user_name: None,
    }
}

#[test]
fn environment_overrides_win() {
    let mut env = environment(OsFamily::Linux);
    env.config_override = Some("/tmp/rdt-override-check".to_owned());
    let paths = AppPaths::detect(&env);
    assert_eq!(paths.config_dir, "/tmp/rdt-override-check");
}

#[test]
fn locations_follow_the_conventions() {
    let linux = AppPaths::detect(&environment(OsFamily::Linux));
    assert_eq!(linux.config_dir, "/home/alice/.config/rdt");
    assert_eq!(linux.data_dir, "/home/alice/.local/share/rdt");
    assert_eq!(linux.log_dir, "/state/rdt/log");
    assert_eq!(linux.runtime_dir, "/tmp/rdt-1000");
    let mac = AppPaths::detect(&environment(OsFamily::Macos));
    assert_eq!(mac.data_dir, "/home/alice/Library/Application Support/RDT");
    let mut env = environment(OsFamily::Windows);
    env.app_data = Some("C:/Users/alice/AppData/Roaming".to_owned());
    env.uid = None;
    env.user_name = Some("ab".to_owned());
    let windows = AppPaths::detect(&env);
    assert_eq!(windows.config_dir, "C:/Users/alice/AppData/Roaming/RDT");
    assert_eq!(windows.log_dir, "C:/Users/alice/AppData/Roaming/Local/RDT/logs");
    // 'a' * 31 + 'b'
    assert_eq!(windows.runtime_dir, "/tmp/rdt-0000000000000c21");
    assert_eq!(user_token(Some(0), &None), "0");
    assert_eq!(home_dir(&None, &None), ".");
    assert_eq!(join_path("/a/", "b"), "/a/b");
    assert_eq!(join_path("/a", "/b"), "/b");
    assert_eq!(join_path("", "b"), "b");
}

#[test]
fn tilde_expansion_uses_the_home_directory() {
    let expanded = expand_tilde("~/.ssh/id_ed25519", "/home/alice", false);
    assert!(!expanded.starts_with('~'));
    assert!(expanded.ends_with(".ssh/id_ed25519"));
    assert_eq!(expanded, "/home/alice/.ssh/id_ed25519");
    assert_eq!(expand_tilde("/etc/hosts", "/home/alice", false), "/etc/hosts");
    assert_eq!(expand_tilde("~", "/home/alice", false), "/home/alice");
    assert_eq!(expand_tilde("~bob/x", "/home/alice", false), "~bob/x");
    assert_eq!(expand_tilde("~\\x", "C:/u", true), "C:/u/x");
}

#[test]
fn runtime_socket_path_is_platform_shaped() {
    let paths = paths();
    assert!(paths.agent_socket(OsFamily::Windows).contains("pipe"));
    assert!(paths.agent_socket(OsFamily::Linux).ends_with("agent.sock"));
}

fn observed() -> Observations {
    Observations {
        os: OsFamily::Linux,
        agent_pipe: false,
        agent_socket: Some(("/run/agent.sock".to_owned(), false)),
        secret_tool: None,
        session_bus: false,
        systemd: true,
        systemctl: Some("/usr/bin/systemctl".to_owned()),
        wayland: false,
        x11: true,
        wl_copy: None,
        wl_paste: None,
        xclip: None,
        xsel: Some("/usr/bin/xsel".to_owned()),
        known_hosts: ("/d/known_hosts".to_owned(), WritableProbe::Creatable),
        vault: ("/d/secrets.vault".to_owned(), WritableProbe::NoParent),
    }
}

#[test]
fn probe_returns_a_report_for_every_dependency() {
    let suite = probe_dependencies(&observed());
    assert!(suite.reports.len() >= 5);
    for report in &suite.reports {
        assert!(!report.detail.is_empty(), "{:?}", report.id);
    }
    let known = suite
        .reports
        .iter()
        .find(|report| report.id == DependencyId::KnownHosts)
        .expect("known hosts report");
    assert!(known.available(), "{known:?}");
    assert_eq!(known.detail, "/d/known_hosts (will be created)");
    assert!(suite.ready);
    assert_eq!(suite.reports[0].status, DependencyStatus::Degraded);
    assert_eq!(suite.reports[3].detail, "/usr/bin/xsel");
}

#[test]
fn an_unwritable_known_hosts_file_is_a_problem() {
    let mut o = observed();
    o.known_hosts.1 = WritableProbe::NotWritable("denied".to_owned());
    let suite = probe_dependencies(&o);
    assert!(!suite.ready);
    assert_eq!(suite.problems().len(), 1);
    assert_eq!(suite.problems()[0].detail, "/d/known_hosts is not writable: denied");
    assert_eq!(DependencyId::Vault.as_str(), "encrypted-vault");
    assert!(DependencyId::Systemd.describe().contains("systemd"));
}

fn candidate(path: &str, is_file: bool, mode: Option<u32>) -> Candidate {
    Candidate { path: path.to_owned(), is_file, mode }
}

#[test]
fn which_finds_the_shell() {
    let candidates = vec![
        candidate("/usr/local/bin/sh", false, None),
        candidate("/opt/sh", true, Some(0o644)),
        candidate("/bin/sh", true, Some(0o755)),
    ];
    assert_eq!(which(&candidates, true), Some("/bin/sh"));
    assert_eq!(which(&candidates, false), Some("/opt/sh"));
}

#[test]
fn which_rejects_missing_programs() {
    let candidates = vec![candidate("/bin/definitely-not-a-real-program-xyz", false, None)];
    assert!(which(&candidates, true).is_none());
}

fn exit(success: bool, stdout: &str, stderr: &str) -> ToolExit {
    ToolExit { success, stdout: stdout.as_bytes().to_vec(), stderr: stderr.as_bytes().to_vec() }
}

#[test]
fn run_capture_reports_failures() {
    assert_eq!(run_capture("sh", Ok(exit(true, " hi\n", ""))), Ok("hi".to_owned()));
    assert_eq!(run_capture("sh", Ok(exit(false, "", "no \n"))), Err("no".to_owned()));
    assert_eq!(
        run_capture("gone", Err("not found".to_owned())),
        Err("cannot execute gone: not found".to_owned())
    );
}

#[test]
fn reports_classify_problems() {
    let suite = DependencySuite {
        reports: vec![
            report(DependencyId::Vault, DependencyStatus::Missing, "gone", true),
            report(DependencyId::KnownHosts, DependencyStatus::Missing, "gone", false),
        ],
        ready: false,
    };
    assert_eq!(suite.problems().len(), 1);
    assert_eq!(suite.problems()[0].id, DependencyId::KnownHosts);
}

fn spec(system_wide: bool) -> ServiceSpec {
    ServiceSpec::agent("/usr/bin/rdt", system_wide)
}

#[test]
fn unit_file_contains_hardening_and_environment() {
    let unit = render_systemd_unit(&spec(true), &paths(), None);
    assert!(unit.contains("[Unit]"));
    assert!(unit.contains("ExecStart=/usr/bin/rdt agent run"));
    assert!(unit.contains("NoNewPrivileges=true"));
    assert!(unit.contains("ProtectSystem=strict"));
    assert!(unit.contains("SystemCallFilter=@system-service"));
    assert!(unit.contains("RDT_DATA_DIR=/var/lib/rdt"));
    assert!(unit.contains("WantedBy=multi-user.target"));
    assert!(unit.contains("User=rdt\n"));
}

#[test]
fn user_units_skip_system_hardening() {
    let unit = render_systemd_unit(&spec(false), &paths(), Some("alice"));
    assert!(!unit.contains("ProtectSystem=strict"));
    assert!(unit.contains("User="));
    assert_eq!(
        unit,
        "[Unit]\nDescription=RDT unattended remote access agent\nDocumentation=https://github.com/mylab12345/Remote-Desktop-Tool\nAfter=network-online.target\nWants=network-online.target\n\n[Service]\nType=notify\nExecStart=/usr/bin/rdt agent run\nEnvironment=RDT_CONFIG_DIR=/etc/rdt RDT_DATA_DIR=/var/lib/rdt RDT_LOG_DIR=/var/log/rdt RDT_RUNTIME_DIR=/run/rdt\nRestart=on-failure\nRestartSec=5s\nUser=alice\n\n[Install]\nWantedBy=multi-user.target\n"
    );
}

#[test]
fn spec_validation_rejects_relative_paths() {
    let mut broken = spec(true);
    broken.executable = "rdt".to_owned();
    assert_eq!(
        broken.validate(OsFamily::Linux).unwrap_err().code(),
        ErrorCode::InvalidInput
    );
    let mut no_name = spec(true);
    no_name.name = String::new();
    assert!(no_name.validate(OsFamily::Linux).is_err());
    assert!(is_absolute("C:\\rdt.exe", OsFamily::Windows));
    assert!(!is_absolute("C:rdt.exe", OsFamily::Windows));
    assert!(!is_absolute("C:\\rdt.exe", OsFamily::Linux));
}

#[test]
fn unit_path_depends_on_scope() {
    let paths = paths();
    assert_eq!(unit_path(&spec(true), &paths), "/etc/systemd/system/rdt-agent.service");
    assert!(unit_path(&spec(false), &paths).contains("systemd/user/rdt-agent.service"));
}

#[test]
fn shell_quoting_only_quotes_when_needed() {
    assert_eq!(shell_quote("/usr/bin/rdt"), "/usr/bin/rdt");
    assert_eq!(shell_quote("with space"), "\"with space\"");
    assert_eq!(shell_quote(""), "\"\"");
    assert_eq!(shell_quote("a\\b\"c"), "\"a\\\\b\\\"c\"");
}

fn host(executable_exists: bool, systemd: bool, elevated: bool) -> ServiceHost {
    ServiceHost { os: OsFamily::Linux, executable_exists, systemd, elevated }
}

#[test]
fn install_refuses_missing_executable() {
    let request = ServiceInstallRequest {
        spec: ServiceSpec { executable: "/definitely/not/here".to_owned(), ..spec(false) },
        paths: paths(),
    };
    let error = install_service(&request, host(false, true, false), None).unwrap_err();
    assert_eq!(error.code(), ErrorCode::InvalidInput);
}

#[test]
fn installing_needs_the_right_host() {
    let system = ServiceInstallRequest { spec: spec(true), paths: paths() };
    let user = ServiceInstallRequest { spec: spec(false), paths: paths() };
    assert_eq!(
        install_service(&user, host(true, false, false), None).unwrap_err().code(),
        ErrorCode::Service
    );
    assert_eq!(
        install_service(&system, host(true, true, false), None).unwrap_err().code(),
        ErrorCode::Permission
    );
    let plan = install_service(&system, host(true, true, true), None).expect("plan").expect("unix");
    assert!(plan.service_account);
    assert_eq!(
        plan.commands,
        vec![
            vec!["daemon-reload".to_owned()],
            vec!["enable".to_owned(), "rdt-agent.service".to_owned()],
            vec!["restart".to_owned(), "rdt-agent.service".to_owned()],
        ]
    );
    let plan = install_service(&user, host(true, true, false), None).expect("plan").expect("unix");
    assert_eq!(plan.commands[0], vec!["--user", "daemon-reload"]);
    let windows = ServiceHost { os: OsFamily::Windows, ..host(true, false, false) };
    let request = ServiceInstallRequest {
        spec: ServiceSpec::agent("C:\\rdt.exe", false),
        paths: paths(),
    };
    assert!(install_service(&request, windows, None).expect("accepted").is_none());
    assert!(uninstall_service(&spec(true), &paths(), host(true, true, false)).is_err());
    let removal =
        uninstall_service(&spec(false), &paths(), host(true, true, false)).expect("plan").expect("unix");
    assert_eq!(removal.before, vec!["--user", "disable", "--now", "rdt-agent.service"]);
}

#[test]
fn service_states_are_read() {
    let state = |text: &str| service_status(true, Ok(text.as_bytes().to_vec())).expect("state");
    assert_eq!(state("active\n"), ServiceState::Running);
    assert_eq!(state("failed\n"), ServiceState::Stopped);
    assert_eq!(state("activating\n"), ServiceState::Transitioning);
    assert_eq!(state("odd\n"), ServiceState::Unknown);
    assert_eq!(service_status(false, Err("x".to_owned())).expect("state"), ServiceState::NotInstalled);
    assert!(service_status(true, Err("x".to_owned())).is_err());
    assert_eq!(ServiceState::NotInstalled.as_str(), "not-installed");
    assert_eq!(status_call(&spec(true)), vec!["is-active", "rdt-agent.service"]);
}

#[test]
fn service_accounts_are_created_once() {
    let passwd = "root:x:0:0::/root:/bin/sh\nrdt:x:990:990::/var/lib/rdt:/usr/sbin/nologin\n";
    assert!(has_account(Some(passwd), "rdt"));
    assert!(!has_account(Some(passwd), "rd"));
    assert!(ensure_service_user("rdt", Some(passwd)).is_none());
    let args = ensure_service_user("rdt", None).expect("created");
    assert_eq!(args.last().map(String::as_str), Some("rdt"));
    assert!(account_created("rdt", Ok(Ok(()))).is_ok());
    assert_eq!(
        account_created("rdt", Ok(Err("exit status: 9".to_owned()))).unwrap_err().message(),
        "useradd exited with exit status: 9; create the 'rdt' account manually"
    );
    let error = systemctl(
        &vec!["enable".to_owned(), "x.service".to_owned()],
        Ok(exit(false, "", "denied\n")),
    )
    .unwrap_err();
    assert_eq!(error.message(), "systemctl enable x.service failed: denied");
}

#[test]
fn windows_paths_need_a_drive_or_a_share() {
    for path in ["\\\\server\\share", "//server/share/x", "\\\\.\\pipe\\x", "c:/x"] {
        assert!(is_absolute(path, OsFamily::Windows), "{path}");
    }
    for path in ["\\\\foo", "\\\\foo\\", "\\temp", "\\\\\\foo\\bar", "c:temp", ""] {
        assert!(!is_absolute(path, OsFamily::Windows), "{path}");
    }
}
