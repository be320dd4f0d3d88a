//! Settings, profiles, the configuration store and its migration.
use rdt::error::{ErrorCode, RdtError};
use rdt::ids::ProfileId;
use rdt::migrate::{document_version, field_version, migrate, stamp_failed, StampStage};
use rdt::profile::ConnectionProfile;
use rdt::proto::{AuthMethod, CredentialSource, HostKeyPolicy, Protocol};
use rdt::settings::{LogLevel, Settings, Theme, UiSettings, CURRENT_SCHEMA_VERSION};
use rdt::store::{
    write_failed, Config, ConfigStore, LoadError, LoadStep, SortOrder, WriteStage,
};

#[test]
fn current_documents_pass_through_unchanged() {
    let text = format!("schema_version = {CURRENT_SCHEMA_VERSION}\n");
    assert_eq!(migrate(&text).expect("migrate"), text);
}

#[test]
fn unversioned_documents_are_stamped() {
    let migrated = migrate("[settings]\nlog_level = \"debug\"\n").expect("migrate");
    assert_eq!(document_version(&migrated), CURRENT_SCHEMA_VERSION);
    assert!(migrated.contains("log_level"));
    assert_eq!(migrate(&migrated).expect("again"), migrated);
}

#[test]
fn newer_documents_are_refused() {
    let error = migrate("schema_version = 99\n").expect_err("must be refused");
    assert_eq!(error.code(), ErrorCode::Unsupported);
    assert_eq!(
        error.message(),
        "configuration was written by schema version 99; this build understands up to 1"
    );
}

#[test]
fn broken_documents_report_a_config_error() {
    let error = migrate("this is not toml [[[\n").expect_err("must fail");
    assert_eq!(error.code(), ErrorCode::Config);
}

#[test]
fn version_probe_tolerates_missing_fields() {
    assert_eq!(document_version(""), 0);
    assert_eq!(document_version("schema_version = 3\n"), 3);
}

#[test]
fn odd_versions_count_as_none() {
    assert_eq!(document_version("schema_version = -1\n"), 0);
    assert_eq!(document_version("schema_version = \"1\"\n"), 0);
    assert_eq!(field_version(Some(1 << 40)), 0);
    assert_eq!(field_version(Some(7)), 7);
    assert_eq!(
        stamp_failed(StampStage::Encode, "x").message(),
        "cannot re-encode configuration: x"
    );
    let kept = migrate("retries = 5\n").expect("migrate");
    assert!(kept.contains("retries = 5"));
}

fn profile() -> ConnectionProfile {
    ConnectionProfile::new("build", "build.example.com", 22, Protocol::Ssh)
}

#[test]
fn new_profiles_are_valid_and_identified() {
    let profile = profile();
    assert!(profile.is_valid());
    assert_eq!(profile.address(), "build.example.com:22");
    assert_ne!(profile.id, ProfileId::new());
}

#[test]
fn default_ports_follow_the_protocol() {
    assert_eq!(ConnectionProfile::default_port(Protocol::Ssh), 22);
    assert_eq!(ConnectionProfile::default_port(Protocol::Rdp), 3389);
}

#[test]
fn profile_invalid_profiles_are_rejected() {
    let mut bad = profile();
    bad.name = "   ".to_owned();
    assert!(bad.validate().is_err());

    let mut bad = profile();
    bad.endpoint.host = " ".to_owned();
    assert!(bad.validate().is_err());

    let mut bad = profile();
    bad.endpoint.port = 0;
    assert!(bad.validate().is_err());

    let mut bad = profile();
    bad.endpoint.host = "two words".to_owned();
    assert!(bad.validate().is_err());

    let mut bad = profile();
    bad.tags = vec![String::new()];
    assert!(bad.validate().is_err());
}

#[test]
fn refused_profiles_name_the_problem() {
    let mut long = profile();
    long.name = "x".repeat(121);
    let error = long.validate().expect_err("must fail");
    assert_eq!(error.message(), "profile name is longer than 120 characters");
    assert_eq!(error.detail("profile"), Some("x".repeat(121)));
    let mut blind = profile();
    blind.ssh.host_key_policy = HostKeyPolicy::AcceptNew;
    let error = blind.validate().expect_err("must fail");
    assert_eq!(error.message(), "host key policy must not auto-accept unknown keys");
}

#[test]
fn authentication_defaults_never_embed_a_secret() {
    let profile = profile();
    // The default asks at connect time and never names a stored secret.
    assert_eq!(profile.auth, AuthMethod::Password(CredentialSource::Prompt));
}

#[test]
fn defaults_are_safe() {
    let settings = Settings::default();
    assert!(settings.security.redact_logs);
    assert!(settings.security.revoke_agent_forwarding_on_disconnect);
    assert!(settings.session.audit_connections);
    assert_eq!(settings.session.max_concurrent_sessions, 16);
    assert_eq!(settings.log_level, LogLevel::Info);
    assert_eq!(settings.ui.theme, Theme::System);
}

#[test]
fn log_levels_map_to_filters() {
    assert_eq!(LogLevel::Error.as_filter(), "error");
    assert_eq!(LogLevel::Trace.as_filter(), "trace");
    assert_eq!(LogLevel::default().as_filter(), "info");
}

#[test]
fn ui_scale_is_plausible() {
    assert_eq!(UiSettings::default().ui_scale_percent, 100);
}

#[test]
fn in_memory_store_starts_with_defaults() {
    let store = ConfigStore::in_memory();
    assert!(store.profiles(SortOrder::Name).is_empty());
    assert!(store.is_dirty());
    assert_eq!(store.settings().log_level, LogLevel::Info);
}

#[test]
fn profiles_can_be_added_found_and_removed() {
    let mut store = ConfigStore::in_memory();
    let id = store.add(profile()).expect("add");
    assert!(store.find(id).is_some());
    assert!(store.find_by_name("BUILD").is_some());
    store.remove(id).expect("remove");
    assert!(store.find(id).is_none());
    assert!(store.remove(id).is_err());
}

#[test]
fn duplicate_names_are_rejected() {
    let mut store = ConfigStore::in_memory();
    store.add(profile()).expect("add");
    let error = store.add(profile()).expect_err("must fail");
    assert_eq!(error.message(), "a profile named \"build\" already exists");
}

#[test]
fn store_invalid_profiles_are_rejected() {
    let mut store = ConfigStore::in_memory();
    let mut bad = profile();
    bad.endpoint.host = String::new();
    assert!(store.add(bad).is_err());
}

#[test]
fn update_keeps_the_identifier_stable() {
    let mut store = ConfigStore::in_memory();
    let id = store.add(profile()).expect("add");
    let mut changed = store.find(id).expect("find").clone();
    changed.notes = "nightly builds".to_owned();
    store.update(changed).expect("update");
    assert_eq!(store.find(id).expect("find").notes, "nightly builds");
}

#[test]
fn updates_respect_other_profiles() {
    let mut store = ConfigStore::in_memory();
    store.add(profile()).expect("add");
    let mut other = profile();
    other.name = "deploy".to_owned();
    let id = store.add(other).expect("add");
    let mut renamed = store.find(id).expect("find").clone();
    renamed.name = "Build".to_owned();
    assert_eq!(store.update(renamed).expect_err("taken").code(), ErrorCode::Config);
    assert_eq!(store.update(profile()).expect_err("unknown").code(), ErrorCode::NotFound);
    let missing = ProfileId::from_bytes([0; 8]);
    let error = store.remove(missing).expect_err("unknown");
    assert_eq!(error.detail("profile"), Some("0000000000000000".to_owned()));
}

#[test]
fn sort_orders_are_stable() {
    let mut store = ConfigStore::in_memory();
    let mut zeta = profile();
    zeta.name = "zeta".to_owned();
    let mut alpha = profile();
    alpha.name = "alpha".to_owned();
    alpha.group = Some("prod".to_owned());
    store.add(zeta).expect("add");
    store.add(alpha).expect("add");
    let by_name: Vec<String> =
        store.profiles(SortOrder::Name).into_iter().map(|profile| profile.name.clone()).collect();
    assert_eq!(by_name, vec!["alpha", "zeta"]);
    assert_eq!(store.profiles(SortOrder::Group).len(), 2);
    assert_eq!(store.profiles(SortOrder::Manual).len(), 2);
    assert_eq!(store.profiles(SortOrder::RecentlyUsed).len(), 2);
}

#[test]
fn orders_use_their_keys() {
    let mut store = ConfigStore::in_memory();
    for (name, group, index) in
        [("Ärger", Some("b"), 2), ("ähre", Some("a"), 1), ("Beta", None, 3), ("apfel", None, 1)]
    {
        let mut entry = profile();
        entry.name = name.to_owned();
        entry.group = group.map(str::to_owned);
        entry.sort_index = index;
        store.add(entry).expect("add");
    }
    let names = |order: SortOrder| -> Vec<String> {
        store.profiles(order).into_iter().map(|entry| entry.name.clone()).collect()
    };
    assert_eq!(names(SortOrder::Name), vec!["apfel", "Beta", "ähre", "Ärger"]);
    assert_eq!(names(SortOrder::Group), vec!["apfel", "Beta", "ähre", "Ärger"]);
    assert_eq!(names(SortOrder::Manual), vec!["apfel", "ähre", "Ärger", "Beta"]);
}

#[test]
fn unattached_stores_refuse_to_save() {
    let store = ConfigStore::in_memory();
    let error = store.save().expect_err("must fail");
    assert_eq!(error.code(), ErrorCode::Config);
}

#[test]
fn loading_follows_the_file() {
    let mut created = match ConfigStore::load("/tmp/config.toml", Ok(None)) {
        Ok(LoadStep::Created(store)) => store,
        _ => panic!("a missing file creates defaults"),
    };
    assert!(created.is_dirty());
    assert_eq!(created.save().expect("attached"), "/tmp/config.toml");
    created.saved();
    assert!(!created.is_dirty());
    let text = "schema_version = 1\n".to_owned();
    match ConfigStore::load("/tmp/config.toml", Ok(Some(text.clone()))) {
        Ok(LoadStep::Decode(document)) => assert_eq!(document, text),
        _ => panic!("a current document is decoded as it is"),
    }
    let unreadable = ConfigStore::load("/tmp/config.toml", Err("denied".to_owned()));
    match unreadable {
        Err(LoadError::Failed(error)) => {
            assert_eq!(error.detail("path"), Some("/tmp/config.toml".to_owned()));
        },
        _ => panic!("an unreadable file is reported"),
    }
    let malformed = ConfigStore::decoded("/tmp/config.toml", Err("expected a table".to_owned()))
        .expect_err("malformed");
    assert!(malformed.to_string().contains("cannot parse configuration: expected a table"));
    assert_eq!(LoadError::Missing.to_string(), "no configuration file yet");
}

#[test]
fn reloading_discards_local_changes() {
    let mut store = ConfigStore::decoded("/tmp/c.toml", Ok(Config::default())).expect("store");
    store.add(profile()).expect("add");
    assert!(store.is_dirty());
    store.reload(ConfigStore::in_memory());
    assert!(store.profiles(SortOrder::Manual).is_empty());
    assert!(!store.is_dirty());
    assert_eq!(store.path(), "/tmp/c.toml");
    let mut settings = store.settings().clone();
    settings.log_keep = 9;
    store.set_settings(settings);
    assert_eq!(store.config().settings.log_keep, 9);
    assert!(store.is_dirty());
}

#[test]
fn write_failures_name_the_step() {
    let error: RdtError = write_failed(WriteStage::Replace, "busy", "/tmp/c.toml");
    assert_eq!(error.code(), ErrorCode::Io);
    assert_eq!(error.message(), "cannot replace file: busy");
    assert_eq!(ConfigStore::encode_failed("x").message(), "cannot encode configuration: x");
}

#[test]
fn joined_depths_can_exceed_what_the_parser_reads() {
    let path = vec!["a"; 50].join(".");
    let text = format!("[{path}]\n{path} = 1\n");
    let out = migrate(&text).expect("stamped");
    assert!(out.contains("schema_version = 1"));
    assert_eq!(document_version(&out), 0);
}

#[test]
fn profile_names_are_measured_in_characters() {
    let mut named = profile();
    named.name = "é".repeat(120);
    assert!(named.validate().is_ok());
    named.name = "é".repeat(121);
    assert!(named.validate().is_err());
}
