//! Known hosts, host key decisions, sessions, file transfers and the SSH agent.
use base64::Engine;
use hmac::{Hmac, Mac};
use rdt::error::{ErrorCode, RdtError};
use rdt::handler::{
    describe_prompt, ClientHandler, HostKeyDecision, KeyStep, Prompt, PromptReply,
};
use rdt::known_hosts::{fingerprint, wildcard_match, HostKeyStatus, KnownHosts, Marker};
use rdt::proto::{
    AuthMethod, CredentialSource, HostKeyPolicy, SecretBackend, SshOptions, StoredSecret,
};
use rdt::secret::Secret;
use rdt::sftp::{
    check_preview, map_sftp, sort_listing, upload_temporary, RemoteEntry, SftpFailure, Transfer,
    TransferDirection, TransferEvent, TransferProgress, TransferStep,
};
use rdt::ssh_agent::{verify_socket_permissions, AgentTransport, SocketMetadata};
use rdt::ssh_session::{
    auth_answered, auth_step, classify, connect_timed_out, delivered, key_decode_failed, load_private_key,
    key_passphrase, key_read_failed, resolve_secret, AuthStep, SshCommand, SshConnection,
    SshFailure, TerminalSize,
};
use russh::keys::ssh_key::private::Ed25519Keypair;
use russh::keys::ssh_key::{Cipher, Kdf, LineEnding};
use russh::keys::PrivateKey;
use sha1::Sha1;

const KEY_A: &[u8] = b"public-key-blob-alpha";
const KEY_B: &[u8] = b"public-key-blob-bravo";

fn encode(key: &[u8]) -> String {
    base64::engine::general_purpose::STANDARD.encode(key)
}

fn db(text: &str) -> KnownHosts {
    KnownHosts::parse(text)
}

#[test]
fn blank_and_comment_lines_are_ignored() {
    let database = db("\n# a comment\n   \n");
    assert!(database.is_empty());
    assert_eq!(database.to_string_lossy(), "");
}

#[test]
fn a_matching_entry_is_trusted() {
    let database = db(&format!("host.example.com ssh-ed25519 {} owner@laptop\n", encode(KEY_A)));
    assert_eq!(
        database.check("host.example.com", 22, "ssh-ed25519", KEY_A),
        HostKeyStatus::Trusted
    );
}

#[test]
fn host_matching_is_case_insensitive() {
    let database = db(&format!("Host.Example.COM ssh-rsa {}\n", encode(KEY_A)));
    assert_eq!(
        database.check("host.example.com", 22, "ssh-rsa", KEY_A),
        HostKeyStatus::Trusted
    );
}

#[test]
fn an_unknown_host_is_reported_as_unknown() {
    let database = db(&format!("other.example.com ssh-ed25519 {}\n", encode(KEY_A)));
    assert_eq!(
        database.check("host.example.com", 22, "ssh-ed25519", KEY_A),
        HostKeyStatus::Unknown
    );
}

#[test]
fn a_changed_key_of_the_same_type_is_a_hard_failure() {
    let database = db(&format!("host.example.com ssh-ed25519 {} old\n", encode(KEY_A)));
    let status = database.check("host.example.com", 22, "ssh-ed25519", KEY_B);
    match &status {
        HostKeyStatus::Changed {
            known_fingerprint,
            known_key_type,
        } => {
            assert_eq!(known_key_type.as_str(), "ssh-ed25519");
            assert!(known_fingerprint.starts_with("SHA256:"), "{known_fingerprint}");
            assert!(status.is_fatal());
        }
        other => panic!("unexpected {other:?}"),
    }
}

#[test]
fn a_different_algorithm_is_treated_as_unknown_not_changed() {
    let database = db(&format!("host.example.com ssh-rsa {}\n", encode(KEY_A)));
    assert_eq!(
        database.check("host.example.com", 22, "ssh-ed25519", KEY_B),
        HostKeyStatus::Unknown
    );
}

#[test]
fn revoked_keys_are_never_accepted() {
    let database = db(&format!("@revoked host.example.com ssh-ed25519 {}\n", encode(KEY_A)));
    assert_eq!(
        database.check("host.example.com", 22, "ssh-ed25519", KEY_A),
        HostKeyStatus::Revoked
    );
}

#[test]
fn negated_patterns_exclude_hosts() {
    let database = db(&format!("*.example.com,!bad.example.com ssh-ed25519 {}\n", encode(KEY_A)));
    assert_eq!(
        database.check("good.example.com", 22, "ssh-ed25519", KEY_A),
        HostKeyStatus::Trusted
    );
    assert_eq!(
        database.check("bad.example.com", 22, "ssh-ed25519", KEY_A),
        HostKeyStatus::Unknown
    );
}

#[test]
fn non_default_ports_use_the_bracketed_form() {
    let database = db(&format!("[host.example.com]:2222 ssh-ed25519 {}\n", encode(KEY_A)));
    assert_eq!(
        database.check("host.example.com", 2222, "ssh-ed25519", KEY_A),
        HostKeyStatus::Trusted
    );
    assert_eq!(
        database.check("host.example.com", 22, "ssh-ed25519", KEY_A),
        HostKeyStatus::Unknown
    );
}

#[test]
fn ipv6_literals_are_supported() {
    let database = db(&format!("[2001:db8::1]:22 ssh-ed25519 {}\n", encode(KEY_A)));
    assert_eq!(
        database.check("2001:db8::1", 22, "ssh-ed25519", KEY_A),
        HostKeyStatus::Trusted
    );
}

#[test]
fn hashed_entries_are_verified() {
    let salt = b"0123456789abcdef";
    let mut mac = <Hmac<Sha1> as Mac>::new_from_slice(salt).expect("key");
    mac.update(b"host.example.com");
    let digest = mac.finalize().into_bytes();
    let engine = base64::engine::general_purpose::STANDARD;
    let line = format!(
        "|1|{}|{} ssh-ed25519 {}",
        engine.encode(salt),
        engine.encode(digest),
        encode(KEY_A)
    );
    let database = db(&line);
    assert_eq!(
        database.check("host.example.com", 22, "ssh-ed25519", KEY_A),
        HostKeyStatus::Trusted
    );
    assert_eq!(
        database.check("other.example.com", 22, "ssh-ed25519", KEY_A),
        HostKeyStatus::Unknown
    );
}

#[test]
fn malformed_lines_are_skipped_not_fatal() {
    let database = db(&format!(
        "garbage line\nhost.example.com ssh-ed25519 not-base64!!\nhost2.example.com ssh-ed25519 {}\n",
        encode(KEY_A)
    ));
    assert_eq!(database.len(), 1);
    assert_eq!(
        database.check("host2.example.com", 22, "ssh-ed25519", KEY_A),
        HostKeyStatus::Trusted
    );
}

#[test]
fn accepting_a_key_replaces_the_previous_one() {
    let mut database = db(&format!("host.example.com ssh-ed25519 {} old\n", encode(KEY_A)));
    database.accept("host.example.com", 22, "ssh-ed25519", KEY_B, "rotated");
    assert_eq!(database.len(), 1);
    assert_eq!(
        database.check("host.example.com", 22, "ssh-ed25519", KEY_B),
        HostKeyStatus::Trusted
    );
    assert!(database.to_string_lossy().contains("rotated"));
}

#[test]
fn forgetting_a_host_removes_its_entries() {
    let mut database = db(&format!(
        "host.example.com ssh-ed25519 {}\nhost.example.com ssh-rsa {}\nother ssh-ed25519 {}\n",
        encode(KEY_A),
        encode(KEY_B),
        encode(KEY_A)
    ));
    assert_eq!(database.forget("host.example.com", 22), 2);
    assert_eq!(database.len(), 1);
}

#[test]
fn entries_round_trip_through_text() {
    let line = format!("@cert-authority *.example.com ssh-ed25519 {} ca key\n", encode(KEY_A));
    let database = db(&line);
    assert_eq!(database.len(), 1);
    let entry = &database.entries()[0];
    assert_eq!(entry.marker, Marker::CertAuthority);
    assert_eq!(entry.comment, "ca key");
    assert!(entry.to_line().starts_with("@cert-authority *.example.com"));
}

#[test]
fn fingerprints_are_stable_and_prefixed() {
    let value = fingerprint(KEY_A);
    assert!(value.starts_with("SHA256:"));
    assert_eq!(value, fingerprint(KEY_A));
    assert_ne!(value, fingerprint(KEY_B));
    assert!(!value.contains('='), "fingerprints use unpadded base64: {value}");
}

#[test]
fn status_messages_are_readable() {
    assert_eq!(HostKeyStatus::Trusted.to_string(), "host key matches the recorded key");
    assert_eq!(HostKeyStatus::Unknown.to_string(), "host key is not recorded yet");
    assert_eq!(HostKeyStatus::Revoked.to_string(), "host key has been revoked");
    assert!(HostKeyStatus::Trusted.is_trusted());
    assert!(!HostKeyStatus::Unknown.is_fatal());
}

#[test]
fn wildcard_matching_covers_the_common_cases() {
    assert!(wildcard_match("*.example.com", "a.example.com"));
    assert!(!wildcard_match("*.example.com", "example.com"));
    assert!(wildcard_match("host?", "host1"));
    assert!(!wildcard_match("host?", "host12"));
    assert!(wildcard_match("*", "anything"));
    assert!(wildcard_match("exact", "exact"));
}

#[test]
fn unattached_databases_refuse_to_save() {
    let database = KnownHosts::empty();
    let error = database.save().expect_err("must fail");
    assert_eq!(error.code(), ErrorCode::Config);
}

#[test]
fn revocation_wins_over_a_matching_entry() {
    let database = db(&format!(
        "host.example.com ssh-ed25519 {0}\n@revoked host.example.com ssh-ed25519 {0}\n",
        encode(KEY_A)
    ));
    assert_eq!(
        database.check("host.example.com", 22, "ssh-ed25519", KEY_A),
        HostKeyStatus::Revoked
    );
}

#[test]
fn databases_read_back_what_they_write() {
    let mut database = KnownHosts::empty().with_path("/tmp/known_hosts");
    database.accept("a.example.com", 22, "ssh-ed25519", KEY_A, "first");
    database.accept("b.example.com", 2222, "ssh-rsa", KEY_B, "");
    let (path, text) = database.save().expect("attached");
    assert_eq!(path, "/tmp/known_hosts");
    assert_eq!(
        text,
        format!(
            "a.example.com ssh-ed25519 {} first\n[b.example.com]:2222 ssh-rsa {}\n",
            encode(KEY_A),
            encode(KEY_B)
        )
    );
    let again = KnownHosts::parse(&text);
    assert_eq!(again.len(), 2);
    assert_eq!(again.check("b.example.com", 2222, "ssh-rsa", KEY_B), HostKeyStatus::Trusted);
    assert_eq!(again.to_string_lossy(), text);
}

#[test]
fn fingerprints_are_the_digest_in_base64() {
    assert_eq!(
        fingerprint(b"abc"),
        "SHA256:ungWv48Bz+pBQUDeXa4iI7ADYaOWF3qctBD/YfIAFa0"
    );
}

fn handler(policy: HostKeyPolicy) -> ClientHandler {
    ClientHandler::new(KnownHosts::empty(), "host.example.com", 22, policy)
}

#[test]
fn a_recorded_key_is_accepted_without_asking() {
    let mut handler = handler(HostKeyPolicy::Strict);
    handler.remember_host_key("ssh-ed25519", b"key-bytes");
    assert!(handler.verify_host_key("ssh-ed25519", b"key-bytes").is_ok());
    assert!(handler.accepted_fingerprint().is_none());
}

#[test]
fn a_changed_key_is_fatal_under_both_policies() {
    for policy in [HostKeyPolicy::Strict, HostKeyPolicy::AcceptNew] {
        let mut handler = handler(policy);
        handler.remember_host_key("ssh-ed25519", b"key-bytes");
        let error = handler.verify_host_key("ssh-ed25519", b"different").expect_err("must fail");
        assert!(matches!(
            error.code(),
            ErrorCode::HostKeyMismatch | ErrorCode::HostKeyUnknown
        ));
    }
}

#[test]
fn strict_policy_refuses_unknown_hosts() {
    let handler = handler(HostKeyPolicy::Strict);
    let error = handler.verify_host_key("ssh-ed25519", b"key").expect_err("must fail");
    assert_eq!(error.code(), ErrorCode::HostKeyUnknown);
}

#[test]
fn accept_new_policy_permits_unknown_hosts() {
    let handler = handler(HostKeyPolicy::AcceptNew);
    assert!(handler.verify_host_key("ssh-ed25519", b"key").is_ok());
}

#[test]
fn prompts_never_carry_secret_material() {
    let prompt = Prompt::Credential {
        instruction: "Password for alice".to_owned(),
        prompts: vec![("Password: ".to_owned(), false)],
    };
    let description = describe_prompt(&prompt);
    assert!(description.contains("<redacted>"), "{description}");
    assert!(!description.contains("hunter2"));

    let prompt = Prompt::UnknownHostKey {
        host: "host".to_owned(),
        port: 22,
        key_type: "ssh-ed25519".to_owned(),
        fingerprint: "SHA256:abc".to_owned(),
    };
    assert!(describe_prompt(&prompt).contains("SHA256:abc"));
}

#[test]
fn an_accepted_key_is_remembered_when_asked_for() {
    let mut once = handler(HostKeyPolicy::Strict);
    let accepted = once
        .answer("ssh-ed25519", b"key", PromptReply::Decided(HostKeyDecision::AcceptOnce))
        .expect("answered");
    assert!(accepted);
    assert_eq!(once.known_hosts().len(), 0);

    let mut saved = handler(HostKeyPolicy::AcceptNew);
    let accepted = saved
        .answer("ssh-ed25519", b"key", PromptReply::Decided(HostKeyDecision::AcceptAndSave))
        .expect("answered");
    assert!(accepted);
    assert_eq!(saved.known_hosts().len(), 1);
    assert!(matches!(saved.check_server_key("ssh-ed25519", b"key"), KeyStep::Accept));
    assert!(matches!(saved.check_server_key("ssh-ed25519", b"other"), KeyStep::Refuse(_)));
    assert!(saved.answer("ssh-ed25519", b"key", PromptReply::Unavailable).is_err());
}

fn connection() -> SshConnection {
    SshConnection {
        host: "example.com".to_owned(),
        port: 22,
        username: "alice".to_owned(),
        host_key_policy: HostKeyPolicy::Strict,
        known_hosts_path: None,
        auth: AuthMethod::Password(CredentialSource::Prompt),
        command: SshCommand::InteractiveShell,
        size: TerminalSize::default(),
        term: "xterm-256color".to_owned(),
        keepalive_secs: 30,
        connect_timeout_secs: 10,
        compression: false,
        environment: vec!["LANG=C.UTF-8".to_owned()],
        agent_socket: None,
    }
}

#[test]
fn connection_parameters_are_validated() {
    let mut bad = connection();
    bad.host = "  ".to_owned();
    assert!(bad.host.trim().is_empty());
    assert_eq!(bad.plan().expect_err("must fail").code(), ErrorCode::InvalidInput);
    let plan = connection().plan().expect("plan");
    assert_eq!(plan.address, "example.com:22");
}

#[test]
fn terminal_size_defaults_are_sane() {
    let size = TerminalSize::default();
    assert_eq!((size.cols, size.rows), (80, 24));
}

#[test]
fn errors_are_classified() {
    let error = classify(SshFailure::Timeout, "timed out", "connect");
    assert_eq!(error.code(), ErrorCode::Timeout);
    let error = classify(SshFailure::Disconnect, "disconnected", "connect");
    assert_eq!(error.code(), ErrorCode::Network);
    assert_eq!(error.detail("operation").unwrap(), "connect");
}

#[test]
fn a_connection_built_from_options_keeps_its_policy() {
    let mut options = SshOptions::default();
    options.connect_timeout_secs = 7;
    options.compression = true;
    let connection = SshConnection::new(
        "build.example.com",
        2222,
        "ci",
        AuthMethod::default(),
        &options,
        SshCommand::Command("make".to_owned()),
        TerminalSize::default(),
    );
    assert_eq!(connection.host, "build.example.com");
    assert_eq!(connection.port, 2222);
    assert_eq!(connection.username, "ci");
    assert_eq!(connection.command, SshCommand::Command("make".to_owned()));
    assert_eq!(connection.host_key_policy, HostKeyPolicy::Strict);
    assert!(connection.compression);
    assert_eq!(connection.connect_timeout_secs, 7);
}

#[test]
fn a_prompt_credential_is_never_silently_satisfied() {
    let error =
        resolve_secret(&CredentialSource::Prompt, "password", None).err().expect("must fail");
    assert_eq!(error.code(), ErrorCode::Authentication);
}

#[test]
fn stored_credentials_are_resolved() {
    let source = CredentialSource::Stored(StoredSecret {
        backend: SecretBackend::EncryptedVault,
        key: "ssh/alpha".to_owned(),
    });
    let secret = resolve_secret(&source, "password", Some(Secret::new("s3cret"))).expect("secret");
    assert_eq!(secret.expose(), "s3cret");
    assert!(resolve_secret(&source, "password", None).is_err());
    assert!(matches!(auth_step(&AuthMethod::Password(source)), AuthStep::Password(_)));
    assert!(matches!(
        auth_step(&AuthMethod::Password(CredentialSource::Prompt)),
        AuthStep::Refuse(_)
    ));
    assert!(matches!(auth_step(&AuthMethod::Unauthenticated), AuthStep::Anonymous));
    assert!(auth_answered(&AuthStep::Anonymous, true).is_ok());
    let step = AuthStep::PrivateKey { path: "/k".to_owned(), passphrase: None };
    let refused = auth_answered(&step, false).expect_err("must fail");
    assert_eq!(refused.message(), "the server refused the public key");
    assert_eq!(refused.code(), ErrorCode::Authentication);
    assert!(key_passphrase(Some(Secret::new("x"))).is_some());
    assert!(key_passphrase(None).is_none());
}

#[test]
fn session_failures_name_what_failed() {
    assert_eq!(connect_timed_out("host:22").code(), ErrorCode::Timeout);
    assert!(connect_timed_out("host:22").to_string().contains("host:22"));
    assert!(delivered(true).is_ok());
    assert_eq!(delivered(false).expect_err("closed").code(), ErrorCode::SessionState);
    assert_eq!(key_read_failed("denied", "/k").detail("path"), Some("/k".to_owned()));
    assert_ne!(
        key_decode_failed(true, "bad", "/k").to_string(),
        key_decode_failed(false, "bad", "/k").to_string()
    );
}

#[test]
fn progress_fraction_is_clamped() {
    let progress = TransferProgress {
        direction: TransferDirection::Upload,
        transferred: 5,
        total: Some(10),
    };
    assert_eq!(progress.permille(), 500);

    let unknown = TransferProgress { total: None, ..progress };
    assert_eq!(unknown.permille(), 0);

    let complete = TransferProgress { transferred: 20, total: Some(10), ..progress };
    assert_eq!(complete.permille(), 1000);
}

#[test]
fn cancellation_is_observable() {
    let (_, step) = Transfer::start(TransferDirection::Download, "/srv/a", Some(10), false);
    assert!(matches!(step, TransferStep::Read));
    let (_, step) = Transfer::start(TransferDirection::Download, "/srv/a", Some(10), true);
    match step {
        TransferStep::Discard(error) => {
            assert_eq!(error.code(), ErrorCode::Cancelled);
            assert_eq!(error.message(), "the download was cancelled");
            assert_eq!(error.detail("path"), Some("/srv/a".to_owned()));
        },
        other => panic!("unexpected {other:?}"),
    }
}

#[test]
fn transfers_run_to_completion() {
    let (mut transfer, step) = Transfer::start(TransferDirection::Upload, "/srv/a", Some(4), false);
    assert!(matches!(step, TransferStep::Read));
    assert!(transfer.expects(&TransferEvent::Read(4)));
    assert!(!transfer.expects(&TransferEvent::Flushed));
    assert!(matches!(transfer.step(TransferEvent::Read(4), false), TransferStep::Write));
    assert!(matches!(transfer.step(TransferEvent::Written, false), TransferStep::Read));
    assert_eq!(transfer.progress().permille(), 1000);
    assert!(matches!(transfer.step(TransferEvent::Read(0), false), TransferStep::Flush));
    assert!(matches!(transfer.step(TransferEvent::Flushed, false), TransferStep::Replace));
    assert!(matches!(transfer.step(TransferEvent::Replaced, false), TransferStep::Done(4)));
    assert!(!transfer.expects(&TransferEvent::Replaced));
}

#[test]
fn interrupted_transfers_are_discarded() {
    let (mut transfer, _) = Transfer::start(TransferDirection::Upload, "/srv/a", None, false);
    transfer.step(TransferEvent::Read(4), false);
    let failed = RdtError::new(ErrorCode::Transfer, "disk full");
    match transfer.step(TransferEvent::Failed(failed), false) {
        TransferStep::Discard(error) => assert_eq!(error.message(), "disk full"),
        other => panic!("unexpected {other:?}"),
    }
    let (mut transfer, _) = Transfer::start(TransferDirection::Upload, "/srv/a", None, false);
    transfer.step(TransferEvent::Read(4), false);
    assert!(matches!(transfer.step(TransferEvent::Written, true), TransferStep::Discard(_)));
}

#[test]
fn listings_put_directories_first() {
    let entry = |name: &str, is_dir: bool| RemoteEntry {
        name: name.to_owned(),
        is_dir,
        is_symlink: false,
        size: None,
        modified: None,
        permissions: None,
    };
    let listing = vec![entry("b.txt", false), entry("Zoo", true), entry("A.txt", false)];
    let names: Vec<String> = sort_listing(&listing).into_iter().map(|e| e.name).collect();
    assert_eq!(names, vec!["Zoo", "A.txt", "b.txt"]);
    assert!(check_preview(Some(10), 10).is_ok());
    assert!(check_preview(Some(11), 10).is_err());
    assert_eq!(map_sftp(SftpFailure::NotFound, "gone", "/x").code(), ErrorCode::NotFound);
    assert_eq!(
        map_sftp(SftpFailure::PermissionDenied, "no", "/x").code(),
        ErrorCode::Permission
    );
    assert!(upload_temporary("/srv/a").starts_with("/srv/a"));
}

#[test]
fn transport_displays_its_target() {
    let transport = AgentTransport::UnixSocket("/tmp/agent.sock".to_owned());
    assert_eq!(transport.display(), "/tmp/agent.sock");
    let pipe = AgentTransport::NamedPipe(r"\\.\pipe\openssh-ssh-agent".to_owned());
    assert!(pipe.display().contains("openssh"));
}

#[test]
fn a_missing_socket_is_refused() {
    let error = verify_socket_permissions(
        "/tmp/rdt-does-not-exist.sock",
        Err("No such file or directory (os error 2)"),
        1000,
    )
    .expect_err("must fail");
    assert!(matches!(error.code(), ErrorCode::Io | ErrorCode::Permission));
}

#[test]
fn detection_follows_the_environment() {
    assert!(AgentTransport::detect(None, Err("unused"), 1000).is_err());
}

#[test]
fn sockets_of_other_users_are_refused() {
    let own = SocketMetadata { mode: 0o140600, owner: 1000 };
    assert!(verify_socket_permissions("/run/agent.sock", Ok(own), 1000).is_ok());
    let foreign = SocketMetadata { mode: 0o140600, owner: 0 };
    let error =
        verify_socket_permissions("/run/agent.sock", Ok(foreign), 1000).expect_err("must fail");
    assert_eq!(error.code(), ErrorCode::Permission);
    let open = SocketMetadata { mode: 0o140666, owner: 1000 };
    let error = verify_socket_permissions("/run/agent.sock", Ok(open), 1000).expect_err("must fail");
    assert_eq!(error.message(), "the agent socket is writable by others (mode 666)");
    let plain = SocketMetadata { mode: 0o600, owner: 1000 };
    let error =
        verify_socket_permissions("/run/agent.sock", Ok(plain), 1000).expect_err("must fail");
    assert_eq!(error.message(), "SSH_AUTH_SOCK does not point at a socket");
}

#[test]
fn only_sockets_pass_as_sockets() {
    for mode in [0o100600, 0o040700, 0o020600, 0o120777, 0o060600] {
        let found = SocketMetadata { mode, owner: 1000 };
        let error =
            verify_socket_permissions("/run/agent.sock", Ok(found), 1000).expect_err("must fail");
        assert_eq!(error.message(), "SSH_AUTH_SOCK does not point at a socket");
    }
}

#[test]
fn new_keys_are_recorded_under_accept_new() {
    let mut lenient = handler(HostKeyPolicy::AcceptNew);
    assert!(matches!(lenient.check_server_key("ssh-ed25519", b"key"), KeyStep::Accept));
    assert_eq!(lenient.known_hosts().len(), 1);
    assert_eq!(lenient.accepted_fingerprint(), Some(fingerprint(b"key")));
    assert!(matches!(lenient.check_server_key("ssh-ed25519", b"key"), KeyStep::Accept));
    assert_eq!(lenient.known_hosts().len(), 1);
    assert!(matches!(lenient.check_server_key("ssh-ed25519", b"other"), KeyStep::Refuse(_)));

    let mut strict = handler(HostKeyPolicy::Strict);
    match strict.check_server_key("ssh-ed25519", b"key") {
        KeyStep::Refuse(error) => assert_eq!(error.code(), ErrorCode::HostKeyUnknown),
        KeyStep::Accept => panic!("an unknown key was accepted"),
    }
    assert_eq!(strict.known_hosts().len(), 0);
    assert_eq!(strict.accepted_fingerprint(), None);
}

fn test_key() -> PrivateKey {
    PrivateKey::from(Ed25519Keypair::from_seed(&[7u8; 32]))
}

fn armored(key: &PrivateKey) -> String {
    key.to_openssh(LineEnding::LF).expect("text").to_string()
}

#[test]
fn plain_private_keys_are_read() {
    let key = test_key();
    let text = armored(&key);
    let read = load_private_key(&text, None, "/k").expect("key");
    assert_eq!(read.public_key(), key.public_key());
    let read = load_private_key(&text, Some(Secret::empty()), "/k").expect("key");
    assert_eq!(read.public_key(), key.public_key());
    let error = load_private_key("no key", None, "/k").expect_err("must fail");
    assert_eq!(error.code(), ErrorCode::Crypto);
    assert!(error.message().starts_with("cannot parse the private key: "), "{}", error.message());
    assert_eq!(error.detail("path"), Some("/k".to_owned()));
}

#[test]
fn encrypted_private_keys_need_their_passphrase() {
    let key = test_key();
    let kdf = Kdf::Bcrypt { salt: vec![3; 16], rounds: 1 };
    let sealed = key.encrypt_with(Cipher::Aes256Ctr, kdf, 5, "open").expect("encrypted");
    let text = armored(&sealed);
    let read = load_private_key(&text, Some(Secret::new("open")), "/k").expect("key");
    assert_eq!(read.public_key(), key.public_key());
    let error = load_private_key(&text, Some(Secret::new("shut")), "/k").expect_err("must fail");
    assert!(error.message().starts_with("cannot decrypt the private key: "), "{}", error.message());
    let error = load_private_key(&text, None, "/k").expect_err("must fail");
    assert!(error.message().starts_with("cannot parse the private key: "), "{}", error.message());
}
