//! Errors, identifiers, protocol types, redaction, randomness, secrets and time.
use rdt::error::{ErrorCode, IoFailure, RdtError};
use rdt::ids::{to_hex, IdParseError, ProfileId, SessionId};
use rdt::proto::{
    AuthMethod, CertPolicy, ColorDepth, CredentialSource, Endpoint, HostKeyPolicy, KeyboardLayout,
    PrivateKeyAuth, Protocol, RdpOptions, ReconnectPolicy, SecretBackend, SshOptions, StoredSecret,
    DEFAULT_FONT_SIZE_BITS,
};
use rdt::redact::{redact_secret_in, Redactor, REDACTED};
use rdt::rng::{entropy_outcome, fill_random, RandomError};
use rdt::secret::{Secret, SecretBytes};
use rdt::timeutil::{civil_from_days, format_rfc3339, format_uptime, utc_now, UtcStamp};

#[test]
fn renders_code_message_and_source() {
    let error = RdtError::new(ErrorCode::Network, "dial failed")
        .context("connecting to host")
        .with_source("inner boom");
    let text = error.to_string();
    assert!(text.starts_with("network: "), "{text}");
    assert!(text.contains("connecting to host"));
    assert!(text.contains("dial failed"));
    assert!(text.contains("inner boom"));
    assert!(error.source().is_some());
}

#[test]
fn io_errors_are_classified() {
    assert_eq!(RdtError::from_io(IoFailure::PermissionDenied, "nope").code(), ErrorCode::Permission);
    assert_eq!(RdtError::from_io(IoFailure::ConnectionRefused, "nope").code(), ErrorCode::Network);
}

#[test]
fn retry_classification_is_stable() {
    assert!(ErrorCode::Network.is_retryable());
    assert!(!ErrorCode::HostKeyMismatch.is_retryable());
    assert!(ErrorCode::HostKeyMismatch.needs_user_decision());
    assert!(!ErrorCode::Network.needs_user_decision());
}

#[test]
fn codes_are_stable_strings() {
    assert_eq!(ErrorCode::HostKeyUnknown.as_str(), "host_key_unknown");
    assert_eq!(ErrorCode::Tls.as_str(), "tls");
    assert_eq!(ErrorCode::Tls.to_string(), "tls");
}

#[test]
fn errors_render_in_full() {
    let plain = RdtError::new(ErrorCode::Config, "bad value");
    assert_eq!(plain.to_string(), "config: bad value");
    let noted = RdtError::new(ErrorCode::Io, "no such file")
        .with_context("path", "/tmp/x")
        .context("loading")
        .with_source("os error 2");
    assert_eq!(noted.detail("path"), Some("/tmp/x".to_owned()));
    assert_eq!(noted.detail("profile"), None);
    assert_eq!(noted.to_string(), format!("io: {}", noted.to_single_line()));
    assert!(noted.to_single_line().starts_with("loading: path: /tmp/x"));
}

#[test]
fn identifiers_are_unique() {
    let a = SessionId::new();
    let b = SessionId::new();
    assert_ne!(a, b);
}

#[test]
fn identifiers_round_trip_through_text() {
    let id = ProfileId::new();
    let text = id.to_string();
    assert_eq!(text.len(), 16);
    assert_eq!(text.parse::<ProfileId>().expect("parse"), id);
}

#[test]
fn identifiers_reject_bad_input() {
    assert_eq!("abc".parse::<ProfileId>(), Err(IdParseError::Length(3)));
    assert_eq!("zzzzzzzzzzzzzzzz".parse::<ProfileId>(), Err(IdParseError::NotHex));
}

#[test]
fn identifiers_survive_a_round_trip_through_text() {
    let id = SessionId::new();
    let text = id.to_string();
    let back: SessionId = text.parse().expect("parse");
    assert_eq!(id, back);
    assert_eq!(back.as_bytes(), id.as_bytes());
}

#[test]
fn identifiers_are_exactly_sixteen_digits() {
    let id = ProfileId::from_bytes([0x00, 0x1f, 0xa0, 0xff, 0x10, 0x02, 0x9c, 0x7e]);
    assert_eq!(id.to_string(), "001fa0ff10029c7e");
    assert_eq!("001FA0FF10029C7E".parse::<ProfileId>(), Ok(id));
    assert_eq!("+01fa0ff10029c7e".parse::<ProfileId>(), Err(IdParseError::NotHex));
    assert_eq!("001fa0ff10029c7e0".parse::<ProfileId>(), Err(IdParseError::Length(17)));
    assert_eq!(to_hex(&[0xAB, 0x01]), "ab01");
}

#[test]
fn protocol_defaults_are_conventional() {
    assert_eq!(Protocol::Ssh.default_port(), 22);
    assert_eq!(Protocol::Rdp.default_port(), 3389);
    assert_eq!("RDP".parse::<Protocol>().expect("parse"), Protocol::Rdp);
    assert!("telnet".parse::<Protocol>().is_err());
}

#[test]
fn endpoint_parsing_handles_ports_and_ipv6() {
    assert_eq!(
        Endpoint::parse("db01:2222", Protocol::Ssh).expect("parse").to_string(),
        "db01:2222"
    );
    assert_eq!(Endpoint::parse("db01", Protocol::Rdp).expect("parse").to_string(), "db01:3389");
    let v6 = Endpoint::parse("[2001:db8::1]:3390", Protocol::Rdp).expect("parse");
    assert_eq!(v6.host, "2001:db8::1");
    assert_eq!(v6.port, 3390);
    assert_eq!(v6.to_string(), "[2001:db8::1]:3390");
    assert!(Endpoint::parse("host:notaport", Protocol::Ssh).is_err());
    assert!(Endpoint::parse("", Protocol::Ssh).is_err());
    assert!(Endpoint::parse("bad host", Protocol::Ssh).is_err());
}

#[test]
fn host_key_policy_parses() {
    assert_eq!("strict".parse::<HostKeyPolicy>().expect("parse"), HostKeyPolicy::Strict);
    assert_eq!("accept-new".parse::<HostKeyPolicy>().expect("parse"), HostKeyPolicy::AcceptNew);
    assert!(!HostKeyPolicy::Strict.auto_accepts_unknown());
    assert!("no".parse::<HostKeyPolicy>().is_err());
}

#[test]
fn auth_method_descriptions_never_leak() {
    let method = AuthMethod::Password(CredentialSource::Prompt);
    assert_eq!(method.describe(), "password");
    for method in [
        AuthMethod::Unauthenticated,
        AuthMethod::Password(CredentialSource::Prompt),
        AuthMethod::PrivateKey(PrivateKeyAuth::default()),
        AuthMethod::Agent { identity: None },
        AuthMethod::KeyboardInteractive(CredentialSource::Prompt),
    ] {
        let description = method.describe();
        assert!(!description.contains("hunter2"), "{description}");
        assert!(description.len() < 64, "{description}");
    }
}

#[test]
fn reconnect_backoff_grows_and_stops() {
    let policy = ReconnectPolicy {
        enabled: true,
        max_attempts: 3,
        initial_backoff_secs: 2,
        max_backoff_secs: 60,
    };
    assert_eq!(policy.delay_for(0), None);
    let first = policy.delay_for(1).expect("delay");
    let second = policy.delay_for(2).expect("delay");
    assert!(second >= first, "{second:?} should not shrink below {first:?}");
    assert_eq!(policy.delay_for(4), None);
    let disabled = ReconnectPolicy { enabled: false, ..policy };
    assert_eq!(disabled.delay_for(1), None);
}

#[test]
fn backoff_is_bounded() {
    let policy = ReconnectPolicy {
        enabled: true,
        max_attempts: 0,
        initial_backoff_secs: 4,
        max_backoff_secs: 60,
    };
    assert_eq!(policy.delay_for(1), Some(4));
    assert_eq!(policy.delay_for(3), Some(20));
    assert_eq!(policy.delay_for(7), Some(60));
    assert_eq!(policy.delay_for(u32::MAX), Some(60));
}

#[test]
fn reconnect_validation_rejects_nonsense() {
    assert!(ReconnectPolicy::default().validate().is_ok());
    let broken = ReconnectPolicy { initial_backoff_secs: 0, ..Default::default() };
    assert_eq!(broken.validate().unwrap_err().code(), ErrorCode::InvalidInput);
    let inverted =
        ReconnectPolicy { initial_backoff_secs: 30, max_backoff_secs: 5, ..Default::default() };
    assert!(inverted.validate().is_err());
}

#[test]
fn option_defaults_are_safe_and_sane() {
    let options = RdpOptions::default();
    assert_eq!(options.cert_policy, CertPolicy::Verify);
    assert!(options.clipboard);
    assert!(options.dynamic_resize);
    assert!(!options.console_session);
    assert!(!options.allow_tls_fallback);
    assert_eq!(options.width, 1280);
    assert_eq!(options.height, 800);

    let ssh = SshOptions::default();
    assert_eq!(ssh.host_key_policy, HostKeyPolicy::Strict);
    assert!(!ssh.compression);
    assert!(ssh.sftp_enabled);
    assert_eq!(ssh.keepalive_secs, 30);
    assert!(ssh.connect_timeout_secs > 0);
    assert!(ssh.reconnect.enabled);
    assert_eq!(f32::from_bits(DEFAULT_FONT_SIZE_BITS), 14.0);
    assert_eq!(ssh.terminal.font_size_bits, DEFAULT_FONT_SIZE_BITS);
}

#[test]
fn color_depth_reports_bpp() {
    assert_eq!(ColorDepth::Rgb565.bits_per_pixel(), 16);
    assert_eq!(ColorDepth::default().bits_per_pixel(), 24);
}

#[test]
fn keyboard_layouts_have_windows_identifiers() {
    assert_eq!(KeyboardLayout::default().id(), 0x0409);
    assert_eq!(KeyboardLayout::DE.id(), 0x0407);
    assert_eq!(KeyboardLayout::all().len(), 5);
    assert_eq!(KeyboardLayout::FR.name(), "French");
}

#[test]
fn known_secrets_are_scrubbed() {
    let redactor = Redactor::new().with_secret("Sup3rSecret!");
    let line = "user auth ok with Sup3rSecret! after 3 tries";
    let scrubbed = redactor.redact(line);
    assert!(!scrubbed.contains("Sup3rSecret!"));
    assert!(scrubbed.contains(REDACTED));
}

#[test]
fn sensitive_pairs_are_scrubbed() {
    let redactor = Redactor::new();
    assert_eq!(
        redactor.redact("password=hunter2 user=root"),
        format!("password={REDACTED} user=root")
    );
    assert_eq!(
        redactor.redact("Authorization: Bearer abc.def"),
        format!("Authorization: {REDACTED}")
    );
    assert_eq!(redactor.redact("passphrase: 'x y'"), format!("passphrase: {REDACTED}"));
}

#[test]
fn innocuous_pairs_are_untouched() {
    let redactor = Redactor::new();
    let line = "host=db01 port=22 user=alice";
    assert_eq!(redactor.redact(line), line);
}

#[test]
fn very_short_secrets_are_ignored() {
    let redactor = Redactor::new().with_secret("abc");
    assert_eq!(redactor.secret_count(), 0);
}

#[test]
fn redact_secret_in_handles_empty_secret() {
    assert_eq!(redact_secret_in("keep me", ""), "keep me");
    assert_eq!(redact_secret_in("a b a", "a"), format!("{REDACTED} b {REDACTED}"));
}

#[test]
fn secrets_are_known_once() {
    let redactor = Redactor::new().with_secret("topsecret").with_secret("topsecret");
    assert_eq!(redactor.secret_count(), 1);
    assert_eq!(redactor.redact("xtopsecretx"), format!("x{REDACTED}x"));
    assert_eq!(redactor.show("anything", true), REDACTED);
    assert_eq!(redactor.show("plain", false), "plain");
}

#[test]
fn fills_the_requested_number_of_bytes() {
    let mut buffer = [0u8; 32];
    fill_random(&mut buffer).expect("entropy");
    assert!(buffer.iter().any(|byte| *byte != 0), "buffer stayed zeroed");
}

#[test]
fn consecutive_draws_differ() {
    let mut a = [0u8; 16];
    let mut b = [0u8; 16];
    fill_random(&mut a).expect("entropy");
    fill_random(&mut b).expect("entropy");
    assert_ne!(a, b);
}

#[test]
fn empty_buffer_is_a_no_op() {
    fill_random(&mut []).expect("entropy");
}

#[test]
fn entropy_failures_keep_their_message() {
    assert_eq!(entropy_outcome(Ok(())), Ok(()));
    assert_eq!(
        entropy_outcome(Err("no device".to_owned())),
        Err(RandomError::Source("no device".to_owned()))
    );
}

#[test]
fn errors_render_readably() {
    let error = RandomError::Source("disk on fire".to_owned());
    assert_eq!(error.to_string(), "cannot read entropy: disk on fire");
    assert_eq!(RandomError::Unsupported.to_string(), "no entropy source on this platform");
}

#[test]
fn secrets_are_zeroized() {
    let mut secret = Secret::new("wipe-me");
    assert_eq!(secret.expose(), "wipe-me");
    secret.wipe();
    assert!(secret.is_empty());

    let mut bytes = SecretBytes::new(vec![1, 2, 3]);
    bytes.wipe();
    assert!(bytes.expose().is_empty());
}

#[test]
fn display_and_debug_redact() {
    let secret = Secret::new("hunter2");
    assert_eq!(secret.to_string(), REDACTED);
    let debug = secret.debug_text();
    assert!(!debug.contains("hunter2"), "{debug} leaked the secret");
    assert!(debug.contains(REDACTED));
    assert!(Secret::empty().debug_text().contains(REDACTED));
    let bytes = SecretBytes::new(vec![9, 9, 9]);
    let debug = bytes.debug_text();
    assert!(debug.contains(REDACTED) && !debug.contains('9'), "{debug}");
}

#[test]
fn the_redaction_marker_is_rejected_on_the_way_in() {
    let rejected = Secret::from_untrusted(REDACTED).err().expect("must be refused");
    assert_eq!(rejected.code(), ErrorCode::Config);
    assert!(rejected.to_string().contains("redacted"));
    assert_eq!(Secret::from_untrusted("real").expect("ok").expose(), "real");
    assert_eq!(Secret::from_untrusted("").expect("ok").expose(), "");
}

#[test]
fn empty_is_detected() {
    assert!(Secret::empty().is_empty());
    assert!(!Secret::new("x").is_empty());
    assert_eq!(Secret::new("abc").len(), 3);
}

#[test]
fn equality_is_value_based() {
    assert!(Secret::new("abc").equals(&Secret::new("abc")));
    assert!(!Secret::new("abc").equals(&Secret::new("abd")));
    // Length differences must not panic inside the constant time compare.
    assert!(!Secret::new("abc").equals(&Secret::new("abcd")));
    assert!(Secret::new("abc").equals_bytes(b"abc"));
    assert!(!Secret::new("abc").equals_bytes(b"abd"));
    assert!(!Secret::new("abc").equals_bytes(b"abcd"));
    assert!(SecretBytes::new(vec![1]) == SecretBytes::new(vec![1]));
    assert!(SecretBytes::new(vec![1]) != SecretBytes::new(vec![1, 2]));
}

#[test]
fn expose_is_explicit() {
    assert_eq!(Secret::new("value").expose(), "value");
    assert_eq!(SecretBytes::new(vec![1u8, 2]).expose(), &[1u8, 2]);
    assert_eq!(&*SecretBytes::new(vec![7]), &[7u8][..]);
    assert_eq!(
        SecretBytes::new(b"utf8".to_vec()).into_utf8_secret().expect("utf8").expose(),
        "utf8"
    );
    assert!(SecretBytes::new(vec![0xFF]).into_utf8_secret().is_none());
}

#[test]
fn conversions_build_secrets() {
    assert_eq!(Secret::from("abc").expose(), "abc");
    assert_eq!(Secret::from(String::from("def")).expose(), "def");
    assert_eq!(SecretBytes::from(Secret::new("xy")).expose(), b"xy");
    assert_eq!(SecretBytes::from(vec![3u8]).len(), 1);
}

#[test]
fn stored_secret_references_never_hold_the_value() {
    let reference = StoredSecret {
        backend: SecretBackend::EncryptedVault,
        key: "ssh/alpha".to_owned(),
    };
    assert_eq!(reference.backend, SecretBackend::EncryptedVault);
    assert_eq!(reference.key, "ssh/alpha");
    let debug = format!("{reference:?}");
    assert!(debug.contains("ssh/alpha") && debug.contains("EncryptedVault"), "{debug}");
    assert_ne!(SecretBackend::OsKeystore, SecretBackend::EncryptedVault);
}

#[test]
fn formats_the_epoch() {
    assert_eq!(format_rfc3339(0), "1970-01-01T00:00:00.000Z");
}

#[test]
fn formats_known_timestamps() {
    // 2024-02-29T23:59:59.500Z (a leap day, just before midnight)
    let millis: u64 = 1_709_251_199_500;
    assert_eq!(format_rfc3339(millis), "2024-02-29T23:59:59.500Z");
    // 2000-01-01T00:00:00.000Z
    assert_eq!(format_rfc3339(946_684_800_000), "2000-01-01T00:00:00.000Z");
    // 2038-01-19T03:14:07.000Z - the 32 bit overflow point
    assert_eq!(format_rfc3339(2_147_483_647_000), "2038-01-19T03:14:07.000Z");
}

#[test]
fn every_day_of_a_four_year_cycle_maps_back() {
    // Walk two full leap cycles and check the day counter is consistent.
    let mut days = 0i64;
    let mut expected = days_since_civil(1970, 1, 1);
    for _ in 0..(365 * 8 + 2) {
        let (year, month, day) = civil_from_days(days);
        assert_eq!(days_since_civil(year, month, day), expected);
        days += 1;
        expected += 1;
    }
}

#[test]
fn uptime_is_human_readable() {
    assert_eq!(format_uptime(59), "00:00:59");
    assert_eq!(format_uptime(3661), "01:01:01");
    assert_eq!(format_uptime(90_061), "1d 01:01:01");
}

#[test]
fn stamps_measure_elapsed_time() {
    let stamp = UtcStamp::from_millis(utc_now().millis().saturating_sub(1500));
    assert!(stamp.elapsed_millis() >= 1500);
}

/// Inverse of [`civil_from_days`], used only by the tests above.
fn days_since_civil(year: i64, month: u32, day: u32) -> i64 {
    let y = if month <= 2 { year - 1 } else { year };
    let era = if y >= 0 { y } else { y - 399 } / 400;
    let yoe = (y - era * 400) as u64;
    let m = month as u64;
    let doy = (153 * (if m > 2 { m - 3 } else { m + 9 }) + 2) / 5 + day as u64 - 1;
    let doe = yoe * 365 + yoe / 4 - yoe / 100 + doy;
    era * 146_097 + doe as i64 - 719_468
}

#[test]
fn configuration_names_of_policies_are_read_back() {
    for policy in [HostKeyPolicy::Strict, HostKeyPolicy::AcceptNew] {
        assert_eq!(policy.as_str().parse::<HostKeyPolicy>().expect("parse"), policy);
    }
    assert_eq!(HostKeyPolicy::AcceptNew.as_str(), "accept_new");
}

#[test]
fn sensitive_pairs_are_scrubbed_whatever_stands_before() {
    let redactor = Redactor::new();
    assert_eq!(
        redactor.redact("login failed: password=hunter2"),
        "login failed: password=<redacted>"
    );
    assert_eq!(redactor.redact("url=http://h/?token=abc x"), "url=http://h/?token=<redacted> x");
    assert_eq!(
        redactor.redact("warn: note: Authorization: Bearer abc"),
        "warn: note: Authorization: <redacted>"
    );
    assert_eq!(redactor.redact("password=token: abc def"), "password=<redacted> <redacted>");
    assert_eq!(redactor.redact("token: a password=b\nuser=c"), "token: <redacted>\nuser=c");
    assert_eq!(redactor.redact("password= x"), "password= x");
}

#[test]
fn conversions_keep_the_secret() {
    assert_eq!(Secret::from("abc").expose(), "abc");
    assert_eq!(Secret::from("abc".to_owned()).expose(), "abc");
    assert_eq!(SecretBytes::from(Secret::from("é")).expose(), "é".as_bytes());
    assert_eq!(SecretBytes::from(vec![1, 2]).expose(), [1, 2]);
    let id = ProfileId::from_bytes([1, 2, 3, 4, 5, 6, 7, 8]);
    assert_eq!(id.to_string().parse::<ProfileId>().expect("id").to_string(), "0102030405060708");
    assert!("0102".parse::<SessionId>().is_err());
    assert_eq!(" SSH ".parse::<Protocol>().expect("protocol"), Protocol::Ssh);
    assert!("ftp".parse::<Protocol>().is_err());
}
