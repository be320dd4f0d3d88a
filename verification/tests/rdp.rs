//! The framebuffer, certificate decisions, the clipboard and RDP sessions.
use rdt::clipboard::{
    helper_result, ClipboardBridge, ClipboardFormat, ClipboardOperation, DesktopTools,
    HelperOutcome, UnixClipboard,
};
use rdt::error::ErrorCode;
use rdt::framebuffer::{DamageRect, Framebuffer};
use rdt::proto::{CertPolicy, CredentialSource, KeyboardLayout};
use rdt::rdp_session::{
    accepted_certificate, client_dir, client_name, connect_failed, encode_input, map_connector,
    next_step, platform_id, CommandStep, ConnectFailure, DesktopSize, Platform, PointerChange,
    RdpEvent, RdpInput, RdpSession, RdpTarget, SessionCommand, SessionMetrics, StageOutput,
    WireInput,
};
use rdt::secret::Secret;
use rdt::tls::{sha256_fingerprint, CertificateDecision, CertificateVerifier, PinnedCertificates};

#[test]
fn a_new_framebuffer_is_black() {
    let buffer = Framebuffer::new(4, 2);
    assert_eq!(buffer.pixels().len(), 4 * 2 * 4);
    assert!(buffer.pixels().iter().all(|byte| *byte == 0));
    assert!(!buffer.is_dirty());
    assert_eq!(buffer.stride(), 16);
}

#[test]
fn blitting_records_damage() {
    let mut buffer = Framebuffer::new(4, 4);
    let rect = DamageRect { left: 1, top: 1, width: 2, height: 2 };
    buffer.blit(rect, &vec![0xAA; 2 * 2 * 4]);
    assert!(buffer.is_dirty());
    let damage = buffer.take_damage();
    assert_eq!(damage, vec![rect]);
    assert!(!buffer.is_dirty());
    assert_eq!(buffer.pixels()[(1 * 4 + 1) * 4], 0xAA);
}

#[test]
fn blits_are_clamped_to_the_buffer() {
    let mut buffer = Framebuffer::new(2, 2);
    buffer.blit(
        DamageRect { left: 1, top: 1, width: 10, height: 10 },
        &vec![0x11; 10 * 10 * 4],
    );
    assert_eq!(buffer.take_damage(), vec![DamageRect { left: 1, top: 1, width: 1, height: 1 }]);
}

#[test]
fn truncated_updates_are_dropped() {
    let mut buffer = Framebuffer::new(4, 4);
    buffer.blit(DamageRect { left: 0, top: 0, width: 4, height: 4 }, &[0xFF; 8]);
    assert!(!buffer.is_dirty());
    assert!(buffer.pixels().iter().all(|byte| *byte == 0));
}

#[test]
fn damage_merges_into_a_bounding_box() {
    let mut buffer = Framebuffer::new(8, 8);
    buffer.mark_dirty(DamageRect { left: 0, top: 0, width: 2, height: 2 });
    buffer.mark_dirty(DamageRect { left: 4, top: 4, width: 2, height: 2 });
    assert_eq!(
        buffer.take_damage(),
        vec![DamageRect { left: 0, top: 0, width: 6, height: 6 }]
    );
}

#[test]
fn resizing_preserves_the_overlap() {
    let mut buffer = Framebuffer::new(2, 2);
    buffer.fill(DamageRect { left: 0, top: 0, width: 2, height: 2 }, [1, 2, 3, 4]);
    buffer.resize(4, 4);
    assert_eq!(buffer.width(), 4);
    assert_eq!(buffer.pixels()[0..4], [1, 2, 3, 4]);
    assert_eq!(buffer.pixels()[(3 * 4 + 3) * 4..], [0, 0, 0, 0]);
    assert!(buffer.is_dirty());
}

#[test]
fn rectangles_union_and_clamp() {
    let a = DamageRect { left: 0, top: 0, width: 2, height: 2 };
    let b = DamageRect { left: 3, top: 3, width: 2, height: 2 };
    assert_eq!(a.union(b), DamageRect { left: 0, top: 0, width: 5, height: 5 });
    assert!(DamageRect::default().is_empty());
    assert_eq!(DamageRect::default().union(a), a);
    assert_eq!(
        b.clamped(4, 4),
        DamageRect { left: 3, top: 3, width: 1, height: 1 }
    );
}

#[test]
fn the_buffer_describes_itself() {
    assert_eq!(Framebuffer::new(800, 600).to_string(), "800x600 BGRA");
}

const CERT_A: &[u8] = b"certificate-bytes-alpha";
const CERT_B: &[u8] = b"certificate-bytes-bravo";

#[test]
fn a_valid_chain_is_accepted_under_every_policy() {
    for policy in [CertPolicy::Verify, CertPolicy::VerifyOrPinned, CertPolicy::TrustOnFirstUse] {
        let mut verifier = CertificateVerifier::new("host".to_owned(), policy, PinnedCertificates::empty());
        assert_eq!(verifier.verify(CERT_A, true).expect("verify"), CertificateDecision::VerifiedByCa);
    }
}

#[test]
fn verify_policy_refuses_untrusted_certificates() {
    let mut verifier = CertificateVerifier::new("host".to_owned(), CertPolicy::Verify, PinnedCertificates::empty());
    let error = verifier.verify(CERT_A, false).expect_err("must fail");
    assert_eq!(error.code(), ErrorCode::Tls);
}

#[test]
fn pinned_certificates_are_accepted() {
    let mut pins = PinnedCertificates::empty();
    pins.pin("host", &sha256_fingerprint(CERT_A));
    let mut verifier = CertificateVerifier::new("host".to_owned(), CertPolicy::VerifyOrPinned, pins);
    let decision = verifier.verify(CERT_A, false).expect("verify");
    assert!(matches!(decision, CertificateDecision::Pinned { .. }));
}

#[test]
fn a_changed_certificate_is_a_hard_failure() {
    let mut pins = PinnedCertificates::empty();
    pins.pin("host", &sha256_fingerprint(CERT_A));
    for policy in [CertPolicy::VerifyOrPinned, CertPolicy::TrustOnFirstUse] {
        let mut verifier = CertificateVerifier::new("host".to_owned(), policy, pins.clone());
        let error = verifier.verify(CERT_B, false).expect_err("must fail");
        assert_eq!(error.code(), ErrorCode::Tls);
        assert!(error.to_string().contains("changed"));
    }
}

#[test]
fn trust_on_first_use_records_then_enforces() {
    let mut verifier =
        CertificateVerifier::new("host".to_owned(), CertPolicy::TrustOnFirstUse, PinnedCertificates::empty());
    let decision = verifier.verify(CERT_A, false).expect("first use");
    assert!(matches!(decision, CertificateDecision::RecordedOnFirstUse { .. }));
    assert_eq!(verifier.pins().get("host"), Some(sha256_fingerprint(CERT_A).as_str()));
    // A second, different certificate is now refused.
    assert!(verifier.verify(CERT_B, false).is_err());
}

#[test]
fn fingerprints_are_stable_hex() {
    let value = sha256_fingerprint(CERT_A);
    assert!(value.starts_with("sha256:"));
    assert_eq!(value.len(), "sha256:".len() + 64);
    assert_eq!(value, sha256_fingerprint(CERT_A));
    assert_ne!(value, sha256_fingerprint(CERT_B));
}

#[test]
fn pins_are_case_insensitive_and_removable() {
    let mut pins = PinnedCertificates::empty();
    pins.pin("Host.Example.COM", "sha256:aa");
    assert_eq!(pins.get("host.example.com"), Some("sha256:aa"));
    assert_eq!(pins.len(), 1);
    assert!(pins.unpin("HOST.example.com"));
    assert!(pins.is_empty());
    assert!(!pins.unpin("host.example.com"));
}

#[test]
fn unattached_pin_stores_refuse_to_save() {
    let pins = PinnedCertificates::empty();
    let error = pins.save().expect_err("must fail");
    assert_eq!(error.code(), ErrorCode::Config);
}

#[test]
fn fingerprints_are_digests() {
    assert_eq!(
        sha256_fingerprint(b"abc"),
        "sha256:ba7816bf8f01cfea414140de5dae2223b00361a396177a9cb410ff61f20015ad"
    );
    assert_eq!(
        accepted_certificate(CertificateDecision::VerifiedByCa, b"abc"),
        sha256_fingerprint(b"abc")
    );
}

#[test]
fn attached_pin_stores_read_back_what_they_write() {
    let mut pins = PinnedCertificates::load("/tmp/pins.json", Ok(Some("{}".to_owned()))).expect("load");
    assert!(pins.is_empty());
    pins.pin("Host", "sha256:aa");
    pins.pin("other", "sha256:\"bb\"");
    let (path, text) = pins.save().expect("attached");
    assert_eq!(path, "/tmp/pins.json");
    let again = PinnedCertificates::load(&path, Ok(Some(text))).expect("load");
    assert_eq!(again, pins);
    assert_eq!(again.get("HOST"), Some("sha256:aa"));
}

#[test]
fn broken_pin_stores_are_reported() {
    let missing = PinnedCertificates::load("/tmp/pins.json", Ok(None)).expect("empty");
    assert!(missing.is_empty());
    assert!(missing.save().is_err());
    let broken = PinnedCertificates::load("/tmp/pins.json", Ok(Some("[1]".to_owned())))
        .expect_err("must fail");
    assert_eq!(broken.code(), ErrorCode::Config);
    assert_eq!(broken.detail("path"), Some("/tmp/pins.json".to_owned()));
    let unreadable = PinnedCertificates::load("/tmp/pins.json", Err("denied".to_owned()))
        .expect_err("must fail");
    assert_eq!(unreadable.code(), ErrorCode::Io);
}

#[test]
fn an_unrecorded_certificate_names_its_fingerprint() {
    let mut verifier = CertificateVerifier::new(
        "host".to_owned(),
        CertPolicy::VerifyOrPinned,
        PinnedCertificates::empty(),
    );
    let error = verifier.verify(CERT_A, false).expect_err("must fail");
    assert_eq!(error.detail("fingerprint"), Some(sha256_fingerprint(CERT_A)));
    assert_eq!(error.message(), "no trusted certificate is recorded for host");
    assert_eq!(verifier.policy(), CertPolicy::VerifyOrPinned);
}

#[test]
fn the_bridge_honours_the_security_settings() {
    let bridge = ClipboardBridge::new(true, false);
    assert!(bridge.allows_remote_to_local());
    assert!(!bridge.allows_local_to_remote());
    let bridge = ClipboardBridge::new(false, true);
    assert!(!bridge.allows_remote_to_local());
    assert!(bridge.allows_local_to_remote());
}

fn tools(wayland: bool, x11: bool) -> DesktopTools {
    DesktopTools {
        wayland_display: wayland,
        x11_display: x11,
        wl_copy: wayland,
        xclip: false,
        xsel: x11,
    }
}

#[test]
fn detection_reports_something_on_every_platform() {
    for wayland in [false, true] {
        for x11 in [false, true] {
            let backend = ClipboardBridge::detect_unix_backend(tools(wayland, x11));
            assert!(matches!(
                backend,
                UnixClipboard::Wayland | UnixClipboard::X11 | UnixClipboard::Missing
            ));
        }
    }
    assert_eq!(ClipboardBridge::detect_unix_backend(tools(true, true)), UnixClipboard::Wayland);
    assert_eq!(ClipboardBridge::detect_unix_backend(tools(false, true)), UnixClipboard::X11);
    assert_eq!(ClipboardBridge::detect_unix_backend(tools(false, false)), UnixClipboard::Missing);
}

#[test]
fn formats_are_distinct() {
    assert_ne!(ClipboardFormat::Text, ClipboardFormat::Png);
    assert_ne!(ClipboardFormat::FileList, ClipboardFormat::Text);
    assert_eq!(ClipboardOperation::GetText, ClipboardOperation::GetText);
}

#[test]
fn a_disabled_direction_is_refused_without_touching_the_clipboard() {
    let bridge = ClipboardBridge::new(false, false);
    let error = bridge.set_local_text("secret", tools(true, true)).expect_err("must fail");
    assert_eq!(error.code(), ErrorCode::Permission);
    let error = bridge.local_text(tools(true, true)).expect_err("must fail");
    assert_eq!(error.code(), ErrorCode::Permission);
}

#[test]
fn helpers_follow_the_desktop() {
    let bridge = ClipboardBridge::new(true, true);
    let copy = bridge.set_local_text("hi", tools(true, false)).expect("call");
    assert_eq!(copy.program, "wl-copy");
    assert_eq!(copy.args, vec!["--type", "text/plain"]);
    assert_eq!(copy.input.as_deref(), Some("hi"));
    let paste = bridge.local_text(tools(false, true)).expect("call");
    assert_eq!(paste.program, "xsel");
    assert_eq!(paste.args, vec!["--clipboard", "--output"]);
    assert_eq!(paste.input, None);
    let missing = bridge.local_text(tools(false, false)).expect_err("must fail");
    assert_eq!(missing.code(), ErrorCode::Platform);
}

#[test]
fn helper_output_must_be_text() {
    assert_eq!(helper_result("xsel", HelperOutcome::Printed(b"ok".to_vec())).expect("text"), "ok");
    let error = helper_result("xsel", HelperOutcome::Printed(vec![0xFF])).expect_err("must fail");
    assert!(error.message().starts_with("xsel returned invalid UTF-8: "));
    assert!(error.message().len() > "xsel returned invalid UTF-8: ".len());
    let error = helper_result("xsel", HelperOutcome::NotStarted("gone".to_owned()))
        .expect_err("must fail");
    assert_eq!(error.message(), "cannot run xsel: gone");
    let error = helper_result("xsel", HelperOutcome::Refused("exit status: 1".to_owned()))
        .expect_err("must fail");
    assert_eq!(error.message(), "xsel exited with exit status: 1");
}

fn target() -> RdpTarget {
    RdpTarget {
        host: "rdp.example.com".to_owned(),
        port: 3389,
        username: "alice".to_owned(),
        domain: None,
        credential: CredentialSource::Prompt,
        cert_policy: CertPolicy::VerifyOrPinned,
        pin_store: None,
        desktop: DesktopSize { width: 1280, height: 800 },
        keyboard: KeyboardLayout::US,
        console_session: false,
        connect_timeout_secs: 10,
        allow_tls_fallback: false,
    }
}

#[test]
fn the_address_is_formatted_correctly() {
    assert_eq!(target().address(), "rdp.example.com:3389");
}

#[test]
fn input_encoding_covers_every_variant() {
    assert!(encode_input(RdpInput::Key { scancode: 0x1E, pressed: true, extended: false }).is_some());
    assert!(encode_input(RdpInput::Key { scancode: 0x1E, pressed: false, extended: true }).is_some());
    assert!(encode_input(RdpInput::Unicode('€')).is_some());
    assert!(encode_input(RdpInput::MouseButton { flags: 0x1000, x: 10, y: 20 }).is_some());
    assert!(encode_input(RdpInput::MouseMove { x: 1, y: 2 }).is_some());
    assert!(encode_input(RdpInput::MouseWheel { delta: -120, x: 1, y: 2 }).is_some());
}

#[test]
fn input_is_encoded_exactly() {
    assert_eq!(
        encode_input(RdpInput::Key { scancode: 0x1E, pressed: false, extended: true }),
        Some(WireInput::Keyboard { release: true, extended: true, key_code: 0x1E })
    );
    assert_eq!(
        encode_input(RdpInput::Unicode('🎉')),
        Some(WireInput::UnicodeKeyboard { key_code: 0xF389 })
    );
    assert_eq!(
        encode_input(RdpInput::MouseWheel { delta: -120, x: 1, y: 2 }),
        Some(WireInput::Pointer {
            change: PointerChange::Wheel { negative: true },
            x_position: 1,
            y_position: 2,
        })
    );
    assert!(matches!(next_step(None), CommandStep::Stop));
    assert!(matches!(next_step(Some(SessionCommand::Disconnect)), CommandStep::Stop));
}

#[test]
fn metrics_start_at_zero() {
    assert_eq!(SessionMetrics::default().bytes_in, 0);
    let mut session = RdpSession::new(DesktopSize { width: 4, height: 4 }, None, None);
    assert_eq!(session.metrics().bytes_in, 0);
    session.received(10);
    assert_eq!(session.metrics().bytes_in, 10);
}

#[test]
fn platform_identification_is_stable() {
    let platform = platform_id(false, false);
    assert!(matches!(platform, Platform::Windows | Platform::MacOs | Platform::Unix));
    assert_eq!(platform_id(true, false), Platform::Windows);
    assert!(!client_dir().is_empty());
}

#[test]
fn blank_targets_are_refused() {
    let mut blank = target();
    blank.host = " ".to_owned();
    assert_eq!(blank.plan(None, "box").err().expect("must fail").code(), ErrorCode::InvalidInput);
    let mut nobody = target();
    nobody.username = String::new();
    assert!(nobody.plan(None, "box").is_err());
    let plan = target().plan(Some(Secret::new("pw")), "  ").ok().expect("plan");
    assert_eq!(plan.client_name, "rdt-client");
    assert_eq!(plan.password.expose(), "pw");
    assert_eq!(plan.keyboard_layout, 0x0409);
    assert_eq!(client_name("box"), "box");
}

#[test]
fn connector_failures_are_classified() {
    let error = map_connector("CredSSP authentication failed", "h:3389");
    assert_eq!(error.code(), ErrorCode::Authentication);
    assert_eq!(error.detail("peer"), Some("h:3389".to_owned()));
    assert_eq!(map_connector("bad certificate", "h").code(), ErrorCode::Tls);
    assert_eq!(map_connector("bad PDU", "h").code(), ErrorCode::Protocol);
    assert_eq!(
        connect_failed(ConnectFailure::TcpTimeout, "h:3389").message(),
        "connecting to h:3389 timed out"
    );
    assert_eq!(
        connect_failed(ConnectFailure::Unreachable("refused".to_owned()), "h:3389").message(),
        "cannot reach h:3389: refused"
    );
}

#[test]
fn outputs_reach_the_framebuffer() {
    let mut session = RdpSession::new(DesktopSize { width: 4, height: 4 }, None, None);
    let rect = DamageRect { left: 1, top: 2, width: 2, height: 1 };
    match session.apply_output(StageOutput::GraphicsUpdate(rect, vec![7; 8])) {
        Some(RdpEvent::Frame { damage, width, height }) => {
            assert_eq!(damage, vec![rect]);
            assert_eq!((width, height), (4, 4));
        },
        other => panic!("unexpected {other:?}"),
    }
    assert_eq!(session.framebuffer().pixels()[(2 * 4 + 1) * 4], 7);
    assert!(session.apply_output(StageOutput::ResponseFrame(5)).is_none());
    assert_eq!(session.metrics().bytes_out, 5);
    let resized = session.apply_output(StageOutput::Resized(DesktopSize { width: 2, height: 3 }));
    assert!(matches!(resized, Some(RdpEvent::Resized { width: 2, height: 3 })));
    assert_eq!(session.framebuffer().to_string(), "2x3 BGRA");
}

#[test]
fn a_closing_session_accepts_no_input() {
    let mut session = RdpSession::new(DesktopSize { width: 4, height: 4 }, None, None);
    assert!(session.send(RdpInput::MouseMove { x: 0, y: 0 }).is_ok());
    assert!(session.disconnect().is_ok());
    let error = session.send(RdpInput::MouseMove { x: 0, y: 0 }).expect_err("must fail");
    assert_eq!(error.message(), "the session is closing");
    assert!(session.resize(10, 10).is_ok());
    let ended = session.finish();
    assert!(matches!(ended, RdpEvent::Closed(reason) if reason == "the session ended"));
    assert_eq!(session.resize(10, 10).expect_err("must fail").message(), "the session is closed");
}

#[test]
fn desktops_must_be_addressable() {
    assert!(DesktopSize { width: 1920, height: 1080 }.is_displayable());
    assert!(DesktopSize { width: 0, height: 0 }.is_displayable());
    assert!(!DesktopSize { width: 65535, height: 65535 }.is_displayable());
}

#[test]
fn filling_nothing_is_no_damage() {
    let mut buffer = Framebuffer::new(2, 2);
    buffer.fill(DamageRect::default(), [1, 2, 3, 4]);
    assert!(buffer.pixels().iter().all(|byte| *byte == 0));
    assert!(!buffer.is_dirty());
}

#[test]
fn any_keyboard_layout_can_be_announced() {
    let mut target = target();
    target.keyboard = KeyboardLayout::Other { id: 0x0410, name: "Italian" };
    assert_eq!(target.keyboard.name(), "Italian");
    let plan = target.plan(None, "host").expect("plan");
    assert_eq!(plan.keyboard_layout, 0x0410);
}
