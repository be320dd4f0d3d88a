//! The encrypted vault, the keystore and the secret store.
use rdt::clipboard::HelperCall;
use rdt::error::{ErrorCode, RdtError};
use rdt::json::{pick_record, read_record, write_record};
use rdt::keystore::{
    blob_name, dpapi_get, entropy, keychain_delete, keychain_get, keychain_set, secret_tool_delete,
    secret_tool_get, secret_tool_set, HandoverFailure, KeystoreCall, KeystoreProbe, OsKeystore,
    ToolExit,
};
use rdt::proto::{SecretBackend, StoredSecret};
use rdt::secret::Secret;
use rdt::secrets::{export_vault, ResolvedBackend, SecretStore, StoreStep, VaultHandle};
use rdt::textmap::TextMap;
use rdt::vault::{build_header, Vault, HEADER_LEN, MAGIC, MEMORY_COST, SALT_LEN};

#[test]
fn create_set_get_delete_round_trip() {
    let (mut vault, _) = Vault::create("basic.vault", &Secret::new("pass phrase")).expect("create");
    let bytes = vault.set("ssh/host/password", &Secret::new("hunter2")).expect("set");
    assert_eq!(vault.keys(), vec!["ssh/host/password"]);
    assert_eq!(vault.get("ssh/host/password").expect("get").expose(), "hunter2");

    let reopened = Vault::open("basic.vault", &bytes, &Secret::new("pass phrase")).expect("open");
    assert_eq!(reopened.get("ssh/host/password").expect("get").expose(), "hunter2");

    let mut reopened = reopened;
    let bytes = reopened.delete("ssh/host/password").expect("delete");
    assert!(Vault::open("basic.vault", &bytes, &Secret::new("pass phrase"))
        .expect("open")
        .get("ssh/host/password")
        .is_err());
}

#[test]
fn wrong_passphrase_is_rejected() {
    let (_, bytes) = Vault::create("wrong.vault", &Secret::new("right")).expect("create");
    let error = Vault::open("wrong.vault", &bytes, &Secret::new("wrong")).err().expect("refused");
    assert_eq!(error.code(), ErrorCode::Vault);
    assert!(error.message().contains("wrong passphrase"), "{}", error.to_string());
}

#[test]
fn tampering_is_detected() {
    let (mut vault, _) = Vault::create("tamper.vault", &Secret::new("pass")).expect("create");
    let mut bytes = vault.set("a", &Secret::new("b")).expect("set");
    let last = bytes.len() - 1;
    bytes[last] ^= 0xff;
    let error = Vault::open("tamper.vault", &bytes, &Secret::new("pass")).err().expect("refused");
    assert_eq!(error.code(), ErrorCode::Vault);
}

#[test]
fn tampering_with_the_header_is_detected() {
    let (_, bytes) = Vault::create("tamper.vault", &Secret::new("pass")).expect("create");
    for at in [12, 47] {
        let mut changed = bytes.clone();
        changed[at] ^= 1;
        assert!(Vault::open("tamper.vault", &changed, &Secret::new("pass")).is_err(), "{at}");
    }
}

#[test]
fn empty_passphrase_is_refused() {
    let error = Vault::create("empty.vault", &Secret::empty()).err().expect("refused");
    assert_eq!(error.code(), ErrorCode::Vault);
}

#[test]
fn foreign_file_is_refused() {
    let error = Vault::open("foreign.vault", b"not a vault at all, definitely not", &Secret::new("x"))
        .err()
        .expect("refused");
    assert_eq!(error.code(), ErrorCode::Vault);
    assert_eq!(error.message(), "vault file is truncated");
    let long = [0x20u8; 64];
    let error = Vault::open("foreign.vault", &long, &Secret::new("x")).err().expect("refused");
    assert_eq!(error.message(), "not an RDT vault file");
}

#[test]
fn changing_the_passphrase_keeps_the_data() {
    let (mut vault, _) = Vault::create("rotate.vault", &Secret::new("old")).expect("create");
    vault.set("k", &Secret::new("v")).expect("set");
    let bytes = vault.change_passphrase(&Secret::new("new")).expect("rotate");
    let reopened =
        Vault::open("rotate.vault", &bytes, &Secret::new("new")).expect("open with new passphrase");
    assert_eq!(reopened.get("k").expect("get").expose(), "v");
    assert!(vault.change_passphrase(&Secret::empty()).is_err());
}

#[test]
fn the_old_passphrase_no_longer_opens_a_vault() {
    let (mut vault, _) = Vault::create("rotate.vault", &Secret::new("old")).expect("create");
    let bytes = vault.change_passphrase(&Secret::new("new")).expect("rotate");
    assert!(Vault::open("rotate.vault", &bytes, &Secret::new("old")).is_err());
}

#[test]
fn locked_handle_reports_a_typed_error() {
    let handle = VaultHandle::closed("/tmp/nope.vault".to_owned());
    assert!(!handle.is_open());
    let error = handle.get("anything").err().expect("locked");
    assert_eq!(error.code(), ErrorCode::Vault);
    assert!(error.message().contains("locked"));
}

#[test]
fn header_layout_is_stable() {
    let header = build_header(&[7u8; SALT_LEN]);
    assert_eq!(&header[..8], &MAGIC);
    assert_eq!(&MAGIC, b"RDTVLT1\0");
    assert_eq!(header.len(), HEADER_LEN);
    assert_eq!(u32::from_le_bytes(header[8..12].try_into().expect("u32")), MEMORY_COST);
    assert_eq!(u32::from_le_bytes(header[12..16].try_into().expect("u32")), 3);
    assert_eq!(u32::from_le_bytes(header[16..20].try_into().expect("u32")), 1);
    assert_eq!(&header[20..36], &[7u8; SALT_LEN]);
}

#[test]
fn sealing_is_deterministic_for_a_nonce() {
    let vault = Vault::with_salt("v", &Secret::new("pass"), [1; 16]).ok().expect("vault");
    let first = vault.seal([2; 12]).expect("sealed");
    assert_eq!(first, vault.seal([2; 12]).expect("sealed"));
    assert_ne!(first, vault.seal([3; 12]).expect("sealed"));
    assert_eq!(&first[36..48], &[2; 12]);
    assert_ne!(vault.save().expect("saved"), vault.save().expect("saved"));
}

#[test]
fn entries_come_out_sorted() {
    let (mut vault, _) = Vault::create("v", &Secret::new("pass")).expect("create");
    vault.set("b", &Secret::new("2")).expect("set");
    vault.set("a", &Secret::new("ü\n\"1\"")).expect("set");
    let bytes = vault.set("c", &Secret::new("")).expect("set");
    let entries = vault.entries().ok().expect("entries");
    let shown: Vec<(&str, &str)> =
        entries.iter().map(|(key, value)| (key.as_str(), value.expose())).collect();
    assert_eq!(shown, vec![("a", "ü\n\"1\""), ("b", "2"), ("c", "")]);
    let exported = export_vault("v", &bytes, &Secret::new("pass")).ok().expect("export");
    assert_eq!(exported.len(), 3);
    assert_eq!(exported[1].1.expose(), b"2");
    assert_eq!(vault.delete("zzz").expect_err("missing").message(), "no vault entry named 'zzz'");
}

#[test]
fn blob_names_are_stable_and_distinct() {
    assert_eq!(blob_name("a"), blob_name("a"));
    assert_ne!(blob_name("a"), blob_name("b"));
    assert_eq!(blob_name("a").len(), 64);
    assert_eq!(
        blob_name("abc"),
        "ba7816bf8f01cfea414140de5dae2223b00361a396177a9cb410ff61f20015ad"
    );
}

fn probe(secret_tool: Option<&str>, session_bus: bool) -> KeystoreProbe {
    KeystoreProbe {
        windows: None,
        macos: false,
        unix: true,
        secret_tool: secret_tool.map(str::to_owned),
        session_bus,
    }
}

#[test]
fn detection_reports_something_usable_or_a_reason() {
    for keystore in [
        OsKeystore::new(probe(None, true)),
        OsKeystore::new(probe(Some("/usr/bin/secret-tool"), false)),
        OsKeystore::new(probe(Some("/usr/bin/secret-tool"), true)),
    ] {
        if keystore.available() {
            assert!(!keystore.describe().is_empty());
        } else {
            assert!(keystore.describe().len() > 10);
            let error = keystore.get("anything").unwrap_err();
            assert_eq!(error.code(), ErrorCode::Keystore);
        }
    }
}

#[test]
fn keystore_calls_name_the_key() {
    let keystore = OsKeystore::new(probe(Some("/usr/bin/secret-tool"), true));
    match keystore.set("k", &Secret::new("v")).expect("call") {
        KeystoreCall::Tool(HelperCall { program, args, input }) => {
            assert_eq!(program, "/usr/bin/secret-tool");
            assert_eq!(args, vec!["store", "--label=RDT secret", "rdt-key", "k"]);
            assert_eq!(input.as_deref(), Some("v"));
        },
        other => panic!("unexpected {other:?}"),
    }
    let windows = OsKeystore::new(KeystoreProbe {
        windows: Some(Some("C:/keys".to_owned())),
        ..probe(None, false)
    });
    match windows.delete("abc").expect("call") {
        KeystoreCall::Blob { directory, file } => {
            assert_eq!(directory, "C:/keys");
            assert_eq!(file, format!("{}.bin", blob_name("abc")));
        },
        other => panic!("unexpected {other:?}"),
    }
    assert_eq!(entropy(Some("alice")), b"rdt/keystore/v1/alice");
    assert_eq!(entropy(None), b"rdt/keystore/v1/user");
}

fn exit(success: bool, stdout: &[u8], stderr: &[u8]) -> ToolExit {
    ToolExit { success, stdout: stdout.to_vec(), stderr: stderr.to_vec() }
}

#[test]
fn keystore_answers_are_read() {
    let value = secret_tool_get("k", Ok(exit(true, b"s3cret\n\n", b""))).ok().expect("value");
    assert_eq!(value.expose(), "s3cret");
    let odd = secret_tool_get("k", Ok(exit(true, &[b'a', 0xFF], b""))).ok().expect("value");
    assert_eq!(odd.expose(), "a\u{FFFD}");
    let missing = secret_tool_get("k", Ok(exit(false, b"", b""))).err().expect("missing");
    assert_eq!(missing.message(), "no keyring entry named 'k'");
    assert!(secret_tool_set(Ok(exit(true, b"", b""))).is_ok());
    assert_eq!(
        secret_tool_set(Ok(exit(false, b"", b" locked \n"))).expect_err("failed").message(),
        "secret-tool store failed: locked"
    );
    assert_eq!(
        secret_tool_set(Err(HandoverFailure::NoInput)).expect_err("failed").message(),
        "cannot write to secret-tool"
    );
    assert_eq!(
        secret_tool_delete(Ok(exit(false, b"", b"no"))).expect_err("failed").message(),
        "secret-tool clear failed: no"
    );
    assert_eq!(keychain_get("k", Ok(exit(true, b" v \n", b""))).ok().expect("v").expose(), "v");
    assert!(keychain_set(Ok(true)).is_ok());
    assert_eq!(
        keychain_delete("k", Ok(false)).expect_err("failed").message(),
        "no keychain entry named 'k'"
    );
    assert_eq!(dpapi_get("k", Some(Some(b"x".to_vec()))).ok().expect("x").expose(), "x");
    assert_eq!(dpapi_get("k", None).err().expect("none").message(), "no DPAPI blob for 'k'");
}

fn store() -> SecretStore {
    SecretStore::open(
        "roundtrip.vault".to_owned(),
        SecretBackend::EncryptedVault,
        OsKeystore::new(probe(None, false)),
    )
    .ok()
    .expect("open")
}

fn unavailable() -> Result<Secret, RdtError> {
    Err(RdtError::new(ErrorCode::Keystore, "no keystore"))
}

fn reference(backend: SecretBackend, key: &str) -> StoredSecret {
    StoredSecret { backend, key: key.to_owned() }
}

#[test]
fn vault_round_trip_through_the_store() {
    let mut store = store();
    store.create_vault(&Secret::new("correct horse")).expect("create");
    assert!(store.is_unlocked());

    let (reference, step) = store
        .store_in(SecretBackend::EncryptedVault, "profile/abc/password", &Secret::new("s3cret"))
        .ok()
        .expect("store");
    assert_eq!(reference.backend, SecretBackend::EncryptedVault);
    let bytes = match step {
        StoreStep::WriteVault(bytes) => bytes,
        StoreStep::Keystore(_) => panic!("the vault was asked for"),
    };

    let value = store.read(&reference, unavailable()).expect("read");
    assert_eq!(value.expose(), "s3cret");
    assert_eq!(store.vault_keys().expect("keys"), vec!["profile/abc/password"]);

    store.lock();
    assert!(!store.is_unlocked());
    assert!(store.read(&reference, unavailable()).is_err(), "locked vault must refuse reads");

    store.unlock(&bytes, &Secret::new("correct horse")).expect("unlock");
    assert_eq!(store.read(&reference, unavailable()).expect("read").expose(), "s3cret");

    assert!(store.delete(&reference).is_ok());
    assert!(store.read(&reference, unavailable()).is_err());
}

#[test]
fn reading_from_an_unavailable_backend_reports_a_typed_error() {
    let store = store();
    let error = store
        .read(&reference(SecretBackend::EncryptedVault, "nope"), unavailable())
        .err()
        .expect("must fail");
    assert_eq!(error.code(), ErrorCode::Vault);
}

#[test]
fn describe_mentions_the_available_backends() {
    let description = store().describe();
    assert!(description.contains("vault"));
}

#[test]
fn lenient_reads_fall_back() {
    let mut store = store();
    store.create_vault(&Secret::new("pass")).expect("create");
    assert!(store.store("k", &Secret::new("v")).is_ok());
    let recorded = reference(SecretBackend::OsKeystore, "k");
    assert!(store.consults_keystore(&recorded));
    let (value, from) = store.read_lenient(&recorded, unavailable()).ok().expect("found");
    assert_eq!(value.expose(), "v");
    assert_eq!(from, ResolvedBackend::Vault);
    let (value, from) =
        store.read_lenient(&recorded, Ok(Secret::new("other"))).ok().expect("found");
    assert_eq!(value.expose(), "other");
    assert_eq!(from, ResolvedBackend::OsKeystore);
    let missing = store
        .read_lenient(&reference(SecretBackend::EncryptedVault, "gone"), unavailable())
        .err()
        .expect("missing");
    assert_eq!(missing.code(), ErrorCode::Vault);
    let refused = store
        .store_in(SecretBackend::OsKeystore, "k", &Secret::new("v"))
        .err()
        .expect("no keystore");
    assert_eq!(refused.code(), ErrorCode::Keystore);
    assert!(store.migrate_vault_to_keystore().is_err());
}

#[test]
fn records_are_objects_or_pairs() {
    let mut map = TextMap::new();
    map.insert("a", "x\"y");
    map.insert("b", "");
    let bytes = write_record(7, &map);
    assert_eq!(bytes, br#"{"version":7,"entries":{"a":"x\"y","b":""}}"#);
    let (version, entries) = read_record(&bytes).expect("record");
    assert_eq!(version, 7);
    assert_eq!(entries, map);
    let (version, entries) = read_record(br#"[3,{"k":"v"}]"#).expect("pair");
    assert_eq!(version, 3);
    assert_eq!(entries.get("k"), Some("v"));
    assert_eq!(read_record(br#"{"entries":{}}"#).expect_err("no version"), "missing field `version`");
    assert_eq!(read_record(br#"{"version":1}"#).expect_err("no entries"), "missing field `entries`");
    assert!(read_record(br#"{"version":-1,"entries":{}}"#).is_err());
    assert!(read_record(br#"{"version":1,"entries":{"a":1}}"#).is_err());
    assert!(read_record(b"nothing").is_err());
}

#[test]
fn records_are_picked_from_fields() {
    let mut fields = TextMap::new();
    fields.insert("version", "2");
    fields.insert("entries", "{\"a\":\"b\"}");
    let (version, entries) = pick_record(&fields).expect("record");
    assert_eq!(version, 2);
    assert_eq!(entries.get("a"), Some("b"));
}

#[test]
fn repeated_fields_are_refused() {
    assert_eq!(
        read_record(br#"{"version":1,"entries":{},"version":2}"#).expect_err("twice"),
        "duplicate field `version`"
    );
    assert_eq!(
        read_record(br#"{"version":1,"entries":{}, "entr\u0069es" : {}}"#).expect_err("twice"),
        "duplicate field `entries`"
    );
    let (version, entries) = read_record(
        br#" {"x":["version",{"version":1}],"version":4,"x":"\",\"version\":1","entries":{"version":"v","entries":"e"}} "#,
    )
    .expect("record");
    assert_eq!(version, 4);
    assert_eq!(entries.get("version"), Some("v"));
}
