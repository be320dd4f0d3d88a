//! Secret storage.
//!
//! Two backends exist:
//!
//! * the **operating system keystore** - DPAPI on Windows, the Secret Service
//!   (`secret-tool`, i.e. GNOME Keyring / KWallet) on Linux desktops;
//! * an **encrypted vault file** - ChaCha20-Poly1305 with an Argon2id derived
//!   key, which works everywhere, including headless servers.
//!
//! [`SecretStore`] picks the best available backend and falls back
//! automatically, so callers never have to care which one is in use.
use crate::crypto::base64_text;
use crate::error::{fail, ErrorCode, RdtError, RdtErrorView, RdtResult};
use crate::keystore::{
    clear_call, description, store_call, BackendView, KeystoreCall, KeystoreCallView, OsKeystore,
};
use crate::proto::{SecretBackend, StoredSecret};
use crate::secret::{Secret, SecretBytes};
use crate::text::{concat3, texts};
use crate::textmap::ascending;
use crate::vault::{
    derivable, derivation_failure, empty_payload, encryptable, encryption_failure,
    entries_read, entry_missing, entry_read, holds, passphrase_missing, secret_views,
    vault_opened, Vault, VaultView,
};
use vstd::prelude::*;
use vstd::utf8::encode_utf8;

verus! {

/// A vault slot that may be locked.
pub enum VaultHandle {
    /// Locked: only the path is known.
    Closed {
        /// Path of the vault file.
        path: String,
    },
    /// Unlocked.
    Open(Vault),
}

/// What a vault slot holds.
pub ghost enum HandleView {
    /// Locked, with the path of the vault file.
    Closed(Seq<char>),
    /// Unlocked.
    Open(VaultView),
}

impl View for VaultHandle {
    type V = HandleView;

    open spec fn view(&self) -> HandleView {
        match self {
            VaultHandle::Closed { path } => HandleView::Closed(path@),
            VaultHandle::Open(vault) => HandleView::Open(vault@),
        }
    }
}

impl HandleView {
    /// Path of the vault file.
    pub open spec fn path(self) -> Seq<char> {
        match self {
            HandleView::Closed(path) => path,
            HandleView::Open(vault) => vault.path,
        }
    }

    /// The secret stored under a key.
    pub open spec fn read(self, key: Seq<char>) -> Result<Seq<char>, RdtErrorView> {
        match self {
            HandleView::Closed(path) => Err(locked(path)),
            HandleView::Open(vault) => entry_read(vault.entries, key),
        }
    }
}

/// The failure of a locked vault.
pub open spec fn locked(path: Seq<char>) -> RdtErrorView {
    fail(ErrorCode::Vault, "vault "@ + path + " is locked"@)
}

/// Whether a result is the expected secret or failure.
pub open spec fn secret_matches(
    r: RdtResult<Secret>,
    expected: Result<Seq<char>, RdtErrorView>,
) -> bool {
    match r {
        Ok(secret) => expected == Ok::<Seq<char>, RdtErrorView>(secret@),
        Err(error) => expected == Err::<Seq<char>, RdtErrorView>(error@),
    }
}

fn locked_error(path: &str) -> (r: RdtError)
    ensures
        r@ == locked(path@),
{
    RdtError::new(ErrorCode::Vault, concat3("vault ", path, " is locked").as_str())
}

impl VaultHandle {
    /// An unlocked vault is well formed.
    pub open spec fn wf(self) -> bool {
        self is Open ==> self->Open_0.wf()
    }

    /// A locked handle.
    pub fn closed(path: String) -> (r: Self)
        ensures
            r.wf(),
            r@ == HandleView::Closed(path@),
    {
        VaultHandle::Closed { path }
    }

    /// Opens the content of a vault file with `passphrase`.
    ///
    /// # Errors
    ///
    /// Fails as [`Vault::open`] does.
    pub fn open(path: &str, bytes: &[u8], passphrase: &Secret) -> (r: RdtResult<Self>)
        ensures
            match r {
                Ok(handle) => {
                    &&& handle.wf()
                    &&& handle@ is Open
                    &&& vault_opened(path@, bytes@, passphrase@) == Ok::<VaultView, RdtErrorView>(
                        handle@->Open_0,
                    )
                },
                Err(error) => vault_opened(path@, bytes@, passphrase@) == Err::<
                    VaultView,
                    RdtErrorView,
                >(error@),
            },
    {
        match Vault::open(path, bytes, passphrase) {
            Ok(vault) => Ok(VaultHandle::Open(vault)),
            Err(error) => Err(error),
        }
    }

    /// Whether the handle holds an unlocked vault.
    pub fn is_open(&self) -> (r: bool)
        ensures
            r == self@ is Open,
    {
        match self {
            VaultHandle::Open(_) => true,
            VaultHandle::Closed { .. } => false,
        }
    }

    /// Path of the vault file.
    pub fn path(&self) -> (r: &str)
        ensures
            r@ == self@.path(),
    {
        match self {
            VaultHandle::Closed { path } => path.as_str(),
            VaultHandle::Open(vault) => vault.path(),
        }
    }

    /// Reads an entry.
    ///
    /// # Errors
    ///
    /// Returns [`ErrorCode::Vault`] when the vault is locked, has no such entry or
    /// the entry is not text.
    pub fn get(&self, key: &str) -> (r: RdtResult<Secret>)
        requires
            self.wf(),
        ensures
            secret_matches(r, self@.read(key@)),
    {
        match self {
            VaultHandle::Open(vault) => vault.get(key),
            VaultHandle::Closed { path } => Err(locked_error(path.as_str())),
        }
    }

    /// Writes an entry and gives the new content of the file.
    ///
    /// # Errors
    ///
    /// Returns [`ErrorCode::Vault`] when the vault is locked or its entries are too
    /// large to encrypt.
    pub fn set(&mut self, key: &str, value: &Secret) -> (r: RdtResult<Vec<u8>>)
        requires
            old(self).wf(),
        ensures
            final(self).wf(),
            match old(self)@ {
                HandleView::Closed(path) => {
                    &&& final(self)@ == old(self)@
                    &&& r is Err
                    &&& r->Err_0@ == locked(path)
                },
                HandleView::Open(vault) => {
                    &&& final(self)@ == HandleView::Open(
                        VaultView {
                            entries: vault.entries.insert(
                                key@,
                                base64_text(encode_utf8(value@)),
                            ),
                            ..vault
                        },
                    )
                    &&& final(self)@.read(key@) == Ok::<Seq<char>, RdtErrorView>(value@)
                    &&& r is Ok <==> encryptable(final(self)->Open_0.payload())
                    &&& r is Ok ==> holds(r->Ok_0@, final(self)@->Open_0)
                    &&& r is Err ==> r->Err_0@ == encryption_failure()
                },
            },
    {
        match self {
            VaultHandle::Open(vault) => vault.set(key, value),
            VaultHandle::Closed { path } => Err(locked_error(path.as_str())),
        }
    }

    /// Deletes an entry and gives the new content of the file.
    ///
    /// # Errors
    ///
    /// Returns [`ErrorCode::Vault`] when the vault is locked, has no such entry or
    /// its entries are too large to encrypt.
    pub fn delete(&mut self, key: &str) -> (r: RdtResult<Vec<u8>>)
        requires
            old(self).wf(),
        ensures
            final(self).wf(),
            match old(self)@ {
                HandleView::Closed(path) => {
                    &&& final(self)@ == old(self)@
                    &&& r is Err
                    &&& r->Err_0@ == locked(path)
                },
                HandleView::Open(vault) => {
                    &&& final(self)@ == HandleView::Open(
                        VaultView { entries: vault.entries.remove(key@), ..vault },
                    )
                    &&& !vault.entries.contains_key(key@) ==> r is Err && r->Err_0@
                        == entry_missing(key@)
                    &&& vault.entries.contains_key(key@) ==> (r is Ok <==> encryptable(
                        final(self)->Open_0.payload(),
                    ))
                    &&& r is Ok ==> holds(r->Ok_0@, final(self)@->Open_0)
                    &&& r is Err && vault.entries.contains_key(key@) ==> r->Err_0@
                        == encryption_failure()
                },
            },
    {
        match self {
            VaultHandle::Open(vault) => vault.delete(key),
            VaultHandle::Closed { path } => Err(locked_error(path.as_str())),
        }
    }

    /// Lists keys.
    ///
    /// # Errors
    ///
    /// Returns [`ErrorCode::Vault`] when the vault is locked.
    pub fn keys(&self) -> (r: RdtResult<Vec<String>>)
        requires
            self.wf(),
        ensures
            match self@ {
                HandleView::Closed(path) => r is Err && r->Err_0@ == locked(path),
                HandleView::Open(vault) => {
                    &&& r is Ok
                    &&& ascending(texts(r->Ok_0@))
                    &&& forall|k: Seq<char>| #[trigger]
                        texts(r->Ok_0@).contains(k) <==> vault.entries.contains_key(k)
                },
            },
    {
        match self {
            VaultHandle::Open(vault) => Ok(vault.keys()),
            VaultHandle::Closed { path } => Err(locked_error(path.as_str())),
        }
    }

    /// Lists entries, sorted by key.
    ///
    /// # Errors
    ///
    /// Returns [`ErrorCode::Vault`] when the vault is locked or an entry is not
    /// text.
    pub fn entries(&self) -> (r: RdtResult<Vec<(String, Secret)>>)
        requires
            self.wf(),
        ensures
            match self {
                VaultHandle::Closed { path } => r is Err && r->Err_0@ == locked(path@),
                VaultHandle::Open(vault) => match r {
                    Ok(secrets) => entries_read(vault@.entries, vault.order()) == Ok::<
                        Seq<(Seq<char>, Seq<char>)>,
                        RdtErrorView,
                    >(secret_views(secrets@)),
                    Err(error) => entries_read(vault@.entries, vault.order()) == Err::<
                        Seq<(Seq<char>, Seq<char>)>,
                        RdtErrorView,
                    >(error@),
                },
            },
    {
        match self {
            VaultHandle::Open(vault) => vault.entries(),
            VaultHandle::Closed { path } => Err(locked_error(path.as_str())),
        }
    }
}

/// Where a secret was actually found.
#[derive(Debug, Clone, Copy, PartialEq, Eq, Structural)]
pub enum ResolvedBackend {
    /// The value came from the OS keystore.
    OsKeystore,
    /// The value came from the encrypted vault.
    Vault,
}

/// What remains to be done to store a secret.
pub enum StoreStep {
    /// Make a call of the keystore.
    Keystore(KeystoreCall),
    /// Write this content to the vault file.
    WriteVault(Vec<u8>),
}

/// Unified access to stored secrets.
pub struct SecretStore {
    keystore: OsKeystore,
    vault: VaultHandle,
    vault_path: String,
    default_backend: SecretBackend,
}

/// What a secret store holds.
pub ghost struct StoreView {
    /// The keystore.
    pub keystore: BackendView,
    /// The vault.
    pub vault: HandleView,
    /// Path of the vault file.
    pub vault_path: Seq<char>,
    /// The backend new secrets are written to.
    pub default_backend: SecretBackend,
}

impl View for SecretStore {
    type V = StoreView;

    closed spec fn view(&self) -> StoreView {
        StoreView {
            keystore: self.keystore@,
            vault: self.vault@,
            vault_path: self.vault_path@,
            default_backend: self.default_backend,
        }
    }
}

/// How the choice of backends is described.
pub open spec fn store_description(keystore: BackendView) -> Seq<char> {
    if keystore is Unavailable {
        "encrypted vault only ("@ + description(keystore) + ")"@
    } else {
        "OS keystore ("@ + description(keystore) + ") with encrypted vault fallback"@
    }
}

/// The backend that a reference resolves to.
pub open spec fn resolved(backend: SecretBackend) -> ResolvedBackend {
    match backend {
        SecretBackend::OsKeystore => ResolvedBackend::OsKeystore,
        SecretBackend::EncryptedVault => ResolvedBackend::Vault,
    }
}

/// The other backend.
pub open spec fn other_backend(backend: SecretBackend) -> SecretBackend {
    match backend {
        SecretBackend::OsKeystore => SecretBackend::EncryptedVault,
        SecretBackend::EncryptedVault => SecretBackend::OsKeystore,
    }
}

/// What each backend answers for a key.
pub open spec fn answer(
    backend: SecretBackend,
    vault: Result<Seq<char>, RdtErrorView>,
    keystore: Result<Seq<char>, RdtErrorView>,
) -> Result<Seq<char>, RdtErrorView> {
    match backend {
        SecretBackend::OsKeystore => keystore,
        SecretBackend::EncryptedVault => vault,
    }
}

/// The secret that a lenient read finds: in the recorded backend, else in the
/// other one; when neither has it, the failure of the recorded backend stands.
pub open spec fn lenient_answer(
    backend: SecretBackend,
    vault: Result<Seq<char>, RdtErrorView>,
    keystore: Result<Seq<char>, RdtErrorView>,
) -> Result<(Seq<char>, ResolvedBackend), RdtErrorView> {
    match answer(backend, vault, keystore) {
        Ok(secret) => Ok((secret, resolved(backend))),
        Err(primary) => match answer(other_backend(backend), vault, keystore) {
            Ok(secret) => Ok((secret, resolved(other_backend(backend)))),
            Err(_) => Err(primary),
        },
    }
}

/// A secret or a failure.
pub open spec fn secret_result(r: RdtResult<Secret>) -> Result<Seq<char>, RdtErrorView> {
    match r {
        Ok(secret) => Ok(secret@),
        Err(error) => Err(error@),
    }
}

/// Whether a store step is a keystore call.
pub open spec fn step_calls(step: StoreStep, call: KeystoreCallView) -> bool {
    step is Keystore && step->Keystore_0@ == call
}

/// The failure of a keystore that was asked for but does not exist.
pub open spec fn keystore_missing(keystore: BackendView) -> RdtErrorView {
    fail(
        ErrorCode::Keystore,
        "the OS keystore is unavailable on this machine ("@ + description(keystore) + ")"@,
    )
}

impl SecretStore {
    /// An unlocked vault is well formed.
    pub closed spec fn wf(self) -> bool {
        self.vault.wf()
    }

    /// The encoded entries of an unlocked vault.
    pub closed spec fn payload(self) -> Seq<u8> {
        self.vault->Open_0.payload()
    }

    /// The vault slot.
    pub closed spec fn handle(self) -> VaultHandle {
        self.vault
    }

    /// Opens the store.  The vault is *not* unlocked here: [`SecretStore::unlock`]
    /// must be called with the user passphrase before vault entries can be read.
    pub fn open(vault_path: String, default_backend: SecretBackend, keystore: OsKeystore) -> (r:
        RdtResult<Self>)
        ensures
            r is Ok,
            r->Ok_0.wf(),
            r->Ok_0@ == (StoreView {
                keystore: keystore@,
                vault: HandleView::Closed(vault_path@),
                vault_path: vault_path@,
                default_backend,
            }),
    {
        let path = vault_path.as_str().to_owned();
        Ok(SecretStore { keystore, vault: VaultHandle::closed(path), vault_path, default_backend })
    }

    /// The backend new secrets are written to.
    pub fn default_backend(&self) -> (r: SecretBackend)
        ensures
            r == self@.default_backend,
    {
        self.default_backend
    }

    /// Whether the OS keystore is usable on this machine.
    pub fn keystore_available(&self) -> (r: bool)
        ensures
            r == !(self@.keystore is Unavailable),
    {
        self.keystore.available()
    }

    /// Human readable description of the backend selection.
    pub fn describe(&self) -> (r: String)
        ensures
            r@ == store_description(self@.keystore),
    {
        if self.keystore.available() {
            concat3("OS keystore (", self.keystore.describe(), ") with encrypted vault fallback")
        } else {
            concat3("encrypted vault only (", self.keystore.describe(), ")")
        }
    }

    /// Unlocks the encrypted vault from the content of its file.
    ///
    /// # Errors
    ///
    /// Fails as [`Vault::open`] does; the vault then stays as it was.
    pub fn unlock(&mut self, bytes: &[u8], passphrase: &Secret) -> (r: RdtResult<()>)
        requires
            old(self).wf(),
        ensures
            final(self).wf(),
            match vault_opened(old(self)@.vault_path, bytes@, passphrase@) {
                Ok(vault) => {
                    &&& r is Ok
                    &&& final(self)@ == (StoreView {
                        vault: HandleView::Open(vault),
                        ..old(self)@
                    })
                },
                Err(error) => {
                    &&& r is Err
                    &&& r->Err_0@ == error
                    &&& final(self)@ == old(self)@
                },
            },
    {
        match VaultHandle::open(self.vault_path.as_str(), bytes, passphrase) {
            Ok(handle) => {
                self.vault = handle;
                Ok(())
            },
            Err(error) => Err(error),
        }
    }

    /// Locks the vault again, wiping the derived key.
    pub fn lock(&mut self)
        ensures
            final(self).wf(),
            final(self)@ == (StoreView {
                vault: HandleView::Closed(old(self)@.vault_path),
                ..old(self)@
            }),
    {
        self.vault = VaultHandle::closed(self.vault_path.as_str().to_owned());
    }

    /// Whether the vault is currently unlocked.
    pub fn is_unlocked(&self) -> (r: bool)
        ensures
            r == self@.vault is Open,
    {
        self.vault.is_open()
    }

    /// Path of the vault file.
    pub fn vault_path(&self) -> (r: &str)
        ensures
            r@ == self@.vault_path,
    {
        self.vault_path.as_str()
    }

    /// Creates a new vault protected by `passphrase`, unlocks it and gives the
    /// content of its file.
    ///
    /// # Errors
    ///
    /// Fails as [`Vault::create`] does; the vault then stays as it was.
    pub fn create_vault(&mut self, passphrase: &Secret) -> (r: RdtResult<Vec<u8>>)
        requires
            old(self).wf(),
        ensures
            final(self).wf(),
            final(self)@.keystore == old(self)@.keystore,
            final(self)@.vault_path == old(self)@.vault_path,
            final(self)@.default_backend == old(self)@.default_backend,
            passphrase@.len() == 0 ==> r is Err && r->Err_0@ == passphrase_missing(),
            passphrase@.len() > 0 && !derivable(passphrase@) ==> r is Err && r->Err_0@
                == derivation_failure(),
            passphrase@.len() > 0 && derivable(passphrase@) ==> {
                &&& r is Ok <==> encryptable(empty_payload())
                &&& r is Err ==> r->Err_0@ == encryption_failure()
            },
            r is Err ==> final(self)@ == old(self)@,
            r is Ok ==> {
                let vault = final(self)@.vault->Open_0;
                &&& final(self)@.vault is Open
                &&& vault.entries == Map::<Seq<char>, Seq<char>>::empty()
                &&& vault_opened(old(self)@.vault_path, r->Ok_0@, passphrase@) == Ok::<
                    VaultView,
                    RdtErrorView,
                >(vault)
            },
    {
        match Vault::create(self.vault_path.as_str(), passphrase) {
            Ok((vault, bytes)) => {
                self.vault = VaultHandle::Open(vault);
                Ok(bytes)
            },
            Err(error) => Err(error),
        }
    }

    /// Stores `value` under `key` in the best backend: gives the reference to
    /// persist and what remains to be done.
    ///
    /// # Errors
    ///
    /// Returns [`ErrorCode::Vault`] when there is no keystore and the vault is
    /// locked or its entries are too large to encrypt.
    pub fn store(&mut self, key: &str, value: &Secret) -> (r: RdtResult<(StoredSecret, StoreStep)>)
        requires
            old(self).wf(),
        ensures
            final(self).wf(),
            stored(
                *old(self),
                *final(self),
                if old(self)@.keystore is Unavailable {
                    SecretBackend::EncryptedVault
                } else {
                    SecretBackend::OsKeystore
                },
                key@,
                value@,
                r,
            ),
    {
        let backend = if self.keystore_available() {
            SecretBackend::OsKeystore
        } else {
            SecretBackend::EncryptedVault
        };
        self.store_in(backend, key, value)
    }

    /// Stores `value` in a specific backend: gives the reference to persist and
    /// what remains to be done.
    ///
    /// # Errors
    ///
    /// Returns [`ErrorCode::Keystore`] when the keystore is asked for and there is
    /// none, and [`ErrorCode::Vault`] when the vault is asked for and is locked or
    /// its entries are too large to encrypt.
    pub fn store_in(&mut self, backend: SecretBackend, key: &str, value: &Secret) -> (r: RdtResult<
        (StoredSecret, StoreStep),
    >)
        requires
            old(self).wf(),
        ensures
            final(self).wf(),
            stored(*old(self), *final(self), backend, key@, value@, r),
    {
        let step = match backend {
            SecretBackend::OsKeystore => {
                if !self.keystore_available() {
                    return Err(
                        RdtError::new(
                            ErrorCode::Keystore,
                            concat3(
                                "the OS keystore is unavailable on this machine (",
                                self.keystore.describe(),
                                ")",
                            ).as_str(),
                        ),
                    );
                }
                match self.keystore.set(key, value) {
                    Ok(call) => StoreStep::Keystore(call),
                    Err(error) => {
                        return Err(error);
                    },
                }
            },
            SecretBackend::EncryptedVault => match self.vault.set(key, value) {
                Ok(bytes) => StoreStep::WriteVault(bytes),
                Err(error) => {
                    return Err(error);
                },
            },
        };
        Ok((StoredSecret { backend, key: key.to_owned() }, step))
    }

    /// Reads a stored secret, given what the keystore answers for its key.
    ///
    /// # Errors
    ///
    /// Fails as the backend of the reference does.
    pub fn read(&self, reference: &StoredSecret, keystore: RdtResult<Secret>) -> (r: RdtResult<
        Secret,
    >)
        requires
            self.wf(),
        ensures
            secret_matches(
                r,
                answer(
                    reference.backend,
                    self@.vault.read(reference.key@),
                    secret_result(keystore),
                ),
            ),
    {
        match reference.backend {
            SecretBackend::OsKeystore => keystore,
            SecretBackend::EncryptedVault => self.vault.get(reference.key.as_str()),
        }
    }

    /// Whether a lenient read of a reference depends on the keystore.
    pub fn consults_keystore(&self, reference: &StoredSecret) -> (r: bool)
        requires
            self.wf(),
        ensures
            r == (reference.backend is OsKeystore || self@.vault.read(reference.key@) is Err),
    {
        match reference.backend {
            SecretBackend::OsKeystore => true,
            SecretBackend::EncryptedVault => self.vault.get(reference.key.as_str()).is_err(),
        }
    }

    /// Reads a stored secret, trying the other backend when the recorded one no
    /// longer has it (for example after moving profiles between machines).
    ///
    /// # Errors
    ///
    /// Fails as the backend of the reference does, when neither has the secret.
    pub fn read_lenient(&self, reference: &StoredSecret, keystore: RdtResult<Secret>) -> (r:
        RdtResult<(Secret, ResolvedBackend)>)
        requires
            self.wf(),
        ensures
            ({
                let expected = lenient_answer(
                    reference.backend,
                    self@.vault.read(reference.key@),
                    secret_result(keystore),
                );
                match r {
                    Ok(found) => expected == Ok::<(Seq<char>, ResolvedBackend), RdtErrorView>(
                        (found.0@, found.1),
                    ),
                    Err(error) => expected == Err::<(Seq<char>, ResolvedBackend), RdtErrorView>(
                        error@,
                    ),
                }
            }),
    {
        let vault = self.vault.get(reference.key.as_str());
        match reference.backend {
            SecretBackend::OsKeystore => match keystore {
                Ok(secret) => Ok((secret, ResolvedBackend::OsKeystore)),
                Err(primary) => match vault {
                    Ok(secret) => Ok((secret, ResolvedBackend::Vault)),
                    Err(_) => Err(primary),
                },
            },
            SecretBackend::EncryptedVault => match vault {
                Ok(secret) => Ok((secret, ResolvedBackend::Vault)),
                Err(primary) => match keystore {
                    Ok(secret) => Ok((secret, ResolvedBackend::OsKeystore)),
                    Err(_) => Err(primary),
                },
            },
        }
    }

    /// Deletes a stored secret: gives what remains to be done.
    ///
    /// # Errors
    ///
    /// Returns [`ErrorCode::Keystore`] when the secret lies in a keystore that does
    /// not exist, and [`ErrorCode::Vault`] when it lies in a vault that is locked,
    /// does not have it, or is too large to encrypt.
    pub fn delete(&mut self, reference: &StoredSecret) -> (r: RdtResult<StoreStep>)
        requires
            old(self).wf(),
        ensures
            final(self).wf(),
            final(self)@.keystore == old(self)@.keystore,
            final(self)@.vault_path == old(self)@.vault_path,
            final(self)@.default_backend == old(self)@.default_backend,
            match reference.backend {
                SecretBackend::OsKeystore => {
                    &&& final(self)@ == old(self)@
                    &&& match clear_call(old(self)@.keystore, reference.key@) {
                        Ok(call) => r is Ok && step_calls(r->Ok_0, call),
                        Err(error) => r is Err && r->Err_0@ == error,
                    }
                },
                SecretBackend::EncryptedVault => match old(self)@.vault {
                    HandleView::Closed(path) => {
                        &&& final(self)@ == old(self)@
                        &&& r is Err
                        &&& r->Err_0@ == locked(path)
                    },
                    HandleView::Open(vault) => {
                        &&& final(self)@.vault == HandleView::Open(
                            VaultView { entries: vault.entries.remove(reference.key@), ..vault },
                        )
                        &&& !vault.entries.contains_key(reference.key@) ==> r is Err && r->Err_0@
                            == entry_missing(reference.key@)
                        &&& vault.entries.contains_key(reference.key@) ==> (r is Ok
                            <==> encryptable(final(self).payload()))
                        &&& vault.entries.contains_key(reference.key@) && r is Err ==> r->Err_0@
                            == encryption_failure()
                        &&& r is Ok ==> r->Ok_0 is WriteVault && holds(
                            r->Ok_0->WriteVault_0@,
                            final(self)@.vault->Open_0,
                        )
                    },
                },
            },
    {
        match reference.backend {
            SecretBackend::OsKeystore => match self.keystore.delete(reference.key.as_str()) {
                Ok(call) => Ok(StoreStep::Keystore(call)),
                Err(error) => Err(error),
            },
            SecretBackend::EncryptedVault => match self.vault.delete(reference.key.as_str()) {
                Ok(bytes) => Ok(StoreStep::WriteVault(bytes)),
                Err(error) => Err(error),
            },
        }
    }

    /// Lists the keys stored in the vault (the OS keystore does not support
    /// enumeration portably).
    ///
    /// # Errors
    ///
    /// Returns [`ErrorCode::Vault`] when the vault is locked.
    pub fn vault_keys(&self) -> (r: RdtResult<Vec<String>>)
        requires
            self.wf(),
        ensures
            match self@.vault {
                HandleView::Closed(path) => r is Err && r->Err_0@ == locked(path),
                HandleView::Open(vault) => {
                    &&& r is Ok
                    &&& ascending(texts(r->Ok_0@))
                    &&& forall|k: Seq<char>| #[trigger]
                        texts(r->Ok_0@).contains(k) <==> vault.entries.contains_key(k)
                },
            },
    {
        self.vault.keys()
    }

    /// Every vault entry, to be copied into the OS keystore in order.
    ///
    /// # Errors
    ///
    /// Returns [`ErrorCode::Keystore`] when there is no keystore and
    /// [`ErrorCode::Vault`] when the vault is locked or an entry is not text.
    pub fn migrate_vault_to_keystore(&self) -> (r: RdtResult<Vec<(String, Secret)>>)
        requires
            self.wf(),
        ensures
            self@.keystore is Unavailable ==> r is Err && r->Err_0@ == fail(
                ErrorCode::Keystore,
                "the OS keystore is unavailable on this machine"@,
            ),
            !(self@.keystore is Unavailable) ==> match self.handle() {
                VaultHandle::Closed { path } => r is Err && r->Err_0@ == locked(path@),
                VaultHandle::Open(vault) => match r {
                    Ok(secrets) => entries_read(vault@.entries, vault.order()) == Ok::<
                        Seq<(Seq<char>, Seq<char>)>,
                        RdtErrorView,
                    >(secret_views(secrets@)),
                    Err(error) => entries_read(vault@.entries, vault.order()) == Err::<
                        Seq<(Seq<char>, Seq<char>)>,
                        RdtErrorView,
                    >(error@),
                },
            },
    {
        if !self.keystore_available() {
            return Err(
                RdtError::new(
                    ErrorCode::Keystore,
                    "the OS keystore is unavailable on this machine",
                ),
            );
        }
        self.vault.entries()
    }
}

/// The outcome of storing a secret in a backend.
pub open spec fn stored(
    before: SecretStore,
    after: SecretStore,
    backend: SecretBackend,
    key: Seq<char>,
    value: Seq<char>,
    r: RdtResult<(StoredSecret, StoreStep)>,
) -> bool {
    &&& after@.keystore == before@.keystore
    &&& after@.vault_path == before@.vault_path
    &&& after@.default_backend == before@.default_backend
    &&& r is Ok ==> r->Ok_0.0.backend == backend && r->Ok_0.0.key@ == key
    &&& match backend {
        SecretBackend::OsKeystore => {
            &&& after@ == before@
            &&& if before@.keystore is Unavailable {
                r is Err && r->Err_0@ == keystore_missing(before@.keystore)
            } else {
                r is Ok && step_calls(r->Ok_0.1, store_call(before@.keystore, key, value)->Ok_0)
            }
        },
        SecretBackend::EncryptedVault => match before@.vault {
            HandleView::Closed(path) => {
                &&& after@ == before@
                &&& r is Err
                &&& r->Err_0@ == locked(path)
            },
            HandleView::Open(vault) => {
                &&& after@.vault == HandleView::Open(
                    VaultView {
                        entries: vault.entries.insert(key, base64_text(encode_utf8(value))),
                        ..vault
                    },
                )
                &&& after@.vault.read(key) == Ok::<Seq<char>, RdtErrorView>(value)
                &&& r is Ok <==> encryptable(after.payload())
                &&& r is Err ==> r->Err_0@ == encryption_failure()
                &&& r is Ok ==> r->Ok_0.1 is WriteVault && holds(
                    r->Ok_0.1->WriteVault_0@,
                    after@.vault->Open_0,
                )
            },
        },
    }
}

/// Keys with the bytes of their secrets.
pub open spec fn exported(secrets: Seq<(Seq<char>, Seq<char>)>) -> Seq<(Seq<char>, Seq<u8>)> {
    Seq::new(secrets.len(), |i: int| (secrets[i].0, encode_utf8(secrets[i].1)))
}

/// Keys with the bytes of their secrets.
pub open spec fn export_views(blobs: Seq<(String, SecretBytes)>) -> Seq<(Seq<char>, Seq<u8>)> {
    Seq::new(blobs.len(), |i: int| (blobs[i].0@, blobs[i].1@))
}

/// Exports every vault entry as bytes.
///
/// # Errors
///
/// Fails as [`Vault::open`] and [`Vault::entries`] do.
pub fn export_vault(path: &str, bytes: &[u8], passphrase: &Secret) -> (r: RdtResult<
    Vec<(String, SecretBytes)>,
>)
    ensures
        match vault_opened(path@, bytes@, passphrase@) {
            Err(error) => r is Err && r->Err_0@ == error,
            Ok(vault) => exists|order: Seq<Seq<char>>|
                {
                    &&& #[trigger] ascending(order)
                    &&& forall|k: Seq<char>| #[trigger]
                        order.contains(k) <==> vault.entries.contains_key(k)
                    &&& match entries_read(vault.entries, order) {
                        Ok(secrets) => r is Ok && export_views(r->Ok_0@) == exported(secrets),
                        Err(error) => r is Err && r->Err_0@ == error,
                    }
                },
        },
{
    let vault = match Vault::open(path, bytes, passphrase) {
        Ok(vault) => vault,
        Err(error) => {
            return Err(error);
        },
    };
    let keys = vault.keys();
    assert(ascending(vault.order()));
    let entries = match vault.entries() {
        Ok(entries) => entries,
        Err(error) => {
            return Err(error);
        },
    };
    let mut out: Vec<(String, SecretBytes)> = Vec::new();
    let ghost secrets = secret_views(entries@);
    let mut i: usize = 0;
    while i < entries.len()
        invariant
            i <= entries@.len(),
            secrets == secret_views(entries@),
            out@.len() == i,
            forall|k: int|
                0 <= k < i ==> (#[trigger] out@[k]).0@ == secrets[k].0 && out@[k].1@ == encode_utf8(
                    secrets[k].1,
                ),
        decreases entries.len() - i,
    {
        out.push((entries[i].0.clone(), SecretBytes::of(&entries[i].1)));
        i = i + 1;
    }
    assert(export_views(out@) =~= exported(secrets));
    Ok(out)
}

/// A lenient read finds the secret whenever either backend has it, and prefers
/// the recorded one.
pub proof fn lenient_reads_find_the_secret(
    backend: SecretBackend,
    vault: Result<Seq<char>, RdtErrorView>,
    keystore: Result<Seq<char>, RdtErrorView>,
)
    ensures
        lenient_answer(backend, vault, keystore) is Ok <==> vault is Ok || keystore is Ok,
        answer(backend, vault, keystore) is Ok ==> lenient_answer(backend, vault, keystore) == Ok::<
            (Seq<char>, ResolvedBackend),
            RdtErrorView,
        >((answer(backend, vault, keystore)->Ok_0, resolved(backend))),
        lenient_answer(backend, vault, keystore) is Err ==> lenient_answer(
            backend,
            vault,
            keystore,
        )->Err_0 == answer(backend, vault, keystore)->Err_0,
{
}

/// A locked vault gives no secret away, whatever the key.
pub proof fn locked_vaults_refuse_reads(path: Seq<char>, key: Seq<char>)
    ensures
        HandleView::Closed(path).read(key) == Err::<Seq<char>, RdtErrorView>(locked(path)),
{
}

/// Writing one key of a vault changes what no other key reads, and deleting a key
/// leaves nothing to read under it.
pub proof fn vault_keys_are_independent(
    entries: Map<Seq<char>, Seq<char>>,
    key: Seq<char>,
    encoded: Seq<char>,
    other: Seq<char>,
)
    ensures
        other != key ==> entry_read(entries.insert(key, encoded), other) == entry_read(
            entries,
            other,
        ),
        other != key ==> entry_read(entries.remove(key), other) == entry_read(entries, other),
        entry_read(entries.remove(key), key) == Err::<Seq<char>, RdtErrorView>(entry_missing(key)),
{
}

/// A secret is read from the backend that was asked; a lenient read falls back to the
/// other one, and says which one it was.
pub proof fn backends_answer_for_themselves(
    vault: Result<Seq<char>, RdtErrorView>,
    keystore: Result<Seq<char>, RdtErrorView>,
)
    ensures
        answer(SecretBackend::EncryptedVault, vault, keystore) == vault,
        answer(SecretBackend::OsKeystore, vault, keystore) == keystore,
        vault is Ok ==> lenient_answer(SecretBackend::EncryptedVault, vault, keystore) == Ok::<
            (Seq<char>, ResolvedBackend),
            RdtErrorView,
        >((vault->Ok_0, ResolvedBackend::Vault)),
        keystore is Ok ==> lenient_answer(SecretBackend::OsKeystore, vault, keystore) == Ok::<
            (Seq<char>, ResolvedBackend),
            RdtErrorView,
        >((keystore->Ok_0, ResolvedBackend::OsKeystore)),
        vault is Err && keystore is Ok ==> lenient_answer(
            SecretBackend::EncryptedVault,
            vault,
            keystore,
        ) == Ok::<(Seq<char>, ResolvedBackend), RdtErrorView>(
            (keystore->Ok_0, ResolvedBackend::OsKeystore),
        ),
        keystore is Err && vault is Ok ==> lenient_answer(
            SecretBackend::OsKeystore,
            vault,
            keystore,
        ) == Ok::<(Seq<char>, ResolvedBackend), RdtErrorView>(
            (vault->Ok_0, ResolvedBackend::Vault),
        ),
{
}

/// An unlocked vault is read by key, and the failures of a locked vault and of a missing
/// keystore keep their kind.
pub proof fn handles_read_their_vault(vault: VaultView, key: Seq<char>, keystore: BackendView)
    ensures
        HandleView::Open(vault).read(key) == entry_read(vault.entries, key),
        HandleView::Open(vault).path() == vault.path,
        HandleView::Closed(key).path() == key,
        HandleView::Closed(key).read(key) is Err,
        locked(key).code == ErrorCode::Vault,
        keystore_missing(keystore).code == ErrorCode::Keystore,
{
}

/// An export lists every secret under its key, in order, as its UTF-8 bytes.
pub proof fn exports_list_every_secret(secrets: Seq<(Seq<char>, Seq<char>)>, i: int)
    requires
        0 <= i < secrets.len(),
    ensures
        exported(secrets).len() == secrets.len(),
        exported(secrets)[i].0 == secrets[i].0,
        exported(secrets)[i].1 == encode_utf8(secrets[i].1),
{
}

/// The store says where secrets go: into the vault alone without a keystore, else into
/// the keystore first.
pub proof fn stores_say_where_secrets_go(keystore: BackendView)
    ensures
        keystore is Unavailable ==> store_description(keystore) == "encrypted vault only ("@
            + description(keystore) + ")"@,
        !(keystore is Unavailable) ==> store_description(keystore) == "OS keystore ("@
            + description(keystore) + ") with encrypted vault fallback"@,
{
}

} // verus!
