//! Encrypted vault: ChaCha20-Poly1305 with an Argon2id derived key.
//!
//! File layout (all integers little endian):
//!
//! ```text
//! offset  size  field
//! 0       8     magic "RDTVLT1"
//! 8       4     Argon2 memory cost (KiB)
//! 12      4     Argon2 time cost (iterations)
//! 16      4     Argon2 parallelism
//! 20      16    salt
//! 36      12    AEAD nonce
//! 48      ..    ciphertext (ChaCha20-Poly1305 over the payload, AAD = header)
//! ```
//!
//! The payload is a JSON map of key to base64 encoded value. Because the whole
//! payload is authenticated, tampering with any entry invalidates the file.
use crate::crypto::{
    argon2id, argon2id_key, base64_decode, base64_decoded, base64_encode, base64_text, chacha_open,
    chacha_opened, chacha_seal, chacha_sealed, MAX_MESSAGE,
};
use crate::error::{fail, ErrorCode, RdtError, RdtErrorView, RdtResult};
use crate::json::{read_record, record_bytes, record_read, write_record};
use crate::rng::fill_random_or_panic;
use crate::secret::{wipe_bytes, Secret, SecretBytes};
use crate::text::{concat2, concat3, texts};
use crate::textmap::{ascending, TextMap};
use vstd::prelude::*;
use vstd::utf8::{decode_utf8, encode_utf8, valid_utf8};

verus! {

/// File magic.
pub const MAGIC: [u8; 8] = [0x52, 0x44, 0x54, 0x56, 0x4C, 0x54, 0x31, 0x00];

/// Argon2id memory cost in KiB (64 MiB).
pub const MEMORY_COST: u32 = 64 * 1024;

/// Argon2id iteration count.
pub const TIME_COST: u32 = 3;

/// Argon2id parallelism.
pub const PARALLELISM: u32 = 1;

/// Derived key length.
pub const KEY_LEN: usize = 32;

/// Salt length.
pub const SALT_LEN: usize = 16;

/// Nonce length.
pub const NONCE_LEN: usize = 12;

/// Header length.
pub const HEADER_LEN: usize = 48;

/// The file magic.
pub open spec fn magic() -> Seq<u8> {
    seq![0x52u8, 0x44, 0x54, 0x56, 0x4C, 0x54, 0x31, 0x00]
}

/// A number as four bytes, least significant first.
pub open spec fn little_endian(n: u32) -> Seq<u8> {
    seq![
        (n % 256) as u8,
        (n / 256 % 256) as u8,
        (n / 65536 % 256) as u8,
        (n / 16777216) as u8,
    ]
}

/// The header of a new vault up to the nonce.
pub open spec fn header_lead(salt: Seq<u8>) -> Seq<u8> {
    magic() + little_endian(MEMORY_COST) + little_endian(TIME_COST) + little_endian(PARALLELISM)
        + salt
}

fn push_number(target: &mut Vec<u8>, n: u32)
    ensures
        final(target)@ == old(target)@ + little_endian(n),
{
    target.push((n % 256) as u8);
    target.push((n / 256 % 256) as u8);
    target.push((n / 65536 % 256) as u8);
    target.push((n / 16777216) as u8);
    assert(target@ =~= old(target)@ + little_endian(n));
}

fn push_bytes(target: &mut Vec<u8>, source: &[u8])
    ensures
        final(target)@ == old(target)@ + source@,
{
    let mut i: usize = 0;
    while i < source.len()
        invariant
            i <= source@.len(),
            target@ == old(target)@ + source@.take(i as int),
        decreases source.len() - i,
    {
        target.push(source[i]);
        assert(source@.take(i + 1) =~= source@.take(i as int).push(source@[i as int]));
        i = i + 1;
    }
    assert(source@.take(source@.len() as int) =~= source@);
}

/// The bytes of `source` between two offsets.
fn range(source: &[u8], from: usize, to: usize) -> (r: Vec<u8>)
    requires
        from <= to <= source@.len(),
    ensures
        r@ == source@.subrange(from as int, to as int),
{
    let mut r: Vec<u8> = Vec::new();
    let mut i: usize = from;
    while i < to
        invariant
            from <= i <= to,
            to <= source@.len(),
            r@ == source@.subrange(from as int, i as int),
        decreases to - i,
    {
        r.push(source[i]);
        assert(source@.subrange(from as int, i + 1) =~= source@.subrange(
            from as int,
            i as int,
        ).push(source@[i as int]));
        i = i + 1;
    }
    r
}

/// Builds the header of a new vault; its nonce is still zero.
pub fn build_header(salt: &[u8; 16]) -> (r: Vec<u8>)
    ensures
        r@ == header_lead(salt@) + Seq::new(12, |i: int| 0u8),
        r@.len() == HEADER_LEN,
{
    let mut header: Vec<u8> = Vec::new();
    push_bytes(&mut header, MAGIC.as_slice());
    assert(MAGIC@ =~= magic());
    push_number(&mut header, MEMORY_COST);
    push_number(&mut header, TIME_COST);
    push_number(&mut header, PARALLELISM);
    push_bytes(&mut header, salt.as_slice());
    let zeros: [u8; 12] = [0u8; 12];
    push_bytes(&mut header, zeros.as_slice());
    assert(zeros@ =~= Seq::new(12, |i: int| 0u8));
    assert(header@ =~= header_lead(salt@) + Seq::new(12, |i: int| 0u8));
    header
}

/// The key for a passphrase and a salt.
pub open spec fn derived(passphrase: Seq<char>, salt: Seq<u8>) -> Seq<u8> {
    argon2id_key(encode_utf8(passphrase), salt, MEMORY_COST, TIME_COST, PARALLELISM)
}

/// Whether a passphrase is short enough for the key derivation.
pub open spec fn derivable(passphrase: Seq<char>) -> bool {
    encode_utf8(passphrase).len() <= 0xFFFF_FFFF
}

/// The failure of a key derivation.
pub open spec fn derivation_failure() -> RdtErrorView {
    fail(ErrorCode::Crypto, "key derivation failed: password is too long"@)
}

/// Derives the key for a passphrase and a salt.
pub fn derive_key(passphrase: &Secret, salt: &[u8]) -> (r: RdtResult<SecretBytes>)
    requires
        salt@.len() == SALT_LEN,
    ensures
        r is Ok <==> derivable(passphrase@),
        r is Ok ==> r->Ok_0@ == derived(passphrase@, salt@) && r->Ok_0@.len() == KEY_LEN,
        r is Err ==> r->Err_0@ == derivation_failure(),
{
    match argon2id(passphrase.expose().as_bytes(), salt, MEMORY_COST, TIME_COST, PARALLELISM) {
        Some(key) => Ok(SecretBytes::new(key)),
        None => Err(
            RdtError::new(ErrorCode::Crypto, "key derivation failed: password is too long"),
        ),
    }
}

/// An unlocked vault in memory.
pub struct Vault {
    path: String,
    key: SecretBytes,
    header: Vec<u8>,
    version: u32,
    entries: TextMap,
}

/// What an unlocked vault holds.
pub ghost struct VaultView {
    /// Path of the vault file.
    pub path: Seq<char>,
    /// The key.
    pub key: Seq<u8>,
    /// The header up to the nonce.
    pub lead: Seq<u8>,
    /// The payload version.
    pub version: u32,
    /// Base64 values by key.
    pub entries: Map<Seq<char>, Seq<char>>,
}

impl View for Vault {
    type V = VaultView;

    closed spec fn view(&self) -> VaultView {
        VaultView {
            path: self.path@,
            key: self.key@,
            lead: self.header@.take(36),
            version: self.version,
            entries: self.entries@,
        }
    }
}

impl Drop for Vault {
    fn drop(&mut self)
        opens_invariants none
        no_unwind
    {
        wipe_bytes(&mut self.header);
    }
}

/// The failure of a payload that is not authentic.
pub open spec fn decryption_failure() -> RdtErrorView {
    fail(ErrorCode::Vault, "decryption failed: wrong passphrase or corrupted file"@)
}

/// What the bytes of a vault file hold for a passphrase, or why they cannot be
/// opened.
pub open spec fn vault_opened(path: Seq<char>, bytes: Seq<u8>, passphrase: Seq<char>) -> Result<
    VaultView,
    RdtErrorView,
> {
    let header = bytes.take(48);
    let key = derived(passphrase, bytes.subrange(20, 36));
    if bytes.len() < HEADER_LEN {
        Err(fail(ErrorCode::Vault, "vault file is truncated"@))
    } else if bytes.take(8) != magic() {
        Err(fail(ErrorCode::Vault, "not an RDT vault file"@))
    } else if !derivable(passphrase) {
        Err(derivation_failure())
    } else if bytes.skip(48).len() > MAX_MESSAGE + 16 {
        Err(decryption_failure())
    } else {
        match chacha_opened(key, bytes.subrange(36, 48), header, bytes.skip(48)) {
            None => Err(decryption_failure()),
            Some(payload) => match record_read(payload) {
                Err(message) => Err(fail(ErrorCode::Vault, "corrupt vault payload: "@ + message)),
                Ok(record) => Ok(
                    VaultView {
                        path,
                        key,
                        lead: bytes.take(36),
                        version: record.0,
                        entries: record.1,
                    },
                ),
            },
        }
    }
}

/// The secret that a base64 value stands for.
pub open spec fn entry_decoded(key: Seq<char>, encoded: Seq<char>) -> Result<
    Seq<char>,
    RdtErrorView,
> {
    match base64_decoded(encode_utf8(encoded)) {
        None => Err(fail(ErrorCode::Vault, "corrupt entry '"@ + key + "'"@)),
        Some(bytes) => if valid_utf8(bytes) {
            Ok(decode_utf8(bytes))
        } else {
            Err(fail(ErrorCode::Vault, "entry '"@ + key + "' is not text"@))
        },
    }
}

/// The failure to find an entry.
pub open spec fn entry_missing(key: Seq<char>) -> RdtErrorView {
    fail(ErrorCode::Vault, "no vault entry named '"@ + key + "'"@)
}

/// The secret stored under a key.
pub open spec fn entry_read(entries: Map<Seq<char>, Seq<char>>, key: Seq<char>) -> Result<
    Seq<char>,
    RdtErrorView,
> {
    if entries.contains_key(key) {
        entry_decoded(key, entries[key])
    } else {
        Err(entry_missing(key))
    }
}

/// The secrets of keys in order, up to the first that cannot be read.
pub open spec fn entries_read(
    entries: Map<Seq<char>, Seq<char>>,
    keys: Seq<Seq<char>>,
) -> Result<Seq<(Seq<char>, Seq<char>)>, RdtErrorView>
    decreases keys.len(),
{
    if keys.len() == 0 {
        Ok(Seq::empty())
    } else {
        match entries_read(entries, keys.drop_last()) {
            Err(error) => Err(error),
            Ok(secrets) => match entry_read(entries, keys.last()) {
                Err(error) => Err(error),
                Ok(secret) => Ok(secrets.push((keys.last(), secret))),
            },
        }
    }
}

/// Keys with their secrets.
pub open spec fn secret_views(secrets: Seq<(String, Secret)>) -> Seq<(Seq<char>, Seq<char>)> {
    Seq::new(secrets.len(), |i: int| (secrets[i].0@, secrets[i].1@))
}

/// The failure of an empty passphrase.
pub open spec fn passphrase_missing() -> RdtErrorView {
    fail(ErrorCode::Vault, "the vault passphrase must not be empty"@)
}

/// Whether bytes are a file that opens, with every passphrase that derives the
/// key of the vault, to what the vault holds.
pub open spec fn holds(bytes: Seq<u8>, vault: VaultView) -> bool {
    &&& bytes.len() >= HEADER_LEN
    &&& bytes.take(36) == vault.lead
    &&& forall|passphrase: Seq<char>|
        derivable(passphrase) && derived(passphrase, vault.lead.subrange(20, 36)) == vault.key
            ==> #[trigger] vault_opened(vault.path, bytes, passphrase) == Ok::<
            VaultView,
            RdtErrorView,
        >(vault)
}

/// The content of a vault file: the header, its nonce and the sealed payload.
pub open spec fn sealed(vault: VaultView, nonce: Seq<u8>, payload: Seq<u8>) -> Seq<u8> {
    let header = vault.lead + nonce;
    header + chacha_sealed(vault.key, nonce, header, payload)
}

/// Whether bytes are the sealed form of a vault with an encoded form of its
/// entries.
pub open spec fn authentic(bytes: Seq<u8>, vault: VaultView, payload: Seq<u8>) -> bool {
    &&& bytes == sealed(vault, bytes.subrange(36, 48), payload)
    &&& record_read(payload) is Ok
    &&& record_read(payload)->Ok_0 == (vault.version, vault.entries)
}

/// The encoded form of no entries.
pub open spec fn empty_payload() -> Seq<u8> {
    record_bytes(1, Seq::empty(), Seq::empty())
}

/// Whether a payload is short enough to be encrypted.
pub open spec fn encryptable(payload: Seq<u8>) -> bool {
    payload.len() <= MAX_MESSAGE
}

/// The failure of a payload that is too large to encrypt.
pub open spec fn encryption_failure() -> RdtErrorView {
    fail(ErrorCode::Vault, "encryption failed: aead::Error"@)
}

impl Vault {
    /// The header is complete and starts with the magic, and the key has its
    /// length.
    pub closed spec fn wf(self) -> bool {
        &&& self.header@.len() == HEADER_LEN
        &&& self.header@.take(8) == magic()
        &&& self.key@.len() == KEY_LEN
        &&& self.entries.wf()
    }

    /// The keys in ascending order.
    pub closed spec fn order(self) -> Seq<Seq<char>> {
        self.entries.order()
    }

    /// The encoded entries.
    pub closed spec fn payload(self) -> Seq<u8> {
        record_bytes(self.version, self.entries.order(), self.entries.column())
    }

    /// A new vault for a salt, without entries.
    ///
    /// # Errors
    ///
    /// Returns [`ErrorCode::Vault`] for an empty passphrase and
    /// [`ErrorCode::Crypto`] for one that is too long for the key derivation.
    pub fn with_salt(path: &str, passphrase: &Secret, salt: [u8; 16]) -> (r: RdtResult<Self>)
        ensures
            r is Ok <==> passphrase@.len() > 0 && derivable(passphrase@),
            passphrase@.len() == 0 ==> r->Err_0@ == passphrase_missing(),
            passphrase@.len() > 0 && !derivable(passphrase@) ==> r->Err_0@ == derivation_failure(),
            r is Ok ==> {
                &&& r->Ok_0.wf()
                &&& r->Ok_0.payload() == empty_payload()
                &&& r->Ok_0@ == (VaultView {
                    path: path@,
                    key: derived(passphrase@, salt@),
                    lead: header_lead(salt@),
                    version: 1,
                    entries: Map::empty(),
                })
            },
    {
        if passphrase.is_empty() {
            return Err(RdtError::new(ErrorCode::Vault, "the vault passphrase must not be empty"));
        }
        let key = match derive_key(passphrase, salt.as_slice()) {
            Ok(key) => key,
            Err(error) => {
                return Err(error);
            },
        };
        let header = build_header(&salt);
        proof {
            assert(header_lead(salt@).len() == 36);
            assert(header@.take(36) =~= header_lead(salt@));
            assert(header@.take(8) =~= magic());
        }
        Ok(
            Vault {
                path: path.to_owned(),
                key,
                header,
                version: 1,
                entries: TextMap::new(),
            },
        )
    }

    /// Creates a new vault and the content of its file.
    ///
    /// The salt and the nonce are random.
    ///
    /// # Errors
    ///
    /// Returns [`ErrorCode::Vault`] for an empty passphrase and
    /// [`ErrorCode::Crypto`] for one that is too long for the key derivation.
    pub fn create(path: &str, passphrase: &Secret) -> (r: RdtResult<(Self, Vec<u8>)>)
        ensures
            passphrase@.len() == 0 ==> r is Err && r->Err_0@ == passphrase_missing(),
            passphrase@.len() > 0 && !derivable(passphrase@) ==> r is Err && r->Err_0@
                == derivation_failure(),
            passphrase@.len() > 0 && derivable(passphrase@) ==> {
                &&& r is Ok <==> encryptable(empty_payload())
                &&& r is Err ==> r->Err_0@ == encryption_failure()
            },
            r is Ok ==> {
                let vault = r->Ok_0.0;
                &&& vault.wf()
                &&& vault@.path == path@
                &&& vault@.lead == header_lead(vault@.lead.subrange(20, 36))
                &&& vault@.key == derived(passphrase@, vault@.lead.subrange(20, 36))
                &&& vault@.version == 1
                &&& vault@.entries == Map::<Seq<char>, Seq<char>>::empty()
                &&& holds(r->Ok_0.1@, vault@)
                &&& vault_opened(path@, r->Ok_0.1@, passphrase@) == Ok::<VaultView, RdtErrorView>(
                    vault@,
                )
            },
    {
        let mut salt: [u8; 16] = [0u8; 16];
        fill_random_or_panic(&mut salt);
        let vault = match Self::with_salt(path, passphrase, salt) {
            Ok(vault) => vault,
            Err(error) => {
                return Err(error);
            },
        };
        assert(header_lead(salt@).subrange(20, 36) =~= salt@);
        match vault.save() {
            Ok(bytes) => Ok((vault, bytes)),
            Err(error) => Err(error),
        }
    }

    /// Opens and decrypts the content of a vault file.
    ///
    /// # Errors
    ///
    /// Returns [`ErrorCode::Vault`] when the content is no vault, is not authentic
    /// under the passphrase or holds no entries, and [`ErrorCode::Crypto`] when the
    /// passphrase is too long for the key derivation.
    ///
    /// What opens is exactly what sealing the opened vault under the nonce in the
    /// header gives, so no altered file opens to the same entries.
    pub fn open(path: &str, bytes: &[u8], passphrase: &Secret) -> (r: RdtResult<Self>)
        ensures
            match r {
                Ok(vault) => vault.wf() && vault_opened(path@, bytes@, passphrase@) == Ok::<
                    VaultView,
                    RdtErrorView,
                >(vault@),
                Err(error) => vault_opened(path@, bytes@, passphrase@) == Err::<
                    VaultView,
                    RdtErrorView,
                >(error@),
            },
            r is Ok ==> exists|payload: Seq<u8>|
                #[trigger] authentic(bytes@, r->Ok_0@, payload),
            r is Ok ==> bytes@.len() >= HEADER_LEN + 16,
    {
        if bytes.len() < HEADER_LEN {
            return Err(RdtError::new(ErrorCode::Vault, "vault file is truncated"));
        }
        let lead = range(bytes, 0, 8);
        assert(MAGIC@ =~= magic());
        assert(lead@ =~= bytes@.take(8));
        if !crate::text::same_bytes(lead.as_slice(), MAGIC.as_slice()) {
            return Err(RdtError::new(ErrorCode::Vault, "not an RDT vault file"));
        }
        let header = range(bytes, 0, HEADER_LEN);
        assert(header@ =~= bytes@.take(48));
        let salt = range(bytes, 20, 36);
        let nonce = range(bytes, 36, HEADER_LEN);
        let key = match derive_key(passphrase, salt.as_slice()) {
            Ok(key) => key,
            Err(error) => {
                return Err(error);
            },
        };
        let ciphertext = range(bytes, HEADER_LEN, bytes.len());
        assert(ciphertext@ =~= bytes@.skip(48));
        let opened = if ciphertext.len() as u64 <= MAX_MESSAGE + 16 {
            chacha_open(
                key.expose(),
                nonce.as_slice(),
                header.as_slice(),
                ciphertext.as_slice(),
            )
        } else {
            None
        };
        let payload = match opened {
            Some(payload) => payload,
            None => {
                return Err(
                    RdtError::new(
                        ErrorCode::Vault,
                        "decryption failed: wrong passphrase or corrupted file",
                    ),
                );
            },
        };
        match read_record(payload.as_slice()) {
            Ok((version, entries)) => {
                proof {
                    assert(header@.take(8) =~= bytes@.take(8));
                    assert(header@.take(36) =~= bytes@.take(36));
                    assert(bytes@.take(36) + nonce@ =~= header@);
                    assert(bytes@ =~= header@ + ciphertext@);
                }
                let ghost header_bytes = header@;
                let vault = Vault { path: path.to_owned(), key, header, version, entries };
                proof {
                    let view = vault@;
                    assert(view.lead + bytes@.subrange(36, 48) == header_bytes);
                    assert(view.key == derived(passphrase@, bytes@.subrange(20, 36)));
                    assert(bytes@ == sealed(view, bytes@.subrange(36, 48), payload@));
                    assert(authentic(bytes@, view, payload@));
                }
                let r: RdtResult<Self> = Ok(vault);
                assert(r->Ok_0@ == vault@);
                assert(authentic(bytes@, r->Ok_0@, payload@));
                r
            },
            Err(message) => Err(
                RdtError::new(
                    ErrorCode::Vault,
                    concat2("corrupt vault payload: ", message.as_str()).as_str(),
                ),
            ),
        }
    }

    /// Path of the vault file.
    pub fn path(&self) -> (r: &str)
        ensures
            r@ == self@.path,
    {
        self.path.as_str()
    }

    /// Every entry, sorted by key.
    ///
    /// # Errors
    ///
    /// Returns [`ErrorCode::Vault`] for the first entry that is not text.
    pub fn entries(&self) -> (r: RdtResult<Vec<(String, Secret)>>)
        requires
            self.wf(),
        ensures
            match r {
                Ok(secrets) => entries_read(self@.entries, self.order()) == Ok::<
                    Seq<(Seq<char>, Seq<char>)>,
                    RdtErrorView,
                >(secret_views(secrets@)),
                Err(error) => entries_read(self@.entries, self.order()) == Err::<
                    Seq<(Seq<char>, Seq<char>)>,
                    RdtErrorView,
                >(error@),
            },
    {
        let keys = self.entries.keys();
        let mut out: Vec<(String, Secret)> = Vec::new();
        let mut i: usize = 0;
        assert(self.order().take(0) =~= Seq::<Seq<char>>::empty());
        assert(secret_views(out@) =~= Seq::<(Seq<char>, Seq<char>)>::empty());
        while i < keys.len()
            invariant
                i <= keys@.len(),
                self.wf(),
                texts(keys@) == self.order(),
                keys@.len() == self.order().len(),
                entries_read(self@.entries, self.order().take(i as int)) == Ok::<
                    Seq<(Seq<char>, Seq<char>)>,
                    RdtErrorView,
                >(secret_views(out@)),
            decreases keys.len() - i,
        {
            proof {
                assert(self.order().take(i + 1).drop_last() =~= self.order().take(i as int));
                assert(self.order().take(i + 1).last() == keys@[i as int]@) by {
                    assert(texts(keys@)[i as int] == keys@[i as int]@);
                }
            }
            match self.get(keys[i].as_str()) {
                Ok(secret) => {
                    let ghost held = out@;
                    let ghost value = secret@;
                    out.push((keys[i].clone(), secret));
                    assert(secret_views(out@) =~= secret_views(held).push(
                        (keys@[i as int]@, value),
                    ));
                },
                Err(error) => {
                    proof {
                        failures_last(self@.entries, self.order(), i + 1);
                    }
                    return Err(error);
                },
            }
            i = i + 1;
        }
        assert(self.order().take(self.order().len() as int) =~= self.order());
        Ok(out)
    }

    /// Sorted keys.
    pub fn keys(&self) -> (r: Vec<String>)
        requires
            self.wf(),
        ensures
            texts(r@) == self.order(),
            ascending(texts(r@)),
            forall|k: Seq<char>| #[trigger] texts(r@).contains(k) <==> self@.entries.contains_key(k),
    {
        self.entries.keys()
    }

    /// Reads one entry.
    ///
    /// # Errors
    ///
    /// Returns [`ErrorCode::Vault`] when there is no such entry or it is not text.
    pub fn get(&self, key: &str) -> (r: RdtResult<Secret>)
        requires
            self.wf(),
        ensures
            match r {
                Ok(secret) => entry_read(self@.entries, key@) == Ok::<Seq<char>, RdtErrorView>(
                    secret@,
                ),
                Err(error) => entry_read(self@.entries, key@) == Err::<Seq<char>, RdtErrorView>(
                    error@,
                ),
            },
    {
        let encoded = match self.entries.get(key) {
            Some(encoded) => encoded,
            None => {
                return Err(
                    RdtError::new(
                        ErrorCode::Vault,
                        concat3("no vault entry named '", key, "'").as_str(),
                    ),
                );
            },
        };
        let raw = match base64_decode(encoded) {
            Some(raw) => raw,
            None => {
                return Err(
                    RdtError::new(
                        ErrorCode::Vault,
                        concat3("corrupt entry '", key, "'").as_str(),
                    ),
                );
            },
        };
        match SecretBytes::new(raw).into_utf8_secret() {
            Some(secret) => Ok(secret),
            None => Err(
                RdtError::new(
                    ErrorCode::Vault,
                    concat3("entry '", key, "' is not text").as_str(),
                ),
            ),
        }
    }

    /// Inserts or replaces an entry and gives the new content of the file.
    ///
    /// # Errors
    ///
    /// Returns [`ErrorCode::Vault`] when the entries are too large to encrypt.
    pub fn set(&mut self, key: &str, value: &Secret) -> (r: RdtResult<Vec<u8>>)
        requires
            old(self).wf(),
        ensures
            final(self).wf(),
            final(self)@ == (VaultView {
                entries: old(self)@.entries.insert(key@, base64_text(encode_utf8(value@))),
                ..old(self)@
            }),
            entry_read(final(self)@.entries, key@) == Ok::<Seq<char>, RdtErrorView>(value@),
            r is Ok <==> encryptable(final(self).payload()),
            r is Ok ==> holds(r->Ok_0@, final(self)@),
            r is Err ==> r->Err_0@ == encryption_failure(),
    {
        broadcast use vstd::utf8::encode_utf8_decode_utf8;

        let encoded = base64_encode(value.expose().as_bytes());
        proof {
            vstd::utf8::encode_utf8_valid_utf8(value@);
        }
        self.entries.insert(key, encoded.as_str());
        self.save()
    }

    /// Removes an entry and gives the new content of the file.
    ///
    /// # Errors
    ///
    /// Returns [`ErrorCode::Vault`] when there is no such entry, or when the
    /// entries are too large to encrypt.
    pub fn delete(&mut self, key: &str) -> (r: RdtResult<Vec<u8>>)
        requires
            old(self).wf(),
        ensures
            final(self).wf(),
            final(self)@ == (VaultView {
                entries: old(self)@.entries.remove(key@),
                ..old(self)@
            }),
            !old(self)@.entries.contains_key(key@) ==> r is Err && r->Err_0@ == entry_missing(key@),
            old(self)@.entries.contains_key(key@) ==> (r is Ok <==> encryptable(
                final(self).payload(),
            )),
            r is Ok ==> holds(r->Ok_0@, final(self)@),
            r is Err && old(self)@.entries.contains_key(key@) ==> r->Err_0@ == encryption_failure(),
    {
        if !self.entries.remove(key) {
            return Err(
                RdtError::new(
                    ErrorCode::Vault,
                    concat3("no vault entry named '", key, "'").as_str(),
                ),
            );
        }
        self.save()
    }

    /// Takes a new passphrase for a salt, keeping every entry.
    ///
    /// # Errors
    ///
    /// Returns [`ErrorCode::Vault`] for an empty passphrase and
    /// [`ErrorCode::Crypto`] for one that is too long for the key derivation; the
    /// vault then keeps its key.
    pub fn rekey(&mut self, new_passphrase: &Secret, salt: [u8; 16]) -> (r: RdtResult<()>)
        requires
            old(self).wf(),
        ensures
            final(self).wf(),
            r is Ok <==> new_passphrase@.len() > 0 && derivable(new_passphrase@),
            r is Ok ==> final(self)@ == (VaultView {
                key: derived(new_passphrase@, salt@),
                lead: header_lead(salt@),
                ..old(self)@
            }),
            r is Err ==> final(self)@ == old(self)@,
            new_passphrase@.len() == 0 ==> r->Err_0@ == passphrase_missing(),
            new_passphrase@.len() > 0 && !derivable(new_passphrase@) ==> r->Err_0@
                == derivation_failure(),
    {
        if new_passphrase.is_empty() {
            return Err(RdtError::new(ErrorCode::Vault, "the vault passphrase must not be empty"));
        }
        match derive_key(new_passphrase, salt.as_slice()) {
            Ok(key) => {
                self.key = key;
            },
            Err(error) => {
                return Err(error);
            },
        }
        self.header = build_header(&salt);
        proof {
            assert(header_lead(salt@).len() == 36);
            assert(self.header@.take(36) =~= header_lead(salt@));
            assert(self.header@.take(8) =~= magic());
        }
        Ok(())
    }

    /// Changes the passphrase, re-encrypting every entry, and gives the new
    /// content of the file.
    ///
    /// # Errors
    ///
    /// Returns [`ErrorCode::Vault`] for an empty passphrase and
    /// [`ErrorCode::Crypto`] for one that is too long for the key derivation; the
    /// vault then keeps its key.
    pub fn change_passphrase(&mut self, new_passphrase: &Secret) -> (r: RdtResult<Vec<u8>>)
        requires
            old(self).wf(),
        ensures
            final(self).wf(),
            final(self)@.path == old(self)@.path,
            final(self)@.version == old(self)@.version,
            final(self)@.entries == old(self)@.entries,
            new_passphrase@.len() == 0 ==> r is Err && r->Err_0@ == passphrase_missing()
                && final(self)@ == old(self)@,
            new_passphrase@.len() > 0 && !derivable(new_passphrase@) ==> r is Err && r->Err_0@
                == derivation_failure() && final(self)@ == old(self)@,
            new_passphrase@.len() > 0 && derivable(new_passphrase@) ==> {
                &&& final(self)@.lead == header_lead(final(self)@.lead.subrange(20, 36))
                &&& final(self)@.key == derived(
                    new_passphrase@,
                    final(self)@.lead.subrange(20, 36),
                )
                &&& r is Ok <==> encryptable(final(self).payload())
                &&& r is Err ==> r->Err_0@ == encryption_failure()
            },
            r is Ok ==> {
                &&& holds(r->Ok_0@, final(self)@)
                &&& vault_opened(old(self)@.path, r->Ok_0@, new_passphrase@) == Ok::<
                    VaultView,
                    RdtErrorView,
                >(final(self)@)
            },
    {
        let mut salt: [u8; 16] = [0u8; 16];
        fill_random_or_panic(&mut salt);
        if let Err(error) = self.rekey(new_passphrase, salt) {
            return Err(error);
        }
        assert(header_lead(salt@).subrange(20, 36) =~= salt@);
        self.save()
    }

    /// The content of the vault file under a nonce.
    ///
    /// # Errors
    ///
    /// Returns [`ErrorCode::Vault`] when the entries are too large to encrypt.
    pub fn seal(&self, nonce: [u8; 12]) -> (r: RdtResult<Vec<u8>>)
        requires
            self.wf(),
        ensures
            r is Ok <==> encryptable(self.payload()),
            r is Ok ==> r->Ok_0@ == sealed(self@, nonce@, self.payload()),
            r is Ok ==> holds(r->Ok_0@, self@),
            r is Err ==> r->Err_0@ == encryption_failure(),
    {
        let mut header = range(self.header.as_slice(), 0, 36);
        push_bytes(&mut header, nonce.as_slice());
        proof {
            assert(self.header@.subrange(0, 36) =~= self@.lead);
        }
        let plaintext = write_record(self.version, &self.entries);
        if plaintext.len() as u64 > MAX_MESSAGE {
            return Err(RdtError::new(ErrorCode::Vault, "encryption failed: aead::Error"));
        }
        let ciphertext = chacha_seal(
            self.key.expose(),
            nonce.as_slice(),
            header.as_slice(),
            plaintext.as_slice(),
        );
        let ghost lead = self@.lead;
        let ghost head = header@;
        let mut bytes = header;
        push_bytes(&mut bytes, ciphertext.as_slice());
        proof {
            assert(head == lead + nonce@);
            assert(lead.len() == 36);
            assert(bytes@.take(48) =~= head);
            assert(bytes@.take(36) =~= lead);
            assert(bytes@.subrange(36, 48) =~= nonce@);
            assert(bytes@.subrange(20, 36) =~= lead.subrange(20, 36));
            assert(bytes@.skip(48) =~= ciphertext@);
            assert(bytes@.take(8) =~= self.header@.take(8));
        }
        Ok(bytes)
    }

    /// The content of the vault file under a fresh random nonce.
    ///
    /// # Errors
    ///
    /// Returns [`ErrorCode::Vault`] when the entries are too large to encrypt.
    pub fn save(&self) -> (r: RdtResult<Vec<u8>>)
        requires
            self.wf(),
        ensures
            r is Ok <==> encryptable(self.payload()),
            r is Ok ==> holds(r->Ok_0@, self@),
            r is Ok ==> exists|nonce: Seq<u8>|
                nonce.len() == NONCE_LEN && r->Ok_0@ == #[trigger] sealed(
                    self@,
                    nonce,
                    self.payload(),
                ),
            r is Err ==> r->Err_0@ == encryption_failure(),
    {
        let mut nonce: [u8; 12] = [0u8; 12];
        fill_random_or_panic(&mut nonce);
        self.seal(nonce)
    }
}

/// A file that is cut inside the header, or that does not start with the magic, is
/// refused whatever the passphrase.
pub proof fn damaged_headers_are_refused(path: Seq<char>, bytes: Seq<u8>, passphrase: Seq<char>)
    requires
        bytes.len() < HEADER_LEN || bytes.take(8) != magic(),
    ensures
        vault_opened(path, bytes, passphrase) is Err,
        vault_opened(path, bytes, passphrase)->Err_0.code == ErrorCode::Vault,
{
}

/// A file that was altered behind its header never opens to what it held: of the
/// files that open to a payload, only one has the nonce.
pub proof fn altered_files_never_hold_the_same(
    bytes: Seq<u8>,
    altered: Seq<u8>,
    vault: VaultView,
    payload: Seq<u8>,
)
    requires
        authentic(bytes, vault, payload),
        altered.subrange(36, 48) == bytes.subrange(36, 48),
        altered != bytes,
    ensures
        !authentic(altered, vault, payload),
{
}

proof fn failures_last(entries: Map<Seq<char>, Seq<char>>, keys: Seq<Seq<char>>, n: int)
    requires
        0 <= n <= keys.len(),
        entries_read(entries, keys.take(n)) is Err,
    ensures
        entries_read(entries, keys) == entries_read(entries, keys.take(n)),
    decreases keys.len() - n,
{
    if n == keys.len() {
        assert(keys.take(n) =~= keys);
    } else {
        assert(keys.take(n + 1).drop_last() =~= keys.take(n));
        failures_last(entries, keys, n + 1);
    }
}

/// A vault file starts with the eight bytes `RDTVLT1` and zero, then the three costs
/// of the key derivation in little-endian order (65536, 3 and 1), then the salt.
pub proof fn headers_have_their_layout(salt: Seq<u8>)
    ensures
        header_lead(salt).take(8) == seq![0x52u8, 0x44, 0x54, 0x56, 0x4C, 0x54, 0x31, 0x00],
        header_lead(salt).subrange(8, 12) == seq![0u8, 0, 1, 0],
        header_lead(salt).subrange(12, 16) == seq![3u8, 0, 0, 0],
        header_lead(salt).subrange(16, 20) == seq![1u8, 0, 0, 0],
        header_lead(salt).skip(20) == salt,
{
    let h = header_lead(salt);
    assert(h.take(8) =~= seq![0x52u8, 0x44, 0x54, 0x56, 0x4C, 0x54, 0x31, 0x00]);
    assert(h.subrange(8, 12) =~= seq![0u8, 0, 1, 0]);
    assert(h.subrange(12, 16) =~= seq![3u8, 0, 0, 0]);
    assert(h.subrange(16, 20) =~= seq![1u8, 0, 0, 0]);
    assert(h.skip(20) =~= salt);
}

/// The key of a vault is derived from the bytes of the passphrase and the salt, over 64
/// MiB in three passes and one lane.
pub proof fn keys_are_derived_from_passphrases(passphrase: Seq<char>, salt: Seq<u8>)
    ensures
        derived(passphrase, salt) == argon2id_key(encode_utf8(passphrase), salt, 65536, 3, 1),
{
}

/// A vault file is its header, which ends with the nonce, and the payload sealed under
/// the key and the nonce with the whole header as associated data; it opens with the
/// key that the passphrase derives from the salt in the header.
pub proof fn files_are_headers_and_sealed_payloads(
    vault: VaultView,
    nonce: Seq<u8>,
    payload: Seq<u8>,
    path: Seq<char>,
    bytes: Seq<u8>,
    passphrase: Seq<char>,
)
    ensures
        sealed(vault, nonce, payload) == vault.lead + nonce + chacha_sealed(
            vault.key,
            nonce,
            vault.lead + nonce,
            payload,
        ),
        vault_opened(path, bytes, passphrase) is Ok ==> {
            let key = argon2id_key(
                encode_utf8(passphrase),
                bytes.subrange(20, 36),
                65536,
                3,
                1,
            );
            let opened = chacha_opened(key, bytes.subrange(36, 48), bytes.take(48), bytes.skip(48));
            &&& opened is Some
            &&& record_read(opened->0) is Ok
            &&& vault_opened(path, bytes, passphrase)->Ok_0.key == key
            &&& vault_opened(path, bytes, passphrase)->Ok_0.path == path
            &&& vault_opened(path, bytes, passphrase)->Ok_0.lead == bytes.take(36)
            &&& vault_opened(path, bytes, passphrase)->Ok_0.version == (record_read(
                opened->0,
            )->Ok_0).0
            &&& vault_opened(path, bytes, passphrase)->Ok_0.entries == (record_read(
                opened->0,
            )->Ok_0).1
        },
{
}

/// What is not authentic under the passphrase is refused, and so is a payload that is
/// no record; both are failures of the vault.
pub proof fn unauthentic_files_are_refused(path: Seq<char>, bytes: Seq<u8>, passphrase: Seq<char>)
    requires
        encode_utf8(passphrase).len() <= 0xFFFF_FFFF,
        bytes.len() >= 48,
        ({
            let opened = chacha_opened(
                argon2id_key(encode_utf8(passphrase), bytes.subrange(20, 36), 65536, 3, 1),
                bytes.subrange(36, 48),
                bytes.take(48),
                bytes.skip(48),
            );
            opened is None || record_read(opened->0) is Err
        }),
    ensures
        vault_opened(path, bytes, passphrase) is Err,
        vault_opened(path, bytes, passphrase)->Err_0.code == ErrorCode::Vault,
{
}

/// An entry is read by its own key: the text that its base64 stands for, or a failure of
/// the vault when there is no such entry, when it is not base64 or when it is no text.
pub proof fn entries_are_read_by_key(
    entries: Map<Seq<char>, Seq<char>>,
    key: Seq<char>,
    encoded: Seq<char>,
)
    ensures
        !entries.contains_key(key) ==> entry_read(entries, key) is Err && entry_read(
            entries,
            key,
        )->Err_0.code == ErrorCode::Vault,
        match base64_decoded(encode_utf8(encoded)) {
            Some(bytes) => valid_utf8(bytes) ==> entry_read(entries.insert(key, encoded), key)
                == Ok::<Seq<char>, RdtErrorView>(decode_utf8(bytes)),
            None => entry_read(entries.insert(key, encoded), key) is Err,
        },
{
}

/// Secrets are read key by key in the given order, and one that cannot be read refuses
/// all of them.
pub proof fn secrets_are_read_in_order(
    entries: Map<Seq<char>, Seq<char>>,
    keys: Seq<Seq<char>>,
    key: Seq<char>,
)
    ensures
        entries_read(entries, Seq::empty()) == Ok::<
            Seq<(Seq<char>, Seq<char>)>,
            RdtErrorView,
        >(Seq::empty()),
        entries_read(entries, keys) is Ok && entry_read(entries, key) is Ok ==> entries_read(
            entries,
            keys.push(key),
        ) == Ok::<Seq<(Seq<char>, Seq<char>)>, RdtErrorView>(
            entries_read(entries, keys)->Ok_0.push((key, entry_read(entries, key)->Ok_0)),
        ),
        entries_read(entries, keys) is Ok && entry_read(entries, key) is Err ==> entries_read(
            entries,
            keys.push(key),
        ) == Err::<Seq<(Seq<char>, Seq<char>)>, RdtErrorView>(entry_read(entries, key)->Err_0),
        entries_read(entries, keys) is Err ==> entries_read(entries, keys.push(key))
            == entries_read(entries, keys),
{
    assert(keys.push(key).drop_last() =~= keys);
}

/// A vault without a passphrase is refused, and a new vault holds an empty record.
pub proof fn new_vaults_are_empty()
    ensures
        passphrase_missing().code == ErrorCode::Vault,
        passphrase_missing().message == "the vault passphrase must not be empty"@,
        empty_payload() == record_bytes(1, Seq::empty(), Seq::empty()),
{
}

} // verus!
