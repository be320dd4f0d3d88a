//! TLS certificate validation and pinning for RDP.
use crate::crypto::{sha256, sha256_digest};
use crate::error::{fail, ErrorCode, RdtError, RdtErrorView, RdtResult};
use crate::ids::{hex_text, to_hex};
use crate::json::{json_map, read_map, write_map};
use crate::proto::CertPolicy;
use crate::text::{lower_case, same, to_lowercase};
use crate::textmap::TextMap;
use vstd::prelude::*;

verus! {

/// What was decided about a server certificate.
#[derive(Debug, Clone, PartialEq, Eq)]
pub enum CertificateDecision {
    /// The certificate chains to a trusted root.
    VerifiedByCa,
    /// The certificate matched a recorded fingerprint.
    Pinned {
        /// `sha256:<hex>` of the presented certificate.
        fingerprint: String,
    },
    /// The certificate was recorded on first use.
    RecordedOnFirstUse {
        /// `sha256:<hex>` of the presented certificate.
        fingerprint: String,
    },
}

/// What a decision says.
pub ghost enum DecisionView {
    /// See [`CertificateDecision::VerifiedByCa`].
    VerifiedByCa,
    /// See [`CertificateDecision::Pinned`].
    Pinned(Seq<char>),
    /// See [`CertificateDecision::RecordedOnFirstUse`].
    RecordedOnFirstUse(Seq<char>),
}

impl View for CertificateDecision {
    type V = DecisionView;

    open spec fn view(&self) -> DecisionView {
        match self {
            CertificateDecision::VerifiedByCa => DecisionView::VerifiedByCa,
            CertificateDecision::Pinned { fingerprint } => DecisionView::Pinned(fingerprint@),
            CertificateDecision::RecordedOnFirstUse { fingerprint } => {
                DecisionView::RecordedOnFirstUse(fingerprint@)
            },
        }
    }
}

/// The fingerprint of a certificate.
pub open spec fn certificate_fingerprint(der: Seq<u8>) -> Seq<char> {
    "sha256:"@ + hex_text(sha256_digest(der))
}

/// Computes the `sha256:<hex>` fingerprint of a DER certificate.
pub fn sha256_fingerprint(der: &[u8]) -> (r: String)
    ensures
        r@ == certificate_fingerprint(der@),
        r@.len() == 71,
{
    let digest = sha256(der);
    let mut r = "sha256:".to_owned();
    let hex = to_hex(digest.as_slice());
    r.push_str(hex.as_str());
    proof {
        reveal_strlit("sha256:");
        crate::ids::hex_text_len(digest@);
    }
    r
}

/// A set of pinned host fingerprints, persisted as JSON.
#[derive(Debug, PartialEq, Eq)]
pub struct PinnedCertificates {
    entries: TextMap,
    path: Option<String>,
}

impl Default for PinnedCertificates {
    fn default() -> (r: Self)
        ensures
            r.wf(),
            r@ == Map::<Seq<char>, Seq<char>>::empty(),
            r.file() is None,
    {
        PinnedCertificates { entries: TextMap::new(), path: None }
    }
}

impl Clone for PinnedCertificates {
    fn clone(&self) -> (r: Self)
        ensures
            r@ == self@,
            r.file() == self.file(),
            self.wf() ==> r.wf(),
    {
        let path = match &self.path {
            Some(path) => Some(path.as_str().to_owned()),
            None => None,
        };
        PinnedCertificates { entries: self.entries.clone(), path }
    }
}

impl View for PinnedCertificates {
    type V = Map<Seq<char>, Seq<char>>;

    /// Fingerprints by lower case host name.
    closed spec fn view(&self) -> Map<Seq<char>, Seq<char>> {
        self.entries@
    }
}

/// The outcome of reading the pin store at `path`.
pub open spec fn pins_read(path: Seq<char>, content: Result<Option<Seq<char>>, Seq<char>>) -> Result<
    (Map<Seq<char>, Seq<char>>, Option<Seq<char>>),
    RdtErrorView,
> {
    match content {
        Ok(None) => Ok((Map::empty(), None)),
        Ok(Some(text)) => match json_map(text) {
            Ok(entries) => Ok((entries, Some(path))),
            Err(message) => Err(
                (RdtErrorView {
                    context: seq!["path: "@ + path],
                    ..fail(ErrorCode::Config, "cannot parse the pin store: "@ + message)
                }),
            ),
        },
        Err(message) => Err(
            (RdtErrorView { context: seq!["path: "@ + path], ..fail(ErrorCode::Io, message) }),
        ),
    }
}

/// The text that a file had, if it could be read.
pub open spec fn content_view(content: Result<Option<String>, String>) -> Result<
    Option<Seq<char>>,
    Seq<char>,
> {
    match content {
        Ok(Some(text)) => Ok(Some(text@)),
        Ok(None) => Ok(None),
        Err(message) => Err(message@),
    }
}

proof fn context_line(key: Seq<char>, value: Seq<char>)
    requires
        key == "path"@ || key == "fingerprint"@,
    ensures
        key == "path"@ ==> key + ": "@ + value == "path: "@ + value,
        key == "fingerprint"@ ==> key + ": "@ + value == "fingerprint: "@ + value,
{
    reveal_strlit("path");
    reveal_strlit("fingerprint");
    reveal_strlit(": ");
    reveal_strlit("path: ");
    reveal_strlit("fingerprint: ");
    assert("path"@ + ": "@ =~= "path: "@);
    assert("fingerprint"@ + ": "@ =~= "fingerprint: "@);
}

impl PinnedCertificates {
    /// Every host is recorded once.
    pub closed spec fn wf(self) -> bool {
        self.entries.wf()
    }

    /// The file that the store is attached to.
    pub closed spec fn file(self) -> Option<Seq<char>> {
        match self.path {
            Some(path) => Some(path@),
            None => None,
        }
    }

    /// How many hosts are recorded.
    pub closed spec fn count(self) -> nat {
        self.entries.order().len()
    }

    /// An empty set that is not attached to a file.
    pub fn empty() -> (r: Self)
        ensures
            r.wf(),
            r@ == Map::<Seq<char>, Seq<char>>::empty(),
            r.count() == 0,
            r.file() is None,
    {
        PinnedCertificates { entries: TextMap::new(), path: None }
    }

    /// Takes the pin store from what its file holds: nothing when the file does
    /// not exist, or why it cannot be read.
    ///
    /// # Errors
    ///
    /// Returns [`ErrorCode::Io`] when the file exists but cannot be read, and
    /// [`ErrorCode::Config`] when it holds no pin store.
    pub fn load(path: &str, content: Result<Option<String>, String>) -> (r: RdtResult<Self>)
        ensures
            match r {
                Ok(pins) => pins.wf() && pins_read(path@, content_view(content)) == Ok::<
                    (Map<Seq<char>, Seq<char>>, Option<Seq<char>>),
                    RdtErrorView,
                >((pins@, pins.file())),
                Err(error) => pins_read(path@, content_view(content)) == Err::<
                    (Map<Seq<char>, Seq<char>>, Option<Seq<char>>),
                    RdtErrorView,
                >(error@),
            },
    {
        proof {
            context_line("path"@, path@);
        }
        match content {
            Ok(None) => Ok(PinnedCertificates::empty()),
            Ok(Some(text)) => match read_map(text.as_str()) {
                Ok(entries) => Ok(PinnedCertificates { entries, path: Some(path.to_owned()) }),
                Err(message) => {
                    let mut line = "cannot parse the pin store: ".to_owned();
                    line.push_str(message.as_str());
                    let error = RdtError::new(ErrorCode::Config, line.as_str()).with_context(
                        "path",
                        path,
                    );
                    assert(error@.context =~= seq!["path: "@ + path@]);
                    Err(error)
                },
            },
            Err(message) => {
                let error = RdtError::new(ErrorCode::Io, message.as_str()).with_context("path", path);
                assert(error@.context =~= seq!["path: "@ + path@]);
                Err(error)
            },
        }
    }

    /// Number of recorded pins.
    pub fn len(&self) -> (r: usize)
        requires
            self.wf(),
        ensures
            r == self.count(),
    {
        self.entries.len()
    }

    /// Whether no pins are recorded.
    pub fn is_empty(&self) -> (r: bool)
        requires
            self.wf(),
        ensures
            r == (self.count() == 0),
            r == (self@ == Map::<Seq<char>, Seq<char>>::empty()),
    {
        proof {
            crate::textmap::order_lists_the_keys(self.entries);
            if self.entries.order().len() > 0 {
                assert(self.entries.order().contains(self.entries.order()[0]));
                assert(self@.contains_key(self.entries.order()[0]));
            } else {
                assert forall|k: Seq<char>| !self@.contains_key(k) by {
                    assert(!self.entries.order().contains(k));
                }
                assert(self@ =~= Map::<Seq<char>, Seq<char>>::empty());
            }
        }
        self.entries.len() == 0
    }

    /// Looks up a host.
    pub fn get(&self, host: &str) -> (r: Option<&str>)
        requires
            self.wf(),
        ensures
            r is Some <==> self@.contains_key(lower_case(host@)),
            r is Some ==> r->0@ == self@[lower_case(host@)],
    {
        let key = to_lowercase(host);
        self.entries.get(key.as_str())
    }

    /// Records or replaces a pin.
    pub fn pin(&mut self, host: &str, fingerprint: &str)
        requires
            old(self).wf(),
        ensures
            final(self).wf(),
            final(self)@ == old(self)@.insert(lower_case(host@), fingerprint@),
            final(self).count() == old(self).count() + if old(self)@.contains_key(
                lower_case(host@),
            ) {
                0nat
            } else {
                1
            },
            final(self).file() == old(self).file(),
    {
        let key = to_lowercase(host);
        self.entries.insert(key.as_str(), fingerprint);
    }

    /// Removes a pin, returning whether one existed.
    pub fn unpin(&mut self, host: &str) -> (r: bool)
        requires
            old(self).wf(),
        ensures
            final(self).wf(),
            r == old(self)@.contains_key(lower_case(host@)),
            final(self)@ == old(self)@.remove(lower_case(host@)),
            final(self).count() == old(self).count() - if r {
                1int
            } else {
                0
            },
            final(self).file() == old(self).file(),
    {
        let key = to_lowercase(host);
        self.entries.remove(key.as_str())
    }

    /// The file to write and its new content, which [`PinnedCertificates::load`]
    /// turns into the same store.
    ///
    /// # Errors
    ///
    /// Returns [`ErrorCode::Config`] when the store is not attached to a file.
    pub fn save(&self) -> (r: RdtResult<(String, String)>)
        requires
            self.wf(),
        ensures
            match r {
                Ok(file) => {
                    &&& self.file() == Some(file.0@)
                    &&& pins_read(file.0@, Ok(Some(file.1@))) == Ok::<
                        (Map<Seq<char>, Seq<char>>, Option<Seq<char>>),
                        RdtErrorView,
                    >((self@, self.file()))
                },
                Err(error) => self.file() is None && error@ == fail(
                    ErrorCode::Config,
                    "the pin store has no file"@,
                ),
            },
    {
        match &self.path {
            Some(path) => Ok((path.as_str().to_owned(), write_map(&self.entries))),
            None => Err(RdtError::new(ErrorCode::Config, "the pin store has no file")),
        }
    }
}

/// What the policy says about a certificate that does not chain to a trusted
/// root, given the fingerprint recorded for the host.
pub open spec fn judged(
    policy: CertPolicy,
    host: Seq<char>,
    recorded: Option<Seq<char>>,
    fingerprint: Seq<char>,
) -> Result<DecisionView, RdtErrorView> {
    match policy {
        CertPolicy::Verify => Err(
            (RdtErrorView {
                context: seq!["fingerprint: "@ + fingerprint],
                ..fail(
                    ErrorCode::Tls,
                    "the certificate presented by "@ + host
                        + " is not signed by a trusted authority"@,
                )
            }),
        ),
        CertPolicy::VerifyOrPinned => match recorded {
            Some(expected) => if expected == fingerprint {
                Ok(DecisionView::Pinned(fingerprint))
            } else {
                Err(
                    fail(
                        ErrorCode::Tls,
                        "the certificate for "@ + host + " changed; pinned "@ + expected
                            + ", presented "@ + fingerprint,
                    ),
                )
            },
            None => Err(
                (RdtErrorView {
                    context: seq!["fingerprint: "@ + fingerprint],
                    ..fail(
                        ErrorCode::Tls,
                        "no trusted certificate is recorded for "@ + host,
                    )
                }),
            ),
        },
        CertPolicy::TrustOnFirstUse => match recorded {
            Some(expected) => if expected == fingerprint {
                Ok(DecisionView::Pinned(fingerprint))
            } else {
                Err(
                    fail(
                        ErrorCode::Tls,
                        "the certificate for "@ + host
                            + " changed since it was first trusted (pinned "@ + expected + ")"@,
                    ),
                )
            },
            None => Ok(DecisionView::RecordedOnFirstUse(fingerprint)),
        },
    }
}

/// The fingerprint recorded for a host.
pub open spec fn recorded_pin(pins: Map<Seq<char>, Seq<char>>, host: Seq<char>) -> Option<
    Seq<char>,
> {
    if pins.contains_key(lower_case(host)) {
        Some(pins[lower_case(host)])
    } else {
        None
    }
}

/// The decision about a certificate, and the pins after it.
pub open spec fn verified(
    policy: CertPolicy,
    host: Seq<char>,
    pins: Map<Seq<char>, Seq<char>>,
    der: Seq<u8>,
    ca_verified: bool,
) -> (Result<DecisionView, RdtErrorView>, Map<Seq<char>, Seq<char>>) {
    let fingerprint = certificate_fingerprint(der);
    if ca_verified {
        (Ok(DecisionView::VerifiedByCa), pins)
    } else {
        let decision = judged(policy, host, recorded_pin(pins, host), fingerprint);
        (
            decision,
            if decision is Ok && decision->Ok_0 is RecordedOnFirstUse {
                pins.insert(lower_case(host), fingerprint)
            } else {
                pins
            },
        )
    }
}

/// Applies the certificate policy to a presented certificate.
pub struct CertificateVerifier {
    policy: CertPolicy,
    pins: PinnedCertificates,
    host: String,
}

impl CertificateVerifier {
    /// The pins hold each host once.
    pub closed spec fn wf(self) -> bool {
        self.pins.wf()
    }

    /// The policy in force.
    pub closed spec fn rule(self) -> CertPolicy {
        self.policy
    }

    /// The pin store.
    pub closed spec fn store(self) -> PinnedCertificates {
        self.pins
    }

    /// The host whose certificate is judged.
    pub closed spec fn peer(self) -> Seq<char> {
        self.host@
    }

    /// Creates a verifier for one host.
    pub fn new(host: String, policy: CertPolicy, pins: PinnedCertificates) -> (r: Self)
        requires
            pins.wf(),
        ensures
            r.wf(),
            r.rule() == policy,
            r.store() == pins,
            r.peer() == host@,
    {
        CertificateVerifier { policy, pins, host }
    }

    /// The policy in force.
    pub fn policy(&self) -> (r: CertPolicy)
        ensures
            r == self.rule(),
    {
        self.policy
    }

    /// The pin store.
    pub fn pins(&self) -> (r: &PinnedCertificates)
        ensures
            *r == self.store(),
            self.wf() ==> r.wf(),
    {
        &self.pins
    }

    /// Evaluates a DER encoded leaf certificate.
    ///
    /// `ca_verified` reports whether the chain already validated against a
    /// trusted root; the policy decides what to do when it did not. A certificate
    /// that is trusted on first use is recorded in the pin store; a store that is
    /// attached to a file is saved by the caller.
    ///
    /// # Errors
    ///
    /// Returns [`ErrorCode::Tls`] when the policy refuses the certificate.
    pub fn verify(&mut self, der: &[u8], ca_verified: bool) -> (r: RdtResult<CertificateDecision>)
        requires
            old(self).wf(),
        ensures
            final(self).wf(),
            final(self).rule() == old(self).rule(),
            final(self).peer() == old(self).peer(),
            final(self).store().file() == old(self).store().file(),
            ({
                let expected = verified(
                    old(self).rule(),
                    old(self).peer(),
                    old(self).store()@,
                    der@,
                    ca_verified,
                );
                &&& final(self).store()@ == expected.1
                &&& match r {
                    Ok(decision) => expected.0 == Ok::<DecisionView, RdtErrorView>(decision@),
                    Err(error) => expected.0 == Err::<DecisionView, RdtErrorView>(error@),
                }
            }),
    {
        let fingerprint = sha256_fingerprint(der);
        if ca_verified {
            return Ok(CertificateDecision::VerifiedByCa);
        }
        proof {
            context_line("fingerprint"@, fingerprint@);
        }
        let mut recorded: Option<String> = None;
        if let Some(expected) = self.pins.get(self.host.as_str()) {
            recorded = Some(expected.to_owned());
        }
        match self.policy {
            CertPolicy::Verify => {
                let mut line = "the certificate presented by ".to_owned();
                line.push_str(self.host.as_str());
                line.push_str(" is not signed by a trusted authority");
                let error = RdtError::new(ErrorCode::Tls, line.as_str()).with_context(
                    "fingerprint",
                    fingerprint.as_str(),
                );
                assert(error@.context =~= seq!["fingerprint: "@ + fingerprint@]);
                Err(error)
            },
            CertPolicy::VerifyOrPinned => match recorded {
                Some(expected) => {
                    if same(expected.as_str(), fingerprint.as_str()) {
                        return Ok(CertificateDecision::Pinned { fingerprint });
                    }
                    let mut line = "the certificate for ".to_owned();
                    line.push_str(self.host.as_str());
                    line.push_str(" changed; pinned ");
                    line.push_str(expected.as_str());
                    line.push_str(", presented ");
                    line.push_str(fingerprint.as_str());
                    Err(RdtError::new(ErrorCode::Tls, line.as_str()))
                },
                None => {
                    let mut line = "no trusted certificate is recorded for ".to_owned();
                    line.push_str(self.host.as_str());
                    let error = RdtError::new(ErrorCode::Tls, line.as_str()).with_context(
                        "fingerprint",
                        fingerprint.as_str(),
                    );
                    assert(error@.context =~= seq!["fingerprint: "@ + fingerprint@]);
                    Err(error)
                },
            },
            CertPolicy::TrustOnFirstUse => match recorded {
                Some(expected) => {
                    if same(expected.as_str(), fingerprint.as_str()) {
                        return Ok(CertificateDecision::Pinned { fingerprint });
                    }
                    let mut line = "the certificate for ".to_owned();
                    line.push_str(self.host.as_str());
                    line.push_str(" changed since it was first trusted (pinned ");
                    line.push_str(expected.as_str());
                    line.push_str(")");
                    Err(RdtError::new(ErrorCode::Tls, line.as_str()))
                },
                None => {
                    self.pins.pin(self.host.as_str(), fingerprint.as_str());
                    Ok(CertificateDecision::RecordedOnFirstUse { fingerprint })
                },
            },
        }
    }
}

/// A certificate that chains to a trusted root is accepted under every policy and
/// leaves the pins alone.
pub proof fn trusted_chains_are_always_accepted(
    policy: CertPolicy,
    host: Seq<char>,
    pins: Map<Seq<char>, Seq<char>>,
    der: Seq<u8>,
)
    ensures
        verified(policy, host, pins, der, true) == (
            Ok::<DecisionView, RdtErrorView>(DecisionView::VerifiedByCa),
            pins,
        ),
{
}

/// Without a trusted chain the strict policy refuses every certificate.
pub proof fn strict_verification_refuses_untrusted_chains(
    host: Seq<char>,
    pins: Map<Seq<char>, Seq<char>>,
    der: Seq<u8>,
)
    ensures
        verified(CertPolicy::Verify, host, pins, der, false).0 is Err,
        verified(CertPolicy::Verify, host, pins, der, false).0->Err_0.code == ErrorCode::Tls,
        verified(CertPolicy::Verify, host, pins, der, false).1 == pins,
{
}

/// A certificate other than the recorded one is refused under every policy, and
/// the recorded one stays.
pub proof fn changed_certificates_are_refused(
    policy: CertPolicy,
    host: Seq<char>,
    pins: Map<Seq<char>, Seq<char>>,
    der: Seq<u8>,
)
    requires
        recorded_pin(pins, host) is Some,
        recorded_pin(pins, host)->0 != certificate_fingerprint(der),
    ensures
        verified(policy, host, pins, der, false).0 is Err,
        verified(policy, host, pins, der, false).0->Err_0.code == ErrorCode::Tls,
        verified(policy, host, pins, der, false).1 == pins,
{
}

/// Trust on first use records the first certificate of a host; from then on it
/// accepts that certificate, and refuses every other, under either spelling of
/// the host and under both pinning policies.
pub proof fn first_use_is_recorded_then_enforced(
    host: Seq<char>,
    spelling: Seq<char>,
    pins: Map<Seq<char>, Seq<char>>,
    first: Seq<u8>,
    later: Seq<u8>,
    policy: CertPolicy,
)
    requires
        recorded_pin(pins, host) is None,
        lower_case(spelling) == lower_case(host),
        policy is VerifyOrPinned || policy is TrustOnFirstUse,
    ensures
        ({
            let initial = verified(CertPolicy::TrustOnFirstUse, host, pins, first, false);
            let next = verified(policy, spelling, initial.1, later, false);
            &&& initial.0 == Ok::<DecisionView, RdtErrorView>(
                DecisionView::RecordedOnFirstUse(certificate_fingerprint(first)),
            )
            &&& recorded_pin(initial.1, spelling) == Some(certificate_fingerprint(first))
            &&& certificate_fingerprint(later) == certificate_fingerprint(first) ==> next.0
                == Ok::<DecisionView, RdtErrorView>(
                DecisionView::Pinned(certificate_fingerprint(first)),
            )
            &&& certificate_fingerprint(later) != certificate_fingerprint(first) ==> next.0 is Err
            &&& next.1 == initial.1
        }),
{
}

/// Judging a certificate never touches the pin of another host.
pub proof fn other_pins_are_left_alone(
    policy: CertPolicy,
    host: Seq<char>,
    other: Seq<char>,
    pins: Map<Seq<char>, Seq<char>>,
    der: Seq<u8>,
    ca_verified: bool,
)
    requires
        lower_case(host) != lower_case(other),
    ensures
        recorded_pin(verified(policy, host, pins, der, ca_verified).1, other) == recorded_pin(
            pins,
            other,
        ),
{
}

/// A certificate whose fingerprint is recorded for the host is accepted under both
/// policies that pin, and pins stay as they are.
pub proof fn recorded_certificates_are_accepted(
    policy: CertPolicy,
    host: Seq<char>,
    pins: Map<Seq<char>, Seq<char>>,
    der: Seq<u8>,
)
    requires
        policy == CertPolicy::VerifyOrPinned || policy == CertPolicy::TrustOnFirstUse,
        pins.contains_key(lower_case(host)),
        pins[lower_case(host)] == "sha256:"@ + hex_text(sha256_digest(der)),
    ensures
        verified(policy, host, pins, der, false).0 == Ok::<DecisionView, RdtErrorView>(
            DecisionView::Pinned("sha256:"@ + hex_text(sha256_digest(der))),
        ),
        verified(policy, host, pins, der, false).1 == pins,
{
}

/// A certificate that is neither vouched for nor recorded is refused unless the first
/// use is trusted.
pub proof fn unrecorded_certificates_are_refused(
    policy: CertPolicy,
    host: Seq<char>,
    pins: Map<Seq<char>, Seq<char>>,
    der: Seq<u8>,
)
    requires
        policy == CertPolicy::VerifyOrPinned || policy == CertPolicy::Verify,
        !pins.contains_key(lower_case(host)),
    ensures
        verified(policy, host, pins, der, false).0 is Err,
        verified(policy, host, pins, der, false).0->Err_0.code == ErrorCode::Tls,
        verified(policy, host, pins, der, false).1 == pins,
{
}

/// The pin of a host is looked up by its name in lower case.
pub proof fn pins_are_found_by_name(pins: Map<Seq<char>, Seq<char>>, host: Seq<char>, pin: Seq<char>)
    ensures
        recorded_pin(pins.insert(lower_case(host), pin), host) == Some(pin),
        !pins.contains_key(lower_case(host)) ==> recorded_pin(pins, host) is None,
{
}

/// A fingerprint is the SHA-256 of the certificate in hexadecimal behind `sha256:`.
pub proof fn certificate_fingerprints_are_digests(der: Seq<u8>)
    ensures
        certificate_fingerprint(der) == "sha256:"@ + hex_text(sha256_digest(der)),
{
}

/// A pin store is read from its file: a missing one is empty and unattached, one that
/// can be read holds what it says and is attached, and one that cannot is an error.
pub proof fn pin_stores_are_read(path: Seq<char>, text: Seq<char>, message: Seq<char>)
    ensures
        pins_read(path, Ok(None)) == Ok::<
            (Map<Seq<char>, Seq<char>>, Option<Seq<char>>),
            RdtErrorView,
        >((Map::empty(), None)),
        json_map(text) is Ok ==> pins_read(path, Ok(Some(text))) == Ok::<
            (Map<Seq<char>, Seq<char>>, Option<Seq<char>>),
            RdtErrorView,
        >((json_map(text)->Ok_0, Some(path))),
        json_map(text) is Err ==> pins_read(path, Ok(Some(text))) is Err && pins_read(
            path,
            Ok(Some(text)),
        )->Err_0.code == ErrorCode::Config,
        pins_read(path, Err(message)) is Err && pins_read(path, Err(message))->Err_0.code
            == ErrorCode::Io,
{
}

} // verus!
