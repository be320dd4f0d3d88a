//! The saved description of a remote endpoint: a *profile*.
//!
//! A profile holds everything needed to connect except secrets, which are
//! referenced indirectly through [`crate::proto::CredentialSource`].
use crate::error::{fail_about, ErrorCode, RdtError, RdtErrorView, RdtResult};
use crate::ids::ProfileId;
use crate::proto::{
    contains_space, has_space, rdp_defaults, ssh_defaults, AuthMethod, Endpoint, Protocol,
    RdpOptions, SshOptions,
};
use crate::rdp_session::host_port;
use crate::text::{chars_of, concat3, to_decimal, trim, trimmed};
use vstd::prelude::*;

verus! {

/// A stored connection profile.
#[derive(Debug, Clone, PartialEq)]
pub struct ConnectionProfile {
    /// Stable identifier, generated when the profile is created.
    pub id: ProfileId,
    /// Human readable name shown in the interface.  Unique inside a store.
    pub name: String,
    /// Optional group used to organise the profile list (for example `prod/web`).
    pub group: Option<String>,
    /// Where to connect.
    pub endpoint: Endpoint,
    /// Which protocol to speak.
    pub protocol: Protocol,
    /// How to authenticate.
    pub auth: AuthMethod,
    /// Optional jump host.
    pub jump_host: Option<Endpoint>,
    /// SSH specific options (ignored for RDP).
    pub ssh: SshOptions,
    /// RDP specific options (ignored for SSH).
    pub rdp: RdpOptions,
    /// Free form notes, never shown to the remote side.
    pub notes: String,
    /// Tags used for filtering.
    pub tags: Vec<String>,
    /// Connect automatically when the application starts.
    pub connect_on_startup: bool,
    /// Monotonic counter used to keep the list order stable across saves.
    pub sort_index: u32,
}

/// Whether one of the tags is blank.
pub open spec fn has_blank_tag(tags: Seq<String>) -> bool {
    exists|i: int| 0 <= i < tags.len() && trimmed((#[trigger] tags[i])@).len() == 0
}

/// The first problem of a profile.
pub open spec fn profile_problem(profile: ConnectionProfile) -> Option<Seq<char>> {
    if trimmed(profile.name@).len() == 0 {
        Some("profile name must not be empty"@)
    } else if profile.name@.len() > 120 {
        Some("profile name is longer than 120 characters"@)
    } else if trimmed(profile.endpoint.host@).len() == 0 {
        Some("host must not be empty"@)
    } else if profile.endpoint.port == 0 {
        Some("port must not be zero"@)
    } else if has_space(profile.endpoint.host@) {
        Some("host must not contain whitespace"@)
    } else if has_blank_tag(profile.tags@) {
        Some("tags must not be empty"@)
    } else if profile.ssh.host_key_policy is AcceptNew {
        Some("host key policy must not auto-accept unknown keys"@)
    } else {
        None
    }
}

/// The failure of a profile with a problem.
pub open spec fn profile_failure(profile: ConnectionProfile) -> RdtErrorView {
    fail_about(
        ErrorCode::Config,
        profile_problem(profile)->0,
        "profile"@,
        profile.name@,
    )
}

/// Whether a text is blank.
fn is_blank(s: &str) -> (r: bool)
    ensures
        r == (trimmed(s@).len() == 0),
{
    let rest = trim(s);
    rest.as_str().is_empty()
}

impl ConnectionProfile {
    /// Creates a profile with a fresh identifier and protocol defaults.
    pub fn new(name: &str, host: &str, port: u16, protocol: Protocol) -> (r: Self)
        ensures
            r.name@ == name@,
            r.group is None,
            r.endpoint.host@ == host@,
            r.endpoint.port == port,
            r.protocol == protocol,
            r.auth is Password && r.auth->Password_0 is Prompt,
            r.jump_host is None,
            ssh_defaults(r.ssh),
            rdp_defaults(r.rdp),
            r.notes@ == Seq::<char>::empty(),
            r.tags@ == Seq::<String>::empty(),
            !r.connect_on_startup,
            r.sort_index == 0,
    {
        ConnectionProfile {
            id: ProfileId::new(),
            name: name.to_owned(),
            group: None,
            endpoint: Endpoint { host: host.to_owned(), port },
            protocol,
            auth: AuthMethod::default(),
            jump_host: None,
            ssh: SshOptions::default(),
            rdp: RdpOptions::default(),
            notes: String::new(),
            tags: Vec::new(),
            connect_on_startup: false,
            sort_index: 0,
        }
    }

    /// The `host:port` pair as shown in the interface.
    pub fn address(&self) -> (r: String)
        ensures
            r@ == host_port(self.endpoint.host@, self.endpoint.port),
    {
        concat3(self.endpoint.host.as_str(), ":", to_decimal(self.endpoint.port as u64).as_str())
    }

    /// The default port for a protocol.
    pub fn default_port(protocol: Protocol) -> (r: u16)
        ensures
            r == match protocol {
                Protocol::Ssh => 22u16,
                Protocol::Rdp => 3389u16,
            },
    {
        match protocol {
            Protocol::Ssh => 22,
            Protocol::Rdp => 3389,
        }
    }

    /// True when the profile would be accepted by [`Self::validate`].
    pub fn is_valid(&self) -> (r: bool)
        ensures
            r == profile_problem(*self) is None,
    {
        self.validate().is_ok()
    }

    /// Checks the profile before it is saved or used.
    ///
    /// A policy that accepts unknown host keys without a decision is refused.
    ///
    /// # Errors
    ///
    /// Returns [`ErrorCode::Config`] describing the first problem.
    pub fn validate(&self) -> (r: RdtResult<()>)
        ensures
            r is Ok <==> profile_problem(*self) is None,
            r is Err ==> r->Err_0@ == profile_failure(*self),
    {
        if is_blank(self.name.as_str()) {
            return self.refuse("profile name must not be empty");
        }
        if chars_of(self.name.as_str()).len() > 120 {
            return self.refuse("profile name is longer than 120 characters");
        }
        if is_blank(self.endpoint.host.as_str()) {
            return self.refuse("host must not be empty");
        }
        if self.endpoint.port == 0 {
            return self.refuse("port must not be zero");
        }
        if contains_space(self.endpoint.host.as_str()) {
            return self.refuse("host must not contain whitespace");
        }
        let mut i: usize = 0;
        while i < self.tags.len()
            invariant
                i <= self.tags@.len(),
                forall|k: int| 0 <= k < i ==> trimmed((#[trigger] self.tags@[k])@).len() != 0,
                trimmed(self.name@).len() != 0,
                self.name@.len() <= 120,
                trimmed(self.endpoint.host@).len() != 0,
                self.endpoint.port != 0,
                !has_space(self.endpoint.host@),
            decreases self.tags.len() - i,
        {
            if is_blank(self.tags[i].as_str()) {
                assert(has_blank_tag(self.tags@));
                return self.refuse("tags must not be empty");
            }
            i = i + 1;
        }
        if self.ssh.host_key_policy.auto_accepts_unknown() {
            return self.refuse("host key policy must not auto-accept unknown keys");
        }
        Ok(())
    }

    /// The failure that names the profile.
    fn refuse(&self, message: &str) -> (r: RdtResult<()>)
        ensures
            r is Err,
            r->Err_0@ == fail_about(ErrorCode::Config, message@, "profile"@, self.name@),
    {
        Err(RdtError::noted(ErrorCode::Config, message, "profile", self.name.as_str()))
    }
}

/// A profile is refused for a blank or long name, a blank host or one with white space,
/// a port of zero, a blank tag, and a policy that accepts unknown host keys; any other
/// is accepted.
pub proof fn profiles_are_checked(profile: ConnectionProfile)
    ensures
        profile_problem(profile) is None <==> {
            &&& trimmed(profile.name@).len() > 0
            &&& profile.name@.len() <= 120
            &&& trimmed(profile.endpoint.host@).len() > 0
            &&& profile.endpoint.port != 0
            &&& !has_space(profile.endpoint.host@)
            &&& forall|i: int|
                0 <= i < profile.tags@.len() ==> trimmed((#[trigger] profile.tags@[i])@).len() > 0
            &&& profile.ssh.host_key_policy == crate::proto::HostKeyPolicy::Strict
        },
        profile_problem(profile) is Some ==> profile_failure(profile).code == ErrorCode::Config
            && profile_failure(profile).message == profile_problem(profile)->0,
{
    assert(has_blank_tag(profile.tags@) <==> !(forall|i: int|
        0 <= i < profile.tags@.len() ==> trimmed((#[trigger] profile.tags@[i])@).len() > 0));
}

} // verus!
