//! The configuration document and its profiles.
//!
//! Reading and writing the file is left to the caller; what the document holds,
//! which changes it accepts and when it has to be saved is decided here.
use crate::error::{fail, fail_about, ErrorCode, RdtError, RdtErrorView, RdtResult};
use crate::ids::{hex_text, ProfileId};
use crate::migrate::{migrate, migrated};
use crate::profile::{profile_failure, profile_problem, ConnectionProfile};
use crate::settings::{settings_defaults, Settings, CURRENT_SCHEMA_VERSION};
use crate::sort::{key_views, positions, sorted_positions, stably_sorted, KeyView, SortKey};
use crate::text::{
    concat2, concat3, debug_literal, eq_ignore_ascii_case, lower_case, lowered, quoted,
    to_lowercase,
};
use crate::tls::content_view;
use vstd::prelude::*;

verus! {

/// The whole configuration document.
#[derive(Debug, PartialEq)]
pub struct Config {
    /// Schema version of the document.
    pub schema_version: u32,
    /// Application settings.
    pub settings: Settings,
    /// Saved connection profiles.
    pub profiles: Vec<ConnectionProfile>,
}

/// The document of a new installation.
pub open spec fn config_defaults(c: Config) -> bool {
    &&& c.schema_version == CURRENT_SCHEMA_VERSION
    &&& settings_defaults(c.settings)
    &&& c.profiles@ == Seq::<ConnectionProfile>::empty()
}

impl Default for Config {
    fn default() -> (r: Self)
        ensures
            config_defaults(r),
    {
        Config {
            schema_version: CURRENT_SCHEMA_VERSION,
            settings: Settings::default(),
            profiles: Vec::new(),
        }
    }
}

/// How the profile list is ordered in the interface.
#[derive(Debug, Clone, Copy, PartialEq, Eq, Structural)]
pub enum SortOrder {
    /// Manual order (`sort_index`, then name).
    Manual,
    /// Alphabetical by name.
    Name,
    /// Grouped by `group`, then alphabetical.
    Group,
    /// Most recently used first (requires session history).
    RecentlyUsed,
}

impl Default for SortOrder {
    fn default() -> (r: Self)
        ensures
            r == SortOrder::Manual,
    {
        SortOrder::Manual
    }
}

/// Errors while loading the configuration.
#[derive(Debug)]
pub enum LoadError {
    /// The file does not exist yet; the caller should create defaults.
    Missing,
    /// The file exists but could not be read or parsed.
    Failed(RdtError),
}

impl LoadError {
    /// The text shown for an error.
    pub fn to_string(&self) -> (r: String)
        ensures
            r@ == match *self {
                LoadError::Missing => "no configuration file yet"@,
                LoadError::Failed(error) => crate::error::rendered(error@),
            },
    {
        match self {
            LoadError::Missing => "no configuration file yet".to_owned(),
            LoadError::Failed(error) => error.to_string(),
        }
    }
}

/// Whether two profiles have the same name, up to the case of ASCII letters.
pub open spec fn same_name(a: Seq<char>, b: Seq<char>) -> bool {
    lowered(a) == lowered(b)
}

/// Whether a profile of a name is listed.
pub open spec fn named(profiles: Seq<ConnectionProfile>, name: Seq<char>) -> bool {
    exists|i: int| 0 <= i < profiles.len() && same_name((#[trigger] profiles[i]).name@, name)
}

/// Whether a profile of an identifier is listed.
pub open spec fn listed(profiles: Seq<ConnectionProfile>, id: Seq<u8>) -> bool {
    exists|i: int| 0 <= i < profiles.len() && (#[trigger] profiles[i]).id@ == id
}

/// Whether `i` is the first position of an identifier.
pub open spec fn first_listed(profiles: Seq<ConnectionProfile>, id: Seq<u8>, i: int) -> bool {
    &&& 0 <= i < profiles.len()
    &&& profiles[i].id@ == id
    &&& forall|k: int| 0 <= k < i ==> (#[trigger] profiles[k]).id@ != id
}

/// Whether `i` is the first position of a name.
pub open spec fn first_named(profiles: Seq<ConnectionProfile>, name: Seq<char>, i: int) -> bool {
    &&& 0 <= i < profiles.len()
    &&& same_name(profiles[i].name@, name)
    &&& forall|k: int| 0 <= k < i ==> !same_name((#[trigger] profiles[k]).name@, name)
}

/// Whether another profile than the one at `at` has a name.
pub open spec fn named_elsewhere(profiles: Seq<ConnectionProfile>, name: Seq<char>, at: int) -> bool {
    exists|i: int|
        0 <= i < profiles.len() && i != at && same_name((#[trigger] profiles[i]).name@, name)
}

/// Whether no two profiles share a name.
pub open spec fn unique_names(profiles: Seq<ConnectionProfile>) -> bool {
    forall|i: int, j: int|
        #![trigger profiles[i], profiles[j]]
        0 <= i < j < profiles.len() ==> !same_name(profiles[i].name@, profiles[j].name@)
}

/// Whether every profile is valid.
pub open spec fn all_valid(profiles: Seq<ConnectionProfile>) -> bool {
    forall|i: int| 0 <= i < profiles.len() ==> profile_problem(#[trigger] profiles[i]) is None
}

/// The profiles without those of an identifier, in order.
pub open spec fn without(profiles: Seq<ConnectionProfile>, id: Seq<u8>) -> Seq<ConnectionProfile>
    decreases profiles.len(),
{
    if profiles.len() == 0 {
        Seq::empty()
    } else if profiles.last().id@ == id {
        without(profiles.drop_last(), id)
    } else {
        without(profiles.drop_last(), id).push(profiles.last())
    }
}

/// The failure of a name that is taken.
pub open spec fn name_taken(name: Seq<char>) -> RdtErrorView {
    fail(ErrorCode::Config, "a profile named "@ + debug_literal(name) + " already exists"@)
}

/// The failure of an identifier that is not listed.
pub open spec fn profile_unknown(id: Seq<u8>) -> RdtErrorView {
    fail_about(
        ErrorCode::NotFound,
        "no profile with that identifier"@,
        "profile"@,
        hex_text(id),
    )
}

/// The key by which a profile is ordered.
pub open spec fn order_key(profile: ConnectionProfile, order: SortOrder) -> KeyView {
    match order {
        SortOrder::Manual => KeyView {
            number: profile.sort_index as int,
            major: profile.name@,
            minor: Seq::empty(),
        },
        SortOrder::Name => KeyView {
            number: 0,
            major: lower_case(profile.name@),
            minor: Seq::empty(),
        },
        SortOrder::Group => KeyView {
            number: 0,
            major: match profile.group {
                Some(group) => group@,
                None => Seq::empty(),
            },
            minor: lower_case(profile.name@),
        },
        SortOrder::RecentlyUsed => KeyView {
            number: 0,
            major: lower_case(profile.name@),
            minor: Seq::empty(),
        },
    }
}

/// The keys by which profiles are ordered.
pub open spec fn order_keys(profiles: Seq<ConnectionProfile>, order: SortOrder) -> Seq<KeyView> {
    Seq::new(profiles.len(), |i: int| order_key(profiles[i], order))
}

fn sort_key(profile: &ConnectionProfile, order: SortOrder) -> (r: SortKey)
    ensures
        r@ == order_key(*profile, order),
{
    let r = match order {
        SortOrder::Manual => SortKey {
            number: profile.sort_index as i64,
            major: profile.name.as_str().to_owned(),
            minor: String::new(),
        },
        SortOrder::Name => SortKey {
            number: 0,
            major: to_lowercase(profile.name.as_str()),
            minor: String::new(),
        },
        SortOrder::Group => SortKey {
            number: 0,
            major: match &profile.group {
                Some(group) => group.as_str().to_owned(),
                None => String::new(),
            },
            minor: to_lowercase(profile.name.as_str()),
        },
        // Without session history the most useful stable order is by name.
        SortOrder::RecentlyUsed => SortKey {
            number: 0,
            major: to_lowercase(profile.name.as_str()),
            minor: String::new(),
        },
    };
    assert(r@.major =~= order_key(*profile, order).major);
    assert(r@.minor =~= order_key(*profile, order).minor);
    r
}

/// What loading a file leads to.
pub enum LoadStep {
    /// There is no file: the store holds defaults that are not saved yet.
    Created(ConfigStore),
    /// The file holds this document, in the current layout.
    Decode(String),
}

/// A handle on the configuration document.
#[derive(Debug)]
pub struct ConfigStore {
    path: String,
    config: Config,
    dirty: bool,
}

impl ConfigStore {
    /// The file of the document, empty when there is none.
    pub closed spec fn file(self) -> Seq<char> {
        self.path@
    }

    /// The document.
    pub closed spec fn document(self) -> Config {
        self.config
    }

    /// The profiles in the document.
    pub open spec fn listing(self) -> Seq<ConnectionProfile> {
        self.document().profiles@
    }

    /// Whether there are unsaved changes.
    pub closed spec fn changed(self) -> bool {
        self.dirty
    }

    /// Creates an in-memory store that is not attached to a file; its defaults
    /// have never been saved.
    pub fn in_memory() -> (r: Self)
        ensures
            r.file() == Seq::<char>::empty(),
            config_defaults(r.document()),
            r.changed(),
    {
        ConfigStore { path: String::new(), config: Config::default(), dirty: true }
    }

    /// Loads the document at `path` from what its file holds: nothing when the
    /// file does not exist, or why it cannot be read.
    ///
    /// # Errors
    ///
    /// Returns [`LoadError::Failed`] when the file exists but is unreadable or its
    /// layout cannot be brought up to date.  A missing file is not an error.
    pub fn load(path: &str, content: Result<Option<String>, String>) -> (r: Result<
        LoadStep,
        LoadError,
    >)
        ensures
            match content_view(content) {
                Ok(None) => {
                    &&& r is Ok
                    &&& r->Ok_0 is Created
                    &&& r->Ok_0->Created_0.file() == path@
                    &&& config_defaults(r->Ok_0->Created_0.document())
                    &&& r->Ok_0->Created_0.changed()
                },
                Ok(Some(text)) => match migrated(text) {
                    Ok(document) => r is Ok && r->Ok_0 is Decode && r->Ok_0->Decode_0@ == document,
                    Err(error) => r is Err && r->Err_0 is Failed && r->Err_0->Failed_0@ == error,
                },
                Err(reason) => {
                    &&& r is Err
                    &&& r->Err_0 is Failed
                    &&& r->Err_0->Failed_0@ == fail_about(
                        ErrorCode::Config,
                        reason,
                        "path"@,
                        path@,
                    )
                },
            },
    {
        match content {
            Ok(None) => Ok(
                LoadStep::Created(
                    ConfigStore { path: path.to_owned(), config: Config::default(), dirty: true },
                ),
            ),
            Ok(Some(text)) => match migrate(text.as_str()) {
                Ok(document) => Ok(LoadStep::Decode(document)),
                Err(error) => Err(LoadError::Failed(error)),
            },
            Err(reason) => Err(
                LoadError::Failed(
                    RdtError::noted(ErrorCode::Config, reason.as_str(), "path", path),
                ),
            ),
        }
    }

    /// The store for a decoded document, or the failure of a document that cannot
    /// be decoded.
    ///
    /// # Errors
    ///
    /// Returns [`LoadError::Failed`] when the document is malformed.
    pub fn decoded(path: &str, config: Result<Config, String>) -> (r: Result<Self, LoadError>)
        ensures
            match config {
                Ok(config) => {
                    &&& r is Ok
                    &&& r->Ok_0.file() == path@
                    &&& r->Ok_0.document() == config
                    &&& !r->Ok_0.changed()
                },
                Err(reason) => {
                    &&& r is Err
                    &&& r->Err_0 is Failed
                    &&& r->Err_0->Failed_0@ == fail_about(
                        ErrorCode::Config,
                        "cannot parse configuration: "@ + reason@,
                        "path"@,
                        path@,
                    )
                },
            },
    {
        match config {
            Ok(config) => Ok(ConfigStore { path: path.to_owned(), config, dirty: false }),
            Err(reason) => Err(
                LoadError::Failed(
                    RdtError::noted(
                        ErrorCode::Config,
                        concat2("cannot parse configuration: ", reason.as_str()).as_str(),
                        "path",
                        path,
                    ),
                ),
            ),
        }
    }

    /// Path of the backing file (empty for an in-memory store).
    pub fn path(&self) -> (r: &str)
        ensures
            r@ == self.file(),
    {
        self.path.as_str()
    }

    /// True when there are unsaved changes.
    pub fn is_dirty(&self) -> (r: bool)
        ensures
            r == self.changed(),
    {
        self.dirty
    }

    /// The whole document.
    pub fn config(&self) -> (r: &Config)
        ensures
            *r == self.document(),
    {
        &self.config
    }

    /// Current settings.
    pub fn settings(&self) -> (r: &Settings)
        ensures
            *r == self.document().settings,
    {
        &self.config.settings
    }

    /// Replaces the settings and marks the store dirty.
    pub fn set_settings(&mut self, settings: Settings)
        ensures
            final(self).file() == old(self).file(),
            final(self).document() == (Config { settings, ..old(self).document() }),
            final(self).changed(),
    {
        self.config.settings = settings;
        self.dirty = true;
    }

    /// All profiles in the requested order; profiles that the order does not tell
    /// apart stay in the order of the document.
    pub fn profiles(&self, order: SortOrder) -> (r: Vec<&ConnectionProfile>)
        ensures
            exists|arrangement: Seq<int>|
                {
                    &&& #[trigger] stably_sorted(order_keys(self.listing(), order), arrangement)
                    &&& r@.len() == self.listing().len()
                    &&& forall|i: int|
                        0 <= i < r@.len() ==> *(#[trigger] r@[i]) == self.listing()[arrangement[i]]
                },
    {
        let ghost all = self.config.profiles@;
        let mut keys: Vec<SortKey> = Vec::new();
        let mut i: usize = 0;
        while i < self.config.profiles.len()
            invariant
                i <= self.config.profiles@.len(),
                all == self.config.profiles@,
                keys@.len() == i,
                forall|k: int| 0 <= k < i ==> (#[trigger] keys@[k])@ == order_key(all[k], order),
            decreases self.config.profiles.len() - i,
        {
            keys.push(sort_key(&self.config.profiles[i], order));
            i = i + 1;
        }
        assert(key_views(keys@) =~= order_keys(all, order));
        let sorted = sorted_positions(&keys);
        let ghost arrangement = positions(sorted@);
        let mut r: Vec<&ConnectionProfile> = Vec::new();
        let mut j: usize = 0;
        while j < sorted.len()
            invariant
                j <= sorted@.len(),
                r@.len() == j,
                all == self.config.profiles@,
                arrangement == positions(sorted@),
                sorted@.len() == all.len(),
                stably_sorted(order_keys(all, order), arrangement),
                forall|k: int| 0 <= k < j ==> *(#[trigger] r@[k]) == all[arrangement[k]],
            decreases sorted.len() - j,
        {
            assert(arrangement[j as int] == sorted@[j as int]);
            assert(0 <= arrangement[j as int] < all.len());
            let at = sorted[j];
            r.push(&self.config.profiles[at]);
            j = j + 1;
        }
        assert(all == self.listing());
        assert(stably_sorted(order_keys(self.listing(), order), arrangement));
        r
    }

    /// The first position of an identifier.
    fn position(&self, id: ProfileId) -> (r: Option<usize>)
        ensures
            r is Some <==> listed(self.listing(), id@),
            r is Some ==> first_listed(self.listing(), id@, r->0 as int),
    {
        let mut i: usize = 0;
        while i < self.config.profiles.len()
            invariant
                i <= self.config.profiles@.len(),
                forall|k: int| 0 <= k < i ==> (#[trigger] self.config.profiles@[k]).id@ != id@,
            decreases self.config.profiles.len() - i,
        {
            if self.config.profiles[i].id.same(&id) {
                return Some(i);
            }
            i = i + 1;
        }
        None
    }

    /// Finds a profile by identifier.
    pub fn find(&self, id: ProfileId) -> (r: Option<&ConnectionProfile>)
        ensures
            r is Some <==> listed(self.listing(), id@),
            r is Some ==> exists|i: int| #[trigger]
                first_listed(self.listing(), id@, i) && *r->0 == self.listing()[i],
    {
        match self.position(id) {
            Some(at) => Some(&self.config.profiles[at]),
            None => None,
        }
    }

    /// Finds a profile by name (case insensitive).
    pub fn find_by_name(&self, name: &str) -> (r: Option<&ConnectionProfile>)
        ensures
            r is Some <==> named(self.listing(), name@),
            r is Some ==> exists|i: int| #[trigger]
                first_named(self.listing(), name@, i) && *r->0 == self.listing()[i],
    {
        let mut i: usize = 0;
        while i < self.config.profiles.len()
            invariant
                i <= self.config.profiles@.len(),
                forall|k: int|
                    0 <= k < i ==> !same_name((#[trigger] self.config.profiles@[k]).name@, name@),
            decreases self.config.profiles.len() - i,
        {
            if eq_ignore_ascii_case(self.config.profiles[i].name.as_str(), name) {
                assert(first_named(self.listing(), name@, i as int));
                return Some(&self.config.profiles[i]);
            }
            i = i + 1;
        }
        None
    }

    /// Whether another profile than the one at `at` has a name.
    fn name_in_use(&self, name: &str, at: usize) -> (r: bool)
        ensures
            r == named_elsewhere(self.listing(), name@, at as int),
    {
        let mut i: usize = 0;
        while i < self.config.profiles.len()
            invariant
                i <= self.config.profiles@.len(),
                forall|k: int|
                    0 <= k < i && k != at ==> !same_name(
                        (#[trigger] self.config.profiles@[k]).name@,
                        name@,
                    ),
            decreases self.config.profiles.len() - i,
        {
            if i != at && eq_ignore_ascii_case(self.config.profiles[i].name.as_str(), name) {
                return true;
            }
            i = i + 1;
        }
        false
    }

    /// Inserts a new profile.
    ///
    /// # Errors
    ///
    /// Returns [`ErrorCode::Config`] when the profile is invalid or its name is
    /// already used.
    pub fn add(&mut self, profile: ConnectionProfile) -> (r: RdtResult<ProfileId>)
        ensures
            final(self).file() == old(self).file(),
            final(self).document().schema_version == old(self).document().schema_version,
            final(self).document().settings == old(self).document().settings,
            r is Ok <==> profile_problem(profile) is None && !named(
                old(self).listing(),
                profile.name@,
            ),
            r is Ok ==> {
                &&& r->Ok_0 == profile.id
                &&& final(self).listing() == old(self).listing().push(profile)
                &&& final(self).changed()
            },
            r is Err ==> *final(self) == *old(self),
            profile_problem(profile) is Some ==> r->Err_0@ == profile_failure(profile),
            profile_problem(profile) is None && r is Err ==> r->Err_0@ == name_taken(
                profile.name@,
            ),
    {
        if let Err(error) = profile.validate() {
            return Err(error);
        }
        let count: usize = self.config.profiles.len();
        let taken = self.name_in_use(profile.name.as_str(), count);
        proof {
            assert(taken == named(self.listing(), profile.name@)) by {
                if named(self.listing(), profile.name@) {
                    let i = choose|i: int|
                        0 <= i < self.listing().len() && same_name(
                            (#[trigger] self.listing()[i]).name@,
                            profile.name@,
                        );
                    assert(i != count && same_name(self.listing()[i].name@, profile.name@));
                }
            }
        }
        if taken {
            return Err(name_taken_error(profile.name.as_str()));
        }
        let id = profile.id;
        self.config.profiles.push(profile);
        self.dirty = true;
        Ok(id)
    }

    /// Replaces an existing profile, keeping its position in the list.
    ///
    /// # Errors
    ///
    /// Returns [`ErrorCode::NotFound`] when the identifier is unknown, or
    /// [`ErrorCode::Config`] when the replacement is invalid or its name
    /// collides with a different profile.
    pub fn update(&mut self, profile: ConnectionProfile) -> (r: RdtResult<()>)
        ensures
            final(self).file() == old(self).file(),
            final(self).document().schema_version == old(self).document().schema_version,
            final(self).document().settings == old(self).document().settings,
            profile_problem(profile) is Some ==> r is Err && r->Err_0@ == profile_failure(profile),
            profile_problem(profile) is None && !listed(old(self).listing(), profile.id@) ==> r is Err
                && r->Err_0@ == profile_unknown(profile.id@),
            profile_problem(profile) is None && listed(old(self).listing(), profile.id@)
                ==> exists|at: int|
                {
                    &&& #[trigger] first_listed(old(self).listing(), profile.id@, at)
                    &&& if named_elsewhere(old(self).listing(), profile.name@, at) {
                        r is Err && r->Err_0@ == name_taken(profile.name@)
                    } else {
                        &&& r is Ok
                        &&& final(self).listing() == old(self).listing().update(at, profile)
                        &&& final(self).changed()
                    }
                },
            r is Err ==> *final(self) == *old(self),
    {
        if let Err(error) = profile.validate() {
            return Err(error);
        }
        let at = match self.position(profile.id) {
            Some(at) => at,
            None => {
                return Err(profile_unknown_error(profile.id));
            },
        };
        assert(first_listed(self.listing(), profile.id@, at as int));
        if self.name_in_use(profile.name.as_str(), at) {
            return Err(name_taken_error(profile.name.as_str()));
        }
        self.config.profiles.set(at, profile);
        self.dirty = true;
        Ok(())
    }

    /// Removes a profile.
    ///
    /// # Errors
    ///
    /// Returns [`ErrorCode::NotFound`] when the identifier is unknown.
    pub fn remove(&mut self, id: ProfileId) -> (r: RdtResult<()>)
        ensures
            final(self).file() == old(self).file(),
            final(self).document().schema_version == old(self).document().schema_version,
            final(self).document().settings == old(self).document().settings,
            r is Ok <==> listed(old(self).listing(), id@),
            r is Ok ==> final(self).listing() == without(old(self).listing(), id@)
                && final(self).changed(),
            r is Err ==> *final(self) == *old(self) && r->Err_0@ == profile_unknown(id@),
    {
        if self.position(id).is_none() {
            return Err(profile_unknown_error(id));
        }
        let ghost all = self.config.profiles@;
        let ghost n = all.len();
        let mut i: usize = 0;
        assert(all.take(0) =~= Seq::<ConnectionProfile>::empty());
        assert(all.skip(0) =~= all);
        let ghost mut seen: int = 0;
        assert(without(all.take(0), id@) + all.skip(0) =~= all);
        while i < self.config.profiles.len()
            invariant
                0 <= seen <= all.len(),
                i == without(all.take(seen), id@).len(),
                self.config.profiles@ == without(all.take(seen), id@) + all.skip(seen),
                self.config.schema_version == old(self).config.schema_version,
                self.config.settings == old(self).config.settings,
                self.path == old(self).path,
            decreases all.len() - seen,
        {
            let ghost kept = without(all.take(seen), id@);
            proof {
                assert(self.config.profiles@.len() == kept.len() + (all.len() - seen));
                assert(self.config.profiles@[i as int] == all[seen]);
                assert(all.take(seen + 1).drop_last() =~= all.take(seen));
                assert(all.take(seen + 1).last() == all[seen]);
                assert(all.skip(seen) =~= seq![all[seen]] + all.skip(seen + 1));
            }
            if self.config.profiles[i].id.same(&id) {
                let _gone = self.config.profiles.remove(i);
                assert(self.config.profiles@ =~= kept + all.skip(seen + 1));
            } else {
                i = i + 1;
                assert(self.config.profiles@ =~= kept.push(all[seen]) + all.skip(seen + 1));
            }
            proof {
                seen = seen + 1;
            }
        }
        proof {
            assert(seen == all.len());
            assert(all.take(seen) =~= all);
            assert(all.skip(seen) =~= Seq::<ConnectionProfile>::empty());
            assert(self.config.profiles@ =~= without(all, id@));
        }
        self.dirty = true;
        Ok(())
    }

    /// The error for a document that cannot be encoded.
    pub fn encode_failed(reason: &str) -> (r: RdtError)
        ensures
            r@ == fail(ErrorCode::Config, "cannot encode configuration: "@ + reason@),
    {
        RdtError::new(
            ErrorCode::Config,
            concat2("cannot encode configuration: ", reason).as_str(),
        )
    }

    /// The file to write the document to; [`ConfigStore::saved`] is called once it
    /// is written.
    ///
    /// # Errors
    ///
    /// Returns [`ErrorCode::Config`] when the store is not attached to a file.
    pub fn save(&self) -> (r: RdtResult<&str>)
        ensures
            r is Ok <==> self.file().len() > 0,
            r is Ok ==> r->Ok_0@ == self.file(),
            r is Err ==> r->Err_0@ == fail(
                ErrorCode::Config,
                "the store is not attached to a file"@,
            ),
    {
        if self.path.as_str().is_empty() {
            return Err(RdtError::new(ErrorCode::Config, "the store is not attached to a file"));
        }
        Ok(self.path.as_str())
    }

    /// Records that the document was written.
    pub fn saved(&mut self)
        ensures
            final(self).file() == old(self).file(),
            final(self).document() == old(self).document(),
            !final(self).changed(),
    {
        self.dirty = false;
    }

    /// Takes over a document that was loaded again, discarding local changes.
    pub fn reload(&mut self, reloaded: ConfigStore)
        ensures
            final(self).file() == old(self).file(),
            final(self).document() == reloaded.document(),
            !final(self).changed(),
    {
        self.config = reloaded.config;
        self.dirty = false;
    }
}

fn name_taken_error(name: &str) -> (r: RdtError)
    ensures
        r@ == name_taken(name@),
{
    RdtError::new(
        ErrorCode::Config,
        concat3("a profile named ", quoted(name).as_str(), " already exists").as_str(),
    )
}

fn profile_unknown_error(id: ProfileId) -> (r: RdtError)
    ensures
        r@ == profile_unknown(id@),
{
    RdtError::noted(
        ErrorCode::NotFound,
        "no profile with that identifier",
        "profile",
        id.to_string().as_str(),
    )
}

/// Adding a profile whose name is free keeps names unique and profiles valid.
pub proof fn adding_keeps_names_unique(
    profiles: Seq<ConnectionProfile>,
    profile: ConnectionProfile,
)
    requires
        unique_names(profiles),
        all_valid(profiles),
        profile_problem(profile) is None,
        !named(profiles, profile.name@),
    ensures
        unique_names(profiles.push(profile)),
        all_valid(profiles.push(profile)),
        listed(profiles.push(profile), profile.id@),
{
    let after = profiles.push(profile);
    assert(after[profiles.len() as int].id@ == profile.id@);
    assert forall|i: int, j: int|
        #![trigger after[i], after[j]]
        0 <= i < j < after.len() implies !same_name(after[i].name@, after[j].name@) by {
        if j < profiles.len() {
            assert(!same_name(profiles[i].name@, profiles[j].name@));
        } else {
            assert(!same_name(profiles[i].name@, profile.name@));
        }
    }
    assert forall|i: int| 0 <= i < after.len() implies profile_problem(#[trigger] after[i]) is None by {
        if i < profiles.len() {
            assert(profile_problem(profiles[i]) is None);
        }
    }
}

/// Replacing a profile by one whose name no other profile has keeps names unique,
/// profiles valid and the other profiles where they are.
pub proof fn updating_keeps_names_unique(
    profiles: Seq<ConnectionProfile>,
    at: int,
    profile: ConnectionProfile,
)
    requires
        unique_names(profiles),
        all_valid(profiles),
        0 <= at < profiles.len(),
        profile_problem(profile) is None,
        !named_elsewhere(profiles, profile.name@, at),
    ensures
        unique_names(profiles.update(at, profile)),
        all_valid(profiles.update(at, profile)),
        profiles.update(at, profile).len() == profiles.len(),
        forall|i: int|
            0 <= i < profiles.len() && i != at ==> #[trigger] profiles.update(at, profile)[i]
                == profiles[i],
{
    let after = profiles.update(at, profile);
    assert forall|i: int, j: int|
        #![trigger after[i], after[j]]
        0 <= i < j < after.len() implies !same_name(after[i].name@, after[j].name@) by {
        if i == at {
            assert(!same_name(profiles[j].name@, profile.name@));
        } else if j == at {
            assert(!same_name(profiles[i].name@, profile.name@));
        } else {
            assert(!same_name(profiles[i].name@, profiles[j].name@));
        }
    }
    assert forall|i: int| 0 <= i < after.len() implies profile_problem(#[trigger] after[i]) is None by {
        if i != at {
            assert(profile_problem(profiles[i]) is None);
        }
    }
}

/// Removing an identifier leaves no profile of it, keeps every other profile, and
/// keeps names unique and profiles valid.
pub proof fn removing_forgets_the_profile(profiles: Seq<ConnectionProfile>, id: Seq<u8>)
    ensures
        !listed(without(profiles, id), id),
        forall|p: ConnectionProfile| #[trigger]
            without(profiles, id).contains(p) <==> profiles.contains(p) && p.id@ != id,
        unique_names(profiles) ==> unique_names(without(profiles, id)),
        all_valid(profiles) ==> all_valid(without(profiles, id)),
    decreases profiles.len(),
{
    let after = without(profiles, id);
    if profiles.len() > 0 {
        let front = profiles.drop_last();
        let last = profiles.last();
        removing_forgets_the_profile(front, id);
        let kept = without(front, id);
        assert forall|p: ConnectionProfile| #[trigger] after.contains(p) <==> profiles.contains(p)
            && p.id@ != id by {
            if profiles.contains(p) && p.id@ != id {
                let i = profiles.index_of(p);
                if i < front.len() {
                    assert(front[i] == p);
                    assert(front.contains(p));
                    assert(kept.contains(p));
                    let k = kept.index_of(p);
                    assert(after[k] == p);
                } else {
                    assert(after[kept.len() as int] == p);
                }
            }
            if after.contains(p) {
                let i = after.index_of(p);
                if i < kept.len() {
                    assert(kept[i] == p);
                    assert(kept.contains(p));
                    let k = front.index_of(p);
                    assert(front.contains(p));
                    assert(profiles[k] == p);
                } else {
                    assert(profiles[profiles.len() - 1] == p);
                }
            }
        }
        if unique_names(profiles) {
            assert(unique_names(front)) by {
                assert forall|i: int, j: int|
                    #![trigger front[i], front[j]]
                    0 <= i < j < front.len() implies !same_name(front[i].name@, front[j].name@) by {
                    assert(!same_name(profiles[i].name@, profiles[j].name@));
                }
            }
            assert forall|i: int, j: int|
                #![trigger after[i], after[j]]
                0 <= i < j < after.len() implies !same_name(after[i].name@, after[j].name@) by {
                if j < kept.len() {
                    assert(!same_name(kept[i].name@, kept[j].name@));
                } else {
                    assert(kept.contains(kept[i]));
                    assert(front.contains(kept[i]));
                    let k = front.index_of(kept[i]);
                    assert(!same_name(profiles[k].name@, profiles[profiles.len() - 1].name@));
                }
            }
        }
    }
    if listed(after, id) {
        let i = choose|i: int| 0 <= i < after.len() && (#[trigger] after[i]).id@ == id;
        assert(after.contains(after[i]));
    }
    if all_valid(profiles) {
        assert forall|i: int| 0 <= i < after.len() implies profile_problem(#[trigger] after[i]) is None by {
            assert(after.contains(after[i]));
            let k = profiles.index_of(after[i]);
            assert(profiles.contains(after[i]));
            assert(profile_problem(profiles[k]) is None);
        }
    }
}

/// A step of writing a file safely.
#[derive(Debug, Clone, Copy, PartialEq, Eq, Structural)]
pub enum WriteStage {
    /// Creating the directory.
    Directory,
    /// Creating the temporary file.
    Create,
    /// Writing the temporary file.
    Write,
    /// Flushing the temporary file.
    Flush,
    /// Renaming the temporary file.
    Replace,
}

/// What went wrong in a step of writing a file.
pub open spec fn write_problem(stage: WriteStage) -> Seq<char> {
    match stage {
        WriteStage::Directory => "cannot create directory"@,
        WriteStage::Create => "cannot create file"@,
        WriteStage::Write => "cannot write file"@,
        WriteStage::Flush => "cannot flush file"@,
        WriteStage::Replace => "cannot replace file"@,
    }
}

/// The error for a step of writing a file that failed.
pub fn write_failed(stage: WriteStage, reason: &str, path: &str) -> (r: RdtError)
    ensures
        r@ == fail_about(
            ErrorCode::Io,
            write_problem(stage) + ": "@ + reason@,
            "path"@,
            path@,
        ),
{
    let what = match stage {
        WriteStage::Directory => "cannot create directory",
        WriteStage::Create => "cannot create file",
        WriteStage::Write => "cannot write file",
        WriteStage::Flush => "cannot flush file",
        WriteStage::Replace => "cannot replace file",
    };
    RdtError::noted(ErrorCode::Io, concat3(what, ": ", reason).as_str(), "path", path)
}

/// Names are the same when they differ in the case of ASCII letters at most.
pub proof fn names_are_compared_in_any_case(a: Seq<char>, b: Seq<char>)
    ensures
        same_name(a, a),
        same_name(a, b) <==> lowered(a) == lowered(b),
{
}

/// Profiles are arranged by hand by their index and then their name, by name in lower
/// case, or by group and then by name.
pub proof fn profiles_are_arranged(p: ConnectionProfile)
    ensures
        order_key(p, SortOrder::Manual).number == p.sort_index,
        order_key(p, SortOrder::Manual).major == p.name@,
        order_key(p, SortOrder::Name).number == 0,
        order_key(p, SortOrder::Name).major == lower_case(p.name@),
        order_key(p, SortOrder::Group).number == 0,
        p.group is Some ==> order_key(p, SortOrder::Group).major == p.group->0@,
        p.group is None ==> order_key(p, SortOrder::Group).major.len() == 0,
        order_key(p, SortOrder::Group).minor == lower_case(p.name@),
        order_key(p, SortOrder::RecentlyUsed).major == lower_case(p.name@),
{
}

/// What is looked up is the first profile with the identifier or with the name.
pub proof fn lookups_find_the_first(profiles: Seq<ConnectionProfile>, i: int, j: int)
    requires
        0 <= i < profiles.len(),
        0 <= j < profiles.len(),
    ensures
        listed(profiles, profiles[i].id@),
        named(profiles, profiles[i].name@),
        first_listed(profiles, profiles[i].id@, j) ==> profiles[j].id@ == profiles[i].id@ && j <= i,
        first_named(profiles, profiles[i].name@, j) ==> lowered(profiles[j].name@) == lowered(
            profiles[i].name@,
        ) && j <= i,
        i != j && lowered(profiles[i].name@) == lowered(profiles[j].name@) ==> named_elsewhere(
            profiles,
            profiles[i].name@,
            i,
        ),
{
}

/// The failures of the store keep their kind.
pub proof fn store_failures_keep_their_kind(name: Seq<char>, id: Seq<u8>)
    ensures
        name_taken(name).code == ErrorCode::Config,
        profile_unknown(id).code == ErrorCode::NotFound,
{
}

/// A new configuration is of the current schema and has no profiles.
pub proof fn new_configurations_are_empty(c: Config)
    requires
        config_defaults(c),
    ensures
        c.schema_version == 1,
        c.profiles@.len() == 0,
        settings_defaults(c.settings),
{
}

/// A failed write says what could not be done.
pub proof fn failed_writes_say_what_failed()
    ensures
        write_problem(WriteStage::Directory) == "cannot create directory"@,
        write_problem(WriteStage::Create) == "cannot create file"@,
        write_problem(WriteStage::Write) == "cannot write file"@,
        write_problem(WriteStage::Flush) == "cannot flush file"@,
        write_problem(WriteStage::Replace) == "cannot replace file"@,
{
}

} // verus!
