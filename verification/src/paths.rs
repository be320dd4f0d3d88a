//! Filesystem locations.
//!
//! Locations follow the platform conventions: XDG base directories on Linux,
//! `%APPDATA%` on Windows and `~/Library/Application Support` on macOS. Paths are
//! texts whose components are joined with a slash, which every supported system
//! accepts.
use crate::ids::hex_digit;
use crate::info::OsFamily;
use crate::text::{
    chars_of, concat2, concat3, decimal, ends_with, part, same, starts_with, to_decimal,
};
use vstd::prelude::*;
use vstd::utf8::encode_utf8;

verus! {

/// A path with one more component; an absolute component stands for itself.
pub open spec fn path_joined(base: Seq<char>, name: Seq<char>) -> Seq<char> {
    if name.len() > 0 && name[0] == '/' {
        name
    } else if base.len() == 0 || base.last() == '/' {
        base + name
    } else {
        base + "/"@ + name
    }
}

/// Joins a path and a component.
pub fn join_path(base: &str, name: &str) -> (r: String)
    ensures
        r@ == path_joined(base@, name@),
{
    proof {
        reveal_strlit("/");
    }
    if starts_with(name, "/") {
        assert(name@[0] == name@.take(1)[0]);
        return name.to_owned();
    }
    proof {
        if name@.len() > 0 && name@[0] == '/' {
            assert(name@.subrange(0, 1) =~= "/"@);
        }
    }
    if base.is_empty() || ends_with(base, "/") {
        proof {
            if base@.len() > 0 {
                assert(base@.subrange(base@.len() - 1, base@.len() as int)[0] == base@.last());
                assert("/"@[0] == '/');
            }
        }
        return concat2(base, name);
    }
    proof {
        if base@.last() == '/' {
            assert(base@.subrange(base@.len() - 1, base@.len() as int) =~= "/"@);
        }
    }
    concat3(base, "/", name)
}

/// All filesystem locations that are read from and written to.
#[derive(Debug, PartialEq, Eq)]
pub struct AppPaths {
    /// Directory holding configuration files.
    pub config_dir: String,
    /// Directory holding persistent application state (profiles, vault).
    pub data_dir: String,
    /// Directory holding log files.
    pub log_dir: String,
    /// Directory for temporary runtime files (sockets, lock files).
    pub runtime_dir: String,
}

impl Clone for AppPaths {
    fn clone(&self) -> (r: Self)
        ensures
            r.config_dir@ == self.config_dir@,
            r.data_dir@ == self.data_dir@,
            r.log_dir@ == self.log_dir@,
            r.runtime_dir@ == self.runtime_dir@,
    {
        AppPaths {
            config_dir: self.config_dir.as_str().to_owned(),
            data_dir: self.data_dir.as_str().to_owned(),
            log_dir: self.log_dir.as_str().to_owned(),
            runtime_dir: self.runtime_dir.as_str().to_owned(),
        }
    }
}

/// What the environment says about locations.
#[derive(Debug)]
pub struct PathEnvironment {
    /// Operating system family.
    pub os: OsFamily,
    /// `HOME`.
    pub home: Option<String>,
    /// `USERPROFILE`.
    pub user_profile: Option<String>,
    /// `APPDATA`.
    pub app_data: Option<String>,
    /// `LOCALAPPDATA`.
    pub local_app_data: Option<String>,
    /// `XDG_CONFIG_HOME`.
    pub xdg_config_home: Option<String>,
    /// `XDG_DATA_HOME`.
    pub xdg_data_home: Option<String>,
    /// `XDG_STATE_HOME`.
    pub xdg_state_home: Option<String>,
    /// `RDT_CONFIG_DIR`.
    pub config_override: Option<String>,
    /// `RDT_DATA_DIR`.
    pub data_override: Option<String>,
    /// `RDT_LOG_DIR`.
    pub log_override: Option<String>,
    /// `RDT_RUNTIME_DIR`.
    pub runtime_override: Option<String>,
    /// Directory for temporary files.
    pub temp_dir: String,
    /// User number, on systems that have one.
    pub uid: Option<u32>,
    /// `USERNAME`.
    pub user_name: Option<String>,
}

/// A value that is set and not empty.
pub open spec fn present(value: Option<String>) -> bool {
    value is Some && value->0@.len() > 0
}

/// The home directory of a user.
pub open spec fn home_of(home: Option<String>, user_profile: Option<String>) -> Seq<char> {
    if present(home) {
        home->0@
    } else if present(user_profile) {
        user_profile->0@
    } else {
        "."@
    }
}

/// The home directory of a user.
pub fn home_dir(home: &Option<String>, user_profile: &Option<String>) -> (r: String)
    ensures
        r@ == home_of(*home, *user_profile),
{
    if let Some(path) = home {
        if !path.as_str().is_empty() {
            return path.as_str().to_owned();
        }
    }
    if let Some(path) = user_profile {
        if !path.as_str().is_empty() {
            return path.as_str().to_owned();
        }
    }
    ".".to_owned()
}

/// A directory that a variable may override.
pub open spec fn overridden(variable: Option<String>, fallback: Seq<char>) -> Seq<char> {
    match variable {
        Some(path) => path@,
        None => fallback,
    }
}

fn override_dir(variable: &Option<String>, fallback: String) -> (r: String)
    ensures
        r@ == overridden(*variable, fallback@),
{
    match variable {
        Some(path) => path.as_str().to_owned(),
        None => fallback,
    }
}

/// A directory of the XDG specification; an empty variable counts as unset.
pub open spec fn xdg_of(variable: Option<String>, fallback: Seq<char>) -> Seq<char> {
    if present(variable) {
        variable->0@
    } else {
        fallback
    }
}

fn xdg_dir(variable: &Option<String>, fallback: String) -> (r: String)
    ensures
        r@ == xdg_of(*variable, fallback@),
{
    if let Some(path) = variable {
        if !path.as_str().is_empty() {
            return path.as_str().to_owned();
        }
    }
    fallback
}

/// The default directories for configuration, data and logs.
pub open spec fn default_dirs(env: PathEnvironment, home: Seq<char>) -> (
    Seq<char>,
    Seq<char>,
    Seq<char>,
) {
    match env.os {
        OsFamily::Windows => {
            let roaming = overridden(
                env.app_data,
                path_joined(path_joined(home, "AppData"@), "Roaming"@),
            );
            let local = overridden(env.local_app_data, path_joined(roaming, "Local"@));
            (
                path_joined(roaming, "RDT"@),
                path_joined(roaming, "RDT"@),
                path_joined(path_joined(local, "RDT"@), "logs"@),
            )
        },
        OsFamily::Macos => {
            let library = path_joined(home, "Library"@);
            let support = path_joined(library, "Application Support"@);
            (
                path_joined(support, "RDT"@),
                path_joined(support, "RDT"@),
                path_joined(path_joined(library, "Logs"@), "RDT"@),
            )
        },
        _ => {
            let local = path_joined(home, ".local"@);
            (
                path_joined(xdg_of(env.xdg_config_home, path_joined(home, ".config"@)), "rdt"@),
                path_joined(xdg_of(env.xdg_data_home, path_joined(local, "share"@)), "rdt"@),
                path_joined(
                    path_joined(xdg_of(env.xdg_state_home, path_joined(local, "state"@)), "rdt"@),
                    "log"@,
                ),
            )
        },
    }
}

fn platform_dirs(env: &PathEnvironment, home: &str) -> (r: (String, String, String))
    ensures
        (r.0@, r.1@, r.2@) == default_dirs(*env, home@),
{
    match env.os {
        OsFamily::Windows => {
            let base = join_path(home, "AppData");
            let roaming = override_dir(&env.app_data, join_path(base.as_str(), "Roaming"));
            let local = override_dir(&env.local_app_data, join_path(roaming.as_str(), "Local"));
            (
                join_path(roaming.as_str(), "RDT"),
                join_path(roaming.as_str(), "RDT"),
                join_path(join_path(local.as_str(), "RDT").as_str(), "logs"),
            )
        },
        OsFamily::Macos => {
            let library = join_path(home, "Library");
            let support = join_path(library.as_str(), "Application Support");
            (
                join_path(support.as_str(), "RDT"),
                join_path(support.as_str(), "RDT"),
                join_path(join_path(library.as_str(), "Logs").as_str(), "RDT"),
            )
        },
        _ => {
            let local = join_path(home, ".local");
            let config = xdg_dir(&env.xdg_config_home, join_path(home, ".config"));
            let data = xdg_dir(&env.xdg_data_home, join_path(local.as_str(), "share"));
            let state = xdg_dir(&env.xdg_state_home, join_path(local.as_str(), "state"));
            (
                join_path(config.as_str(), "rdt"),
                join_path(data.as_str(), "rdt"),
                join_path(join_path(state.as_str(), "rdt").as_str(), "log"),
            )
        },
    }
}

/// A number that stands for a user name.
pub open spec fn name_hash(bytes: Seq<u8>) -> nat
    decreases bytes.len(),
{
    if bytes.len() == 0 {
        0
    } else {
        ((name_hash(bytes.drop_last()) * 31 + bytes.last()) % 0x1_0000_0000_0000_0000) as nat
    }
}

/// A number in lower case hexadecimal notation with a fixed number of digits.
pub open spec fn hex_padded(n: nat, digits: nat) -> Seq<char>
    decreases digits,
{
    if digits == 0 {
        Seq::empty()
    } else {
        hex_padded(n / 16, (digits - 1) as nat).push(hex_digit((n % 16) as int))
    }
}

/// The token that scopes runtime directories to a user.
pub open spec fn token_of(uid: Option<u32>, user_name: Option<String>) -> Seq<char> {
    match uid {
        Some(number) => decimal(number as nat),
        None => hex_padded(
            name_hash(
                encode_utf8(
                    match user_name {
                        Some(name) => name@,
                        None => "user"@,
                    },
                ),
            ),
            16,
        ),
    }
}

/// A hexadecimal digit.
fn hex_char(n: u64) -> (r: char)
    requires
        n < 16,
    ensures
        r == hex_digit(n as int),
{
    if n < 10 {
        (0x30 + n as u8) as char
    } else {
        (0x61 + (n as u8 - 10)) as char
    }
}

/// A number with a fixed number of hexadecimal digits.
fn to_hex_padded(n: u64, digits: u32) -> (r: String)
    ensures
        r@ == hex_padded(n as nat, digits as nat),
    decreases digits,
{
    if digits == 0 {
        let r = String::new();
        assert(r@ =~= Seq::<char>::empty());
        return r;
    }
    let mut r = to_hex_padded(n / 16, digits - 1);
    r.push(hex_char(n % 16));
    r
}

/// A stable per-user token used to scope runtime directories.
pub fn user_token(uid: Option<u32>, user_name: &Option<String>) -> (r: String)
    ensures
        r@ == token_of(uid, *user_name),
{
    if let Some(number) = uid {
        return to_decimal(number as u64);
    }
    let name = match user_name {
        Some(name) => name.as_str(),
        None => "user",
    };
    let bytes = name.as_bytes();
    let mut hash: u64 = 0;
    let mut i: usize = 0;
    assert(bytes@.take(0) =~= Seq::<u8>::empty());
    while i < bytes.len()
        invariant
            i <= bytes@.len(),
            hash == name_hash(bytes@.take(i as int)),
        decreases bytes.len() - i,
    {
        proof {
            assert(bytes@.take(i + 1).drop_last() =~= bytes@.take(i as int));
            hash_steps(hash as int, bytes@[i as int] as int);
        }
        hash = hash.wrapping_mul(31).wrapping_add(bytes[i] as u64);
        i = i + 1;
    }
    assert(bytes@.take(bytes@.len() as int) =~= bytes@);
    to_hex_padded(hash, 16)
}

proof fn hash_steps(hash: int, byte: int)
    requires
        0 <= hash < 0x1_0000_0000_0000_0000,
        0 <= byte < 256,
    ensures
        ((hash * 31) % 0x1_0000_0000_0000_0000 + byte) % 0x1_0000_0000_0000_0000 == (hash * 31
            + byte) % 0x1_0000_0000_0000_0000,
{
}

/// Whether locations are what an environment resolves to.
pub open spec fn resolves_to(env: PathEnvironment, paths: AppPaths) -> bool {
    let defaults = default_dirs(env, home_of(env.home, env.user_profile));
    &&& paths.config_dir@ == overridden(env.config_override, defaults.0)
    &&& paths.data_dir@ == overridden(env.data_override, defaults.1)
    &&& paths.log_dir@ == overridden(env.log_override, defaults.2)
    &&& paths.runtime_dir@ == overridden(
        env.runtime_override,
        path_joined(env.temp_dir@, "rdt-"@ + token_of(env.uid, env.user_name)),
    )
}

impl AppPaths {
    /// Resolves the locations for an environment.
    ///
    /// `RDT_CONFIG_DIR`, `RDT_DATA_DIR`, `RDT_LOG_DIR` and `RDT_RUNTIME_DIR`
    /// override individual entries, which is what the test suite and the
    /// portable install mode rely on.
    pub fn detect(env: &PathEnvironment) -> (r: Self)
        ensures
            resolves_to(*env, r),
    {
        let home = home_dir(&env.home, &env.user_profile);
        let (config, data, log) = platform_dirs(env, home.as_str());
        let token = concat2("rdt-", user_token(env.uid, &env.user_name).as_str());
        let runtime = join_path(env.temp_dir.as_str(), token.as_str());
        AppPaths {
            config_dir: override_dir(&env.config_override, config),
            data_dir: override_dir(&env.data_override, data),
            log_dir: override_dir(&env.log_override, log),
            runtime_dir: override_dir(&env.runtime_override, runtime),
        }
    }

    /// Builds a fully custom set of paths (used by the agent and by tests).
    pub fn new(config_dir: String, data_dir: String, log_dir: String, runtime_dir: String) -> (r:
        Self)
        ensures
            r.config_dir == config_dir,
            r.data_dir == data_dir,
            r.log_dir == log_dir,
            r.runtime_dir == runtime_dir,
    {
        AppPaths { config_dir, data_dir, log_dir, runtime_dir }
    }

    /// Main configuration file.
    pub fn config_file(&self) -> (r: String)
        ensures
            r@ == path_joined(self.config_dir@, "config.toml"@),
    {
        join_path(self.config_dir.as_str(), "config.toml")
    }

    /// Connection profile store.
    pub fn profiles_file(&self) -> (r: String)
        ensures
            r@ == path_joined(self.data_dir@, "profiles.toml"@),
    {
        join_path(self.data_dir.as_str(), "profiles.toml")
    }

    /// Encrypted secret vault.
    pub fn vault_file(&self) -> (r: String)
        ensures
            r@ == path_joined(self.data_dir@, "secrets.vault"@),
    {
        join_path(self.data_dir.as_str(), "secrets.vault")
    }

    /// SSH known hosts database.
    pub fn known_hosts_file(&self) -> (r: String)
        ensures
            r@ == path_joined(self.data_dir@, "known_hosts"@),
    {
        join_path(self.data_dir.as_str(), "known_hosts")
    }

    /// Application log file.
    pub fn log_file(&self) -> (r: String)
        ensures
            r@ == path_joined(self.log_dir@, "rdt.log"@),
    {
        join_path(self.log_dir.as_str(), "rdt.log")
    }

    /// Audit trail (JSON lines).
    pub fn audit_file(&self) -> (r: String)
        ensures
            r@ == path_joined(self.log_dir@, "audit.jsonl"@),
    {
        join_path(self.log_dir.as_str(), "audit.jsonl")
    }

    /// Local control socket of the agent daemon; named pipes are addressed through
    /// `\\.\pipe\`, not the filesystem.
    pub fn agent_socket(&self, os: OsFamily) -> (r: String)
        ensures
            r@ == match os {
                OsFamily::Windows => "\\\\.\\pipe\\rdt-agent"@,
                _ => path_joined(self.runtime_dir@, "agent.sock"@),
            },
    {
        match os {
            OsFamily::Windows => "\\\\.\\pipe\\rdt-agent".to_owned(),
            _ => join_path(self.runtime_dir.as_str(), "agent.sock"),
        }
    }

    /// Lock file that keeps two desktop clients from racing on the same state.
    pub fn lock_file(&self) -> (r: String)
        ensures
            r@ == path_joined(self.runtime_dir@, "rdt.lock"@),
    {
        join_path(self.runtime_dir.as_str(), "rdt.lock")
    }

    /// The directories that have to exist, with owner-only permissions.
    pub fn directories(&self) -> (r: Vec<String>)
        ensures
            crate::text::texts(r@) == seq![
                self.config_dir@,
                self.data_dir@,
                self.log_dir@,
                self.runtime_dir@,
            ],
    {
        let mut r: Vec<String> = Vec::new();
        r.push(self.config_dir.as_str().to_owned());
        r.push(self.data_dir.as_str().to_owned());
        r.push(self.log_dir.as_str().to_owned());
        r.push(self.runtime_dir.as_str().to_owned());
        assert(crate::text::texts(r@) =~= seq![
            self.config_dir@,
            self.data_dir@,
            self.log_dir@,
            self.runtime_dir@,
        ]);
        r
    }
}

/// A path with a leading tilde expanded.
pub open spec fn tilde_expanded(path: Seq<char>, home: Seq<char>, windows: bool) -> Seq<char> {
    if path == "~"@ {
        home
    } else if "~/"@.is_prefix_of(path) || (windows && "~\\"@.is_prefix_of(path)) {
        path_joined(home, path.skip(2))
    } else {
        path
    }
}

/// Expands a leading `~` in a user supplied path.
pub fn expand_tilde(path: &str, home: &str, windows: bool) -> (r: String)
    ensures
        r@ == tilde_expanded(path@, home@, windows),
{
    if same(path, "~") {
        return home.to_owned();
    }
    proof {
        reveal_strlit("~/");
        reveal_strlit("~\\");
    }
    if starts_with(path, "~/") || (windows && starts_with(path, "~\\")) {
        let chars = chars_of(path);
        let rest = part(&chars, 2, chars.len());
        assert(rest@ =~= path@.skip(2));
        return join_path(home, rest.as_str());
    }
    path.to_owned()
}

/// A variable that overrides a directory wins over every default.
pub proof fn overrides_win(env: PathEnvironment, paths: AppPaths)
    requires
        resolves_to(env, paths),
    ensures
        env.config_override is Some ==> paths.config_dir@ == env.config_override->0@,
        env.data_override is Some ==> paths.data_dir@ == env.data_override->0@,
        env.log_override is Some ==> paths.log_dir@ == env.log_override->0@,
        env.runtime_override is Some ==> paths.runtime_dir@ == env.runtime_override->0@,
{
}

/// A component is appended behind one slash; an absolute one stands for itself.
pub proof fn components_are_appended(base: Seq<char>, name: Seq<char>)
    ensures
        name.len() > 0 && name[0] == '/' ==> path_joined(base, name) == name,
        base.len() > 0 && base.last() != '/' && !(name.len() > 0 && name[0] == '/')
            ==> path_joined(base, name) == base + seq!['/'] + name,
        base.len() > 0 && base.last() == '/' && !(name.len() > 0 && name[0] == '/')
            ==> path_joined(base, name) == base + name,
{
    reveal_strlit("/");
    assert("/"@ =~= seq!['/']);
}

/// The home directory is the one that the environment names, by `HOME` before
/// `USERPROFILE`; a blank one counts for nothing.
pub proof fn home_is_named_by_the_environment(home: Option<String>, profile: Option<String>)
    ensures
        home is Some && home->0@.len() > 0 ==> home_of(home, profile) == home->0@,
        (home is None || home->0@.len() == 0) && profile is Some && profile->0@.len() > 0
            ==> home_of(home, profile) == profile->0@,
        (home is None || home->0@.len() == 0) && (profile is None || profile->0@.len() == 0)
            ==> home_of(home, profile) == "."@,
{
}

/// On Linux and the like the directories are those of the XDG variables, or the usual
/// ones in the home directory.
pub proof fn directories_on_linux(env: PathEnvironment, home: Seq<char>)
    requires
        env.os == OsFamily::Linux || env.os == OsFamily::Other,
        home.len() > 0,
        home.last() != '/',
    ensures
        ({
            let dirs = default_dirs(env, home);
            &&& env.xdg_config_home is None ==> dirs.0 == home + "/.config/rdt"@
            &&& env.xdg_data_home is None ==> dirs.1 == home + "/.local/share/rdt"@
            &&& env.xdg_state_home is None ==> dirs.2 == home + "/.local/state/rdt/log"@
            &&& env.xdg_config_home is Some && env.xdg_config_home->0@.len() > 0
                && env.xdg_config_home->0@.last() != '/' ==> dirs.0 == env.xdg_config_home->0@
                + "/rdt"@
            &&& env.xdg_data_home is Some && env.xdg_data_home->0@.len() > 0
                && env.xdg_data_home->0@.last() != '/' ==> dirs.1 == env.xdg_data_home->0@
                + "/rdt"@
            &&& env.xdg_state_home is Some && env.xdg_state_home->0@.len() > 0
                && env.xdg_state_home->0@.last() != '/' ==> dirs.2 == env.xdg_state_home->0@
                + "/rdt/log"@
        }),
{
    reveal_strlit("/");
    reveal_strlit(".config");
    reveal_strlit(".local");
    reveal_strlit("share");
    reveal_strlit("state");
    reveal_strlit("rdt");
    reveal_strlit("log");
    reveal_strlit("/rdt");
    reveal_strlit("/rdt/log");
    reveal_strlit("/.config/rdt");
    reveal_strlit("/.local/share/rdt");
    reveal_strlit("/.local/state/rdt/log");
    let dirs = default_dirs(env, home);
    if env.xdg_config_home is None {
        assert(dirs.0 =~= home + "/.config/rdt"@);
    }
    if env.xdg_data_home is None {
        assert(dirs.1 =~= home + "/.local/share/rdt"@);
    }
    if env.xdg_state_home is None {
        assert(dirs.2 =~= home + "/.local/state/rdt/log"@);
    }
    if env.xdg_config_home is Some {
        let x = env.xdg_config_home->0@;
        if x.len() > 0 && x.last() != '/' {
            assert(dirs.0 =~= x + "/rdt"@);
        }
    }
    if env.xdg_data_home is Some {
        let x = env.xdg_data_home->0@;
        if x.len() > 0 && x.last() != '/' {
            assert(dirs.1 =~= x + "/rdt"@);
        }
    }
    if env.xdg_state_home is Some {
        let x = env.xdg_state_home->0@;
        if x.len() > 0 && x.last() != '/' {
            assert(dirs.2 =~= x + "/rdt/log"@);
        }
    }
}

/// On macOS they lie in the library of the home directory, and on Windows in the data
/// directory of applications.
pub proof fn directories_elsewhere(env: PathEnvironment, home: Seq<char>)
    requires
        home.len() > 0,
        home.last() != '/',
    ensures
        env.os == OsFamily::Macos ==> {
            let dirs = default_dirs(env, home);
            &&& dirs.0 == home + "/Library/Application Support/RDT"@
            &&& dirs.1 == dirs.0
            &&& dirs.2 == home + "/Library/Logs/RDT"@
        },
        env.os == OsFamily::Windows && env.app_data is Some && env.app_data->0@.len() > 0
            && env.app_data->0@.last() != '/' ==> {
            let dirs = default_dirs(env, home);
            &&& dirs.0 == env.app_data->0@ + "/RDT"@
            &&& dirs.1 == dirs.0
        },
        env.os == OsFamily::Windows && env.local_app_data is Some && env.local_app_data->0@.len() > 0
            && env.local_app_data->0@.last() != '/' ==> default_dirs(env, home).2
            == env.local_app_data->0@ + "/RDT/logs"@,
{
    reveal_strlit("/");
    reveal_strlit("Library");
    reveal_strlit("Application Support");
    reveal_strlit("Logs");
    reveal_strlit("RDT");
    reveal_strlit("logs");
    reveal_strlit("/RDT");
    reveal_strlit("/RDT/logs");
    reveal_strlit("/Library/Application Support/RDT");
    reveal_strlit("/Library/Logs/RDT");
    let dirs = default_dirs(env, home);
    if env.os == OsFamily::Macos {
        assert(dirs.0 =~= home + "/Library/Application Support/RDT"@);
        assert(dirs.2 =~= home + "/Library/Logs/RDT"@);
    }
    if env.os == OsFamily::Windows && env.app_data is Some {
        let x = env.app_data->0@;
        if x.len() > 0 && x.last() != '/' {
            assert(dirs.0 =~= x + "/RDT"@);
        }
    }
    if env.os == OsFamily::Windows && env.local_app_data is Some {
        let x = env.local_app_data->0@;
        if x.len() > 0 && x.last() != '/' {
            assert(dirs.2 =~= x + "/RDT/logs"@);
        }
    }
}

/// A tilde alone is the home directory, and a tilde with a slash, on Windows also with a
/// backslash, a path in it; any other path is left as it is.
pub proof fn tildes_mean_home(home: Seq<char>, rest: Seq<char>, path: Seq<char>, windows: bool)
    requires
        home.len() > 0,
        home.last() != '/',
        rest.len() > 0,
        rest[0] != '/',
    ensures
        tilde_expanded(seq!['~'], home, windows) == home,
        tilde_expanded(seq!['~', '/'] + rest, home, windows) == home + seq!['/'] + rest,
        tilde_expanded(seq!['~', '\\'] + rest, home, true) == home + seq!['/'] + rest,
        path.len() > 0 && path[0] != '~' ==> tilde_expanded(path, home, windows) == path,
{
    reveal_strlit("~");
    reveal_strlit("~/");
    reveal_strlit("~\\");
    reveal_strlit("/");
    assert("/"@ =~= seq!['/']);
    assert("~"@ =~= seq!['~']);
    let a = seq!['~', '/'] + rest;
    let b = seq!['~', '\\'] + rest;
    assert(a.skip(2) =~= rest);
    assert(b.skip(2) =~= rest);
    assert("~/"@ =~= a.subrange(0, 2));
    assert("~\\"@ =~= b.subrange(0, 2));
    assert(a.len() > 1 && b.len() > 1);
    assert("~/"@[0] == '~' && "~\\"@[0] == '~');
    if path.len() > 0 && path[0] != '~' {
        if "~/"@.is_prefix_of(path) {
            assert(path.subrange(0, 2)[0] == '~');
        }
        if "~\\"@.is_prefix_of(path) {
            assert(path.subrange(0, 2)[0] == '~');
        }
    }
}

/// The runtime directory carries the user's number, so that two users do not share it.
pub proof fn users_have_their_own_runtime_directory(a: u32, b: u32, name: Option<String>)
    ensures
        token_of(Some(a), name) == decimal(a as nat),
        a != b ==> token_of(Some(a), name) != token_of(Some(b), name),
{
    crate::text::decimal_round_trip(a as nat, u32::MAX as nat);
    crate::text::decimal_round_trip(b as nat, u32::MAX as nat);
}

} // verus!
