//! Service integration: systemd units on Linux, the Windows SCM on Windows.
//!
//! Installing a service is the only operation that may need elevated privileges.
//! What is written, which commands are run and what is refused is decided here;
//! every refusal is a typed error explaining exactly what is missing.
use crate::error::{fail, join, joined, ErrorCode, RdtError, RdtErrorView, RdtResult};
use crate::info::{literals, OsFamily};
use crate::keystore::ToolExit;
use crate::paths::{join_path, path_joined, AppPaths};
use crate::proto::{contains_space, has_space};
use crate::text::{
    chars_of, concat2, concat3, concat4, lines, lossy, lossy_text, replace, replaced, same,
    split_lines, starts_with, texts, trim, trimmed,
};
use vstd::prelude::*;

verus! {

/// What the service should run and how it should be supervised.
#[derive(Debug, Clone, PartialEq, Eq)]
pub struct ServiceSpec {
    /// Service name (also the unit name on Linux).
    pub name: String,
    /// Description shown by the service manager.
    pub description: String,
    /// Absolute path of the executable.
    pub executable: String,
    /// Arguments passed to the executable.
    pub arguments: Vec<String>,
    /// Install for the whole machine instead of the current user.
    pub system_wide: bool,
    /// Start the service immediately after installing it.
    pub start_now: bool,
    /// Restart the service when it exits.
    pub restart_on_failure: bool,
    /// User the service should run as (Linux only; empty means the default).
    pub run_as_user: Option<String>,
}

/// Whether a path is absolute on a system.
pub open spec fn absolute(path: Seq<char>, os: OsFamily) -> bool {
    if os is Windows {
        ||| shared_folder(path)
        ||| path.len() >= 3 && drive_letter(path[0]) && path[1] == ':' && separates(path[2])
    } else {
        path.len() >= 1 && path[0] == '/'
    }
}

/// Whether a character separates the parts of a path on Windows.
pub open spec fn separates(c: char) -> bool {
    c == '\\' || c == '/'
}

/// Whether a path starts with the name of a server, or of a device space, and of
/// something in it.
pub open spec fn shared_folder(path: Seq<char>) -> bool {
    &&& path.len() >= 2
    &&& separates(path[0])
    &&& separates(path[1])
    &&& names_share(path, 2)
}

/// Whether a part that starts at 2 and reaches `k` at least has a name, ends with
/// one separator and is followed by a name.
pub open spec fn names_share(path: Seq<char>, k: int) -> bool
    decreases path.len() - k,
{
    if k < 0 || k >= path.len() {
        false
    } else if separates(path[k]) {
        k > 2 && k + 1 < path.len() && !separates(path[k + 1])
    } else {
        names_share(path, k + 1)
    }
}

/// Whether a character names a drive.
pub open spec fn drive_letter(c: char) -> bool {
    0x41 <= c as u32 <= 0x5A || 0x61 <= c as u32 <= 0x7A
}

fn is_separator(c: char) -> (r: bool)
    ensures
        r == separates(c),
{
    c == '\\' || c == '/'
}

/// Whether a path is absolute on a system.
pub fn is_absolute(path: &str, os: OsFamily) -> (r: bool)
    ensures
        r == absolute(path@, os),
{
    let chars = chars_of(path);
    let count: usize = chars.len();
    if matches!(os, OsFamily::Windows) {
        if count >= 2 && is_separator(chars[0]) && is_separator(chars[1]) {
            let mut k: usize = 2;
            while k < count && !is_separator(chars[k])
                invariant
                    2 <= k <= count,
                    count == chars@.len(),
                    chars@ == path@,
                    names_share(path@, 2) == names_share(path@, k as int),
                decreases count - k,
            {
                k = k + 1;
            }
            return k > 2 && k < count && k + 1 < count && !is_separator(chars[k + 1]);
        }
        if count < 3 {
            return false;
        }
        let letter: u32 = chars[0] as u32;
        ((0x41 <= letter && letter <= 0x5A) || (0x61 <= letter && letter <= 0x7A)) && chars[1]
            == ':' && is_separator(chars[2])
    } else {
        count >= 1 && chars[0] == '/'
    }
}

/// The first problem of a service.
pub open spec fn spec_problem(spec: ServiceSpec, os: OsFamily) -> Option<RdtErrorView> {
    if trimmed(spec.name@).len() == 0 || has_space(spec.name@) {
        Some(
            fail(
                ErrorCode::InvalidInput,
                "service name must be non-empty and free of whitespace"@,
            ),
        )
    } else if !absolute(spec.executable@, os) {
        Some(fail(ErrorCode::InvalidInput, "service executable must be an absolute path"@))
    } else {
        None
    }
}

impl ServiceSpec {
    /// Builds a spec for the agent.
    pub fn agent(executable: &str, system_wide: bool) -> (r: Self)
        ensures
            r.name@ == "rdt-agent"@,
            r.description@ == "RDT unattended remote access agent"@,
            r.executable@ == executable@,
            texts(r.arguments@) == seq!["agent"@, "run"@],
            r.system_wide == system_wide,
            r.start_now,
            r.restart_on_failure,
            r.run_as_user is None,
    {
        let mut arguments: Vec<String> = Vec::new();
        arguments.push("agent".to_owned());
        arguments.push("run".to_owned());
        assert(texts(arguments@) =~= seq!["agent"@, "run"@]);
        ServiceSpec {
            name: "rdt-agent".to_owned(),
            description: "RDT unattended remote access agent".to_owned(),
            executable: executable.to_owned(),
            arguments,
            system_wide,
            start_now: true,
            restart_on_failure: true,
            run_as_user: None,
        }
    }

    /// Validates the spec before touching the system.
    ///
    /// # Errors
    ///
    /// Returns [`ErrorCode::InvalidInput`] describing the first problem.
    pub fn validate(&self, os: OsFamily) -> (r: RdtResult<()>)
        ensures
            r is Ok <==> spec_problem(*self, os) is None,
            r is Err ==> r->Err_0@ == spec_problem(*self, os)->0,
    {
        let name = trim(self.name.as_str());
        if name.as_str().is_empty() || contains_space(self.name.as_str()) {
            return Err(
                RdtError::new(
                    ErrorCode::InvalidInput,
                    "service name must be non-empty and free of whitespace",
                ),
            );
        }
        if !is_absolute(self.executable.as_str(), os) {
            return Err(
                RdtError::new(
                    ErrorCode::InvalidInput,
                    "service executable must be an absolute path",
                ),
            );
        }
        Ok(())
    }
}

/// What is to be installed.
#[derive(Debug)]
pub struct ServiceInstallRequest {
    /// The service to install.
    pub spec: ServiceSpec,
    /// Paths used to locate the configuration the service should read.
    pub paths: AppPaths,
}

/// Observed state of the service.
#[derive(Debug, Clone, Copy, PartialEq, Eq, Structural)]
pub enum ServiceState {
    /// Not installed.
    NotInstalled,
    /// Installed and running.
    Running,
    /// Installed but stopped.
    Stopped,
    /// Installed and in the process of starting or stopping.
    Transitioning,
    /// The state could not be determined.
    Unknown,
}

impl ServiceState {
    /// Stable identifier.
    pub fn as_str(self) -> (r: &'static str)
        ensures
            r@ == match self {
                ServiceState::NotInstalled => "not-installed"@,
                ServiceState::Running => "running"@,
                ServiceState::Stopped => "stopped"@,
                ServiceState::Transitioning => "transitioning"@,
                ServiceState::Unknown => "unknown"@,
            },
    {
        match self {
            ServiceState::NotInstalled => "not-installed",
            ServiceState::Running => "running",
            ServiceState::Stopped => "stopped",
            ServiceState::Transitioning => "transitioning",
            ServiceState::Unknown => "unknown",
        }
    }
}

/// Whether a character needs no quoting.
pub open spec fn plain_char(c: char) -> bool {
    let u = c as u32;
    ||| 0x30 <= u <= 0x39
    ||| 0x41 <= u <= 0x5A
    ||| 0x61 <= u <= 0x7A
    ||| c == '-'
    ||| c == '_'
    ||| c == '/'
    ||| c == '.'
    ||| c == ':'
    ||| c == '='
    ||| c == ','
}

/// Whether a value needs no quoting.
pub open spec fn plain(value: Seq<char>) -> bool {
    forall|i: int| 0 <= i < value.len() ==> plain_char(#[trigger] value[i])
}

/// A value with its backslashes and quotes escaped.
pub open spec fn escaped(value: Seq<char>) -> Seq<char> {
    replaced(replaced(value, "\\"@, "\\\\"@), "\""@, "\\\""@)
}

/// A value as it stands in a unit file.
pub open spec fn quoted_value(value: Seq<char>) -> Seq<char> {
    if value.len() == 0 {
        "\"\""@
    } else if plain(value) {
        value
    } else {
        "\""@ + escaped(value) + "\""@
    }
}

fn is_plain_char(c: char) -> (r: bool)
    ensures
        r == plain_char(c),
{
    let u: u32 = c as u32;
    (0x30 <= u && u <= 0x39) || (0x41 <= u && u <= 0x5A) || (0x61 <= u && u <= 0x7A) || c == '-'
        || c == '_' || c == '/' || c == '.' || c == ':' || c == '=' || c == ','
}

/// Quotes a value for a unit file, when it needs quoting.
pub fn shell_quote(value: &str) -> (r: String)
    ensures
        r@ == quoted_value(value@),
{
    if value.is_empty() {
        return "\"\"".to_owned();
    }
    let chars = chars_of(value);
    let mut i: usize = 0;
    let mut all = true;
    while i < chars.len()
        invariant
            i <= chars@.len(),
            chars@ == value@,
            all == forall|k: int| 0 <= k < i ==> plain_char(#[trigger] value@[k]),
        decreases chars.len() - i,
    {
        if !is_plain_char(chars[i]) {
            assert(!plain_char(value@[i as int]));
            all = false;
        }
        i = i + 1;
    }
    if all {
        return value.to_owned();
    }
    proof {
        reveal_strlit("\\");
        reveal_strlit("\"");
    }
    let inner = replace(replace(value, "\\", "\\\\").as_str(), "\"", "\\\"");
    concat3("\"", inner.as_str(), "\"")
}

/// Quoted arguments.
pub open spec fn quoted_all(values: Seq<Seq<char>>) -> Seq<Seq<char>> {
    Seq::new(values.len(), |i: int| quoted_value(values[i]))
}

/// The arguments of a service on one line.
pub open spec fn argument_line(arguments: Seq<Seq<char>>) -> Seq<char> {
    joined(quoted_all(arguments), " "@)
}

fn quote_all(values: &Vec<String>) -> (r: String)
    ensures
        r@ == argument_line(texts(values@)),
{
    let mut parts: Vec<String> = Vec::new();
    let mut i: usize = 0;
    while i < values.len()
        invariant
            i <= values@.len(),
            parts@.len() == i,
            forall|k: int| 0 <= k < i ==> (#[trigger] parts@[k])@ == quoted_value(values@[k]@),
        decreases values.len() - i,
    {
        parts.push(shell_quote(values[i].as_str()));
        i = i + 1;
    }
    assert(texts(parts@) =~= quoted_all(texts(values@)));
    join(&parts, " ")
}

/// The user a service runs as.
pub open spec fn service_user(spec: ServiceSpec, user: Option<Seq<char>>) -> Seq<char> {
    match spec.run_as_user {
        Some(name) => name@,
        None => if spec.system_wide {
            "rdt"@
        } else {
            match user {
                Some(name) => name,
                None => "root"@,
            }
        },
    }
}

/// The start of every unit file.
pub open spec fn unit_preamble(description: Seq<char>) -> Seq<char> {
    "[Unit]\nDescription="@ + description
        + "\nDocumentation=https://github.com/mylab12345/Remote-Desktop-Tool\nAfter=network-online.target\nWants=network-online.target\n\n[Service]\nType=notify\n"@
}

/// What a unit runs.
pub open spec fn unit_command(spec: ServiceSpec) -> Seq<char> {
    "ExecStart="@ + quoted_value(spec.executable@) + " "@ + argument_line(texts(spec.arguments@))
        + "\n"@
}

/// The environment that a unit runs in.
pub open spec fn unit_environment(paths: AppPaths) -> Seq<char> {
    "Environment=RDT_CONFIG_DIR="@ + quoted_value(paths.config_dir@) + " RDT_DATA_DIR="@
        + quoted_value(paths.data_dir@) + " RDT_LOG_DIR="@ + quoted_value(paths.log_dir@)
        + " RDT_RUNTIME_DIR="@ + quoted_value(paths.runtime_dir@) + "\n"@
}

/// The least privilege rules of a system wide unit: the agent only needs to read
/// its own state directory and open outbound connections.
pub open spec fn unit_hardening(paths: AppPaths) -> Seq<char> {
    "NoNewPrivileges=true\nPrivateTmp=true\nProtectSystem=strict\nProtectHome=read-only\nReadWritePaths="@
        + quoted_value(paths.data_dir@) + " "@ + quoted_value(paths.log_dir@) + " "@
        + quoted_value(paths.runtime_dir@)
        + "\nProtectKernelTunables=true\nProtectKernelModules=true\nProtectControlGroups=true\nRestrictSUIDSGID=true\nRestrictNamespaces=true\nLockPersonality=true\nMemoryDenyWriteExecute=false\nSystemCallFilter=@system-service\nSystemCallFilter=~@privileged @resources\n"@
}

/// The systemd unit file for a service.
pub open spec fn unit_text(spec: ServiceSpec, paths: AppPaths, user: Option<Seq<char>>) -> Seq<
    char,
> {
    unit_preamble(spec.description@) + unit_command(spec) + unit_environment(paths) + (
    if spec.restart_on_failure {
        "Restart=on-failure\nRestartSec=5s\n"@
    } else {
        Seq::empty()
    }) + "User="@ + service_user(spec, user) + "\n"@ + (if spec.system_wide {
        unit_hardening(paths)
    } else {
        Seq::empty()
    }) + "\n[Install]\nWantedBy=multi-user.target\n"@
}

fn hardening(paths: &AppPaths) -> (r: String)
    ensures
        r@ == unit_hardening(*paths),
{
    let mut unit =
        "NoNewPrivileges=true\nPrivateTmp=true\nProtectSystem=strict\nProtectHome=read-only\nReadWritePaths=".to_owned();
    unit.push_str(shell_quote(paths.data_dir.as_str()).as_str());
    unit.push_str(" ");
    unit.push_str(shell_quote(paths.log_dir.as_str()).as_str());
    unit.push_str(" ");
    unit.push_str(shell_quote(paths.runtime_dir.as_str()).as_str());
    unit.push_str(
        "\nProtectKernelTunables=true\nProtectKernelModules=true\nProtectControlGroups=true\nRestrictSUIDSGID=true\nRestrictNamespaces=true\nLockPersonality=true\nMemoryDenyWriteExecute=false\nSystemCallFilter=@system-service\nSystemCallFilter=~@privileged @resources\n",
    );
    unit
}

fn environment(paths: &AppPaths) -> (r: String)
    ensures
        r@ == unit_environment(*paths),
{
    let mut unit = "Environment=RDT_CONFIG_DIR=".to_owned();
    unit.push_str(shell_quote(paths.config_dir.as_str()).as_str());
    unit.push_str(" RDT_DATA_DIR=");
    unit.push_str(shell_quote(paths.data_dir.as_str()).as_str());
    unit.push_str(" RDT_LOG_DIR=");
    unit.push_str(shell_quote(paths.log_dir.as_str()).as_str());
    unit.push_str(" RDT_RUNTIME_DIR=");
    unit.push_str(shell_quote(paths.runtime_dir.as_str()).as_str());
    unit.push_str("\n");
    unit
}

/// Renders the systemd unit file for a spec; `user` is the name of the current
/// user, if it is known.
pub fn render_systemd_unit(spec: &ServiceSpec, paths: &AppPaths, user: Option<&str>) -> (r: String)
    ensures
        r@ == unit_text(
            *spec,
            *paths,
            match user {
                Some(name) => Some(name@),
                None => None,
            },
        ),
{
    let name = match &spec.run_as_user {
        Some(name) => name.as_str().to_owned(),
        None => if spec.system_wide {
            "rdt".to_owned()
        } else {
            match user {
                Some(name) => name.to_owned(),
                None => "root".to_owned(),
            }
        },
    };
    let mut unit = concat3(
        "[Unit]\nDescription=",
        spec.description.as_str(),
        "\nDocumentation=https://github.com/mylab12345/Remote-Desktop-Tool\nAfter=network-online.target\nWants=network-online.target\n\n[Service]\nType=notify\n",
    );
    let executable = shell_quote(spec.executable.as_str());
    let command = crate::text::concat5(
        "ExecStart=",
        executable.as_str(),
        " ",
        quote_all(&spec.arguments).as_str(),
        "\n",
    );
    unit.push_str(command.as_str());
    unit.push_str(environment(paths).as_str());
    if spec.restart_on_failure {
        unit.push_str("Restart=on-failure\nRestartSec=5s\n");
    } else {
        assert(unit@ + Seq::<char>::empty() =~= unit@);
    }
    unit.push_str("User=");
    unit.push_str(name.as_str());
    unit.push_str("\n");
    if spec.system_wide {
        unit.push_str(hardening(paths).as_str());
    } else {
        assert(unit@ + Seq::<char>::empty() =~= unit@);
    }
    unit.push_str("\n[Install]\nWantedBy=multi-user.target\n");
    unit
}

/// The file of a unit.
pub open spec fn unit_file(spec: ServiceSpec, paths: AppPaths) -> Seq<char> {
    let name = spec.name@ + ".service"@;
    if spec.system_wide {
        path_joined("/etc/systemd/system"@, name)
    } else {
        path_joined(path_joined(path_joined(paths.config_dir@, "systemd"@), "user"@), name)
    }
}

/// Unit file location for a spec.
pub fn unit_path(spec: &ServiceSpec, paths: &AppPaths) -> (r: String)
    ensures
        r@ == unit_file(*spec, *paths),
{
    let name = concat2(spec.name.as_str(), ".service");
    if spec.system_wide {
        join_path("/etc/systemd/system", name.as_str())
    } else {
        let base = join_path(paths.config_dir.as_str(), "systemd");
        join_path(join_path(base.as_str(), "user").as_str(), name.as_str())
    }
}

/// What is known of the machine that a service is installed on.
#[derive(Debug, Clone, Copy, PartialEq, Eq, Structural)]
pub struct ServiceHost {
    /// Operating system family.
    pub os: OsFamily,
    /// The executable exists.
    pub executable_exists: bool,
    /// systemd is the active init system.
    pub systemd: bool,
    /// The process has administrator privileges.
    pub elevated: bool,
}

/// What installing a systemd service takes, in this order.
#[derive(Debug)]
pub struct InstallPlan {
    /// The service account has to exist.
    pub service_account: bool,
    /// The unit file.
    pub target: String,
    /// The content of the unit file.
    pub unit: String,
    /// The calls of `systemctl`, each with its arguments.
    pub commands: Vec<Vec<String>>,
}

/// What stands in the way of installing a service.
pub open spec fn install_problem(spec: ServiceSpec, host: ServiceHost) -> Option<RdtErrorView> {
    match spec_problem(spec, host.os) {
        Some(problem) => Some(problem),
        None => if !host.executable_exists {
            Some(
                fail(
                    ErrorCode::InvalidInput,
                    "executable "@ + spec.executable@ + " does not exist"@,
                ),
            )
        } else if host.os is Windows {
            None
        } else if !host.systemd {
            Some(
                fail(
                    ErrorCode::Service,
                    "systemd is not the active init system; run the agent under your own supervisor instead"@,
                ),
            )
        } else if spec.system_wide && !host.elevated {
            Some(
                fail(
                    ErrorCode::Permission,
                    "installing a system wide service requires root; re-run with sudo or use --user"@,
                ),
            )
        } else {
            None
        },
    }
}

/// The texts of a list of lists.
pub open spec fn text_lists(lists: Seq<Vec<String>>) -> Seq<Seq<Seq<char>>> {
    Seq::new(lists.len(), |i: int| texts(lists[i]@))
}

/// A call of `systemctl` for the machine or for the user.
pub open spec fn scoped(system_wide: bool, args: Seq<Seq<char>>) -> Seq<Seq<char>> {
    if system_wide {
        args
    } else {
        seq!["--user"@] + args
    }
}

/// The calls of `systemctl` that install a service.
pub open spec fn install_commands(spec: ServiceSpec) -> Seq<Seq<Seq<char>>> {
    let unit = spec.name@ + ".service"@;
    let always = seq![
        scoped(spec.system_wide, seq!["daemon-reload"@]),
        scoped(spec.system_wide, seq!["enable"@, unit]),
    ];
    if spec.start_now {
        always.push(scoped(spec.system_wide, seq!["restart"@, unit]))
    } else {
        always
    }
}

/// The calls of `systemctl` that remove a service.
pub open spec fn removal_commands(spec: ServiceSpec) -> Seq<Seq<Seq<char>>> {
    seq![
        scoped(spec.system_wide, seq!["disable"@, "--now"@, spec.name@ + ".service"@]),
        scoped(spec.system_wide, seq!["daemon-reload"@]),
    ]
}

fn call(system_wide: bool, args: &[&str]) -> (r: Vec<String>)
    ensures
        texts(r@) == scoped(system_wide, literals(args@)),
{
    let ghost given = literals(args@);
    let ghost lead: Seq<Seq<char>> = if system_wide {
        Seq::empty()
    } else {
        seq!["--user"@]
    };
    let mut r: Vec<String> = Vec::new();
    if !system_wide {
        r.push("--user".to_owned());
    }
    assert(texts(r@) =~= lead);
    let mut i: usize = 0;
    while i < args.len()
        invariant
            i <= args@.len(),
            given == literals(args@),
            texts(r@) == lead + given.take(i as int),
        decreases args.len() - i,
    {
        let ghost before = texts(r@);
        r.push(args[i].to_owned());
        assert(texts(r@) =~= before.push(args@[i as int]@));
        assert(given.take(i + 1) =~= given.take(i as int).push(args@[i as int]@));
        i = i + 1;
    }
    assert(given.take(given.len() as int) =~= given);
    assert(texts(r@) =~= scoped(system_wide, given));
    r
}

/// Decides whether a service can be installed, and what installing it takes.
/// On Windows the service control manager does the rest, so there is no plan.
///
/// # Errors
///
/// Returns what is missing.
pub fn install_service(request: &ServiceInstallRequest, host: ServiceHost, user: Option<&str>) -> (r:
    RdtResult<Option<InstallPlan>>)
    ensures
        r is Err <==> install_problem(request.spec, host) is Some,
        r is Err ==> r->Err_0@ == install_problem(request.spec, host)->0,
        r is Ok ==> (r->Ok_0 is None <==> host.os is Windows),
        r is Ok && r->Ok_0 is Some ==> {
            let plan = r->Ok_0->0;
            &&& plan.service_account == (request.spec.system_wide
                && request.spec.run_as_user is None)
            &&& plan.target@ == unit_file(request.spec, request.paths)
            &&& plan.unit@ == unit_text(
                request.spec,
                request.paths,
                match user {
                    Some(name) => Some(name@),
                    None => None,
                },
            )
            &&& text_lists(plan.commands@) == install_commands(request.spec)
        },
{
    let spec = &request.spec;
    if let Err(error) = spec.validate(host.os) {
        return Err(error);
    }
    if !host.executable_exists {
        return Err(
            RdtError::new(
                ErrorCode::InvalidInput,
                concat3("executable ", spec.executable.as_str(), " does not exist").as_str(),
            ),
        );
    }
    if matches!(host.os, OsFamily::Windows) {
        return Ok(None);
    }
    if !host.systemd {
        return Err(
            RdtError::new(
                ErrorCode::Service,
                "systemd is not the active init system; run the agent under your own supervisor instead",
            ),
        );
    }
    if spec.system_wide && !host.elevated {
        return Err(
            RdtError::new(
                ErrorCode::Permission,
                "installing a system wide service requires root; re-run with sudo or use --user",
            ),
        );
    }
    let name = concat2(spec.name.as_str(), ".service");
    let mut commands: Vec<Vec<String>> = Vec::new();
    let reload = ["daemon-reload"];
    let enable = ["enable", name.as_str()];
    let restart = ["restart", name.as_str()];
    proof {
        assert(literals(reload@) =~= seq!["daemon-reload"@]);
        assert(literals(enable@) =~= seq!["enable"@, name@]);
        assert(literals(restart@) =~= seq!["restart"@, name@]);
    }
    commands.push(call(spec.system_wide, reload.as_slice()));
    commands.push(call(spec.system_wide, enable.as_slice()));
    if spec.start_now {
        commands.push(call(spec.system_wide, restart.as_slice()));
    }
    assert(text_lists(commands@) =~= install_commands(*spec));
    Ok(
        Some(
            InstallPlan {
                service_account: spec.system_wide && spec.run_as_user.is_none(),
                target: unit_path(spec, &request.paths),
                unit: render_systemd_unit(spec, &request.paths, user),
                commands,
            },
        ),
    )
}

/// Whether an account is listed in the content of a password file.
pub open spec fn account_listed(content: Option<Seq<char>>, name: Seq<char>) -> bool {
    content is Some && exists|i: int|
        0 <= i < lines(content->0).len() && (name + ":"@).is_prefix_of(
            #[trigger] lines(content->0)[i],
        )
}

/// Whether an account is listed in the content of a password file, if it could be
/// read.
pub fn has_account(content: Option<&str>, name: &str) -> (r: bool)
    ensures
        r == account_listed(
            match content {
                Some(text) => Some(text@),
                None => None,
            },
            name@,
        ),
{
    let text = match content {
        Some(text) => text,
        None => {
            return false;
        },
    };
    let prefix = concat2(name, ":");
    let all = split_lines(text);
    let ghost parts = lines(text@);
    let mut i: usize = 0;
    while i < all.len()
        invariant
            i <= all@.len(),
            parts == texts(all@),
            parts == lines(text@),
            content == Some(text),
            prefix@ == name@ + ":"@,
            forall|k: int| 0 <= k < i ==> !prefix@.is_prefix_of(#[trigger] parts[k]),
        decreases all.len() - i,
    {
        assert(parts[i as int] == all@[i as int]@);
        if starts_with(all[i].as_str(), prefix.as_str()) {
            assert((name@ + ":"@).is_prefix_of(lines(text@)[i as int]));
            proof {
                let k = i as int;
                assert(0 <= k < lines(text@).len());
                assert((name@ + ":"@).is_prefix_of(lines(Some(text@)->0)[k]));
            }
            return true;
        }
        i = i + 1;
    }
    proof {
        if account_listed(Some(text@), name@) {
            let k = choose|k: int|
                0 <= k < lines(text@).len() && (name@ + ":"@).is_prefix_of(
                    #[trigger] lines(text@)[k],
                );
            assert(!prefix@.is_prefix_of(parts[k]));
        }
    }
    false
}

/// The arguments with which `useradd` creates a service account.
pub open spec fn account_arguments(name: Seq<char>) -> Seq<Seq<char>> {
    seq![
        "--system"@,
        "--home-dir"@,
        "/var/lib/rdt"@,
        "--shell"@,
        "/usr/sbin/nologin"@,
        "--comment"@,
        "RDT remote access agent"@,
        name,
    ]
}

/// The arguments with which `useradd` creates a service account, unless the
/// account is already listed.
pub fn ensure_service_user(name: &str, passwd: Option<&str>) -> (r: Option<Vec<String>>)
    ensures
        r is None <==> account_listed(
            match passwd {
                Some(text) => Some(text@),
                None => None,
            },
            name@,
        ),
        r is Some ==> texts(r->0@) == account_arguments(name@),
{
    if has_account(passwd, name) {
        return None;
    }
    let args = [
        "--system",
        "--home-dir",
        "/var/lib/rdt",
        "--shell",
        "/usr/sbin/nologin",
        "--comment",
        "RDT remote access agent",
        name,
    ];
    assert(literals(args@) =~= account_arguments(name@));
    Some(call(true, args.as_slice()))
}

/// What follows from a run of `useradd`; a failure comes with its exit status.
///
/// # Errors
///
/// Returns [`ErrorCode::Service`] unless the account was created.
pub fn account_created(name: &str, run: Result<Result<(), String>, String>) -> (r: RdtResult<()>)
    ensures
        r is Ok <==> run is Ok && run->Ok_0 is Ok,
        r is Err ==> r->Err_0@ == match run {
            Err(reason) => fail(
                ErrorCode::Service,
                "cannot create the '"@ + name@ + "' service account: "@ + reason@,
            ),
            Ok(outcome) => fail(
                ErrorCode::Service,
                "useradd exited with "@ + outcome->Err_0@ + "; create the '"@ + name@
                    + "' account manually"@,
            ),
        },
{
    match run {
        Ok(Ok(())) => Ok(()),
        Ok(Err(status)) => Err(
            RdtError::new(
                ErrorCode::Service,
                crate::text::concat5(
                    "useradd exited with ",
                    status.as_str(),
                    "; create the '",
                    name,
                    "' account manually",
                ).as_str(),
            ),
        ),
        Err(reason) => Err(
            RdtError::new(
                ErrorCode::Service,
                concat4(
                    "cannot create the '",
                    name,
                    "' service account: ",
                    reason.as_str(),
                ).as_str(),
            ),
        ),
    }
}

/// What follows from a run of `systemctl` with some arguments (the scope is not
/// among them).
///
/// # Errors
///
/// Returns [`ErrorCode::Service`] unless the run succeeded.
pub fn systemctl(args: &Vec<String>, run: Result<ToolExit, String>) -> (r: RdtResult<()>)
    ensures
        r is Ok <==> run is Ok && run->Ok_0.success,
        r is Err ==> r->Err_0@ == match run {
            Err(reason) => fail(ErrorCode::Service, "cannot run systemctl: "@ + reason@),
            Ok(exit) => fail(
                ErrorCode::Service,
                "systemctl "@ + joined(texts(args@), " "@) + " failed: "@ + trimmed(
                    lossy(exit.stderr@),
                ),
            ),
        },
{
    match run {
        Err(reason) => Err(
            RdtError::new(
                ErrorCode::Service,
                concat2("cannot run systemctl: ", reason.as_str()).as_str(),
            ),
        ),
        Ok(exit) => {
            if exit.success {
                return Ok(());
            }
            let complaint = trim(lossy_text(exit.stderr.as_slice()).as_str());
            let line = join(args, " ");
            Err(
                RdtError::new(
                    ErrorCode::Service,
                    concat4(
                        "systemctl ",
                        line.as_str(),
                        " failed: ",
                        complaint.as_str(),
                    ).as_str(),
                ),
            )
        },
    }
}

/// What removing a systemd service takes: the file to remove, and the calls of
/// `systemctl` before and after, whose failures do not matter.
#[derive(Debug)]
pub struct RemovalPlan {
    /// The unit file.
    pub target: String,
    /// The call before the file is removed.
    pub before: Vec<String>,
    /// The call after the file is removed.
    pub after: Vec<String>,
}

/// Decides whether a service can be removed, and what removing it takes. On
/// Windows the service control manager does the rest, so there is no plan.
///
/// # Errors
///
/// Returns [`ErrorCode::Permission`] when a system wide service is to be removed
/// without administrator privileges.
pub fn uninstall_service(spec: &ServiceSpec, paths: &AppPaths, host: ServiceHost) -> (r: RdtResult<
    Option<RemovalPlan>,
>)
    ensures
        r is Err <==> !(host.os is Windows) && spec.system_wide && !host.elevated,
        r is Err ==> r->Err_0@ == fail(
            ErrorCode::Permission,
            "removing a system wide service requires root"@,
        ),
        r is Ok ==> (r->Ok_0 is None <==> host.os is Windows),
        r is Ok && r->Ok_0 is Some ==> {
            let plan = r->Ok_0->0;
            &&& plan.target@ == unit_file(*spec, *paths)
            &&& seq![texts(plan.before@), texts(plan.after@)] == removal_commands(*spec)
        },
{
    if matches!(host.os, OsFamily::Windows) {
        return Ok(None);
    }
    if spec.system_wide && !host.elevated {
        return Err(
            RdtError::new(
                ErrorCode::Permission,
                "removing a system wide service requires root",
            ),
        );
    }
    let name = concat2(spec.name.as_str(), ".service");
    let disable = ["disable", "--now", name.as_str()];
    let reload = ["daemon-reload"];
    proof {
        assert(literals(disable@) =~= seq!["disable"@, "--now"@, name@]);
        assert(literals(reload@) =~= seq!["daemon-reload"@]);
    }
    let before = call(spec.system_wide, disable.as_slice());
    let after = call(spec.system_wide, reload.as_slice());
    assert(seq![texts(before@), texts(after@)] =~= removal_commands(*spec));
    Ok(Some(RemovalPlan { target: unit_path(spec, paths), before, after }))
}

/// The call of `systemctl` that asks for the state of a service.
pub fn status_call(spec: &ServiceSpec) -> (r: Vec<String>)
    ensures
        texts(r@) == scoped(spec.system_wide, seq!["is-active"@, spec.name@ + ".service"@]),
{
    let name = concat2(spec.name.as_str(), ".service");
    let args = ["is-active", name.as_str()];
    assert(literals(args@) =~= seq!["is-active"@, name@]);
    call(spec.system_wide, args.as_slice())
}

/// The state that `systemctl is-active` prints.
pub open spec fn state_named(name: Seq<char>) -> ServiceState {
    if name == "active"@ {
        ServiceState::Running
    } else if name == "inactive"@ || name == "failed"@ {
        ServiceState::Stopped
    } else if name == "activating"@ || name == "deactivating"@ {
        ServiceState::Transitioning
    } else {
        ServiceState::Unknown
    }
}

/// The state of a service, from whether its unit file exists and what
/// `systemctl is-active` printed.
///
/// # Errors
///
/// Returns [`ErrorCode::Service`] when `systemctl` could not be run.
pub fn service_status(unit_exists: bool, printed: Result<Vec<u8>, String>) -> (r: RdtResult<
    ServiceState,
>)
    ensures
        !unit_exists ==> r == Ok::<ServiceState, RdtError>(ServiceState::NotInstalled),
        unit_exists ==> match printed {
            Ok(bytes) => r == Ok::<ServiceState, RdtError>(state_named(trimmed(lossy(bytes@)))),
            Err(reason) => r is Err && r->Err_0@ == fail(
                ErrorCode::Service,
                "cannot run systemctl: "@ + reason@,
            ),
        },
{
    if !unit_exists {
        return Ok(ServiceState::NotInstalled);
    }
    match printed {
        Ok(bytes) => {
            let name = trim(lossy_text(bytes.as_slice()).as_str());
            Ok(
                if same(name.as_str(), "active") {
                    ServiceState::Running
                } else if same(name.as_str(), "inactive") || same(name.as_str(), "failed") {
                    ServiceState::Stopped
                } else if same(name.as_str(), "activating") || same(
                    name.as_str(),
                    "deactivating",
                ) {
                    ServiceState::Transitioning
                } else {
                    ServiceState::Unknown
                },
            )
        },
        Err(reason) => Err(
            RdtError::new(
                ErrorCode::Service,
                concat2("cannot run systemctl: ", reason.as_str()).as_str(),
            ),
        ),
    }
}

/// A path is absolute on Unix when it starts with a slash, and on Windows when it starts
/// with a drive and a separator.
pub proof fn absolute_paths(path: Seq<char>, os: OsFamily)
    ensures
        os != OsFamily::Windows ==> (absolute(path, os) <==> path.len() > 0 && path[0] == '/'),
        os == OsFamily::Windows && path.len() >= 3 && (0x41 <= path[0] as u32 <= 0x5A || 0x61
            <= path[0] as u32 <= 0x7A) && path[1] == ':' && (path[2] == '\\' || path[2] == '/')
            ==> absolute(path, os),
        os == OsFamily::Windows && path.len() > 0 && path[0] != '\\' && path[0] != '/' && !(
        path.len() >= 3 && (0x41 <= path[0] as u32 <= 0x5A || 0x61 <= path[0] as u32 <= 0x7A)
            && path[1] == ':' && (path[2] == '\\' || path[2] == '/')) ==> !absolute(path, os),
{
}

/// A service is refused for a blank name or one with white space, and for an executable
/// that is no absolute path.
pub proof fn services_are_checked(spec: ServiceSpec, os: OsFamily)
    ensures
        spec_problem(spec, os) is None <==> trimmed(spec.name@).len() > 0 && !has_space(spec.name@)
            && absolute(spec.executable@, os),
        spec_problem(spec, os) is Some ==> spec_problem(spec, os)->0.code
            == ErrorCode::InvalidInput,
{
}

/// A service is installed only where its executable is there, on Unix only under
/// systemd, and for the whole machine only by an administrator.
pub proof fn installations_are_checked(spec: ServiceSpec, host: ServiceHost)
    requires
        spec_problem(spec, host.os) is None,
    ensures
        install_problem(spec, host) is None <==> host.executable_exists && (host.os
            == OsFamily::Windows || host.systemd && (!spec.system_wide || host.elevated)),
        host.executable_exists && host.os != OsFamily::Windows && host.systemd && spec.system_wide
            && !host.elevated ==> install_problem(spec, host)->0.code == ErrorCode::Permission,
        host.executable_exists && host.os != OsFamily::Windows && !host.systemd ==> install_problem(
            spec,
            host,
        )->0.code == ErrorCode::Service,
{
}

/// A value is written as it is when it consists of letters, digits and a few marks; any
/// other stands between quotes, and without quotes and backslashes in it unchanged.
pub proof fn values_are_quoted(value: Seq<char>)
    ensures
        value.len() == 0 ==> quoted_value(value) == seq!['"', '"'],
        value.len() > 0 && plain(value) ==> quoted_value(value) == value,
        value.len() > 0 && !plain(value) && !value.contains('"') && !value.contains('\\')
            ==> quoted_value(value) == seq!['"'] + value + seq!['"'],
        value.contains(' ') || value.contains('"') || value.contains('\\') || value.contains('$')
            || value.contains(';') || value.contains('\'') || value.contains('\n') ==> !plain(value),
{
    reveal_strlit("\"\"");
    reveal_strlit("\"");
    reveal_strlit("\\");
    assert("\"\""@ =~= seq!['"', '"']);
    assert("\""@ =~= seq!['"']);
    assert("\\"@ =~= seq!['\\']);
    if !value.contains('"') && !value.contains('\\') {
        absent_mark(value, '\\');
        crate::text::absent_text_is_not_replaced(value, "\\"@, "\\\\"@);
        absent_mark(value, '"');
        crate::text::absent_text_is_not_replaced(value, "\""@, "\\\""@);
    }
    assert(!plain_char(' ') && !plain_char('"') && !plain_char('\\') && !plain_char('$')
        && !plain_char(';') && !plain_char('\'') && !plain_char('\n'));
}

proof fn absent_mark(value: Seq<char>, c: char)
    requires
        !value.contains(c),
    ensures
        !crate::text::occurs(value, seq![c]),
{
    assert forall|i: int| !#[trigger] crate::text::occurs_at(value, seq![c], i) by {
        if crate::text::occurs_at(value, seq![c], i) {
            assert(value.subrange(i, i + 1)[0] == c);
            assert(value[i] == c);
        }
    }
}

/// A quote and a backslash in a value are written with a backslash in front.
pub proof fn marks_are_escaped(lead: Seq<char>, rest: Seq<char>)
    requires
        !lead.contains('"'),
        !lead.contains('\\'),
        !rest.contains('"'),
        !rest.contains('\\'),
    ensures
        escaped(lead + seq!['"'] + rest) == lead + seq!['\\', '"'] + rest,
        escaped(lead + seq!['\\'] + rest) == lead + seq!['\\', '\\'] + rest,
{
    reveal_strlit("\"");
    reveal_strlit("\\");
    reveal_strlit("\\\"");
    reveal_strlit("\\\\");
    assert("\""@ =~= seq!['"']);
    assert("\\"@ =~= seq!['\\']);
    assert("\\\""@ =~= seq!['\\', '"']);
    assert("\\\\"@ =~= seq!['\\', '\\']);
    let q = lead + seq!['"'] + rest;
    let b = lead + seq!['\\'] + rest;
    let bb = lead + seq!['\\', '\\'] + rest;
    assert(!q.contains('\\'));
    absent_mark(q, '\\');
    crate::text::absent_text_is_not_replaced(q, "\\"@, "\\\\"@);
    one_mark(lead, '"', rest, "\\\""@);
    one_mark(lead, '\\', rest, "\\\\"@);
    assert(!bb.contains('"'));
    absent_mark(bb, '"');
    crate::text::absent_text_is_not_replaced(bb, "\""@, "\\\""@);
}

proof fn one_mark(lead: Seq<char>, c: char, rest: Seq<char>, with: Seq<char>)
    requires
        !lead.contains(c),
        !rest.contains(c),
    ensures
        replaced(lead + seq![c] + rest, seq![c], with) == lead + with + rest,
{
    let s = lead + seq![c] + rest;
    assert forall|i: int| 0 <= i < lead.len() implies !#[trigger] crate::text::occurs_at(
        s,
        seq![c],
        i,
    ) by {
        if crate::text::occurs_at(s, seq![c], i) {
            assert(s.subrange(i, i + 1)[0] == c);
            assert(lead[i] == c);
        }
    }
    crate::text::first_occurrence_is_replaced(lead, seq![c], rest, with);
    absent_mark(rest, c);
    crate::text::absent_text_is_not_replaced(rest, seq![c], with);
}

/// A service runs as the user that was asked for, otherwise as the account of the
/// service when it is installed for the machine and as the current user when not.
pub proof fn services_run_as_their_user(spec: ServiceSpec, user: Option<Seq<char>>)
    ensures
        spec.run_as_user is Some ==> service_user(spec, user) == spec.run_as_user->0@,
        spec.run_as_user is None && spec.system_wide ==> service_user(spec, user) == "rdt"@,
        spec.run_as_user is None && !spec.system_wide && user is Some ==> service_user(spec, user)
            == user->0,
        spec.run_as_user is None && !spec.system_wide && user is None ==> service_user(spec, user)
            == "root"@,
{
}

/// A unit names the executable with its arguments, the directories, the restart rule if
/// there is one, the user, and for the whole machine what it may not touch.
pub proof fn units_describe_the_service(
    spec: ServiceSpec,
    paths: AppPaths,
    user: Option<Seq<char>>,
)
    ensures
        ({
            let command = "ExecStart="@ + quoted_value(spec.executable@) + " "@ + joined(
                quoted_all(texts(spec.arguments@)),
                " "@,
            ) + "\n"@;
            let environment = "Environment=RDT_CONFIG_DIR="@ + quoted_value(paths.config_dir@)
                + " RDT_DATA_DIR="@ + quoted_value(paths.data_dir@) + " RDT_LOG_DIR="@
                + quoted_value(paths.log_dir@) + " RDT_RUNTIME_DIR="@ + quoted_value(
                paths.runtime_dir@,
            ) + "\n"@;
            let restart = if spec.restart_on_failure {
                "Restart=on-failure\nRestartSec=5s\n"@
            } else {
                Seq::<char>::empty()
            };
            let hardening = if spec.system_wide {
                unit_hardening(paths)
            } else {
                Seq::<char>::empty()
            };
            unit_text(spec, paths, user) == unit_preamble(spec.description@) + command + environment
                + restart + "User="@ + service_user(spec, user) + "\n"@ + hardening
                + "\n[Install]\nWantedBy=multi-user.target\n"@
        }),
{
}

/// A unit lies with the units of the machine, or with those of the user.
pub proof fn units_lie_with_their_scope(spec: ServiceSpec, paths: AppPaths)
    requires
        spec.name@.len() > 0,
        spec.name@[0] != '/',
    ensures
        spec.system_wide ==> unit_file(spec, paths) == "/etc/systemd/system/"@ + spec.name@
            + ".service"@,
        !spec.system_wide && paths.config_dir@.len() > 0 && paths.config_dir@.last() != '/'
            ==> unit_file(spec, paths) == paths.config_dir@ + "/systemd/user/"@ + spec.name@
            + ".service"@,
{
    reveal_strlit("/etc/systemd/system");
    reveal_strlit("/etc/systemd/system/");
    reveal_strlit("/systemd/user/");
    reveal_strlit("systemd");
    reveal_strlit("user");
    reveal_strlit("/");
    reveal_strlit(".service");
    let name = spec.name@ + ".service"@;
    assert(name[0] == spec.name@[0]);
    if spec.system_wide {
        assert(unit_file(spec, paths) =~= "/etc/systemd/system/"@ + spec.name@ + ".service"@);
    } else if paths.config_dir@.len() > 0 && paths.config_dir@.last() != '/' {
        assert(unit_file(spec, paths) =~= paths.config_dir@ + "/systemd/user/"@ + spec.name@
            + ".service"@);
    }
}

/// Installing reloads the units, enables the service and, when it is to start now,
/// restarts it; removing disables and stops it and reloads the units. A service of the
/// user is addressed as such.
pub proof fn service_commands(spec: ServiceSpec)
    ensures
        ({
            let unit = spec.name@ + ".service"@;
            &&& spec.system_wide && spec.start_now ==> install_commands(spec) == seq![
                seq!["daemon-reload"@],
                seq!["enable"@, unit],
                seq!["restart"@, unit],
            ]
            &&& spec.system_wide && !spec.start_now ==> install_commands(spec) == seq![
                seq!["daemon-reload"@],
                seq!["enable"@, unit],
            ]
            &&& !spec.system_wide && spec.start_now ==> install_commands(spec) == seq![
                seq!["--user"@, "daemon-reload"@],
                seq!["--user"@, "enable"@, unit],
                seq!["--user"@, "restart"@, unit],
            ]
            &&& !spec.system_wide && !spec.start_now ==> install_commands(spec) == seq![
                seq!["--user"@, "daemon-reload"@],
                seq!["--user"@, "enable"@, unit],
            ]
            &&& spec.system_wide ==> removal_commands(spec) == seq![
                seq!["disable"@, "--now"@, unit],
                seq!["daemon-reload"@],
            ]
            &&& !spec.system_wide ==> removal_commands(spec) == seq![
                seq!["--user"@, "disable"@, "--now"@, unit],
                seq!["--user"@, "daemon-reload"@],
            ]
        }),
{
    let unit = spec.name@ + ".service"@;
    assert(seq!["--user"@] + seq!["daemon-reload"@] =~= seq!["--user"@, "daemon-reload"@]);
    assert(seq!["--user"@] + seq!["enable"@, unit] =~= seq!["--user"@, "enable"@, unit]);
    assert(seq!["--user"@] + seq!["restart"@, unit] =~= seq!["--user"@, "restart"@, unit]);
    assert(seq!["--user"@] + seq!["disable"@, "--now"@, unit] =~= seq![
        "--user"@,
        "disable"@,
        "--now"@,
        unit,
    ]);
    let commands = install_commands(spec);
    if spec.system_wide && spec.start_now {
        assert(commands =~= seq![
            seq!["daemon-reload"@],
            seq!["enable"@, unit],
            seq!["restart"@, unit],
        ]);
    } else if spec.start_now {
        assert(commands =~= seq![
            seq!["--user"@, "daemon-reload"@],
            seq!["--user"@, "enable"@, unit],
            seq!["--user"@, "restart"@, unit],
        ]);
    }
}

/// The words of the service manager for the states of a service.
pub proof fn service_states_have_names()
    ensures
        state_named("active"@) == ServiceState::Running,
        state_named("inactive"@) == ServiceState::Stopped,
        state_named("failed"@) == ServiceState::Stopped,
        state_named("activating"@) == ServiceState::Transitioning,
        state_named("deactivating"@) == ServiceState::Transitioning,
        state_named("reloading"@) == ServiceState::Unknown,
{
    reveal_strlit("active");
    reveal_strlit("inactive");
    reveal_strlit("failed");
    reveal_strlit("activating");
    reveal_strlit("deactivating");
    reveal_strlit("reloading");
    assert("active"@.len() == 6 && "inactive"@.len() == 8 && "failed"@.len() == 6
        && "activating"@.len() == 10 && "deactivating"@.len() == 12 && "reloading"@.len() == 9);
    assert("failed"@[0] == 'f' && "active"@[0] == 'a');
}

/// An account is there when a line of the list starts with its name and a colon.
pub proof fn accounts_are_found_by_name(content: Seq<char>, name: Seq<char>, i: int)
    requires
        0 <= i < lines(content).len(),
    ensures
        (name + seq![':']).is_prefix_of(lines(content)[i]) ==> account_listed(Some(content), name),
        (forall|k: int|
            0 <= k < lines(content).len() ==> !(name + seq![':']).is_prefix_of(
                #[trigger] lines(content)[k],
            )) ==> !account_listed(Some(content), name),
        !account_listed(None, name),
{
    reveal_strlit(":");
    assert(":"@ =~= seq![':']);
    let listed: Option<Seq<char>> = Some(content);
    if (name + seq![':']).is_prefix_of(lines(content)[i]) {
        assert((name + ":"@).is_prefix_of(lines(listed->0)[i]));
    }
}

/// A service account is a system account without a shell.
pub proof fn accounts_have_no_shell(name: Seq<char>)
    ensures
        ({
            let a = account_arguments(name);
            &&& a.len() == 8
            &&& a[0] == "--system"@
            &&& a[1] == "--home-dir"@ && a[2] == "/var/lib/rdt"@
            &&& a[3] == "--shell"@ && a[4] == "/usr/sbin/nologin"@
            &&& a[5] == "--comment"@ && a[6] == "RDT remote access agent"@
            &&& a[7] == name
        }),
{
}

} // verus!
