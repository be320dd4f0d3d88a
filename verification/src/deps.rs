//! Runtime dependency detection.
//!
//! `rdt doctor` and the dashboard both render the result of
//! [`probe_dependencies`]. What the system offers is observed by the caller;
//! what follows from it is decided here.
use crate::info::OsFamily;
use crate::keystore::ToolExit;
use crate::text::{concat2, concat3, concat4, lossy, lossy_text, trim, trimmed};
use vstd::prelude::*;

verus! {

/// Identity of a probed dependency.
#[derive(Debug, Clone, Copy, PartialEq, Eq, Hash, Structural)]
pub enum DependencyId {
    /// A running SSH agent (`SSH_AUTH_SOCK` on Unix, pageant on Windows).
    SshAgent,
    /// The platform secret store (libsecret CLI on Linux, DPAPI on Windows).
    SecretStore,
    /// systemd, required to install the unattended agent as a service.
    Systemd,
    /// The Windows service control manager.
    WindowsScm,
    /// A clipboard bridge used by the RDP clipboard channel.
    Clipboard,
    /// An OpenSSH known hosts file that can be written to.
    KnownHosts,
    /// The encrypted vault used when no OS keyring is available.
    Vault,
}

impl DependencyId {
    /// The identifier of a dependency.
    pub open spec fn name(self) -> Seq<char> {
        match self {
            DependencyId::SshAgent => "ssh-agent"@,
            DependencyId::SecretStore => "secret-store"@,
            DependencyId::Systemd => "systemd"@,
            DependencyId::WindowsScm => "windows-scm"@,
            DependencyId::Clipboard => "clipboard"@,
            DependencyId::KnownHosts => "known-hosts"@,
            DependencyId::Vault => "encrypted-vault"@,
        }
    }

    /// Stable identifier used in configuration and reports.
    pub fn as_str(self) -> (r: &'static str)
        ensures
            r@ == self.name(),
    {
        match self {
            DependencyId::SshAgent => "ssh-agent",
            DependencyId::SecretStore => "secret-store",
            DependencyId::Systemd => "systemd",
            DependencyId::WindowsScm => "windows-scm",
            DependencyId::Clipboard => "clipboard",
            DependencyId::KnownHosts => "known-hosts",
            DependencyId::Vault => "encrypted-vault",
        }
    }

    /// Human readable description shown in `rdt doctor`.
    pub fn describe(self) -> (r: &'static str)
        ensures
            r@ == match self {
                DependencyId::SshAgent => {
                    "SSH agent for key based authentication without passphrases on disk"@
                },
                DependencyId::SecretStore => "Operating system secret store for saved passwords"@,
                DependencyId::Systemd => {
                    "systemd, used to run the unattended agent in the background"@
                },
                DependencyId::WindowsScm => {
                    "Windows service control manager for the unattended agent"@
                },
                DependencyId::Clipboard => "Clipboard bridge used by the RDP clipboard channel"@,
                DependencyId::KnownHosts => {
                    "Writable known_hosts database for SSH host key verification"@
                },
                DependencyId::Vault => "Encrypted vault file used when no OS keyring is present"@,
            },
    {
        match self {
            DependencyId::SshAgent => {
                "SSH agent for key based authentication without passphrases on disk"
            },
            DependencyId::SecretStore => "Operating system secret store for saved passwords",
            DependencyId::Systemd => "systemd, used to run the unattended agent in the background",
            DependencyId::WindowsScm => "Windows service control manager for the unattended agent",
            DependencyId::Clipboard => "Clipboard bridge used by the RDP clipboard channel",
            DependencyId::KnownHosts => {
                "Writable known_hosts database for SSH host key verification"
            },
            DependencyId::Vault => "Encrypted vault file used when no OS keyring is present",
        }
    }
}

/// Outcome of a probe.
#[derive(Debug, Clone, Copy, PartialEq, Eq, Structural)]
pub enum DependencyStatus {
    /// Present and usable.
    Available,
    /// Not present.
    Missing,
    /// Present but unusable (for example a socket without permissions).
    Degraded,
    /// Not applicable on this platform.
    NotApplicable,
}

/// Result of probing a single dependency.
#[derive(Debug, Clone, PartialEq, Eq)]
pub struct DependencyReport {
    /// What was probed.
    pub id: DependencyId,
    /// Outcome.
    pub status: DependencyStatus,
    /// Human readable detail (path, program name, error message).
    pub detail: String,
    /// Whether the application can work without this dependency.
    pub optional: bool,
}

/// What a report says.
pub ghost struct ReportView {
    /// What was probed.
    pub id: DependencyId,
    /// Outcome.
    pub status: DependencyStatus,
    /// Detail.
    pub detail: Seq<char>,
    /// Whether the application can work without it.
    pub optional: bool,
}

impl View for DependencyReport {
    type V = ReportView;

    open spec fn view(&self) -> ReportView {
        ReportView {
            id: self.id,
            status: self.status,
            detail: self.detail@,
            optional: self.optional,
        }
    }
}

impl DependencyReport {
    /// Whether the dependency is usable.
    pub fn available(&self) -> (r: bool)
        ensures
            r == self.status is Available,
    {
        matches!(self.status, DependencyStatus::Available)
    }
}

/// The full probe result.
#[derive(Debug, Clone, PartialEq, Eq)]
pub struct DependencySuite {
    /// Individual results, in display order.
    pub reports: Vec<DependencyReport>,
    /// Whether every *required* dependency is usable.
    pub ready: bool,
}

/// Whether a report is about something that is required and not usable.
pub open spec fn problematic(report: DependencyReport) -> bool {
    !report.optional && !(report.status is Available)
}

/// The reports that are about something required and not usable, in order.
pub open spec fn problems_of(reports: Seq<DependencyReport>) -> Seq<DependencyReport>
    decreases reports.len(),
{
    if reports.len() == 0 {
        Seq::empty()
    } else if problematic(reports.last()) {
        problems_of(reports.drop_last()).push(reports.last())
    } else {
        problems_of(reports.drop_last())
    }
}

impl DependencySuite {
    /// Every required dependency that is not usable.
    pub fn problems(&self) -> (r: Vec<&DependencyReport>)
        ensures
            r@.len() == problems_of(self.reports@).len(),
            forall|i: int|
                0 <= i < r@.len() ==> *(#[trigger] r@[i]) == problems_of(self.reports@)[i],
    {
        let ghost all = self.reports@;
        let mut r: Vec<&DependencyReport> = Vec::new();
        let mut i: usize = 0;
        assert(all.take(0) =~= Seq::<DependencyReport>::empty());
        while i < self.reports.len()
            invariant
                i <= self.reports@.len(),
                all == self.reports@,
                r@.len() == problems_of(all.take(i as int)).len(),
                forall|k: int|
                    0 <= k < r@.len() ==> *(#[trigger] r@[k]) == problems_of(
                        all.take(i as int),
                    )[k],
            decreases self.reports.len() - i,
        {
            assert(all.take(i + 1).drop_last() =~= all.take(i as int));
            assert(all.take(i + 1).last() == all[i as int]);
            if !self.reports[i].optional && !self.reports[i].available() {
                r.push(&self.reports[i]);
            }
            i = i + 1;
        }
        assert(all.take(all.len() as int) =~= all);
        r
    }
}

/// What was observed of a path that is to be written: its parent directory may be
/// missing, or the file or directory cannot be made ready for a reason.
#[derive(Debug)]
pub enum WritableProbe {
    /// The file exists and can be appended to.
    Exists,
    /// The file exists and cannot be appended to.
    NotWritable(String),
    /// The file can be created.
    Creatable,
    /// The directory cannot be created.
    NoDirectory(String, String),
    /// The path has no parent directory.
    NoParent,
}

/// What was observed of the system.
#[derive(Debug)]
pub struct Observations {
    /// Operating system family.
    pub os: OsFamily,
    /// The named pipe of the OpenSSH agent exists (Windows only).
    pub agent_pipe: bool,
    /// `SSH_AUTH_SOCK`, and whether the socket exists.
    pub agent_socket: Option<(String, bool)>,
    /// Where `secret-tool` is installed.
    pub secret_tool: Option<String>,
    /// A D-Bus session bus is available.
    pub session_bus: bool,
    /// systemd is the active init system.
    pub systemd: bool,
    /// Where `systemctl` is installed.
    pub systemctl: Option<String>,
    /// A Wayland display is set.
    pub wayland: bool,
    /// An X11 display is set.
    pub x11: bool,
    /// Where `wl-copy` is installed.
    pub wl_copy: Option<String>,
    /// Where `wl-paste` is installed.
    pub wl_paste: Option<String>,
    /// Where `xclip` is installed.
    pub xclip: Option<String>,
    /// Where `xsel` is installed.
    pub xsel: Option<String>,
    /// The known hosts file and whether it can be written.
    pub known_hosts: (String, WritableProbe),
    /// The vault file and whether it can be written.
    pub vault: (String, WritableProbe),
}

/// A report.
pub open spec fn reported(
    id: DependencyId,
    status: DependencyStatus,
    detail: Seq<char>,
    optional: bool,
) -> ReportView {
    ReportView { id, status, detail, optional }
}

/// Builds a report.
pub fn report(id: DependencyId, status: DependencyStatus, detail: &str, optional: bool) -> (r:
    DependencyReport)
    ensures
        r@ == reported(id, status, detail@, optional),
{
    DependencyReport { id, status, detail: detail.to_owned(), optional }
}

/// The report on the SSH agent.
pub open spec fn agent_report(o: Observations) -> ReportView {
    let id = DependencyId::SshAgent;
    if o.os is Windows {
        if o.agent_pipe {
            reported(
                id,
                DependencyStatus::Available,
                "\\\\.\\pipe\\openssh-ssh-agent"@,
                true,
            )
        } else {
            reported(id, DependencyStatus::Missing, "OpenSSH agent pipe not found"@, true)
        }
    } else {
        match o.agent_socket {
            Some(socket) => if socket.1 {
                reported(id, DependencyStatus::Available, socket.0@, true)
            } else {
                reported(
                    id,
                    DependencyStatus::Degraded,
                    "SSH_AUTH_SOCK points at a missing socket: "@ + socket.0@,
                    true,
                )
            },
            None => reported(
                id,
                DependencyStatus::Missing,
                "SSH_AUTH_SOCK is not set; key authentication will need a passphrase"@,
                true,
            ),
        }
    }
}

fn probe_ssh_agent(o: &Observations) -> (r: DependencyReport)
    ensures
        r@ == agent_report(*o),
{
    let id = DependencyId::SshAgent;
    if matches!(o.os, OsFamily::Windows) {
        return if o.agent_pipe {
            report(id, DependencyStatus::Available, "\\\\.\\pipe\\openssh-ssh-agent", true)
        } else {
            report(id, DependencyStatus::Missing, "OpenSSH agent pipe not found", true)
        };
    }
    match &o.agent_socket {
        Some(socket) => if socket.1 {
            report(id, DependencyStatus::Available, socket.0.as_str(), true)
        } else {
            report(
                id,
                DependencyStatus::Degraded,
                concat2("SSH_AUTH_SOCK points at a missing socket: ", socket.0.as_str()).as_str(),
                true,
            )
        },
        None => report(
            id,
            DependencyStatus::Missing,
            "SSH_AUTH_SOCK is not set; key authentication will need a passphrase",
            true,
        ),
    }
}

/// The report on the secret store.
pub open spec fn store_report(o: Observations) -> ReportView {
    let id = DependencyId::SecretStore;
    if o.os is Windows {
        reported(id, DependencyStatus::Available, "Windows DPAPI (user scope)"@, true)
    } else if o.os is Macos {
        reported(id, DependencyStatus::Available, "macOS Keychain"@, true)
    } else {
        match o.secret_tool {
            Some(path) => if o.session_bus {
                reported(id, DependencyStatus::Available, path@, true)
            } else {
                reported(
                    id,
                    DependencyStatus::Degraded,
                    path@ + " is installed but no D-Bus session bus is available"@,
                    true,
                )
            },
            None => reported(
                id,
                DependencyStatus::Missing,
                "secret-tool (libsecret) not found; RDT will use its encrypted vault"@,
                true,
            ),
        }
    }
}

fn probe_secret_store(o: &Observations) -> (r: DependencyReport)
    ensures
        r@ == store_report(*o),
{
    let id = DependencyId::SecretStore;
    match o.os {
        OsFamily::Windows => report(
            id,
            DependencyStatus::Available,
            "Windows DPAPI (user scope)",
            true,
        ),
        OsFamily::Macos => report(id, DependencyStatus::Available, "macOS Keychain", true),
        _ => match &o.secret_tool {
            Some(path) => if o.session_bus {
                report(id, DependencyStatus::Available, path.as_str(), true)
            } else {
                report(
                    id,
                    DependencyStatus::Degraded,
                    concat2(
                        path.as_str(),
                        " is installed but no D-Bus session bus is available",
                    ).as_str(),
                    true,
                )
            },
            None => report(
                id,
                DependencyStatus::Missing,
                "secret-tool (libsecret) not found; RDT will use its encrypted vault",
                true,
            ),
        },
    }
}

/// The report on the service manager.
pub open spec fn manager_report(o: Observations) -> ReportView {
    if o.os is Windows {
        reported(
            DependencyId::WindowsScm,
            DependencyStatus::Available,
            "service control manager"@,
            true,
        )
    } else if o.systemd {
        match o.systemctl {
            Some(path) => reported(
                DependencyId::Systemd,
                DependencyStatus::Available,
                path@,
                true,
            ),
            None => reported(
                DependencyId::Systemd,
                DependencyStatus::Degraded,
                "systemd runs but systemctl is missing"@,
                true,
            ),
        }
    } else {
        reported(
            DependencyId::Systemd,
            DependencyStatus::Missing,
            "systemd is not the active init system; install the agent under your own supervisor"@,
            true,
        )
    }
}

fn probe_service_manager(o: &Observations) -> (r: DependencyReport)
    ensures
        r@ == manager_report(*o),
{
    if matches!(o.os, OsFamily::Windows) {
        return report(
            DependencyId::WindowsScm,
            DependencyStatus::Available,
            "service control manager",
            true,
        );
    }
    let id = DependencyId::Systemd;
    if o.systemd {
        match &o.systemctl {
            Some(path) => report(id, DependencyStatus::Available, path.as_str(), true),
            None => report(
                id,
                DependencyStatus::Degraded,
                "systemd runs but systemctl is missing",
                true,
            ),
        }
    } else {
        report(
            id,
            DependencyStatus::Missing,
            "systemd is not the active init system; install the agent under your own supervisor",
            true,
        )
    }
}

/// The report on the clipboard.
pub open spec fn clipboard_report(o: Observations) -> ReportView {
    let id = DependencyId::Clipboard;
    if o.os is Windows {
        reported(id, DependencyStatus::Available, "Win32 clipboard"@, true)
    } else if o.wayland {
        if o.wl_copy is Some && o.wl_paste is Some {
            reported(id, DependencyStatus::Available, o.wl_copy->0@, true)
        } else {
            reported(
                id,
                DependencyStatus::Missing,
                "install wl-clipboard (wl-copy/wl-paste) for RDP clipboard sharing"@,
                true,
            )
        }
    } else if o.x11 {
        match (o.xclip, o.xsel) {
            (Some(path), _) => reported(id, DependencyStatus::Available, path@, true),
            (None, Some(path)) => reported(id, DependencyStatus::Available, path@, true),
            (None, None) => reported(
                id,
                DependencyStatus::Missing,
                "install xclip or xsel for RDP clipboard sharing"@,
                true,
            ),
        }
    } else {
        reported(id, DependencyStatus::Missing, "no graphical session detected"@, true)
    }
}

fn probe_clipboard(o: &Observations) -> (r: DependencyReport)
    ensures
        r@ == clipboard_report(*o),
{
    let id = DependencyId::Clipboard;
    if matches!(o.os, OsFamily::Windows) {
        return report(id, DependencyStatus::Available, "Win32 clipboard", true);
    }
    if o.wayland {
        return match (&o.wl_copy, &o.wl_paste) {
            (Some(copy), Some(_)) => report(id, DependencyStatus::Available, copy.as_str(), true),
            _ => report(
                id,
                DependencyStatus::Missing,
                "install wl-clipboard (wl-copy/wl-paste) for RDP clipboard sharing",
                true,
            ),
        };
    }
    if o.x11 {
        if let Some(path) = &o.xclip {
            return report(id, DependencyStatus::Available, path.as_str(), true);
        }
        if let Some(path) = &o.xsel {
            return report(id, DependencyStatus::Available, path.as_str(), true);
        }
        return report(
            id,
            DependencyStatus::Missing,
            "install xclip or xsel for RDP clipboard sharing",
            true,
        );
    }
    report(id, DependencyStatus::Missing, "no graphical session detected", true)
}

/// The report on the known hosts file.
pub open spec fn known_hosts_report(file: Seq<char>, probe: WritableProbe) -> ReportView {
    let id = DependencyId::KnownHosts;
    match probe {
        WritableProbe::Exists => reported(id, DependencyStatus::Available, file, false),
        WritableProbe::NotWritable(reason) => reported(
            id,
            DependencyStatus::Degraded,
            file + " is not writable: "@ + reason@,
            false,
        ),
        WritableProbe::Creatable => reported(
            id,
            DependencyStatus::Available,
            file + " (will be created)"@,
            false,
        ),
        WritableProbe::NoDirectory(directory, reason) => reported(
            id,
            DependencyStatus::Degraded,
            "cannot create "@ + directory@ + ": "@ + reason@,
            false,
        ),
        WritableProbe::NoParent => reported(
            id,
            DependencyStatus::Degraded,
            "no parent directory"@,
            false,
        ),
    }
}

fn probe_known_hosts(file: &str, probe: &WritableProbe) -> (r: DependencyReport)
    ensures
        r@ == known_hosts_report(file@, *probe),
{
    let id = DependencyId::KnownHosts;
    match probe {
        WritableProbe::Exists => report(id, DependencyStatus::Available, file, false),
        WritableProbe::NotWritable(reason) => report(
            id,
            DependencyStatus::Degraded,
            concat3(file, " is not writable: ", reason.as_str()).as_str(),
            false,
        ),
        WritableProbe::Creatable => report(
            id,
            DependencyStatus::Available,
            concat2(file, " (will be created)").as_str(),
            false,
        ),
        WritableProbe::NoDirectory(directory, reason) => report(
            id,
            DependencyStatus::Degraded,
            concat4("cannot create ", directory.as_str(), ": ", reason.as_str()).as_str(),
            false,
        ),
        WritableProbe::NoParent => report(
            id,
            DependencyStatus::Degraded,
            "no parent directory",
            false,
        ),
    }
}

/// The report on the vault; an existing vault is usable whatever its permissions.
pub open spec fn vault_report(file: Seq<char>, probe: WritableProbe) -> ReportView {
    let id = DependencyId::Vault;
    match probe {
        WritableProbe::Exists => reported(id, DependencyStatus::Available, file, true),
        WritableProbe::NotWritable(reason) => reported(
            id,
            DependencyStatus::Available,
            file,
            true,
        ),
        WritableProbe::Creatable => reported(
            id,
            DependencyStatus::Available,
            file + " (will be created on first use)"@,
            true,
        ),
        WritableProbe::NoDirectory(directory, reason) => reported(
            id,
            DependencyStatus::Degraded,
            "cannot create the vault directory: "@ + reason@,
            true,
        ),
        WritableProbe::NoParent => reported(
            id,
            DependencyStatus::Degraded,
            "no parent directory"@,
            true,
        ),
    }
}

fn probe_vault(file: &str, probe: &WritableProbe) -> (r: DependencyReport)
    ensures
        r@ == vault_report(file@, *probe),
{
    let id = DependencyId::Vault;
    match probe {
        WritableProbe::Exists => report(id, DependencyStatus::Available, file, true),
        WritableProbe::NotWritable(_) => report(id, DependencyStatus::Available, file, true),
        WritableProbe::Creatable => report(
            id,
            DependencyStatus::Available,
            concat2(file, " (will be created on first use)").as_str(),
            true,
        ),
        WritableProbe::NoDirectory(_, reason) => report(
            id,
            DependencyStatus::Degraded,
            concat2("cannot create the vault directory: ", reason.as_str()).as_str(),
            true,
        ),
        WritableProbe::NoParent => report(
            id,
            DependencyStatus::Degraded,
            "no parent directory",
            true,
        ),
    }
}

/// The reports on everything that was observed, in display order.
pub open spec fn all_reports(o: Observations) -> Seq<ReportView> {
    seq![
        agent_report(o),
        store_report(o),
        manager_report(o),
        clipboard_report(o),
        known_hosts_report(o.known_hosts.0@, o.known_hosts.1),
        vault_report(o.vault.0@, o.vault.1),
    ]
}

/// What reports say.
pub open spec fn report_views(reports: Seq<DependencyReport>) -> Seq<ReportView> {
    Seq::new(reports.len(), |i: int| reports[i]@)
}

/// Judges every known dependency.
pub fn probe_dependencies(o: &Observations) -> (r: DependencySuite)
    ensures
        report_views(r.reports@) == all_reports(*o),
        r.ready == (problems_of(r.reports@).len() == 0),
        r.ready == (known_hosts_report(o.known_hosts.0@, o.known_hosts.1).status is Available),
{
    let mut reports: Vec<DependencyReport> = Vec::new();
    reports.push(probe_ssh_agent(o));
    reports.push(probe_secret_store(o));
    reports.push(probe_service_manager(o));
    reports.push(probe_clipboard(o));
    reports.push(probe_known_hosts(o.known_hosts.0.as_str(), &o.known_hosts.1));
    reports.push(probe_vault(o.vault.0.as_str(), &o.vault.1));
    assert(report_views(reports@) =~= all_reports(*o));
    let suite = DependencySuite { reports, ready: false };
    let ready = suite.problems().len() == 0;
    proof {
        let v = suite.reports@;
        assert forall|i: int| 0 <= i < v.len() implies (#[trigger] v[i])@ == all_reports(*o)[i] by {
            assert(report_views(v)[i] == v[i]@);
        }
        assert(v.len() == 6) by {
            assert(report_views(v).len() == v.len());
        }
        assert(v[0]@ == agent_report(*o) && v[1]@ == store_report(*o) && v[2]@ == manager_report(*o)
            && v[3]@ == clipboard_report(*o) && v[4]@ == known_hosts_report(
            o.known_hosts.0@,
            o.known_hosts.1,
        ) && v[5]@ == vault_report(o.vault.0@, o.vault.1));
        no_problems(v);
        assert(v[4].status is Available == known_hosts_report(
            o.known_hosts.0@,
            o.known_hosts.1,
        ).status is Available);
        if !(v[4].status is Available) {
            assert(problematic(v[4]));
        }
    }
    DependencySuite { reports: suite.reports, ready }
}

proof fn no_problems(reports: Seq<DependencyReport>)
    ensures
        problems_of(reports).len() == 0 <==> forall|i: int|
            0 <= i < reports.len() ==> !problematic(#[trigger] reports[i]),
    decreases reports.len(),
{
    if reports.len() > 0 {
        let front = reports.drop_last();
        no_problems(front);
        if problems_of(reports).len() == 0 {
            assert forall|i: int| 0 <= i < reports.len() implies !problematic(
                #[trigger] reports[i],
            ) by {
                if i < front.len() {
                    assert(front[i] == reports[i]);
                }
            }
        }
        if forall|i: int| 0 <= i < reports.len() ==> !problematic(#[trigger] reports[i]) {
            assert forall|i: int| 0 <= i < front.len() implies !problematic(#[trigger] front[i]) by {
                assert(front[i] == reports[i]);
            }
            assert(!problematic(reports[reports.len() - 1]));
        }
    }
}

/// A file that may be a program.
#[derive(Debug)]
pub struct Candidate {
    /// Path of the file.
    pub path: String,
    /// The path is a regular file.
    pub is_file: bool,
    /// Permission bits, when they could be read.
    pub mode: Option<u32>,
}

/// Whether a candidate can be executed; permission bits only count on Unix.
pub open spec fn executable(candidate: Candidate, unix: bool) -> bool {
    candidate.is_file && (unix ==> candidate.mode is Some && candidate.mode->0 & 0o111 != 0)
}

/// The first of some candidates that can be executed.
pub fn which(candidates: &Vec<Candidate>, unix: bool) -> (r: Option<&str>)
    ensures
        match r {
            Some(path) => exists|i: int|
                {
                    &&& 0 <= i < candidates@.len()
                    &&& executable(#[trigger] candidates@[i], unix)
                    &&& path@ == candidates@[i].path@
                    &&& forall|k: int| 0 <= k < i ==> !executable(#[trigger] candidates@[k], unix)
                },
            None => forall|k: int|
                0 <= k < candidates@.len() ==> !executable(#[trigger] candidates@[k], unix),
        },
{
    let mut i: usize = 0;
    while i < candidates.len()
        invariant
            i <= candidates@.len(),
            forall|k: int| 0 <= k < i ==> !executable(#[trigger] candidates@[k], unix),
        decreases candidates.len() - i,
    {
        let candidate = &candidates[i];
        let permitted = match candidate.mode {
            Some(mode) => mode & 0o111 != 0,
            None => false,
        };
        if candidate.is_file && (!unix || permitted) {
            assert(executable(candidates@[i as int], unix));
            return Some(candidate.path.as_str());
        }
        i = i + 1;
    }
    None
}

/// The output of a program that was run, or what it complained about.
///
/// # Errors
///
/// Returns why the program could not be run, or its complaint when it failed.
pub fn run_capture(program: &str, run: Result<ToolExit, String>) -> (r: Result<String, String>)
    ensures
        match run {
            Err(reason) => r is Err && r->Err_0@ == "cannot execute "@ + program@ + ": "@
                + reason@,
            Ok(exit) => if exit.success {
                r is Ok && r->Ok_0@ == trimmed(lossy(exit.stdout@))
            } else {
                r is Err && r->Err_0@ == trimmed(lossy(exit.stderr@))
            },
        },
{
    match run {
        Err(reason) => Err(concat4("cannot execute ", program, ": ", reason.as_str())),
        Ok(exit) => {
            if exit.success {
                Ok(trim(lossy_text(exit.stdout.as_slice()).as_str()))
            } else {
                Err(trim(lossy_text(exit.stderr.as_slice()).as_str()))
            }
        },
    }
}

/// Everything but the known hosts file is optional, so a system is ready exactly
/// when that file can be used.
pub proof fn only_known_hosts_are_required(o: Observations)
    ensures
        forall|i: int|
            0 <= i < all_reports(o).len() ==> ((#[trigger] all_reports(o)[i]).optional <==> i != 4),
        all_reports(o)[4].id is KnownHosts,
{
}

/// What is missing counts as a problem when it is needed, and what is optional never
/// does; the problems are listed in order.
pub proof fn needed_dependencies_are_problems(
    reports: Seq<DependencyReport>,
    report: DependencyReport,
)
    ensures
        problematic(report) <==> !report.optional && report.status != DependencyStatus::Available,
        problems_of(Seq::empty()) == Seq::<DependencyReport>::empty(),
        problematic(report) ==> problems_of(reports.push(report)) == problems_of(reports).push(
            report,
        ),
        !problematic(report) ==> problems_of(reports.push(report)) == problems_of(reports),
{
    assert(reports.push(report).drop_last() =~= reports);
}

/// The reports follow what was observed: each dependency is there when what it needs was
/// found.
pub proof fn reports_follow_observations(o: Observations)
    ensures
        all_reports(o).len() == 6,
        all_reports(o)[0].id == DependencyId::SshAgent,
        all_reports(o)[1].id == DependencyId::SecretStore,
        all_reports(o)[3].id == DependencyId::Clipboard,
        all_reports(o)[4].id == DependencyId::KnownHosts,
        all_reports(o)[5].id == DependencyId::Vault,
        all_reports(o)[0].status == DependencyStatus::Available <==> if o.os == OsFamily::Windows {
            o.agent_pipe
        } else {
            o.agent_socket is Some && (o.agent_socket->0).1
        },
        all_reports(o)[1].status == DependencyStatus::Available <==> o.os == OsFamily::Windows
            || o.os == OsFamily::Macos || o.secret_tool is Some && o.session_bus,
        all_reports(o)[2].status == DependencyStatus::Available <==> o.os == OsFamily::Windows
            || o.systemd && o.systemctl is Some,
        all_reports(o)[2].id == if o.os == OsFamily::Windows {
            DependencyId::WindowsScm
        } else {
            DependencyId::Systemd
        },
        all_reports(o)[3].status == DependencyStatus::Available <==> o.os == OsFamily::Windows || (
        if o.wayland {
            o.wl_copy is Some && o.wl_paste is Some
        } else {
            o.x11 && (o.xclip is Some || o.xsel is Some)
        }),
        all_reports(o)[4].status == DependencyStatus::Available <==> o.known_hosts.1 is Exists
            || o.known_hosts.1 is Creatable,
        all_reports(o)[5].status == DependencyStatus::Available <==> o.vault.1 is Exists
            || o.vault.1 is NotWritable || o.vault.1 is Creatable,
{
}

/// A program can be run when it is a file and, on Unix, when somebody may execute it.
pub proof fn programs_are_executable_files(candidate: Candidate)
    ensures
        executable(candidate, false) <==> candidate.is_file,
        executable(candidate, true) ==> candidate.is_file && candidate.mode is Some,
        executable(candidate, true) <==> candidate.is_file && candidate.mode is Some && (
        candidate.mode->0 % 2 == 1 || (candidate.mode->0 / 8) % 2 == 1 || (candidate.mode->0 / 64)
            % 2 == 1),
{
    if candidate.mode is Some {
        let m = candidate.mode->0;
        assert((m & 0o111 != 0) == (m % 2 == 1 || (m / 8) % 2 == 1 || (m / 64) % 2 == 1))
            by (bit_vector);
    }
}

} // verus!
