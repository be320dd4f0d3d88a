//! The `rdt` command line.
//!
//! Running `rdt` with no arguments starts the desktop application; every other
//! behaviour is a subcommand.
use crate::agent::protocol_name;
use crate::deps::{DependencyReport, DependencySuite};
use crate::error::{fail, ErrorCode, RdtError, RdtErrorView, RdtResult};
use crate::ids::hex_text;
use crate::profile::ConnectionProfile;
use crate::proto::Protocol;
use crate::rdp_session::host_port;
use crate::store::{first_named, named, ConfigStore, LoadError};
use crate::text::{
    chars_of, concat2, concat3, concat5, debug_literal, quoted, same, texts,
};
use vstd::prelude::*;

verus! {

/// The parsed invocation.
#[derive(Debug, Clone, PartialEq, Eq)]
pub enum Invocation {
    /// Start the desktop application.
    Gui,
    /// `rdt version`
    Version,
    /// `rdt help`
    Help,
    /// `rdt doctor`
    Doctor,
    /// `rdt profiles list`
    Profiles,
    /// `rdt ssh <profile>`
    Ssh(String),
    /// `rdt rdp <profile>`
    Rdp(String),
    /// `rdt service <install|uninstall|status>`
    Service(String),
    /// `rdt agent`
    Agent,
    /// `rdt vault <lock|unlock|list>`
    Vault(String),
    /// `rdt config <path|show>`
    Config(String),
}

/// What an invocation says.
pub ghost enum InvocationView {
    /// See [`Invocation::Gui`].
    Gui,
    /// See [`Invocation::Version`].
    Version,
    /// See [`Invocation::Help`].
    Help,
    /// See [`Invocation::Doctor`].
    Doctor,
    /// See [`Invocation::Profiles`].
    Profiles,
    /// See [`Invocation::Ssh`].
    Ssh(Seq<char>),
    /// See [`Invocation::Rdp`].
    Rdp(Seq<char>),
    /// See [`Invocation::Service`].
    Service(Seq<char>),
    /// See [`Invocation::Agent`].
    Agent,
    /// See [`Invocation::Vault`].
    Vault(Seq<char>),
    /// See [`Invocation::Config`].
    Config(Seq<char>),
}

impl View for Invocation {
    type V = InvocationView;

    open spec fn view(&self) -> InvocationView {
        match self {
            Invocation::Gui => InvocationView::Gui,
            Invocation::Version => InvocationView::Version,
            Invocation::Help => InvocationView::Help,
            Invocation::Doctor => InvocationView::Doctor,
            Invocation::Profiles => InvocationView::Profiles,
            Invocation::Ssh(profile) => InvocationView::Ssh(profile@),
            Invocation::Rdp(profile) => InvocationView::Rdp(profile@),
            Invocation::Service(action) => InvocationView::Service(action@),
            Invocation::Agent => InvocationView::Agent,
            Invocation::Vault(action) => InvocationView::Vault(action@),
            Invocation::Config(action) => InvocationView::Config(action@),
        }
    }
}

/// A failure that names what the user gave.
pub open spec fn unknown(what: Seq<char>, given: Seq<char>) -> RdtErrorView {
    fail(ErrorCode::InvalidInput, what + debug_literal(given))
}

/// A missing argument.
pub open spec fn usage(line: Seq<char>) -> RdtErrorView {
    fail(ErrorCode::InvalidInput, line)
}

/// What an argument list asks for.
pub open spec fn invocation(args: Seq<Seq<char>>) -> Result<InvocationView, RdtErrorView> {
    if args.len() == 0 {
        Ok(InvocationView::Gui)
    } else if args[0] == "version"@ || args[0] == "--version"@ || args[0] == "-V"@ {
        Ok(InvocationView::Version)
    } else if args[0] == "help"@ || args[0] == "--help"@ || args[0] == "-h"@ {
        Ok(InvocationView::Help)
    } else if args[0] == "doctor"@ {
        Ok(InvocationView::Doctor)
    } else if args[0] == "profiles"@ {
        Ok(InvocationView::Profiles)
    } else if args[0] == "ssh"@ {
        if args.len() < 2 {
            Err(usage("usage: rdt ssh <profile>"@))
        } else {
            Ok(InvocationView::Ssh(args[1]))
        }
    } else if args[0] == "rdp"@ {
        if args.len() < 2 {
            Err(usage("usage: rdt rdp <profile>"@))
        } else {
            Ok(InvocationView::Rdp(args[1]))
        }
    } else if args[0] == "service"@ {
        if args.len() < 2 {
            Err(usage("usage: rdt service <install|uninstall|status>"@))
        } else if args[1] == "install"@ || args[1] == "uninstall"@ || args[1] == "status"@ {
            Ok(InvocationView::Service(args[1]))
        } else {
            Err(unknown("unknown service action "@, args[1]))
        }
    } else if args[0] == "agent"@ {
        Ok(InvocationView::Agent)
    } else if args[0] == "vault"@ {
        if args.len() < 2 {
            Err(usage("usage: rdt vault <lock|unlock|list>"@))
        } else {
            Ok(InvocationView::Vault(args[1]))
        }
    } else if args[0] == "config"@ {
        if args.len() < 2 {
            Ok(InvocationView::Config("show"@))
        } else {
            Ok(InvocationView::Config(args[1]))
        }
    } else {
        Err(usage("unknown command "@ + debug_literal(args[0]) + "; run `rdt help`"@))
    }
}

fn invalid(message: &str) -> (r: RdtResult<Invocation>)
    ensures
        r is Err,
        r->Err_0@ == usage(message@),
{
    Err(RdtError::new(ErrorCode::InvalidInput, message))
}

/// Parses the argument list.
///
/// # Errors
///
/// Returns [`ErrorCode::InvalidInput`] for an unknown subcommand.
pub fn parse(arguments: &[String]) -> (r: RdtResult<Invocation>)
    ensures
        match r {
            Ok(parsed) => invocation(texts(arguments@)) == Ok::<InvocationView, RdtErrorView>(
                parsed@,
            ),
            Err(error) => invocation(texts(arguments@)) == Err::<InvocationView, RdtErrorView>(
                error@,
            ),
        },
{
    if arguments.len() == 0 {
        return Ok(Invocation::Gui);
    }
    let first = arguments[0].as_str();
    let ghost all = texts(arguments@);
    assert(all[0] == first@);
    if arguments.len() > 1 {
        assert(all[1] == arguments@[1]@);
    }
    if same(first, "version") || same(first, "--version") || same(first, "-V") {
        return Ok(Invocation::Version);
    }
    if same(first, "help") || same(first, "--help") || same(first, "-h") {
        return Ok(Invocation::Help);
    }
    if same(first, "doctor") {
        return Ok(Invocation::Doctor);
    }
    if same(first, "profiles") {
        return Ok(Invocation::Profiles);
    }
    if same(first, "ssh") {
        if arguments.len() < 2 {
            return invalid("usage: rdt ssh <profile>");
        }
        return Ok(Invocation::Ssh(arguments[1].as_str().to_owned()));
    }
    if same(first, "rdp") {
        if arguments.len() < 2 {
            return invalid("usage: rdt rdp <profile>");
        }
        return Ok(Invocation::Rdp(arguments[1].as_str().to_owned()));
    }
    if same(first, "service") {
        if arguments.len() < 2 {
            return invalid("usage: rdt service <install|uninstall|status>");
        }
        let action = arguments[1].as_str();
        if !(same(action, "install") || same(action, "uninstall") || same(action, "status")) {
            return invalid(concat2("unknown service action ", quoted(action).as_str()).as_str());
        }
        return Ok(Invocation::Service(action.to_owned()));
    }
    if same(first, "agent") {
        return Ok(Invocation::Agent);
    }
    if same(first, "vault") {
        if arguments.len() < 2 {
            return invalid("usage: rdt vault <lock|unlock|list>");
        }
        return Ok(Invocation::Vault(arguments[1].as_str().to_owned()));
    }
    if same(first, "config") {
        if arguments.len() < 2 {
            return Ok(Invocation::Config("show".to_owned()));
        }
        return Ok(Invocation::Config(arguments[1].as_str().to_owned()));
    }
    invalid(concat3("unknown command ", quoted(first).as_str(), "; run `rdt help`").as_str())
}

/// The help text.
pub const HELP: &'static str =
    "Remote Desktop Tool — native SSH and RDP client\n\nUSAGE:\n    rdt                      start the desktop application\n    rdt ssh <profile>        open an SSH session in the terminal\n    rdt rdp <profile>        open a remote desktop session\n    rdt profiles             list the saved profiles\n    rdt doctor               check the platform and its dependencies\n    rdt service <action>     install | uninstall | status\n    rdt agent                run the headless agent in the foreground\n    rdt vault <action>       lock | unlock | list\n    rdt config [show|path]   print the configuration or its location\n    rdt version              print the version\n    rdt help                 print this message\n";

/// A text filled up with spaces to a width.
pub open spec fn filled(s: Seq<char>, width: nat) -> Seq<char> {
    if s.len() >= width {
        s
    } else {
        s + Seq::new((width - s.len()) as nat, |i: int| ' ')
    }
}

/// Fills a text up with spaces to a width.
pub fn fill(s: &str, width: usize) -> (r: String)
    ensures
        r@ == filled(s@, width as nat),
{
    let mut count: usize = chars_of(s).len();
    let mut r = s.to_owned();
    let ghost start = s@.len();
    while count < width
        invariant
            start <= count,
            count <= width || count == start,
            start == s@.len(),
            r@ == s@ + Seq::new((count - start) as nat, |i: int| ' '),
        decreases width - count,
    {
        let ghost before = r@;
        r.push(' ');
        count = count + 1;
        assert(r@ =~= s@ + Seq::new((count - start) as nat, |i: int| ' '));
    }
    assert(r@ =~= filled(s@, width as nat));
    r
}

/// How a dependency is marked by `rdt doctor`.
pub open spec fn mark_of(report: DependencyReport) -> Seq<char> {
    if report.status is Available {
        "ok"@
    } else if report.optional {
        "optional"@
    } else {
        "missing"@
    }
}

/// A line of `rdt doctor`.
pub open spec fn doctor_line(report: DependencyReport) -> Seq<char> {
    filled(mark_of(report), 8) + " "@ + report.id.name() + " — "@ + report.detail@
}

/// The line of `rdt doctor` for a dependency.
pub fn describe_dependency(report: &DependencyReport) -> (r: String)
    ensures
        r@ == doctor_line(*report),
{
    let mark = if report.available() {
        "ok"
    } else if report.optional {
        "optional"
    } else {
        "missing"
    };
    concat5(
        fill(mark, 8).as_str(),
        " ",
        report.id.as_str(),
        " — ",
        report.detail.as_str(),
    )
}

/// The last line of `rdt doctor`, and whether it reports success.
pub fn doctor_verdict(suite: &DependencySuite) -> (r: (bool, String))
    ensures
        r.0 == (crate::deps::problems_of(suite.reports@).len() == 0),
        r.1@ == if r.0 {
            "\nthe platform is ready"@
        } else {
            "\nsome required dependencies are missing; see docs/PLATFORMS.md"@
        },
{
    if suite.problems().len() == 0 {
        (true, "\nthe platform is ready".to_owned())
    } else {
        (false, "\nsome required dependencies are missing; see docs/PLATFORMS.md".to_owned())
    }
}

/// A line of `rdt profiles`.
pub open spec fn profile_line(profile: ConnectionProfile) -> Seq<char> {
    hex_text(profile.id@) + "  "@ + filled(profile.name@, 24) + " "@ + filled(
        profile.protocol.name(),
        6,
    ) + " "@ + host_port(profile.endpoint.host@, profile.endpoint.port)
}

/// The line of `rdt profiles` for a profile.
pub fn describe_profile(profile: &ConnectionProfile) -> (r: String)
    ensures
        r@ == profile_line(*profile),
{
    let mut r = profile.id.to_string();
    r.push_str("  ");
    r.push_str(fill(profile.name.as_str(), 24).as_str());
    r.push_str(" ");
    r.push_str(fill(profile.protocol.as_str(), 6).as_str());
    r.push_str(" ");
    r.push_str(profile.address().as_str());
    r
}

/// The failure to load the configuration for a subcommand.
pub fn load_failure(error: LoadError) -> (r: RdtError)
    ensures
        r@ == match error {
            LoadError::Missing => fail(ErrorCode::Config, "no configuration file yet"@),
            LoadError::Failed(error) => error@,
        },
{
    match error {
        LoadError::Missing => RdtError::new(ErrorCode::Config, "no configuration file yet"),
        LoadError::Failed(error) => error,
    }
}

/// What `rdt config` does.
#[derive(Debug, Clone, Copy, PartialEq, Eq, Structural)]
pub enum ConfigAction {
    /// Print the location.
    Path,
    /// Print the document.
    Show,
}

/// Reads the action of `rdt config`.
///
/// # Errors
///
/// Returns [`ErrorCode::InvalidInput`] for an unknown action.
pub fn config_action(action: &str) -> (r: RdtResult<ConfigAction>)
    ensures
        action@ == "path"@ ==> r == Ok::<ConfigAction, RdtError>(ConfigAction::Path),
        action@ == "show"@ ==> r == Ok::<ConfigAction, RdtError>(ConfigAction::Show),
        action@ != "path"@ && action@ != "show"@ ==> r is Err && r->Err_0@ == unknown(
            "unknown config action "@,
            action@,
        ),
{
    proof {
        reveal_strlit("path");
        reveal_strlit("show");
        assert("path"@[0] != "show"@[0]);
    }
    if same(action, "path") {
        Ok(ConfigAction::Path)
    } else if same(action, "show") {
        Ok(ConfigAction::Show)
    } else {
        Err(
            RdtError::new(
                ErrorCode::InvalidInput,
                concat2("unknown config action ", quoted(action).as_str()).as_str(),
            ),
        )
    }
}

/// What `rdt service` does.
#[derive(Debug, Clone, Copy, PartialEq, Eq, Structural)]
pub enum ServiceAction {
    /// Install the service.
    Install,
    /// Remove the service.
    Uninstall,
    /// Print its state.
    Status,
}

/// The action that `rdt service` is given.
pub open spec fn service_action_named(action: Seq<char>) -> Option<ServiceAction> {
    if action == "install"@ {
        Some(ServiceAction::Install)
    } else if action == "uninstall"@ {
        Some(ServiceAction::Uninstall)
    } else if action == "status"@ {
        Some(ServiceAction::Status)
    } else {
        None
    }
}

/// Reads the action of `rdt service`.
///
/// # Errors
///
/// Returns [`ErrorCode::InvalidInput`] for an unknown action.
pub fn service_action(action: &str) -> (r: RdtResult<ServiceAction>)
    ensures
        match service_action_named(action@) {
            Some(known) => r == Ok::<ServiceAction, RdtError>(known),
            None => r is Err && r->Err_0@ == unknown("unknown service action "@, action@),
        },
{
    if same(action, "install") {
        Ok(ServiceAction::Install)
    } else if same(action, "uninstall") {
        Ok(ServiceAction::Uninstall)
    } else if same(action, "status") {
        Ok(ServiceAction::Status)
    } else {
        Err(
            RdtError::new(
                ErrorCode::InvalidInput,
                concat2("unknown service action ", quoted(action).as_str()).as_str(),
            ),
        )
    }
}

/// What `rdt vault` does.
#[derive(Debug, Clone, PartialEq, Eq)]
pub enum VaultAction {
    /// List the keys.
    List,
    /// Print a remark.
    Remark(String),
}

/// Reads the action of `rdt vault`.
///
/// # Errors
///
/// Returns [`ErrorCode::InvalidInput`] for an unknown action.
pub fn vault_action(action: &str) -> (r: RdtResult<VaultAction>)
    ensures
        if action@ == "list"@ {
            r is Ok && r->Ok_0 is List
        } else if action@ == "lock"@ {
            r is Ok && r->Ok_0 is Remark && r->Ok_0->Remark_0@
                == "the vault is locked whenever the process exits or the idle timer fires"@
        } else if action@ == "unlock"@ {
            r is Ok && r->Ok_0 is Remark && r->Ok_0->Remark_0@
                == "enter the vault passphrase to unlock it in this shell"@
        } else {
            r is Err && r->Err_0@ == unknown("unknown vault action "@, action@)
        },
{
    if same(action, "list") {
        Ok(VaultAction::List)
    } else if same(action, "lock") {
        Ok(
            VaultAction::Remark(
                "the vault is locked whenever the process exits or the idle timer fires".to_owned(),
            ),
        )
    } else if same(action, "unlock") {
        Ok(
            VaultAction::Remark(
                "enter the vault passphrase to unlock it in this shell".to_owned(),
            ),
        )
    } else {
        Err(
            RdtError::new(
                ErrorCode::InvalidInput,
                concat2("unknown vault action ", quoted(action).as_str()).as_str(),
            ),
        )
    }
}

/// The line announcing a connection.
pub open spec fn connect_line(profile: ConnectionProfile) -> Seq<char> {
    "connecting to "@ + host_port(profile.endpoint.host@, profile.endpoint.port) + " ("@
        + profile.protocol.name() + ")"@
}

/// Looks up the profile of `rdt ssh` or `rdt rdp` and gives the line that
/// announces the connection.
///
/// # Errors
///
/// Returns [`ErrorCode::NotFound`] when there is no such profile and
/// [`ErrorCode::InvalidInput`] when it is for the other protocol.
pub fn connect(store: &ConfigStore, profile_name: &str, protocol: Protocol) -> (r: RdtResult<String>)
    ensures
        !named(store.listing(), profile_name@) ==> r is Err && r->Err_0@ == fail(
            ErrorCode::NotFound,
            "no profile named "@ + debug_literal(profile_name@),
        ),
        named(store.listing(), profile_name@) ==> exists|i: int|
            {
                &&& #[trigger] first_named(store.listing(), profile_name@, i)
                &&& if store.listing()[i].protocol == protocol {
                    r is Ok && r->Ok_0@ == connect_line(store.listing()[i])
                } else {
                    r is Err && r->Err_0@ == fail(
                        ErrorCode::InvalidInput,
                        "profile "@ + debug_literal(profile_name@) + " is a "@ + protocol_name(
                            store.listing()[i].protocol,
                        ) + " profile; use the matching command"@,
                    )
                }
            },
{
    let profile = match store.find_by_name(profile_name) {
        Some(profile) => profile,
        None => {
            return Err(
                RdtError::new(
                    ErrorCode::NotFound,
                    concat2("no profile named ", quoted(profile_name).as_str()).as_str(),
                ),
            );
        },
    };
    if profile.protocol != protocol {
        let kind = match profile.protocol {
            Protocol::Ssh => "Ssh",
            Protocol::Rdp => "Rdp",
        };
        return Err(
            RdtError::new(
                ErrorCode::InvalidInput,
                concat5(
                    "profile ",
                    quoted(profile_name).as_str(),
                    " is a ",
                    kind,
                    " profile; use the matching command",
                ).as_str(),
            ),
        );
    }
    Ok(
        concat5(
            "connecting to ",
            profile.address().as_str(),
            " (",
            profile.protocol.as_str(),
            ")",
        ),
    )
}

/// Whether a terminal session can be started: it needs a real terminal, so the
/// command line refuses rather than pretending.
///
/// # Errors
///
/// Returns [`ErrorCode::Platform`] without an interactive terminal.
pub fn require_terminal(interactive: bool) -> (r: RdtResult<()>)
    ensures
        r is Ok <==> interactive,
        r is Err ==> r->Err_0@ == fail(
            ErrorCode::Platform,
            "an interactive terminal is required; run `rdt` for the desktop client"@,
        ),
{
    if !interactive {
        return Err(
            RdtError::new(
                ErrorCode::Platform,
                "an interactive terminal is required; run `rdt` for the desktop client",
            ),
        );
    }
    Ok(())
}

/// Every accepted service action can be carried out.
pub proof fn accepted_service_actions_are_known(args: Seq<Seq<char>>)
    requires
        invocation(args) is Ok,
        invocation(args)->Ok_0 is Service,
    ensures
        service_action_named(invocation(args)->Ok_0->Service_0) is Some,
{
}

/// Without a command the window opens, and each command word means its command; what
/// takes a name or an action takes the next word.
pub proof fn command_words_mean_commands(word: Seq<char>, rest: Seq<Seq<char>>)
    ensures
        invocation(Seq::empty()) == Ok::<InvocationView, RdtErrorView>(InvocationView::Gui),
        word == "version"@ || word == "--version"@ || word == "-V"@ ==> invocation(
            seq![word] + rest,
        ) == Ok::<InvocationView, RdtErrorView>(InvocationView::Version),
        word == "help"@ || word == "--help"@ || word == "-h"@ ==> invocation(seq![word] + rest)
            == Ok::<InvocationView, RdtErrorView>(InvocationView::Help),
        invocation(seq!["doctor"@] + rest) == Ok::<InvocationView, RdtErrorView>(
            InvocationView::Doctor,
        ),
        invocation(seq!["profiles"@] + rest) == Ok::<InvocationView, RdtErrorView>(
            InvocationView::Profiles,
        ),
        invocation(seq!["agent"@] + rest) == Ok::<InvocationView, RdtErrorView>(
            InvocationView::Agent,
        ),
        invocation(seq!["ssh"@, word] + rest) == Ok::<InvocationView, RdtErrorView>(
            InvocationView::Ssh(word),
        ),
        invocation(seq!["rdp"@, word] + rest) == Ok::<InvocationView, RdtErrorView>(
            InvocationView::Rdp(word),
        ),
        invocation(seq!["vault"@, word] + rest) == Ok::<InvocationView, RdtErrorView>(
            InvocationView::Vault(word),
        ),
        invocation(seq!["config"@, word] + rest) == Ok::<InvocationView, RdtErrorView>(
            InvocationView::Config(word),
        ),
        invocation(seq!["config"@]) == Ok::<InvocationView, RdtErrorView>(
            InvocationView::Config("show"@),
        ),
        invocation(seq!["ssh"@]) is Err && invocation(seq!["rdp"@]) is Err && invocation(
            seq!["vault"@],
        ) is Err && invocation(seq!["service"@]) is Err,
        word == "install"@ || word == "uninstall"@ || word == "status"@ ==> invocation(
            seq!["service"@, word] + rest,
        ) == Ok::<InvocationView, RdtErrorView>(InvocationView::Service(word)),
        word != "install"@ && word != "uninstall"@ && word != "status"@ ==> invocation(
            seq!["service"@, word] + rest,
        ) is Err,
{
    words_differ();
    assert((seq![word] + rest)[0] == word);
    assert((seq!["doctor"@] + rest)[0] == "doctor"@);
    assert((seq!["profiles"@] + rest)[0] == "profiles"@);
    assert((seq!["agent"@] + rest)[0] == "agent"@);
    assert((seq!["ssh"@, word] + rest)[0] == "ssh"@ && (seq!["ssh"@, word] + rest)[1] == word);
    assert((seq!["rdp"@, word] + rest)[0] == "rdp"@ && (seq!["rdp"@, word] + rest)[1] == word);
    assert((seq!["vault"@, word] + rest)[0] == "vault"@ && (seq!["vault"@, word] + rest)[1]
        == word);
    assert((seq!["config"@, word] + rest)[0] == "config"@ && (seq!["config"@, word] + rest)[1]
        == word);
    assert((seq!["service"@, word] + rest)[0] == "service"@ && (seq!["service"@, word] + rest)[1]
        == word);
}

/// The first and the last character of each command word, and its length, tell it apart.
proof fn words_differ()
    ensures
        "version"@[0] == 'v' && "version"@.len() == 7,
        "--version"@[0] == '-' && "--version"@.len() == 9,
        "-V"@[0] == '-' && "-V"@.len() == 2 && "-V"@[1] == 'V',
        "help"@[0] == 'h',
        "--help"@[0] == '-' && "--help"@.len() == 6,
        "-h"@[0] == '-' && "-h"@.len() == 2 && "-h"@[1] == 'h',
        "doctor"@[0] == 'd',
        "profiles"@[0] == 'p',
        "ssh"@[0] == 's' && "ssh"@.len() == 3,
        "rdp"@[0] == 'r',
        "service"@[0] == 's' && "service"@.len() == 7,
        "agent"@[0] == 'a',
        "vault"@[0] == 'v' && "vault"@.len() == 5,
        "config"@[0] == 'c',
{
    reveal_strlit("version");
    reveal_strlit("--version");
    reveal_strlit("-V");
    reveal_strlit("help");
    reveal_strlit("--help");
    reveal_strlit("-h");
    reveal_strlit("doctor");
    reveal_strlit("profiles");
    reveal_strlit("ssh");
    reveal_strlit("rdp");
    reveal_strlit("service");
    reveal_strlit("agent");
    reveal_strlit("vault");
    reveal_strlit("config");
}

/// Whatever is refused on the command line is invalid input.
pub proof fn refused_commands_are_invalid_input(args: Seq<Seq<char>>)
    ensures
        invocation(args) is Err ==> invocation(args)->Err_0.code == ErrorCode::InvalidInput,
{
}

/// Columns are filled with blanks up to their width and never cut.
pub proof fn columns_are_filled(s: Seq<char>, width: nat, i: int)
    ensures
        filled(s, width).len() == if s.len() >= width { s.len() } else { width },
        0 <= i < s.len() ==> filled(s, width)[i] == s[i],
        s.len() <= i < width ==> filled(s, width)[i] == ' ',
{
}

/// The line of a dependency starts with its mark and names it with what was found; the
/// line of a profile shows its identifier, its name, its protocol and its address.
pub proof fn lines_show_their_parts(report: DependencyReport, profile: ConnectionProfile)
    ensures
        report.status is Available ==> mark_of(report) == "ok"@,
        !(report.status is Available) && report.optional ==> mark_of(report) == "optional"@,
        !(report.status is Available) && !report.optional ==> mark_of(report) == "missing"@,
        doctor_line(report) == filled(mark_of(report), 8) + " "@ + report.id.name() + " — "@
            + report.detail@,
        profile_line(profile) == hex_text(profile.id@) + "  "@ + filled(profile.name@, 24) + " "@
            + filled(profile.protocol.name(), 6) + " "@ + host_port(
            profile.endpoint.host@,
            profile.endpoint.port,
        ),
        connect_line(profile) == "connecting to "@ + host_port(
            profile.endpoint.host@,
            profile.endpoint.port,
        ) + " ("@ + profile.protocol.name() + ")"@,
{
}

/// The words for what is done with a service.
pub proof fn service_words_mean_actions()
    ensures
        service_action_named("install"@) == Some(ServiceAction::Install),
        service_action_named("uninstall"@) == Some(ServiceAction::Uninstall),
        service_action_named("status"@) == Some(ServiceAction::Status),
{
    reveal_strlit("install");
    reveal_strlit("uninstall");
    reveal_strlit("status");
    assert("install"@[0] == 'i' && "uninstall"@[0] == 'u' && "status"@[0] == 's');
}

} // verus!
