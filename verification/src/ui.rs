//! The desktop interface: which pages there are, what they show and what their
//! controls lead to. Drawing is left to the window toolkit.
use crate::agent::protocol_name;
use crate::deps::DependencyReport;
use crate::error::{rendered, RdtError};
use crate::grid::Color;
use crate::ids::{hex_text, ProfileId, SessionId};
use crate::profile::ConnectionProfile;
use crate::proto::{CertPolicy, HostKeyPolicy, Protocol};
use crate::rdp_session::host_port;
use crate::session::{SessionCommand, SessionInfo};
use crate::settings::{Settings, Theme};
use crate::store::ConfigStore;
use crate::text::{
    concat2, concat3, concat4, concat5, decimal, ends_with, same, to_decimal,
};
use vstd::prelude::*;

verus! {

/// The pages of the application.
#[derive(Debug, Clone, Copy, PartialEq, Eq, Hash, Structural)]
pub enum Page {
    /// Overview of sessions and dependencies.
    Dashboard,
    /// SSH terminal and file transfer.
    Ssh,
    /// Embedded remote desktop.
    Rdp,
    /// Saved connection profiles.
    Profiles,
    /// Live sessions.
    Sessions,
    /// Application settings.
    Settings,
    /// Log and audit viewer.
    Logs,
    /// Help and about.
    Help,
}

impl Page {
    /// The machine name of a page.
    pub open spec fn id(self) -> Seq<char> {
        match self {
            Page::Dashboard => "dashboard"@,
            Page::Ssh => "ssh"@,
            Page::Rdp => "rdp"@,
            Page::Profiles => "profiles"@,
            Page::Sessions => "sessions"@,
            Page::Settings => "settings"@,
            Page::Logs => "logs"@,
            Page::Help => "help"@,
        }
    }

    /// Every page, in navigation order.
    pub fn all() -> (r: [Self; 8])
        ensures
            r@ == seq![
                Page::Dashboard,
                Page::Ssh,
                Page::Rdp,
                Page::Profiles,
                Page::Sessions,
                Page::Settings,
                Page::Logs,
                Page::Help,
            ],
    {
        let r = [
            Page::Dashboard,
            Page::Ssh,
            Page::Rdp,
            Page::Profiles,
            Page::Sessions,
            Page::Settings,
            Page::Logs,
            Page::Help,
        ];
        assert(r@ =~= seq![
            Page::Dashboard,
            Page::Ssh,
            Page::Rdp,
            Page::Profiles,
            Page::Sessions,
            Page::Settings,
            Page::Logs,
            Page::Help,
        ]);
        r
    }

    /// Stable machine name used in the configuration.
    pub fn name(self) -> (r: &'static str)
        ensures
            r@ == self.id(),
    {
        match self {
            Page::Dashboard => "dashboard",
            Page::Ssh => "ssh",
            Page::Rdp => "rdp",
            Page::Profiles => "profiles",
            Page::Sessions => "sessions",
            Page::Settings => "settings",
            Page::Logs => "logs",
            Page::Help => "help",
        }
    }

    /// Title shown in the navigation rail.
    pub fn title(self) -> (r: &'static str)
        ensures
            r@ == match self {
                Page::Dashboard => "Dashboard"@,
                Page::Ssh => "SSH"@,
                Page::Rdp => "Remote Desktop"@,
                Page::Profiles => "Profiles"@,
                Page::Sessions => "Sessions"@,
                Page::Settings => "Settings"@,
                Page::Logs => "Logs"@,
                Page::Help => "Help"@,
            },
    {
        match self {
            Page::Dashboard => "Dashboard",
            Page::Ssh => "SSH",
            Page::Rdp => "Remote Desktop",
            Page::Profiles => "Profiles",
            Page::Sessions => "Sessions",
            Page::Settings => "Settings",
            Page::Logs => "Logs",
            Page::Help => "Help",
        }
    }

    /// Resolves a page name, defaulting to the dashboard.
    pub fn from_name(name: &str) -> (r: Self)
        ensures
            r == page_named(name@),
    {
        if same(name, "ssh") {
            Page::Ssh
        } else if same(name, "rdp") {
            Page::Rdp
        } else if same(name, "profiles") {
            Page::Profiles
        } else if same(name, "sessions") {
            Page::Sessions
        } else if same(name, "settings") {
            Page::Settings
        } else if same(name, "logs") {
            Page::Logs
        } else if same(name, "help") {
            Page::Help
        } else {
            Page::Dashboard
        }
    }
}

/// The page of a name; any other name stands for the dashboard.
pub open spec fn page_named(name: Seq<char>) -> Page {
    if name == "ssh"@ {
        Page::Ssh
    } else if name == "rdp"@ {
        Page::Rdp
    } else if name == "profiles"@ {
        Page::Profiles
    } else if name == "sessions"@ {
        Page::Sessions
    } else if name == "settings"@ {
        Page::Settings
    } else if name == "logs"@ {
        Page::Logs
    } else if name == "help"@ {
        Page::Help
    } else {
        Page::Dashboard
    }
}

/// Every page is found by its name, and a name that is no page's stands for the
/// dashboard.
pub proof fn page_names_round_trip(page: Page, name: Seq<char>)
    ensures
        page_named(page.id()) == page,
        (forall|p: Page| #[trigger] p.id() != name) ==> page_named(name) is Dashboard,
{
    reveal_strlit("dashboard");
    reveal_strlit("ssh");
    reveal_strlit("rdp");
    reveal_strlit("profiles");
    reveal_strlit("sessions");
    reveal_strlit("settings");
    reveal_strlit("logs");
    reveal_strlit("help");
    assert("dashboard"@.len() == 9);
    assert("ssh"@[0] == 's' && "rdp"@[0] == 'r');
    assert("profiles"@[0] == 'p');
    assert("sessions"@[2] == 's' && "settings"@[2] == 't');
    assert("logs"@[0] == 'l' && "help"@[0] == 'h');
    if forall|p: Page| #[trigger] p.id() != name {
        assert(Page::Ssh.id() != name);
        assert(Page::Rdp.id() != name);
        assert(Page::Profiles.id() != name);
        assert(Page::Sessions.id() != name);
        assert(Page::Settings.id() != name);
        assert(Page::Logs.id() != name);
        assert(Page::Help.id() != name);
    }
}

/// A colour.
#[derive(Debug, Clone, Copy, PartialEq, Eq, Structural)]
pub struct Rgb {
    /// Red.
    pub r: u8,
    /// Green.
    pub g: u8,
    /// Blue.
    pub b: u8,
}

/// A palette colour, in its plain or its brighter form.
#[derive(Debug, Clone, Copy, PartialEq, Eq, Structural)]
pub struct Shade {
    /// The plain colour.
    pub rgb: Rgb,
    /// The brighter form is meant.
    pub bright: bool,
}

/// The colour scheme in use.
#[derive(Debug, Clone, Copy, PartialEq, Eq, Structural)]
pub enum Palette {
    /// Follow the operating system.
    System,
    /// Light.
    Light,
    /// Dark.
    Dark,
}

/// Whether a palette has a dark background, given the `COLORFGBG` variable.
pub open spec fn dark(palette: Palette, colors: Option<Seq<char>>) -> bool {
    match palette {
        Palette::System => match colors {
            Some(value) => ";15"@.is_suffix_of(value),
            None => true,
        },
        Palette::Light => false,
        Palette::Dark => true,
    }
}

/// A colour of its three parts.
pub open spec fn rgb(r: u8, g: u8, b: u8) -> Rgb {
    Rgb { r, g, b }
}

/// The eight plain colours of a palette.
pub open spec fn base_colors(dark: bool) -> Seq<Rgb> {
    if dark {
        seq![
            rgb(63, 63, 70),
            rgb(248, 113, 113),
            rgb(74, 222, 128),
            rgb(250, 204, 21),
            rgb(96, 165, 250),
            rgb(232, 121, 249),
            rgb(34, 211, 238),
            rgb(212, 212, 216),
        ]
    } else {
        seq![
            rgb(28, 25, 23),
            rgb(185, 28, 28),
            rgb(21, 128, 61),
            rgb(161, 98, 7),
            rgb(29, 78, 216),
            rgb(126, 34, 206),
            rgb(14, 116, 144),
            rgb(87, 83, 78),
        ]
    }
}

/// The shade of an ANSI colour number; numbers past the sixteen ANSI colours show
/// like the last plain one.
pub open spec fn ansi_shade(dark: bool, index: u8) -> Shade {
    if index < 8 {
        Shade { rgb: base_colors(dark)[index as int], bright: false }
    } else if index < 16 {
        Shade { rgb: base_colors(dark)[index - 8], bright: true }
    } else {
        Shade { rgb: base_colors(dark)[7], bright: false }
    }
}

/// An optional borrowed text.
pub open spec fn str_option(o: Option<&str>) -> Option<Seq<char>> {
    match o {
        Some(text) => Some(text@),
        None => None,
    }
}

impl Palette {
    /// Maps a stored setting onto a palette.
    pub fn for_theme(theme: Theme) -> (r: Self)
        ensures
            r == match theme {
                Theme::System => Palette::System,
                Theme::Light => Palette::Light,
                Theme::Dark => Palette::Dark,
            },
    {
        match theme {
            Theme::System => Palette::System,
            Theme::Light => Palette::Light,
            Theme::Dark => Palette::Dark,
        }
    }

    /// True when a dark background should be used, given the `COLORFGBG` variable.
    pub fn is_dark(self, colors: Option<&str>) -> (r: bool)
        ensures
            r == dark(self, str_option(colors)),
    {
        match self {
            Palette::System => match colors {
                Some(value) => ends_with(value, ";15"),
                None => true,
            },
            Palette::Light => false,
            Palette::Dark => true,
        }
    }

    /// The terminal background colour, matching the default terminal theme.
    pub fn terminal_background(self, colors: Option<&str>) -> (r: Rgb)
        ensures
            r == if dark(self, str_option(colors)) {
                rgb(24, 24, 27)
            } else {
                rgb(250, 250, 249)
            },
    {
        if self.is_dark(colors) {
            Rgb { r: 24, g: 24, b: 27 }
        } else {
            Rgb { r: 250, g: 250, b: 249 }
        }
    }

    /// Maps one of the 16 ANSI colours onto a shade.
    pub fn ansi(self, index: u8, colors: Option<&str>) -> (r: Shade)
        ensures
            r == ansi_shade(dark(self, str_option(colors)), index),
    {
        let base: [Rgb; 8] = if self.is_dark(colors) {
            [
                Rgb { r: 63, g: 63, b: 70 },
                Rgb { r: 248, g: 113, b: 113 },
                Rgb { r: 74, g: 222, b: 128 },
                Rgb { r: 250, g: 204, b: 21 },
                Rgb { r: 96, g: 165, b: 250 },
                Rgb { r: 232, g: 121, b: 249 },
                Rgb { r: 34, g: 211, b: 238 },
                Rgb { r: 212, g: 212, b: 216 },
            ]
        } else {
            [
                Rgb { r: 28, g: 25, b: 23 },
                Rgb { r: 185, g: 28, b: 28 },
                Rgb { r: 21, g: 128, b: 61 },
                Rgb { r: 161, g: 98, b: 7 },
                Rgb { r: 29, g: 78, b: 216 },
                Rgb { r: 126, g: 34, b: 206 },
                Rgb { r: 14, g: 116, b: 144 },
                Rgb { r: 87, g: 83, b: 78 },
            ]
        };
        assert(base@ =~= base_colors(dark(self, str_option(colors))));
        if index < 8 {
            Shade { rgb: base[index as usize], bright: false }
        } else if index < 16 {
            Shade { rgb: base[(index - 8) as usize], bright: true }
        } else {
            Shade { rgb: base[7], bright: false }
        }
    }
}

/// How the text of a terminal cell is coloured.
#[derive(Debug, Clone, Copy, PartialEq, Eq, Structural)]
pub enum CellColor {
    /// The text colour of the interface.
    Text,
    /// A colour of the dark palette.
    Palette(Shade),
    /// An exact colour.
    Exact(Rgb),
}

/// The colour of the text of a terminal cell.
pub fn cell_color(color: Color) -> (r: CellColor)
    ensures
        r == match color {
            Color::Default => CellColor::Text,
            Color::Indexed(index) => CellColor::Palette(ansi_shade(true, index)),
            Color::Rgb(r, g, b) => CellColor::Exact(rgb(r, g, b)),
        },
{
    match color {
        Color::Default => CellColor::Text,
        Color::Indexed(index) => CellColor::Palette(Palette::Dark.ansi(index, None)),
        Color::Rgb(r, g, b) => CellColor::Exact(Rgb { r, g, b }),
    }
}

/// Work the interface asks a background task to perform.
#[derive(Debug)]
pub enum UiCommand {
    /// Connect using a profile.
    Connect {
        /// Profile identifier.
        profile: ProfileId,
        /// Geometry of the terminal or desktop view.
        size: (u32, u32),
    },
    /// Disconnect a session.
    Disconnect(SessionId),
    /// Send terminal input.
    TerminalInput {
        /// Session.
        session: SessionId,
        /// Bytes.
        data: Vec<u8>,
    },
    /// Resize a terminal or desktop.
    Resize {
        /// Session.
        session: SessionId,
        /// Columns or width.
        cols: u32,
        /// Rows or height.
        rows: u32,
    },
    /// Start an SFTP transfer.
    Transfer {
        /// Session.
        session: SessionId,
        /// Local path.
        local: String,
        /// Remote path.
        remote: String,
        /// True to upload.
        upload: bool,
    },
    /// Save the configuration.
    SaveConfig,
    /// Re-read the log files.
    RefreshLogs,
}

/// What the background task does with a command.
#[derive(Debug)]
pub enum WorkerStep {
    /// Write the configuration; [`save_status`] has the status line.
    Save,
    /// Show a status line.
    Show(String),
    /// Cancel a session and show a status line.
    Cancel(SessionId, String),
    /// Hand a command to a session.
    Send(SessionId, SessionCommand),
}

/// The status line for a connection.
pub open spec fn connecting_line(profile: Seq<u8>, size: (u32, u32)) -> Seq<char> {
    "connecting to profile "@ + hex_text(profile) + " at ("@ + decimal(size.0 as nat) + ", "@
        + decimal(size.1 as nat) + ")"@
}

/// Whether a step is what a command leads to.
pub open spec fn follows(command: UiCommand, step: WorkerStep) -> bool {
    match command {
        UiCommand::SaveConfig => step is Save,
        UiCommand::RefreshLogs => step is Show && step->Show_0@ == "logs refreshed"@,
        UiCommand::Connect { profile, size } => step is Show && step->Show_0@ == connecting_line(
            profile@,
            size,
        ),
        UiCommand::Disconnect(session) => step is Cancel && step->Cancel_0 == session
            && step->Cancel_1@ == "session disconnected"@,
        UiCommand::TerminalInput { session, data } => step is Send && step->Send_0 == session
            && step->Send_1 == SessionCommand::TerminalInput(data),
        UiCommand::Resize { session, cols, rows } => step is Send && step->Send_0 == session
            && step->Send_1 == (SessionCommand::Resize { cols, rows }),
        UiCommand::Transfer { session, local, remote, upload } => step is Send && step->Send_0
            == session && step->Send_1 == if upload {
            (SessionCommand::Upload { local, remote })
        } else {
            (SessionCommand::Download { remote, local })
        },
    }
}

/// What the background task does with a command.
pub fn worker_step(command: UiCommand) -> (r: WorkerStep)
    ensures
        follows(command, r),
{
    match command {
        UiCommand::SaveConfig => WorkerStep::Save,
        UiCommand::RefreshLogs => WorkerStep::Show("logs refreshed".to_owned()),
        UiCommand::Connect { profile, size } => {
            let mut line = "connecting to profile ".to_owned();
            line.push_str(profile.to_string().as_str());
            line.push_str(" at (");
            line.push_str(to_decimal(size.0 as u64).as_str());
            line.push_str(", ");
            line.push_str(to_decimal(size.1 as u64).as_str());
            line.push_str(")");
            WorkerStep::Show(line)
        },
        UiCommand::Disconnect(session) => WorkerStep::Cancel(
            session,
            "session disconnected".to_owned(),
        ),
        UiCommand::TerminalInput { session, data } => WorkerStep::Send(
            session,
            SessionCommand::TerminalInput(data),
        ),
        UiCommand::Resize { session, cols, rows } => WorkerStep::Send(
            session,
            SessionCommand::Resize { cols, rows },
        ),
        UiCommand::Transfer { session, local, remote, upload } => {
            let command = if upload {
                SessionCommand::Upload { local, remote }
            } else {
                SessionCommand::Download { remote, local }
            };
            WorkerStep::Send(session, command)
        },
    }
}

/// The status line after the configuration was written.
pub fn save_status(outcome: Result<(), RdtError>) -> (r: String)
    ensures
        r@ == match outcome {
            Ok(_) => "settings saved"@,
            Err(error) => "cannot save settings: "@ + rendered(error@),
        },
{
    match outcome {
        Ok(()) => "settings saved".to_owned(),
        Err(error) => concat2("cannot save settings: ", error.to_string().as_str()),
    }
}

/// The commands and the status line that the pages share.
#[derive(Debug)]
pub struct AppState {
    commands: Vec<UiCommand>,
    status: String,
}

impl AppState {
    /// The commands that wait for the background task, oldest first.
    pub closed spec fn queue(self) -> Seq<UiCommand> {
        self.commands@
    }

    /// The status line.
    pub closed spec fn line(self) -> Seq<char> {
        self.status@
    }

    /// A state with no commands and an empty status line.
    pub fn new() -> (r: Self)
        ensures
            r.queue() == Seq::<UiCommand>::empty(),
            r.line() == Seq::<char>::empty(),
    {
        let r = AppState { commands: Vec::new(), status: String::new() };
        assert(r.line() =~= Seq::<char>::empty());
        r
    }

    /// Queues a command for the background task.
    pub fn push(&mut self, command: UiCommand)
        ensures
            final(self).queue() == old(self).queue().push(command),
            final(self).line() == old(self).line(),
    {
        self.commands.push(command);
    }

    /// Takes every queued command.
    pub fn drain(&mut self) -> (r: Vec<UiCommand>)
        ensures
            r@ == old(self).queue(),
            final(self).queue() == Seq::<UiCommand>::empty(),
            final(self).line() == old(self).line(),
    {
        let mut taken: Vec<UiCommand> = Vec::new();
        std::mem::swap(&mut taken, &mut self.commands);
        taken
    }

    /// Sets the status line.
    pub fn set_status(&mut self, text: &str)
        ensures
            final(self).line() == text@,
            final(self).queue() == old(self).queue(),
    {
        self.status = text.to_owned();
    }

    /// The status line.
    pub fn status(&self) -> (r: &str)
        ensures
            r@ == self.line(),
    {
        self.status.as_str()
    }
}

/// What the window shows.
#[derive(Debug)]
pub struct App {
    /// Currently displayed page.
    pub page: Page,
    /// Palette in use.
    pub palette: Palette,
}

impl App {
    /// The window for some settings.
    pub fn new(settings: &Settings) -> (r: Self)
        ensures
            r.page == page_named(settings.ui.start_page@),
            r.palette == match settings.ui.theme {
                Theme::System => Palette::System,
                Theme::Light => Palette::Light,
                Theme::Dark => Palette::Dark,
            },
    {
        App {
            page: Page::from_name(settings.ui.start_page.as_str()),
            palette: Palette::for_theme(settings.ui.theme),
        }
    }

    /// Whether another frame is needed: only when something may change, so an idle
    /// window does not burn a processor core.
    pub fn needs_repaint(unsaved: bool, terminals: usize) -> (r: bool)
        ensures
            r == (unsaved || terminals > 0),
    {
        unsaved || terminals > 0
    }
}

/// The sign in front of a dependency on the dashboard.
pub fn dependency_icon(report: &DependencyReport) -> (r: &'static str)
    ensures
        r@ == if report.status is Available {
            "✅"@
        } else if report.optional {
            "➖"@
        } else {
            "❌"@
        },
{
    if report.available() {
        "✅"
    } else if report.optional {
        "➖"
    } else {
        "❌"
    }
}

/// The label of a profile on the dashboard.
pub open spec fn quick_label(profile: ConnectionProfile) -> Seq<char> {
    profile.name@ + " ("@ + host_port(profile.endpoint.host@, profile.endpoint.port) + ")"@
}

/// A button that connects to a profile.
#[derive(Debug)]
pub struct QuickConnect {
    /// The profile.
    pub profile: ProfileId,
    /// The label.
    pub label: String,
    /// The status line once it was pressed.
    pub status: String,
}

/// The buttons of the dashboard: one for each of the first eight profiles.
pub fn quick_connects(profiles: &Vec<&ConnectionProfile>) -> (r: Vec<QuickConnect>)
    ensures
        r@.len() == if profiles@.len() < 8 {
            profiles@.len()
        } else {
            8
        },
        forall|i: int|
            0 <= i < r@.len() ==> {
                &&& (#[trigger] r@[i]).profile == profiles@[i].id
                &&& r@[i].label@ == quick_label(*profiles@[i])
                &&& r@[i].status@ == "connecting to "@ + profiles@[i].name@
            },
{
    let mut r: Vec<QuickConnect> = Vec::new();
    let mut i: usize = 0;
    while i < profiles.len() && i < 8
        invariant
            i <= profiles@.len(),
            i <= 8,
            r@.len() == i,
            forall|k: int|
                0 <= k < i ==> {
                    &&& (#[trigger] r@[k]).profile == profiles@[k].id
                    &&& r@[k].label@ == quick_label(*profiles@[k])
                    &&& r@[k].status@ == "connecting to "@ + profiles@[k].name@
                },
        decreases profiles.len() - i,
    {
        let profile = profiles[i];
        r.push(
            QuickConnect {
                profile: profile.id,
                label: concat4(
                    profile.name.as_str(),
                    " (",
                    profile.address().as_str(),
                    ")",
                ),
                status: concat2("connecting to ", profile.name.as_str()),
            },
        );
        i = i + 1;
    }
    r
}

/// The profiles of a protocol, in order.
pub open spec fn of_protocol(profiles: Seq<&ConnectionProfile>, protocol: Protocol) -> Seq<
    &ConnectionProfile,
>
    decreases profiles.len(),
{
    if profiles.len() == 0 {
        Seq::empty()
    } else if profiles.last().protocol == protocol {
        of_protocol(profiles.drop_last(), protocol).push(profiles.last())
    } else {
        of_protocol(profiles.drop_last(), protocol)
    }
}

/// The profiles that the page of a protocol offers.
pub fn profiles_of<'a>(profiles: &Vec<&'a ConnectionProfile>, protocol: Protocol) -> (r: Vec<
    &'a ConnectionProfile,
>)
    ensures
        r@ == of_protocol(profiles@, protocol),
{
    let ghost all = profiles@;
    let mut r: Vec<&'a ConnectionProfile> = Vec::new();
    let mut i: usize = 0;
    assert(all.take(0) =~= Seq::<&ConnectionProfile>::empty());
    while i < profiles.len()
        invariant
            i <= profiles@.len(),
            all == profiles@,
            r@ == of_protocol(all.take(i as int), protocol),
        decreases profiles.len() - i,
    {
        assert(all.take(i + 1).drop_last() =~= all.take(i as int));
        assert(all.take(i + 1).last() == all[i as int]);
        if profiles[i].protocol == protocol {
            r.push(profiles[i]);
        }
        i = i + 1;
    }
    assert(all.take(all.len() as int) =~= all);
    r
}

/// The session that the page of a protocol shows: the first of that protocol.
pub fn shown_session(sessions: &Vec<SessionInfo>, protocol: Protocol) -> (r: Option<usize>)
    ensures
        match r {
            Some(i) => {
                &&& i < sessions@.len()
                &&& sessions@[i as int].protocol == protocol
                &&& forall|k: int| 0 <= k < i ==> (#[trigger] sessions@[k]).protocol != protocol
            },
            None => forall|k: int|
                0 <= k < sessions@.len() ==> (#[trigger] sessions@[k]).protocol != protocol,
        },
{
    let mut i: usize = 0;
    while i < sessions.len()
        invariant
            i <= sessions@.len(),
            forall|k: int| 0 <= k < i ==> (#[trigger] sessions@[k]).protocol != protocol,
        decreases sessions.len() - i,
    {
        if sessions[i].protocol == protocol {
            return Some(i);
        }
        i = i + 1;
    }
    None
}

/// A pointer position as it is sent to a remote desktop: both coordinates, most
/// significant byte first.
pub fn pointer_input(x: u16, y: u16) -> (r: SessionCommand)
    ensures
        r is RemoteInput,
        r->RemoteInput_0@ == seq![
            (x / 256) as u8,
            (x % 256) as u8,
            (y / 256) as u8,
            (y % 256) as u8,
        ],
{
    let mut bytes: Vec<u8> = Vec::new();
    bytes.push((x / 256) as u8);
    bytes.push((x % 256) as u8);
    bytes.push((y / 256) as u8);
    bytes.push((y % 256) as u8);
    assert(bytes@ =~= seq![
        (x / 256) as u8,
        (x % 256) as u8,
        (y / 256) as u8,
        (y % 256) as u8,
    ]);
    SessionCommand::RemoteInput(bytes)
}

/// The geometry that a page of a protocol asks for.
pub fn initial_size(protocol: Protocol) -> (r: (u32, u32))
    ensures
        r == match protocol {
            Protocol::Ssh => (80u32, 24u32),
            Protocol::Rdp => (1280u32, 800u32),
        },
{
    match protocol {
        Protocol::Ssh => (80, 24),
        Protocol::Rdp => (1280, 800),
    }
}

/// Creates a profile of a protocol from the profiles page and gives the status
/// line.
pub fn create_profile(store: &mut ConfigStore, protocol: Protocol) -> (r: String)
    ensures
        final(store).file() == old(store).file(),
        ({
            let name = new_profile_name(protocol);
            if crate::store::named(old(store).listing(), name) {
                &&& *final(store) == *old(store)
                &&& r@ == "cannot create the profile: "@ + rendered(crate::store::name_taken(name))
            } else {
                &&& r@ == "profile created"@
                &&& final(store).changed()
                &&& final(store).listing().len() == old(store).listing().len() + 1
                &&& final(store).listing().drop_last() == old(store).listing()
                &&& fresh_profile(final(store).listing().last(), protocol)
            }
        }),
{
    let name = match protocol {
        Protocol::Ssh => "new ssh",
        Protocol::Rdp => "new rdp",
    };
    let profile = ConnectionProfile::new(
        name,
        "host.example.com",
        ConnectionProfile::default_port(protocol),
        protocol,
    );
    proof {
        fresh_profiles_are_valid(profile, protocol);
    }
    match store.add(profile) {
        Ok(_) => {
            assert(store.listing().drop_last() =~= old(store).listing());
            "profile created".to_owned()
        },
        Err(error) => concat2("cannot create the profile: ", error.to_string().as_str()),
    }
}

/// The name of a profile that was just created.
pub open spec fn new_profile_name(protocol: Protocol) -> Seq<char> {
    match protocol {
        Protocol::Ssh => "new ssh"@,
        Protocol::Rdp => "new rdp"@,
    }
}

/// Whether a profile is one that was just created.
pub open spec fn fresh_profile(profile: ConnectionProfile, protocol: Protocol) -> bool {
    &&& profile.name@ == new_profile_name(protocol)
    &&& profile.endpoint.host@ == "host.example.com"@
    &&& profile.endpoint.port == protocol.port()
    &&& profile.protocol == protocol
    &&& profile.tags@ == Seq::<String>::empty()
    &&& crate::proto::ssh_defaults(profile.ssh)
    &&& crate::proto::rdp_defaults(profile.rdp)
}

proof fn fresh_profiles_are_valid(profile: ConnectionProfile, protocol: Protocol)
    requires
        fresh_profile(profile, protocol),
    ensures
        crate::profile::profile_problem(profile) is None,
{
    reveal_strlit("new ssh");
    reveal_strlit("new rdp");
    reveal_strlit("host.example.com");
    let name = profile.name@;
    let host = profile.endpoint.host@;
    assert(name.len() == 7);
    assert(name[0] == 'n');
    assert(name.last() == 'h' || name.last() == 'p');
    crate::text::trimmed_is_itself(name);
    crate::text::trimmed_is_itself(host);
    assert(vstd::utf8::is_ascii_chars(name));
    vstd::utf8::is_ascii_chars_encode_utf8(name);
}

/// Deletes a profile from the profiles page and gives the status line.
pub fn delete_profile(store: &mut ConfigStore, id: ProfileId) -> (r: String)
    ensures
        final(store).file() == old(store).file(),
        if crate::store::listed(old(store).listing(), id@) {
            &&& r@ == "profile deleted"@
            &&& final(store).changed()
            &&& final(store).listing() == crate::store::without(old(store).listing(), id@)
        } else {
            &&& r@ == "cannot delete: "@ + rendered(crate::store::profile_unknown(id@))
            &&& *final(store) == *old(store)
        },
{
    match store.remove(id) {
        Ok(()) => "profile deleted".to_owned(),
        Err(error) => concat2("cannot delete: ", error.to_string().as_str()),
    }
}

/// A label with its value.
#[derive(Debug, Clone, PartialEq, Eq)]
pub struct Detail {
    /// The label.
    pub label: String,
    /// The value.
    pub value: String,
}

/// The labels and values of details.
pub open spec fn detail_views(details: Seq<Detail>) -> Seq<(Seq<char>, Seq<char>)> {
    Seq::new(details.len(), |i: int| (details[i].label@, details[i].value@))
}

/// The name of a host key policy in the details of a profile.
pub open spec fn host_key_name(policy: HostKeyPolicy) -> Seq<char> {
    match policy {
        HostKeyPolicy::Strict => "Strict"@,
        HostKeyPolicy::AcceptNew => "AcceptNew"@,
    }
}

/// The name of a certificate policy in the details of a profile.
pub open spec fn certificate_name(policy: CertPolicy) -> Seq<char> {
    match policy {
        CertPolicy::Verify => "Verify"@,
        CertPolicy::VerifyOrPinned => "VerifyOrPinned"@,
        CertPolicy::TrustOnFirstUse => "TrustOnFirstUse"@,
    }
}

/// The details of a profile on the profiles page.
pub open spec fn profile_facts(profile: ConnectionProfile) -> Seq<(Seq<char>, Seq<char>)> {
    let own = match profile.protocol {
        Protocol::Ssh => seq![
            ("Host key policy"@, host_key_name(profile.ssh.host_key_policy)),
            ("Keepalive"@, decimal(profile.ssh.keepalive_secs as nat) + " s"@),
        ],
        Protocol::Rdp => seq![
            ("Certificate policy"@, certificate_name(profile.rdp.cert_policy)),
            (
                "Dynamic resize"@,
                if profile.rdp.dynamic_resize {
                    "yes"@
                } else {
                    "no"@
                },
            ),
        ],
    };
    let notes = if profile.notes@.len() > 0 {
        seq![("Notes"@, profile.notes@)]
    } else {
        Seq::empty()
    };
    seq![("Authentication"@, profile.auth.description())] + own + notes
}

fn detail(label: &str, value: &str) -> (r: Detail)
    ensures
        r.label@ == label@,
        r.value@ == value@,
{
    Detail { label: label.to_owned(), value: value.to_owned() }
}

/// The details of a profile on the profiles page.
pub fn profile_details(profile: &ConnectionProfile) -> (r: Vec<Detail>)
    ensures
        detail_views(r@) == profile_facts(*profile),
{
    let mut r: Vec<Detail> = Vec::new();
    r.push(detail("Authentication", profile.auth.describe()));
    match profile.protocol {
        Protocol::Ssh => {
            let policy = match profile.ssh.host_key_policy {
                HostKeyPolicy::Strict => "Strict",
                HostKeyPolicy::AcceptNew => "AcceptNew",
            };
            r.push(detail("Host key policy", policy));
            let keepalive = concat2(to_decimal(profile.ssh.keepalive_secs).as_str(), " s");
            r.push(detail("Keepalive", keepalive.as_str()));
        },
        Protocol::Rdp => {
            let policy = match profile.rdp.cert_policy {
                CertPolicy::Verify => "Verify",
                CertPolicy::VerifyOrPinned => "VerifyOrPinned",
                CertPolicy::TrustOnFirstUse => "TrustOnFirstUse",
            };
            r.push(detail("Certificate policy", policy));
            let resize = if profile.rdp.dynamic_resize {
                "yes"
            } else {
                "no"
            };
            r.push(detail("Dynamic resize", resize));
        },
    }
    if !profile.notes.as_str().is_empty() {
        r.push(detail("Notes", profile.notes.as_str()));
    }
    assert(detail_views(r@) =~= profile_facts(*profile));
    r
}

/// The words for a host key policy.
pub open spec fn host_key_words(policy: HostKeyPolicy) -> Seq<char> {
    match policy {
        HostKeyPolicy::Strict => "strict"@,
        HostKeyPolicy::AcceptNew => "accept new"@,
    }
}

/// The words for a certificate policy.
pub open spec fn certificate_words(policy: CertPolicy) -> Seq<char> {
    match policy {
        CertPolicy::Verify => "verify"@,
        CertPolicy::VerifyOrPinned => "verify or pinned"@,
        CertPolicy::TrustOnFirstUse => "trust on first use"@,
    }
}

/// Describes a host key policy in lower case words.
pub fn describe_host_keys(policy: HostKeyPolicy) -> (r: &'static str)
    ensures
        r@ == host_key_words(policy),
{
    match policy {
        HostKeyPolicy::Strict => "strict",
        HostKeyPolicy::AcceptNew => "accept new",
    }
}

/// Describes a certificate policy in lower case words.
pub fn describe_certificates(policy: CertPolicy) -> (r: &'static str)
    ensures
        r@ == certificate_words(policy),
{
    match policy {
        CertPolicy::Verify => "verify",
        CertPolicy::VerifyOrPinned => "verify or pinned",
        CertPolicy::TrustOnFirstUse => "trust on first use",
    }
}

/// The line on the profiles page that shows the safety defaults, so that the user
/// can see them enforced.
pub fn security_line() -> (r: String)
    ensures
        r@ == "host keys "@ + host_key_words(HostKeyPolicy::Strict) + " · certificates "@
            + certificate_words(CertPolicy::Verify)
            + " · secrets are stored in the OS keystore or the encrypted vault"@,
{
    concat5(
        "host keys ",
        describe_host_keys(HostKeyPolicy::Strict),
        " · certificates ",
        describe_certificates(CertPolicy::Verify),
        " · secrets are stored in the OS keystore or the encrypted vault",
    )
}

/// A row of the sessions page.
#[derive(Debug)]
pub struct SessionRow {
    /// Session identifier.
    pub id: String,
    /// Address.
    pub address: String,
    /// Protocol.
    pub protocol: String,
    /// State and its description.
    pub state: String,
    /// The status line once the session was opened.
    pub opened: String,
}

/// The row of the sessions page for a session.
pub fn session_row(info: &SessionInfo) -> (r: SessionRow)
    ensures
        r.id@ == hex_text(info.id@),
        r.address@ == info.address@,
        r.protocol@ == protocol_name(info.protocol),
        r.state@ == info.state.name() + " — "@ + info.detail@,
        r.opened@ == "switched to session "@ + hex_text(info.id@),
{
    SessionRow {
        id: info.id.to_string(),
        address: info.address.as_str().to_owned(),
        protocol: match info.protocol {
            Protocol::Ssh => "Ssh".to_owned(),
            Protocol::Rdp => "Rdp".to_owned(),
        },
        state: concat3(info.state.as_str(), " — ", info.detail.as_str()),
        opened: concat2("switched to session ", info.id.to_string().as_str()),
    }
}

/// Takes over edited settings when something was changed, and gives the status
/// line.
pub fn apply_settings(store: &mut ConfigStore, settings: Settings, edited: bool) -> (r: Option<
    String,
>)
    ensures
        final(store).file() == old(store).file(),
        edited ==> {
            &&& r is Some
            &&& r->0@ == "settings changed — press Save settings to write them"@
            &&& final(store).changed()
            &&& final(store).document() == (crate::store::Config {
                settings,
                ..old(store).document()
            })
        },
        !edited ==> r is None && *final(store) == *old(store),
{
    if !edited {
        return None;
    }
    store.set_settings(settings);
    Some("settings changed — press Save settings to write them".to_owned())
}

/// A dark or a light palette is what it says; the system's is dark unless the terminal
/// announces a background that is not dark.
pub proof fn palettes_are_dark_or_light(value: Seq<char>)
    ensures
        dark(Palette::Dark, Some(value)) && dark(Palette::Dark, None),
        !dark(Palette::Light, Some(value)) && !dark(Palette::Light, None),
        dark(Palette::System, None),
        dark(Palette::System, Some(value)) <==> (value.len() >= 3 && value.subrange(
            value.len() - 3,
            value.len() as int,
        ) == seq![';', '1', '5']),
{
    reveal_strlit(";15");
    assert(";15"@ =~= seq![';', '1', '5']);
}

/// The bright eight colours are those of the first eight, marked as bright; a number
/// beyond them is the last of the first.
pub proof fn bright_colors_repeat_the_first(is_dark: bool, index: u8)
    requires
        index < 8,
    ensures
        !ansi_shade(is_dark, index).bright,
        ansi_shade(is_dark, (index + 8) as u8).bright,
        ansi_shade(is_dark, (index + 8) as u8).rgb == ansi_shade(is_dark, index).rgb,
        ansi_shade(is_dark, 16) == ansi_shade(is_dark, 7),
        ansi_shade(is_dark, 255) == ansi_shade(is_dark, 7),
{
}

/// Each command of the window leads to its step, for the session that it names.
pub proof fn commands_lead_to_steps(command: UiCommand, step: WorkerStep)
    requires
        follows(command, step),
    ensures
        command is SaveConfig ==> step is Save,
        command is Connect || command is RefreshLogs ==> step is Show,
        command is Disconnect ==> step is Cancel && step->Cancel_0 == command->Disconnect_0,
        command is TerminalInput ==> step is Send && step->Send_0 == command->TerminalInput_session
            && step->Send_1 == SessionCommand::TerminalInput(command->TerminalInput_data),
        command is Resize ==> step is Send && step->Send_0 == command->Resize_session
            && step->Send_1 is Resize && step->Send_1->Resize_cols == command->Resize_cols
            && step->Send_1->Resize_rows == command->Resize_rows,
        command is Transfer && command->upload ==> step is Send && step->Send_0
            == command->Transfer_session && step->Send_1 is Upload && step->Send_1->Upload_local
            == command->local && step->Send_1->Upload_remote == command->remote,
        command is Transfer && !command->upload ==> step is Send && step->Send_0
            == command->Transfer_session && step->Send_1 is Download
            && step->Send_1->Download_local == command->local && step->Send_1->Download_remote
            == command->remote,
{
}

/// A page lists the profiles of its protocol, all of them and in order.
pub proof fn pages_list_their_profiles(
    profiles: Seq<&ConnectionProfile>,
    profile: &ConnectionProfile,
    protocol: Protocol,
)
    ensures
        of_protocol(Seq::empty(), protocol) == Seq::<&ConnectionProfile>::empty(),
        profile.protocol == protocol ==> of_protocol(profiles.push(profile), protocol)
            == of_protocol(profiles, protocol).push(profile),
        profile.protocol != protocol ==> of_protocol(profiles.push(profile), protocol)
            == of_protocol(profiles, protocol),
{
    assert(profiles.push(profile).drop_last() =~= profiles);
}

/// The words that describe the policies.
pub proof fn policies_have_words()
    ensures
        host_key_words(HostKeyPolicy::Strict) == "strict"@,
        host_key_words(HostKeyPolicy::AcceptNew) == "accept new"@,
        certificate_words(CertPolicy::Verify) == "verify"@,
        certificate_words(CertPolicy::VerifyOrPinned) == "verify or pinned"@,
        certificate_words(CertPolicy::TrustOnFirstUse) == "trust on first use"@,
        host_key_name(HostKeyPolicy::Strict) == "Strict"@,
        host_key_name(HostKeyPolicy::AcceptNew) == "AcceptNew"@,
        certificate_name(CertPolicy::Verify) == "Verify"@,
        certificate_name(CertPolicy::VerifyOrPinned) == "VerifyOrPinned"@,
        certificate_name(CertPolicy::TrustOnFirstUse) == "TrustOnFirstUse"@,
{
}

/// A new profile of a protocol has its port and safe settings.
pub proof fn new_profiles_are_safe(profile: ConnectionProfile, protocol: Protocol)
    requires
        fresh_profile(profile, protocol),
    ensures
        profile.protocol == protocol,
        protocol == Protocol::Ssh ==> profile.endpoint.port == 22 && profile.name@ == "new ssh"@,
        protocol == Protocol::Rdp ==> profile.endpoint.port == 3389 && profile.name@ == "new rdp"@,
        profile.ssh.host_key_policy == HostKeyPolicy::Strict,
        profile.rdp.cert_policy == CertPolicy::Verify,
{
}

/// A profile is labelled with its name and its address.
pub proof fn profiles_are_labelled(profile: ConnectionProfile)
    ensures
        quick_label(profile) == profile.name@ + " ("@ + profile.endpoint.host@ + ":"@ + decimal(
            profile.endpoint.port as nat,
        ) + ")"@,
{
    assert(quick_label(profile) =~= profile.name@ + " ("@ + profile.endpoint.host@ + ":"@ + decimal(
        profile.endpoint.port as nat,
    ) + ")"@);
}

/// The details of a profile start with how it authenticates, then show what its protocol
/// has to say, and end with the notes if there are any.
pub proof fn details_show_the_profile(profile: ConnectionProfile)
    ensures
        ({
            let facts = profile_facts(profile);
            &&& facts.len() == if profile.notes@.len() > 0 {
                4int
            } else {
                3
            }
            &&& facts[0] == ("Authentication"@, profile.auth.description())
            &&& profile.protocol == Protocol::Ssh ==> facts[1] == (
                "Host key policy"@,
                host_key_name(profile.ssh.host_key_policy),
            ) && facts[2] == (
                "Keepalive"@,
                decimal(profile.ssh.keepalive_secs as nat) + " s"@,
            )
            &&& profile.protocol == Protocol::Rdp ==> facts[1] == (
                "Certificate policy"@,
                certificate_name(profile.rdp.cert_policy),
            ) && facts[2].0 == "Dynamic resize"@
            &&& profile.notes@.len() > 0 ==> facts[3] == ("Notes"@, profile.notes@)
        }),
{
}

} // verus!
