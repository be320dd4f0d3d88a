//! Application wide settings (everything that is not a connection profile).
use crate::proto::{terminal_defaults, TerminalOptions};
use vstd::prelude::*;

verus! {

/// Version of the on-disk document produced by this build.
pub const CURRENT_SCHEMA_VERSION: u32 = 1;

/// Colour theme.
#[derive(Debug, Clone, Copy, PartialEq, Eq, Structural)]
pub enum Theme {
    /// Follow the operating system.
    System,
    /// Light background.
    Light,
    /// Dark background.
    Dark,
}

impl Default for Theme {
    fn default() -> (r: Self)
        ensures
            r == Theme::System,
    {
        Theme::System
    }
}

/// Verbosity of the rotating log files.
#[derive(Debug, Clone, Copy, PartialEq, Eq, Structural)]
pub enum LogLevel {
    /// Only errors.
    Error,
    /// Errors and warnings.
    Warn,
    /// Normal operational detail.
    Info,
    /// Protocol level detail; can be large.
    Debug,
    /// Everything, including tracing spans.
    Trace,
}

impl Default for LogLevel {
    fn default() -> (r: Self)
        ensures
            r == LogLevel::Info,
    {
        LogLevel::Info
    }
}

impl LogLevel {
    /// The name of the level filter.
    pub open spec fn filter_name(self) -> Seq<char> {
        match self {
            LogLevel::Error => "error"@,
            LogLevel::Warn => "warn"@,
            LogLevel::Info => "info"@,
            LogLevel::Debug => "debug"@,
            LogLevel::Trace => "trace"@,
        }
    }

    /// The level filter matching this setting.
    pub fn as_filter(self) -> (r: &'static str)
        ensures
            r@ == self.filter_name(),
    {
        match self {
            LogLevel::Error => "error",
            LogLevel::Warn => "warn",
            LogLevel::Info => "info",
            LogLevel::Debug => "debug",
            LogLevel::Trace => "trace",
        }
    }
}

/// Interface preferences.
#[derive(Debug, Clone, PartialEq)]
pub struct UiSettings {
    /// Colour theme.
    pub theme: Theme,
    /// Interface scale in percent.
    pub ui_scale_percent: u16,
    /// Show the status bar at the bottom of the window.
    pub show_status_bar: bool,
    /// Page shown after start up.
    pub start_page: String,
    /// Confirm before closing an active session.
    pub confirm_disconnect: bool,
    /// Wrap text in the log viewer.
    pub wrap_logs: bool,
}

/// The interface preferences of a new configuration.
pub open spec fn ui_defaults(s: UiSettings) -> bool {
    &&& s.theme is System
    &&& s.ui_scale_percent == 100
    &&& s.show_status_bar
    &&& s.start_page@ == "dashboard"@
    &&& s.confirm_disconnect
    &&& !s.wrap_logs
}

impl Default for UiSettings {
    fn default() -> (r: Self)
        ensures
            ui_defaults(r),
    {
        UiSettings {
            theme: Theme::default(),
            ui_scale_percent: 100,
            show_status_bar: true,
            start_page: "dashboard".to_owned(),
            confirm_disconnect: true,
            wrap_logs: false,
        }
    }
}

/// Security relevant preferences.
#[derive(Debug, Clone, Copy, PartialEq, Eq, Structural)]
pub struct SecuritySettings {
    /// Copy text from a remote session to the local clipboard.
    pub allow_remote_to_local_clipboard: bool,
    /// Send local clipboard text to a remote session.
    pub allow_local_to_remote_clipboard: bool,
    /// Redact anything that looks like a secret before it reaches a log file.
    pub redact_logs: bool,
    /// Lock the vault after this many idle minutes (0 disables the timer).
    pub vault_lock_after_minutes: u32,
    /// Forget an SSH agent forwarding socket as soon as a session ends.
    pub revoke_agent_forwarding_on_disconnect: bool,
}

/// The security preferences of a new configuration.
pub open spec fn security_defaults() -> SecuritySettings {
    SecuritySettings {
        allow_remote_to_local_clipboard: true,
        allow_local_to_remote_clipboard: true,
        redact_logs: true,
        vault_lock_after_minutes: 15,
        revoke_agent_forwarding_on_disconnect: true,
    }
}

impl Default for SecuritySettings {
    fn default() -> (r: Self)
        ensures
            r == security_defaults(),
    {
        SecuritySettings {
            allow_remote_to_local_clipboard: true,
            allow_local_to_remote_clipboard: true,
            redact_logs: true,
            vault_lock_after_minutes: 15,
            revoke_agent_forwarding_on_disconnect: true,
        }
    }
}

/// Session behaviour defaults applied to new profiles.
#[derive(Debug, Clone, Copy, PartialEq, Eq, Structural)]
pub struct SessionSettings {
    /// Maximum number of concurrent sessions.
    pub max_concurrent_sessions: usize,
    /// Keep sessions alive when the window is minimised.
    pub keep_alive_when_minimised: bool,
    /// Write an audit record for every connection state change.
    pub audit_connections: bool,
    /// Days of audit history to keep (0 keeps everything).
    pub audit_retention_days: u32,
}

/// The session behaviour of a new configuration.
pub open spec fn session_defaults() -> SessionSettings {
    SessionSettings {
        max_concurrent_sessions: 16,
        keep_alive_when_minimised: true,
        audit_connections: true,
        audit_retention_days: 90,
    }
}

impl Default for SessionSettings {
    fn default() -> (r: Self)
        ensures
            r == session_defaults(),
    {
        SessionSettings {
            max_concurrent_sessions: 16,
            keep_alive_when_minimised: true,
            audit_connections: true,
            audit_retention_days: 90,
        }
    }
}

/// The `[settings]` table of the configuration document.
#[derive(Debug, Clone, PartialEq)]
pub struct Settings {
    /// Interface preferences.
    pub ui: UiSettings,
    /// Security preferences.
    pub security: SecuritySettings,
    /// Session defaults.
    pub session: SessionSettings,
    /// Terminal defaults applied to new SSH profiles.
    pub terminal: TerminalOptions,
    /// Verbosity written to the rotating log files.
    pub log_level: LogLevel,
    /// Largest single log file before rotation, in mebibytes.
    pub log_max_mib: u32,
    /// Number of rotated log files to keep.
    pub log_keep: usize,
}

/// The settings of a new configuration.
pub open spec fn settings_defaults(s: Settings) -> bool {
    &&& ui_defaults(s.ui)
    &&& s.security == security_defaults()
    &&& s.session == session_defaults()
    &&& terminal_defaults(s.terminal)
    &&& s.log_level is Info
    &&& s.log_max_mib == 16
    &&& s.log_keep == 5
}

impl Default for Settings {
    fn default() -> (r: Self)
        ensures
            settings_defaults(r),
    {
        Settings {
            ui: UiSettings::default(),
            security: SecuritySettings::default(),
            session: SessionSettings::default(),
            terminal: TerminalOptions::default(),
            log_level: LogLevel::default(),
            log_max_mib: 16,
            log_keep: 5,
        }
    }
}

/// A new configuration is careful: logs are redacted, the vault locks after a quarter of
/// an hour, disconnecting is confirmed, connections are audited for ninety days, and at
/// most sixteen sessions run at once.
pub proof fn defaults_are_careful(s: Settings)
    requires
        settings_defaults(s),
    ensures
        s.security.redact_logs,
        s.security.vault_lock_after_minutes == 15,
        s.security.revoke_agent_forwarding_on_disconnect,
        s.security.allow_remote_to_local_clipboard && s.security.allow_local_to_remote_clipboard,
        s.session.max_concurrent_sessions == 16,
        s.session.audit_connections && s.session.audit_retention_days == 90,
        s.session.keep_alive_when_minimised,
        s.ui.theme == Theme::System && s.ui.ui_scale_percent == 100 && s.ui.confirm_disconnect
            && s.ui.show_status_bar && !s.ui.wrap_logs && s.ui.start_page@ == "dashboard"@,
        s.log_level == LogLevel::Info && s.log_max_mib == 16 && s.log_keep == 5,
{
}

/// The levels have the names of the log filters.
pub proof fn levels_have_filter_names()
    ensures
        LogLevel::Error.filter_name() == "error"@,
        LogLevel::Warn.filter_name() == "warn"@,
        LogLevel::Info.filter_name() == "info"@,
        LogLevel::Debug.filter_name() == "debug"@,
        LogLevel::Trace.filter_name() == "trace"@,
{
}

} // verus!
