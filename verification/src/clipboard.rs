//! Clipboard bridging between the remote desktop and the local machine.
//!
//! On Linux the clipboard is owned by another process (a clipboard manager or the
//! compositor), so the well known helpers are used: `wl-copy`/`wl-paste` under
//! Wayland and `xclip`/`xsel` under X11.
use crate::error::{fail, ErrorCode, RdtError, RdtErrorView, RdtResult};
use crate::text::{concat3, concat4, text_from_utf8, texts, utf8_complaint};
use vstd::prelude::*;

verus! {

/// A clipboard format negotiated with the server.
#[derive(Debug, Clone, Copy, PartialEq, Eq, Structural)]
pub enum ClipboardFormat {
    /// UTF-8 text.
    Text,
    /// A list of file names.
    FileList,
    /// An image in PNG encoding.
    Png,
}

/// A clipboard operation to apply locally.
#[derive(Debug, Clone, PartialEq, Eq)]
pub enum ClipboardOperation {
    /// Put this text on the local clipboard.
    SetText(String),
    /// Read the local clipboard as text.
    GetText,
}

/// Which clipboard helper is used on Unix.
#[derive(Debug, Clone, Copy, PartialEq, Eq, Structural)]
pub enum UnixClipboard {
    /// Wayland.
    Wayland,
    /// X11.
    X11,
    /// No helper available.
    Missing,
}

/// What a desktop offers: which display servers run and which helper programs
/// are installed.
#[derive(Debug, Clone, Copy, PartialEq, Eq, Structural)]
pub struct DesktopTools {
    /// A Wayland display is set.
    pub wayland_display: bool,
    /// An X11 display is set.
    pub x11_display: bool,
    /// `wl-copy` is installed.
    pub wl_copy: bool,
    /// `xclip` is installed.
    pub xclip: bool,
    /// `xsel` is installed.
    pub xsel: bool,
}

impl DesktopTools {
    /// The helper that serves the clipboard.
    pub open spec fn backend(self) -> UnixClipboard {
        if self.wayland_display && self.wl_copy {
            UnixClipboard::Wayland
        } else if self.x11_display && (self.xclip || self.xsel) {
            UnixClipboard::X11
        } else {
            UnixClipboard::Missing
        }
    }
}

/// A helper program to run and what to feed to it.
#[derive(Debug, Clone, PartialEq, Eq)]
pub struct HelperCall {
    /// Program name.
    pub program: String,
    /// Arguments.
    pub args: Vec<String>,
    /// Text for its standard input.
    pub input: Option<String>,
}

/// What a helper call says.
pub ghost struct HelperCallView {
    /// Program name.
    pub program: Seq<char>,
    /// Arguments.
    pub args: Seq<Seq<char>>,
    /// Text for its standard input.
    pub input: Option<Seq<char>>,
}

impl View for HelperCall {
    type V = HelperCallView;

    open spec fn view(&self) -> HelperCallView {
        HelperCallView {
            program: self.program@,
            args: texts(self.args@),
            input: match self.input {
                Some(text) => Some(text@),
                None => None,
            },
        }
    }
}

/// How a helper program ended.
#[derive(Debug)]
pub enum HelperOutcome {
    /// It could not be started.
    NotStarted(String),
    /// Its standard input could not be written.
    NotWritten(String),
    /// It could not be waited for.
    NotAwaited(String),
    /// It reported a failure with this status.
    Refused(String),
    /// It succeeded with this output.
    Printed(Vec<u8>),
}

/// The failure of a disabled direction towards the local clipboard.
pub open spec fn copy_disabled() -> RdtErrorView {
    fail(
        ErrorCode::Permission,
        "copying from the remote session to the local clipboard is disabled"@,
    )
}

/// The failure of a disabled direction towards the remote session.
pub open spec fn paste_disabled() -> RdtErrorView {
    fail(
        ErrorCode::Permission,
        "pasting from the local clipboard to the remote session is disabled"@,
    )
}

/// The failure of a desktop without a helper.
pub open spec fn helper_missing() -> RdtErrorView {
    fail(
        ErrorCode::Platform,
        "no clipboard helper is available; install wl-clipboard or xclip"@,
    )
}

/// The helper call that puts a text on the clipboard.
pub open spec fn copy_call(tools: DesktopTools, text: Seq<char>) -> Result<
    HelperCallView,
    RdtErrorView,
> {
    match tools.backend() {
        UnixClipboard::Wayland => Ok(
            HelperCallView {
                program: "wl-copy"@,
                args: seq!["--type"@, "text/plain"@],
                input: Some(text),
            },
        ),
        UnixClipboard::X11 => Ok(
            if tools.xclip {
                HelperCallView {
                    program: "xclip"@,
                    args: seq!["-selection"@, "clipboard"@],
                    input: Some(text),
                }
            } else {
                HelperCallView {
                    program: "xsel"@,
                    args: seq!["--clipboard"@, "--input"@],
                    input: Some(text),
                }
            },
        ),
        UnixClipboard::Missing => Err(helper_missing()),
    }
}

/// The helper call that reads the clipboard.
pub open spec fn paste_call(tools: DesktopTools) -> Result<HelperCallView, RdtErrorView> {
    match tools.backend() {
        UnixClipboard::Wayland => Ok(
            HelperCallView { program: "wl-paste"@, args: seq!["--no-newline"@], input: None },
        ),
        UnixClipboard::X11 => Ok(
            if tools.xclip {
                HelperCallView {
                    program: "xclip"@,
                    args: seq!["-selection"@, "clipboard"@, "-out"@],
                    input: None,
                }
            } else {
                HelperCallView {
                    program: "xsel"@,
                    args: seq!["--clipboard"@, "--output"@],
                    input: None,
                }
            },
        ),
        UnixClipboard::Missing => Err(helper_missing()),
    }
}

/// A helper call with its arguments given as literals.
pub fn helper(program: &str, args: &[&str], input: Option<&str>) -> (r: HelperCall)
    ensures
        r@.program == program@,
        r@.args == Seq::new(args@.len(), |i: int| args@[i]@),
        r@.input == match input {
            Some(text) => Some(text@),
            None => None,
        },
{
    let mut owned: Vec<String> = Vec::new();
    let mut i: usize = 0;
    while i < args.len()
        invariant
            i <= args@.len(),
            owned@.len() == i,
            forall|k: int| 0 <= k < i ==> (#[trigger] owned@[k])@ == args@[k]@,
        decreases args.len() - i,
    {
        owned.push(args[i].to_owned());
        i = i + 1;
    }
    assert(texts(owned@) =~= Seq::new(args@.len(), |i: int| args@[i]@));
    HelperCall {
        program: program.to_owned(),
        args: owned,
        input: match input {
            Some(text) => Some(text.to_owned()),
            None => None,
        },
    }
}

/// Bridges the remote and local clipboards.
#[derive(Debug, Clone, Copy, PartialEq, Eq, Structural)]
pub struct ClipboardBridge {
    remote_to_local: bool,
    local_to_remote: bool,
}

impl ClipboardBridge {
    /// Whether text may reach the local clipboard.
    pub closed spec fn copies(self) -> bool {
        self.remote_to_local
    }

    /// Whether text may reach the remote session.
    pub closed spec fn pastes(self) -> bool {
        self.local_to_remote
    }

    /// Creates a bridge honouring the user's security settings.
    pub fn new(remote_to_local: bool, local_to_remote: bool) -> (r: Self)
        ensures
            r.copies() == remote_to_local,
            r.pastes() == local_to_remote,
    {
        ClipboardBridge { remote_to_local, local_to_remote }
    }

    /// True when text may flow from the remote session to the local clipboard.
    pub fn allows_remote_to_local(&self) -> (r: bool)
        ensures
            r == self.copies(),
    {
        self.remote_to_local
    }

    /// True when text may flow from the local clipboard to the remote session.
    pub fn allows_local_to_remote(&self) -> (r: bool)
        ensures
            r == self.pastes(),
    {
        self.local_to_remote
    }

    /// Picks the clipboard helper for a desktop.
    pub fn detect_unix_backend(tools: DesktopTools) -> (r: UnixClipboard)
        ensures
            r == tools.backend(),
    {
        if tools.wayland_display && tools.wl_copy {
            return UnixClipboard::Wayland;
        }
        if tools.x11_display && (tools.xclip || tools.xsel) {
            return UnixClipboard::X11;
        }
        UnixClipboard::Missing
    }

    /// Whether text may be placed on the local clipboard.
    ///
    /// # Errors
    ///
    /// Returns [`ErrorCode::Permission`] when the policy forbids it.
    pub fn permit_copy(&self) -> (r: RdtResult<()>)
        ensures
            r is Ok <==> self.copies(),
            r is Err ==> r->Err_0@ == copy_disabled(),
    {
        if !self.remote_to_local {
            return Err(
                RdtError::new(
                    ErrorCode::Permission,
                    "copying from the remote session to the local clipboard is disabled",
                ),
            );
        }
        Ok(())
    }

    /// Whether the local clipboard may be read.
    ///
    /// # Errors
    ///
    /// Returns [`ErrorCode::Permission`] when the policy forbids it.
    pub fn permit_paste(&self) -> (r: RdtResult<()>)
        ensures
            r is Ok <==> self.pastes(),
            r is Err ==> r->Err_0@ == paste_disabled(),
    {
        if !self.local_to_remote {
            return Err(
                RdtError::new(
                    ErrorCode::Permission,
                    "pasting from the local clipboard to the remote session is disabled",
                ),
            );
        }
        Ok(())
    }

    /// The helper that places text on the local clipboard.
    ///
    /// # Errors
    ///
    /// Returns [`ErrorCode::Permission`] when the policy forbids it, whatever the
    /// desktop offers, and [`ErrorCode::Platform`] when no clipboard is available.
    pub fn set_local_text(&self, text: &str, tools: DesktopTools) -> (r: RdtResult<HelperCall>)
        ensures
            ({
                let expected = if self.copies() {
                    copy_call(tools, text@)
                } else {
                    Err(copy_disabled())
                };
                match r {
                    Ok(call) => expected == Ok::<HelperCallView, RdtErrorView>(call@),
                    Err(error) => expected == Err::<HelperCallView, RdtErrorView>(error@),
                }
            }),
    {
        if let Err(error) = self.permit_copy() {
            return Err(error);
        }
        match Self::detect_unix_backend(tools) {
            UnixClipboard::Wayland => {
                let r = helper("wl-copy", &["--type", "text/plain"], Some(text));
                assert(r@.args =~= seq!["--type"@, "text/plain"@]);
                Ok(r)
            },
            UnixClipboard::X11 => {
                if tools.xclip {
                    let r = helper("xclip", &["-selection", "clipboard"], Some(text));
                    assert(r@.args =~= seq!["-selection"@, "clipboard"@]);
                    Ok(r)
                } else {
                    let r = helper("xsel", &["--clipboard", "--input"], Some(text));
                    assert(r@.args =~= seq!["--clipboard"@, "--input"@]);
                    Ok(r)
                }
            },
            UnixClipboard::Missing => Err(
                RdtError::new(
                    ErrorCode::Platform,
                    "no clipboard helper is available; install wl-clipboard or xclip",
                ),
            ),
        }
    }

    /// The helper that reads the local clipboard as text.
    ///
    /// # Errors
    ///
    /// Returns [`ErrorCode::Permission`] when the policy forbids it, whatever the
    /// desktop offers, and [`ErrorCode::Platform`] when no clipboard is available.
    pub fn local_text(&self, tools: DesktopTools) -> (r: RdtResult<HelperCall>)
        ensures
            ({
                let expected = if self.pastes() {
                    paste_call(tools)
                } else {
                    Err(paste_disabled())
                };
                match r {
                    Ok(call) => expected == Ok::<HelperCallView, RdtErrorView>(call@),
                    Err(error) => expected == Err::<HelperCallView, RdtErrorView>(error@),
                }
            }),
    {
        if let Err(error) = self.permit_paste() {
            return Err(error);
        }
        match Self::detect_unix_backend(tools) {
            UnixClipboard::Wayland => {
                let r = helper("wl-paste", &["--no-newline"], None);
                assert(r@.args =~= seq!["--no-newline"@]);
                Ok(r)
            },
            UnixClipboard::X11 => {
                if tools.xclip {
                    let r = helper("xclip", &["-selection", "clipboard", "-out"], None);
                    assert(r@.args =~= seq!["-selection"@, "clipboard"@, "-out"@]);
                    Ok(r)
                } else {
                    let r = helper("xsel", &["--clipboard", "--output"], None);
                    assert(r@.args =~= seq!["--clipboard"@, "--output"@]);
                    Ok(r)
                }
            },
            UnixClipboard::Missing => Err(
                RdtError::new(
                    ErrorCode::Platform,
                    "no clipboard helper is available; install wl-clipboard or xclip",
                ),
            ),
        }
    }
}

/// The text that a helper printed, or why there is none.
pub open spec fn helper_text(program: Seq<char>, outcome: HelperOutcome) -> Result<
    Seq<char>,
    RdtErrorView,
> {
    match outcome {
        HelperOutcome::NotStarted(reason) => Err(
            fail(ErrorCode::Platform, "cannot run "@ + program + ": "@ + reason@),
        ),
        HelperOutcome::NotWritten(reason) => Err(
            fail(ErrorCode::Platform, "cannot write to "@ + program + ": "@ + reason@),
        ),
        HelperOutcome::NotAwaited(reason) => Err(
            fail(ErrorCode::Platform, program + " failed: "@ + reason@),
        ),
        HelperOutcome::Refused(status) => Err(
            fail(ErrorCode::Platform, program + " exited with "@ + status@),
        ),
        HelperOutcome::Printed(bytes) => if vstd::utf8::valid_utf8(bytes@) {
            Ok(vstd::utf8::decode_utf8(bytes@))
        } else {
            Err(
                fail(
                    ErrorCode::Platform,
                    program + " returned invalid UTF-8: "@ + utf8_complaint(bytes@),
                ),
            )
        },
    }
}

/// Turns the end of a helper program into its text.
///
/// # Errors
///
/// Returns [`ErrorCode::Platform`] unless the program succeeded and printed text.
pub fn helper_result(program: &str, outcome: HelperOutcome) -> (r: RdtResult<String>)
    ensures
        match r {
            Ok(text) => helper_text(program@, outcome) == Ok::<Seq<char>, RdtErrorView>(text@),
            Err(error) => helper_text(program@, outcome) == Err::<Seq<char>, RdtErrorView>(error@),
        },
{
    let message = match outcome {
        HelperOutcome::NotStarted(reason) => concat4(
            "cannot run ",
            program,
            ": ",
            reason.as_str(),
        ),
        HelperOutcome::NotWritten(reason) => concat4(
            "cannot write to ",
            program,
            ": ",
            reason.as_str(),
        ),
        HelperOutcome::NotAwaited(reason) => concat3(program, " failed: ", reason.as_str()),
        HelperOutcome::Refused(status) => concat3(program, " exited with ", status.as_str()),
        HelperOutcome::Printed(bytes) => match text_from_utf8(bytes) {
            Ok(text) => {
                return Ok(text);
            },
            Err(reason) => concat3(program, " returned invalid UTF-8: ", reason.as_str()),
        },
    };
    Err(RdtError::new(ErrorCode::Platform, message.as_str()))
}

/// The clipboard of Wayland is used where its display and its tool are there, and that
/// of X11 where its display and one of its tools are; Wayland comes first.
pub proof fn desktops_have_their_clipboard(tools: DesktopTools)
    ensures
        tools.wayland_display && tools.wl_copy ==> tools.backend() == UnixClipboard::Wayland,
        !(tools.wayland_display && tools.wl_copy) && tools.x11_display && (tools.xclip
            || tools.xsel) ==> tools.backend() == UnixClipboard::X11,
        !(tools.wayland_display && tools.wl_copy) && !(tools.x11_display && (tools.xclip
            || tools.xsel)) ==> tools.backend() == UnixClipboard::Missing,
{
}

/// Copying hands the text to the tool, and pasting asks the same clipboard for it;
/// without a tool both are refused.
pub proof fn clipboard_tools_are_called(tools: DesktopTools, text: Seq<char>)
    ensures
        copy_call(tools, text) is Ok <==> tools.backend() != UnixClipboard::Missing,
        paste_call(tools) is Ok <==> tools.backend() != UnixClipboard::Missing,
        copy_call(tools, text) is Ok ==> copy_call(tools, text)->Ok_0.input == Some(text),
        paste_call(tools) is Ok ==> paste_call(tools)->Ok_0.input is None,
        copy_call(tools, text) is Err ==> copy_call(tools, text)->Err_0.code
            == ErrorCode::Platform,
        tools.backend() == UnixClipboard::Wayland ==> copy_call(tools, text)->Ok_0.program
            == "wl-copy"@ && paste_call(tools)->Ok_0.program == "wl-paste"@,
        tools.backend() == UnixClipboard::X11 && tools.xclip ==> copy_call(
            tools,
            text,
        )->Ok_0.program == "xclip"@ && copy_call(tools, text)->Ok_0.args == seq![
            "-selection"@,
            "clipboard"@,
        ] && paste_call(tools)->Ok_0.program == "xclip"@ && paste_call(tools)->Ok_0.args == seq![
            "-selection"@,
            "clipboard"@,
            "-out"@,
        ],
        tools.backend() == UnixClipboard::X11 && !tools.xclip ==> copy_call(
            tools,
            text,
        )->Ok_0.program == "xsel"@ && copy_call(tools, text)->Ok_0.args == seq![
            "--clipboard"@,
            "--input"@,
        ] && paste_call(tools)->Ok_0.program == "xsel"@ && paste_call(tools)->Ok_0.args == seq![
            "--clipboard"@,
            "--output"@,
        ],
{
}

/// What a tool printed is the text when it is UTF-8; whatever went wrong is a failure of
/// the platform.
pub proof fn printed_text_is_taken(program: Seq<char>, outcome: HelperOutcome)
    ensures
        helper_text(program, outcome) is Ok <==> outcome is Printed && vstd::utf8::valid_utf8(
            outcome->Printed_0@,
        ),
        helper_text(program, outcome) is Ok ==> helper_text(program, outcome)->Ok_0
            == vstd::utf8::decode_utf8(outcome->Printed_0@),
        helper_text(program, outcome) is Err ==> helper_text(program, outcome)->Err_0.code
            == ErrorCode::Platform,
{
}

/// A direction that is switched off is refused for want of permission.
pub proof fn disabled_directions_are_refused()
    ensures
        copy_disabled().code == ErrorCode::Permission,
        paste_disabled().code == ErrorCode::Permission,
        helper_missing().code == ErrorCode::Platform,
{
}

} // verus!
