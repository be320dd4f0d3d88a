//! Operating system description.
use crate::text::{
    chars_of, concat3, decimal, eq_ignore_ascii_case, find_char, first_at, first_at_finds, lines, lowered,
    part, same, split_lines, split_words, texts, to_decimal, trim, trimmed, words,
};
use vstd::prelude::*;

verus! {

/// The supported operating system families.
#[derive(Debug, Clone, Copy, PartialEq, Eq, Hash, Structural)]
pub enum OsFamily {
    /// Windows 10, Windows 11 and Windows Server 2016 and newer.
    Windows,
    /// Any Linux distribution using systemd or OpenRC.
    Linux,
    /// macOS (development machines only; not a supported deployment target).
    Macos,
    /// Anything else.
    Other,
}

impl OsFamily {
    /// The identifier of a family.
    pub open spec fn name(self) -> Seq<char> {
        match self {
            OsFamily::Windows => "windows"@,
            OsFamily::Linux => "linux"@,
            OsFamily::Macos => "macos"@,
            OsFamily::Other => "other"@,
        }
    }

    /// Stable identifier used in logs and telemetry.
    pub fn as_str(self) -> (r: &'static str)
        ensures
            r@ == self.name(),
    {
        match self {
            OsFamily::Windows => "windows",
            OsFamily::Linux => "linux",
            OsFamily::Macos => "macos",
            OsFamily::Other => "other",
        }
    }

    /// The text shown for a family.
    pub fn to_string(&self) -> (r: String)
        ensures
            r@ == self.name(),
    {
        self.as_str().to_owned()
    }

    /// Whether this family uses systemd as its service manager.
    pub fn uses_systemd(self) -> (r: bool)
        ensures
            r == self is Linux,
    {
        matches!(self, OsFamily::Linux)
    }

    /// Whether this family uses the Windows service control manager.
    pub fn uses_scm(self) -> (r: bool)
        ensures
            r == self is Windows,
    {
        matches!(self, OsFamily::Windows)
    }
}

/// A text without leading and trailing occurrences of a character.
pub open spec fn stripped_of(s: Seq<char>, c: char) -> Seq<char>
    decreases s.len(),
{
    if s.len() > 0 && s[0] == c {
        stripped_of(s.skip(1), c)
    } else if s.len() > 0 && s.last() == c {
        stripped_of(s.drop_last(), c)
    } else {
        s
    }
}

/// A text without leading and trailing occurrences of a character.
pub fn strip_char(s: &str, c: char) -> (r: String)
    ensures
        r@ == stripped_of(s@, c),
{
    let chars = chars_of(s);
    let mut from: usize = 0;
    let mut to: usize = chars.len();
    assert(s@.subrange(0, s@.len() as int) =~= s@);
    while from < to && chars[from] == c
        invariant
            from <= to,
            to == chars@.len(),
            chars@ == s@,
            stripped_of(s@, c) == stripped_of(s@.subrange(from as int, to as int), c),
        decreases to - from,
    {
        assert(s@.subrange(from as int, to as int).skip(1) =~= s@.subrange(from + 1, to as int));
        from = from + 1;
    }
    while from < to && chars[to - 1] == c
        invariant
            from <= to <= chars@.len(),
            chars@ == s@,
            from < to ==> chars@[from as int] != c,
            stripped_of(s@, c) == stripped_of(s@.subrange(from as int, to as int), c),
        decreases to - from,
    {
        assert(s@.subrange(from as int, to as int).drop_last() =~= s@.subrange(
            from as int,
            to - 1,
        ));
        to = to - 1;
    }
    part(&chars, from, to)
}

/// A value without the quotes around it.
pub open spec fn unquoted(value: Seq<char>) -> Seq<char> {
    stripped_of(stripped_of(trimmed(value), '"'), '\'')
}

fn unquote(value: &str) -> (r: String)
    ensures
        r@ == unquoted(value@),
{
    let inner = strip_char(trim(value).as_str(), '"');
    strip_char(inner.as_str(), '\'')
}

/// Linux distribution details parsed from `os-release`.
#[derive(Debug, Clone, PartialEq, Eq)]
pub struct DistroInfo {
    /// `ID` field, for example `ubuntu` or `rocky`.
    pub id: String,
    /// `NAME` field, for example `Ubuntu`.
    pub name: String,
    /// `VERSION_ID` field, for example `24.04`.
    pub version: String,
    /// `ID_LIKE` field, for example `rhel fedora`.
    pub like: Vec<String>,
}

/// What is known of a distribution.
pub ghost struct DistroView {
    /// `ID` field.
    pub id: Seq<char>,
    /// `NAME` field.
    pub name: Seq<char>,
    /// `VERSION_ID` field.
    pub version: Seq<char>,
    /// `ID_LIKE` field.
    pub like: Seq<Seq<char>>,
}

impl View for DistroInfo {
    type V = DistroView;

    open spec fn view(&self) -> DistroView {
        DistroView {
            id: self.id@,
            name: self.name@,
            version: self.version@,
            like: texts(self.like@),
        }
    }
}

impl Default for DistroInfo {
    fn default() -> (r: Self)
        ensures
            r@ == no_distro(),
    {
        let r = DistroInfo {
            id: String::new(),
            name: String::new(),
            version: String::new(),
            like: Vec::new(),
        };
        assert(r@.id =~= Seq::<char>::empty());
        assert(r@.name =~= Seq::<char>::empty());
        assert(r@.version =~= Seq::<char>::empty());
        assert(r@.like =~= Seq::<Seq<char>>::empty());
        r
    }
}

/// A distribution of which nothing is known.
pub open spec fn no_distro() -> DistroView {
    DistroView {
        id: Seq::empty(),
        name: Seq::empty(),
        version: Seq::empty(),
        like: Seq::empty(),
    }
}

/// What is known after one more line of `os-release`.
pub open spec fn line_read(info: DistroView, line: Seq<char>) -> DistroView {
    let text = trimmed(line);
    let at = first_at(text, '=');
    if at == text.len() {
        info
    } else {
        let key = trimmed(text.take(at));
        let value = unquoted(trimmed(text.skip(at + 1)));
        if key == "ID"@ {
            DistroView { id: value, ..info }
        } else if key == "NAME"@ {
            DistroView { name: value, ..info }
        } else if key == "VERSION_ID"@ {
            DistroView { version: value, ..info }
        } else if key == "ID_LIKE"@ {
            DistroView { like: words(value), ..info }
        } else {
            info
        }
    }
}

/// What is known after some lines of `os-release`.
pub open spec fn lines_read(content: Seq<Seq<char>>) -> DistroView
    decreases content.len(),
{
    if content.len() == 0 {
        no_distro()
    } else {
        line_read(lines_read(content.drop_last()), content.last())
    }
}

/// What an `os-release` file says; a distribution without a name goes by its
/// identifier.
pub open spec fn distro_parsed(content: Seq<char>) -> DistroView {
    let info = lines_read(lines(content));
    if info.name.len() == 0 && info.id.len() > 0 {
        DistroView { name: info.id, ..info }
    } else {
        info
    }
}

/// Whether a distribution is, or derives from, one of some families.
pub open spec fn of_family(info: DistroView, families: Seq<Seq<char>>) -> bool {
    exists|i: int|
        0 <= i < families.len() && (lowered(info.id) == lowered(#[trigger] families[i])
            || exists|j: int|
            0 <= j < info.like.len() && lowered(#[trigger] info.like[j]) == lowered(families[i]))
}

/// The texts of literals.
pub open spec fn literals(items: Seq<&str>) -> Seq<Seq<char>> {
    Seq::new(items.len(), |i: int| items[i]@)
}

/// The RHEL derived families that packages are shipped for.
pub open spec fn rhel_families() -> Seq<Seq<char>> {
    seq!["rhel"@, "centos"@, "fedora"@, "rocky"@, "almalinux"@]
}

/// The Debian derived families that packages are shipped for.
pub open spec fn debian_families() -> Seq<Seq<char>> {
    seq!["debian"@, "ubuntu"@]
}

impl DistroInfo {
    /// Parses the content of an `os-release` file.
    pub fn parse(content: &str) -> (r: Self)
        ensures
            r@ == distro_parsed(content@),
    {
        let mut info = DistroInfo::default();
        let all = split_lines(content);
        let ghost parts = lines(content@);
        let mut i: usize = 0;
        assert(parts.take(0) =~= Seq::<Seq<char>>::empty());
        while i < all.len()
            invariant
                i <= all@.len(),
                parts == texts(all@),
                info@ == lines_read(parts.take(i as int)),
            decreases all.len() - i,
        {
            assert(parts.take(i + 1).drop_last() =~= parts.take(i as int));
            assert(parts.take(i + 1).last() == all@[i as int]@);
            info = info.with_line(all[i].as_str());
            i = i + 1;
        }
        assert(parts.take(parts.len() as int) =~= parts);
        assert(parts == lines(content@));
        if info.name.as_str().is_empty() && !info.id.as_str().is_empty() {
            info.name = info.id.as_str().to_owned();
        }
        info
    }

    /// What is known after one more line of `os-release`.
    fn with_line(self, line: &str) -> (r: Self)
        ensures
            r@ == line_read(self@, line@),
    {
        let mut info = self;
        let text = trim(line);
        let chars = chars_of(text.as_str());
        proof {
            first_at_finds(text@, '=');
        }
        let at = find_char(chars.as_slice(), '=');
        if at == chars.len() {
            return info;
        }
        let before = part(&chars, 0, at);
        let after = part(&chars, at + 1, chars.len());
        proof {
            assert(before@ =~= text@.take(at as int));
            assert(after@ =~= text@.skip(at + 1));
        }
        let key = trim(before.as_str());
        let value = unquote(trim(after.as_str()).as_str());
        if same(key.as_str(), "ID") {
            info.id = value;
        } else if same(key.as_str(), "NAME") {
            info.name = value;
        } else if same(key.as_str(), "VERSION_ID") {
            info.version = value;
        } else if same(key.as_str(), "ID_LIKE") {
            info.like = split_words(value.as_str());
        }
        info
    }

    /// The first of some `os-release` files that names a distribution.
    pub fn from_files(contents: &Vec<String>) -> (r: Option<Self>)
        ensures
            match r {
                Some(info) => exists|i: int|
                    {
                        &&& 0 <= i < contents@.len()
                        &&& info@ == distro_parsed((#[trigger] contents@[i])@)
                        &&& info@.id.len() > 0
                        &&& forall|k: int|
                            0 <= k < i ==> distro_parsed((#[trigger] contents@[k])@).id.len() == 0
                    },
                None => forall|k: int|
                    0 <= k < contents@.len() ==> distro_parsed(
                        (#[trigger] contents@[k])@,
                    ).id.len() == 0,
            },
    {
        let mut i: usize = 0;
        while i < contents.len()
            invariant
                i <= contents@.len(),
                forall|k: int|
                    0 <= k < i ==> distro_parsed((#[trigger] contents@[k])@).id.len() == 0,
            decreases contents.len() - i,
        {
            let info = DistroInfo::parse(contents[i].as_str());
            if !info.id.as_str().is_empty() {
                assert(info@ == distro_parsed(contents@[i as int]@));
                return Some(info);
            }
            i = i + 1;
        }
        None
    }

    /// The RHEL derived families that packages are shipped for.
    pub const RHEL_LIKE: [&'static str; 5] = ["rhel", "centos", "fedora", "rocky", "almalinux"];

    /// The Debian derived families that packages are shipped for.
    pub const DEBIAN_LIKE: [&'static str; 2] = ["debian", "ubuntu"];

    /// Whether this distribution is one of the supported RHEL derivatives.
    pub fn is_rhel_like(&self) -> (r: bool)
        ensures
            r == of_family(self@, rhel_families()),
    {
        let families = Self::RHEL_LIKE;
        assert(literals(families@) =~= rhel_families());
        self.matches_family(families.as_slice())
    }

    /// Whether this distribution is one of the supported Debian derivatives.
    pub fn is_debian_like(&self) -> (r: bool)
        ensures
            r == of_family(self@, debian_families()),
    {
        let families = Self::DEBIAN_LIKE;
        assert(literals(families@) =~= debian_families());
        self.matches_family(families.as_slice())
    }

    /// Whether this distribution is, or derives from, one of some families.
    fn matches_family(&self, families: &[&str]) -> (r: bool)
        ensures
            r == of_family(self@, literals(families@)),
    {
        let ghost all = literals(families@);
        let mut i: usize = 0;
        while i < families.len()
            invariant
                i <= families@.len(),
                all == literals(families@),
                forall|k: int|
                    0 <= k < i ==> lowered(self@.id) != lowered(#[trigger] all[k]) && forall|j: int|
                        0 <= j < self@.like.len() ==> lowered(#[trigger] self@.like[j]) != lowered(
                            all[k],
                        ),
            decreases families.len() - i,
        {
            assert(all[i as int] == families@[i as int]@);
            if self.matches(families[i]) {
                return true;
            }
            i = i + 1;
        }
        false
    }

    /// Whether this distribution is, or derives from, a family.
    fn matches(&self, family: &str) -> (r: bool)
        ensures
            r == (lowered(self@.id) == lowered(family@) || exists|j: int|
                0 <= j < self@.like.len() && lowered(#[trigger] self@.like[j]) == lowered(
                    family@,
                )),
    {
        if eq_ignore_ascii_case(self.id.as_str(), family) {
            return true;
        }
        let mut i: usize = 0;
        while i < self.like.len()
            invariant
                i <= self.like@.len(),
                forall|j: int|
                    0 <= j < i ==> lowered(#[trigger] self@.like[j]) != lowered(family@),
            decreases self.like.len() - i,
        {
            assert(self@.like[i as int] == self.like@[i as int]@);
            if eq_ignore_ascii_case(self.like[i].as_str(), family) {
                return true;
            }
            i = i + 1;
        }
        false
    }

    /// Preferred package format for this distribution.
    pub fn package_format(&self) -> (r: &'static str)
        ensures
            r@ == if of_family(self@, debian_families()) {
                "deb"@
            } else if of_family(self@, rhel_families()) {
                "rpm"@
            } else {
                "tar.gz"@
            },
    {
        if self.is_debian_like() {
            "deb"
        } else if self.is_rhel_like() {
            "rpm"
        } else {
            "tar.gz"
        }
    }
}

/// Everything that needs to be known about the machine.
#[derive(Debug, Clone, PartialEq, Eq)]
pub struct PlatformInfo {
    /// Operating system family.
    pub os: OsFamily,
    /// Target architecture, for example `x86_64`.
    pub arch: String,
    /// Kernel or OS version string.
    pub os_version: String,
    /// Machine name.
    pub hostname: String,
    /// Linux distribution details (empty on other platforms).
    pub distro: Option<DistroInfo>,
    /// Whether the process runs with administrator privileges.
    pub elevated: bool,
    /// Whether a graphical session appears to be available.
    pub graphical_session: bool,
    /// Whether systemd is the active init system.
    pub systemd_active: bool,
    /// Display server in use (`x11`, `wayland` or empty).
    pub display_server: String,
}

/// How the system is named in the summary.
pub open spec fn system_name(distro: Option<DistroInfo>, os_version: Seq<char>) -> Seq<char> {
    match distro {
        Some(info) => if info.version@.len() == 0 {
            info.name@
        } else {
            info.name@ + " "@ + info.version@
        },
        None => os_version,
    }
}

impl PlatformInfo {
    /// One line summary suitable for the dashboard and `rdt doctor`.
    pub fn summary(&self) -> (r: String)
        ensures
            r@ == self.os.name() + " "@ + self.arch@ + " ("@ + system_name(
                self.distro,
                self.os_version@,
            ) + ") on "@ + self.hostname@,
    {
        let distro = match &self.distro {
            Some(info) => if info.version.as_str().is_empty() {
                info.name.as_str().to_owned()
            } else {
                concat3(info.name.as_str(), " ", info.version.as_str())
            },
            None => self.os_version.as_str().to_owned(),
        };
        let mut r = self.os.to_string();
        r.push_str(" ");
        r.push_str(self.arch.as_str());
        r.push_str(" (");
        r.push_str(distro.as_str());
        r.push_str(") on ");
        r.push_str(self.hostname.as_str());
        r
    }

    /// Whether installers are shipped for the platform.
    pub fn is_supported(&self) -> (r: bool)
        ensures
            r == match self.os {
                OsFamily::Windows => true,
                OsFamily::Linux => self.distro is Some && (of_family(
                    self.distro->0@,
                    debian_families(),
                ) || of_family(self.distro->0@, rhel_families())),
                _ => false,
            },
    {
        match self.os {
            OsFamily::Windows => true,
            OsFamily::Linux => match &self.distro {
                Some(info) => info.is_debian_like() || info.is_rhel_like(),
                None => false,
            },
            _ => false,
        }
    }
}

/// The display server in use, given what the environment says.
pub fn display_server(wayland_display: Option<&str>, x11_display: bool) -> (r: String)
    ensures
        r@ == if wayland_display is Some && wayland_display->0@.len() > 0 {
            "wayland"@
        } else if x11_display {
            "x11"@
        } else {
            Seq::<char>::empty()
        },
{
    if let Some(display) = wayland_display {
        if !display.is_empty() {
            return "wayland".to_owned();
        }
    }
    if x11_display {
        return "x11".to_owned();
    }
    let r = String::new();
    assert(r@ =~= Seq::<char>::empty());
    r
}

/// Whether a graphical session looks available (used to decide whether the
/// desktop client can be launched).
pub fn graphical_session(os: OsFamily, x11_display: bool, wayland_display: bool) -> (r: bool)
    ensures
        r == match os {
            OsFamily::Windows => true,
            OsFamily::Macos => true,
            OsFamily::Linux => x11_display || wayland_display,
            OsFamily::Other => false,
        },
{
    match os {
        OsFamily::Windows => true,
        OsFamily::Macos => true,
        OsFamily::Linux => x11_display || wayland_display,
        OsFamily::Other => false,
    }
}

/// The version of a Unix system from the names of the system and of its release.
pub fn unix_version(names: Option<(&str, &str)>) -> (r: String)
    ensures
        r@ == match names {
            Some(pair) => pair.0@ + " "@ + pair.1@,
            None => "unix"@,
        },
{
    match names {
        Some(pair) => concat3(pair.0, " ", pair.1),
        None => "unix".to_owned(),
    }
}

/// The version of Windows from its major, minor and build numbers.
pub fn windows_version(numbers: Option<(u32, u32, u32)>) -> (r: String)
    ensures
        r@ == match numbers {
            Some(version) => "Windows "@ + decimal(version.0 as nat) + "."@ + decimal(
                version.1 as nat,
            ) + "."@ + decimal(version.2 as nat) + " (build "@ + decimal(version.2 as nat) + ")"@,
            None => "Windows"@,
        },
{
    match numbers {
        Some(version) => {
            let build = to_decimal(version.2 as u64);
            let mut r = "Windows ".to_owned();
            r.push_str(to_decimal(version.0 as u64).as_str());
            r.push_str(".");
            r.push_str(to_decimal(version.1 as u64).as_str());
            r.push_str(".");
            r.push_str(build.as_str());
            r.push_str(" (build ");
            r.push_str(build.as_str());
            r.push_str(")");
            r
        },
        None => "Windows".to_owned(),
    }
}

/// The machine name in a buffer that ends at the first zero byte; a name that is
/// not text is replaced.
pub fn host_name(buffer: Option<Vec<u8>>) -> (r: String)
    ensures
        r@ == match buffer {
            Some(bytes) => if vstd::utf8::valid_utf8(until_zero(bytes@)) {
                vstd::utf8::decode_utf8(until_zero(bytes@))
            } else {
                "localhost"@
            },
            None => "localhost"@,
        },
{
    if let Some(bytes) = buffer {
        let mut name: Vec<u8> = Vec::new();
        let mut i: usize = 0;
        while i < bytes.len() && bytes[i] != 0
            invariant
                i <= bytes@.len(),
                name@ == bytes@.take(i as int),
                forall|k: int| 0 <= k < i ==> #[trigger] bytes@[k] != 0,
            decreases bytes.len() - i,
        {
            name.push(bytes[i]);
            assert(bytes@.take(i + 1) =~= bytes@.take(i as int).push(bytes@[i as int]));
            i = i + 1;
        }
        proof {
            until_zero_is(bytes@, i as int);
        }
        if let Some(text) = crate::text::utf8_text(name.as_slice()) {
            return text;
        }
    }
    "localhost".to_owned()
}

/// The bytes before the first zero byte, or all of them.
pub open spec fn until_zero(bytes: Seq<u8>) -> Seq<u8>
    decreases bytes.len(),
{
    if bytes.len() == 0 || bytes[0] == 0 {
        Seq::empty()
    } else {
        seq![bytes[0]] + until_zero(bytes.skip(1))
    }
}

proof fn until_zero_is(bytes: Seq<u8>, n: int)
    requires
        0 <= n <= bytes.len(),
        forall|k: int| 0 <= k < n ==> #[trigger] bytes[k] != 0,
        n < bytes.len() ==> bytes[n] == 0,
    ensures
        until_zero(bytes) == bytes.take(n),
    decreases n,
{
    if n == 0 {
        assert(until_zero(bytes) =~= bytes.take(0));
    } else {
        let rest = bytes.skip(1);
        assert forall|k: int| 0 <= k < n - 1 implies #[trigger] rest[k] != 0 by {
            assert(rest[k] == bytes[k + 1]);
        }
        until_zero_is(rest, n - 1);
        assert(bytes[0] != 0);
        assert(seq![bytes[0]] + rest.take(n - 1) =~= bytes.take(n));
    }
}

/// Quotes at the ends of a value are no part of it, however many there are; what stands
/// between them is.
pub proof fn quotes_are_stripped(value: Seq<char>, c: char)
    ensures
        value.len() == 0 || value[0] != c && value.last() != c ==> stripped_of(value, c) == value,
        stripped_of(seq![c] + value, c) == stripped_of(value, c),
{
    assert((seq![c] + value).skip(1) =~= value);
}

/// A line `KEY=value` sets the field of its key, without the quotes, and leaves the other
/// fields; a line with another key or without one sets nothing.
pub proof fn lines_set_their_fields(info: DistroView, line: Seq<char>)
    ensures
        ({
            let text = trimmed(line);
            let at = first_at(text, '=');
            let key = trimmed(text.take(at));
            let value = unquoted(trimmed(text.skip(at + 1)));
            let after = line_read(info, line);
            &&& at < text.len() && key == "ID"@ ==> after == (DistroView { id: value, ..info })
            &&& at < text.len() && key == "NAME"@ ==> after == (DistroView { name: value, ..info })
            &&& at < text.len() && key == "VERSION_ID"@ ==> after == (DistroView {
                version: value,
                ..info
            })
            &&& at < text.len() && key == "ID_LIKE"@ ==> after == (DistroView {
                like: words(value),
                ..info
            })
            &&& at == text.len() || (key != "ID"@ && key != "NAME"@ && key != "VERSION_ID"@ && key
                != "ID_LIKE"@) ==> after == info
        }),
{
    reveal_strlit("ID");
    reveal_strlit("NAME");
    reveal_strlit("VERSION_ID");
    reveal_strlit("ID_LIKE");
    assert("ID"@.len() == 2 && "NAME"@.len() == 4 && "VERSION_ID"@.len() == 10 && "ID_LIKE"@.len()
        == 7);
    crate::text::first_at_finds(trimmed(line), '=');
}

/// The lines are read in order, starting from nothing; a distribution without a name is
/// called by its identifier.
pub proof fn releases_are_read_line_by_line(content: Seq<Seq<char>>, line: Seq<char>, text: Seq<char>)
    ensures
        lines_read(Seq::empty()).id.len() == 0,
        lines_read(content.push(line)) == line_read(lines_read(content), line),
        lines_read(lines(text)).name.len() > 0 ==> distro_parsed(text) == lines_read(lines(text)),
        lines_read(lines(text)).name.len() == 0 && lines_read(lines(text)).id.len() > 0
            ==> distro_parsed(text).name == lines_read(lines(text)).id,
        distro_parsed(text).id == lines_read(lines(text)).id,
        distro_parsed(text).version == lines_read(lines(text)).version,
        distro_parsed(text).like == lines_read(lines(text)).like,
{
    assert(content.push(line).drop_last() =~= content);
}

/// A distribution belongs to a family by its own identifier or by one that it is like,
/// in any case.
pub proof fn families_are_told_by_identifiers(info: DistroView, j: int)
    ensures
        lowered(info.id) == lowered("fedora"@) || lowered(info.id) == lowered("rhel"@) || lowered(
            info.id,
        ) == lowered("centos"@) || lowered(info.id) == lowered("rocky"@) || lowered(info.id)
            == lowered("almalinux"@) ==> of_family(info, rhel_families()),
        lowered(info.id) == lowered("debian"@) || lowered(info.id) == lowered("ubuntu"@)
            ==> of_family(info, debian_families()),
        0 <= j < info.like.len() && (lowered(info.like[j]) == lowered("rhel"@) || lowered(
            info.like[j],
        ) == lowered("fedora"@) || lowered(info.like[j]) == lowered("centos"@)) ==> of_family(
            info,
            rhel_families(),
        ),
        0 <= j < info.like.len() && (lowered(info.like[j]) == lowered("debian"@) || lowered(
            info.like[j],
        ) == lowered("ubuntu"@)) ==> of_family(info, debian_families()),
{
    let r = rhel_families();
    let d = debian_families();
    assert(r[0] == "rhel"@ && r[1] == "centos"@ && r[2] == "fedora"@ && r[3] == "rocky"@ && r[4]
        == "almalinux"@);
    assert(d[0] == "debian"@ && d[1] == "ubuntu"@);
    if 0 <= j < info.like.len() {
        let like = info.like[j];
        assert(lowered(like) == lowered(info.like[j]));
    }
}

/// The names of the operating systems.
pub proof fn systems_have_names()
    ensures
        OsFamily::Windows.name() == "windows"@,
        OsFamily::Linux.name() == "linux"@,
        OsFamily::Macos.name() == "macos"@,
        OsFamily::Other.name() == "other"@,
{
}

/// A system is called by its distribution with its version, if there is one, and
/// otherwise by what the kernel says.
pub proof fn systems_are_called(distro: Option<DistroInfo>, os_version: Seq<char>)
    ensures
        distro is None ==> system_name(distro, os_version) == os_version,
        distro is Some && distro->0.version@.len() == 0 ==> system_name(distro, os_version)
            == distro->0.name@,
        distro is Some && distro->0.version@.len() > 0 ==> system_name(distro, os_version)
            == distro->0.name@ + " "@ + distro->0.version@,
{
}

/// A text in a fixed field ends at its first zero.
pub proof fn fields_end_at_zero(text: Seq<u8>, rest: Seq<u8>)
    requires
        forall|i: int| 0 <= i < text.len() ==> #[trigger] text[i] != 0,
    ensures
        until_zero(text) == text,
        until_zero(text + seq![0u8] + rest) == text,
    decreases text.len(),
{
    let s = text + seq![0u8] + rest;
    if text.len() > 0 {
        let short = text.skip(1);
        assert forall|i: int| 0 <= i < short.len() implies #[trigger] short[i] != 0 by {
            assert(short[i] == text[i + 1]);
        }
        fields_end_at_zero(short, rest);
        assert(s.skip(1) =~= short + seq![0u8] + rest);
        assert(seq![text[0]] + short =~= text);
        assert(s[0] == text[0]);
    } else {
        assert(s[0] == 0);
        assert(text =~= Seq::<u8>::empty());
    }
}

} // verus!
