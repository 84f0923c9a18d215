//! A tunnel from the internet to the server.

use vstd::prelude::*;

use crate::paths;
use crate::text;

verus! {

// ---------------------------------------------------------------------------
// The address of the tunnel
// ---------------------------------------------------------------------------

/// Whether a character may stand in the name of a tunnel. A name of several parts has dots.
pub open spec fn is_name_char(c: char, dots: bool) -> bool {
    ('a' <= c && c <= 'z') || ('A' <= c && c <= 'Z') || ('0' <= c && c <= '9') || c == '-' || (dots
        && c == '.')
}

/// Whether a text is the address of a tunnel: `https://`, a name, and the domain of tunnels.
pub open spec fn is_tunnel_url(m: Seq<char>, dots: bool) -> bool {
    let from = "https://"@.len();
    let to = m.len() - ".trycloudflare.com"@.len();
    &&& from < to
    &&& text::starts_with(m, "https://"@)
    &&& text::ends_with(m, ".trycloudflare.com"@)
    &&& forall|k: int| from <= k < to ==> is_name_char(#[trigger] m[k], dots)
}

/// Where the longest address ends that starts at `i` and ends at `j` or before.
pub open spec fn url_end(s: Seq<char>, i: int, j: int, dots: bool) -> Option<int>
    decreases j - i,
{
    if j <= i {
        None
    } else if is_tunnel_url(s.subrange(i, j), dots) {
        Some(j)
    } else {
        url_end(s, i, j - 1, dots)
    }
}

/// The first address of a tunnel in a text from a place on, and the longest that starts there.
pub open spec fn url_from(s: Seq<char>, i: int, dots: bool) -> Option<Seq<char>>
    decreases s.len() - i,
{
    if i >= s.len() {
        None
    } else {
        match url_end(s, i, s.len() as int, dots) {
            Some(j) => Some(s.subrange(i, j)),
            None => url_from(s, i + 1, dots),
        }
    }
}

/// The first address of a tunnel in a text.
pub open spec fn first_url(s: Seq<char>, dots: bool) -> Option<Seq<char>> {
    url_from(s, 0, dots)
}

/// Looks for one of the two patterns of addresses with `regex::Regex::new` and `regex::Regex::find`:
/// what is found is the first address in the text, the longest that starts at its place.
#[verifier::external_body]
fn find_match(pattern: &str, s: &str) -> (r: Option<String>)
    requires
        pattern@ == tunnel_pattern() || pattern@ == long_tunnel_pattern(),
    ensures
        text::opt_view(r) == first_url(s@, pattern@ == long_tunnel_pattern()),
{
    let re = regex::Regex::new(pattern).ok()?;
    re.find(s).map(|m| m.as_str().to_string())
}

/// The place of the first blank of a text, from a place on.
pub open spec fn blank_from(s: Seq<char>, from: int) -> int
    decreases s.len() - from,
{
    if from < 0 || from >= s.len() || text::is_space(s[from]) {
        from
    } else {
        blank_from(s, from + 1)
    }
}

/// What starts with `https://` in a line, up to the first blank.
pub open spec fn plain_url(line: Seq<char>) -> Option<Seq<char>> {
    match text::find_from(line, "https://"@, 0) {
        Some(start) => Some(line.subrange(start, blank_from(line, start))),
        None => None,
    }
}

/// The address in a line, given the parts that the two patterns match.
pub open spec fn url_in(
    line: Seq<char>,
    first: Option<Seq<char>>,
    second: Option<Seq<char>>,
) -> Option<Seq<char>> {
    if first is Some {
        first
    } else if second is Some {
        second
    } else {
        plain_url(line)
    }
}

/// The address in a line, given the parts that the two patterns match.
pub fn choose_url(line: &str, first: Option<String>, second: Option<String>) -> (r: Option<String>)
    ensures
        text::opt_view(r) == url_in(line@, text::opt_view(first), text::opt_view(second)),
{
    if first.is_some() {
        return first;
    }
    if second.is_some() {
        return second;
    }
    let chars = text::to_chars(line);
    let mark = text::to_chars("https://");
    proof {
        text::find_is_first(line@, "https://"@, 0);
    }
    match text::find_in(&chars, &mark, 0) {
        Some(start) => {
            let mut end: usize = start;
            while end < chars.len() && !text::is_space_char(chars[end])
                invariant
                    chars@ == line@,
                    start <= end <= chars@.len(),
                    blank_from(line@, start as int) == blank_from(line@, end as int),
                decreases chars@.len() - end,
            {
                end = end + 1;
            }
            Some(text::from_range(&chars, start, end))
        },
        None => None,
    }
}

/// The pattern of the address of a tunnel.
pub open spec fn tunnel_pattern() -> Seq<char> {
    "https://[a-zA-Z0-9-]+\\.trycloudflare\\.com"@
}

/// The pattern of the address of a tunnel whose name has several parts.
pub open spec fn long_tunnel_pattern() -> Seq<char> {
    "https://[a-zA-Z0-9.-]+\\.trycloudflare\\.com"@
}

/// The address in a line: that of a tunnel, else what looks like one.
pub open spec fn line_url(line: Seq<char>) -> Option<Seq<char>> {
    url_in(line, first_url(line, false), first_url(line, true))
}

/// The address in a line.
pub fn extract_url_from_line(line: &str) -> (r: Option<String>)
    ensures
        text::opt_view(r) == line_url(line@),
{
    proof {
        reveal_strlit("https://[a-zA-Z0-9-]+\\.trycloudflare\\.com");
        reveal_strlit("https://[a-zA-Z0-9.-]+\\.trycloudflare\\.com");
        assert(tunnel_pattern().len() < long_tunnel_pattern().len());
    }
    let first = find_match("https://[a-zA-Z0-9-]+\\.trycloudflare\\.com", line);
    let second = find_match("https://[a-zA-Z0-9.-]+\\.trycloudflare\\.com", line);
    choose_url(line, first, second)
}

/// The address of a tunnel that is found is a part of the text.
proof fn url_is_a_part(s: Seq<char>, i: int, dots: bool)
    requires
        0 <= i,
    ensures
        url_from(s, i, dots) matches Some(m) ==> text::holds(s, m) && is_tunnel_url(m, dots),
    decreases s.len() - i,
{
    if i < s.len() {
        end_is_inside(s, i, s.len() as int, dots);
        match url_end(s, i, s.len() as int, dots) {
            Some(j) => {
                assert(text::stands_at(s, s.subrange(i, j), i));
            },
            None => {
                url_is_a_part(s, i + 1, dots);
            },
        }
    }
}

proof fn end_is_inside(s: Seq<char>, i: int, j: int, dots: bool)
    ensures
        url_end(s, i, j, dots) matches Some(k) ==> i < k <= j && is_tunnel_url(
            s.subrange(i, k),
            dots,
        ),
    decreases j - i,
{
    if j > i {
        end_is_inside(s, i, j - 1, dots);
    }
}

/// The address that is found in a line is a part of it, starts with `https://`, and holds no blank.
pub proof fn line_url_is_an_address(line: Seq<char>)
    ensures
        line_url(line) matches Some(url) ==> {
            &&& text::holds(line, url)
            &&& text::starts_with(url, "https://"@)
            &&& forall|k: int| 0 <= k < url.len() ==> !text::is_space(#[trigger] url[k])
        },
{
    url_is_a_part(line, 0, false);
    url_is_a_part(line, 0, true);
    if line_url(line) is Some {
        let url = line_url(line)->0;
        reveal_strlit("https://");
        if first_url(line, false) is Some {
            tunnel_urls_hold_no_blank(url, false);
        } else if first_url(line, true) is Some {
            tunnel_urls_hold_no_blank(url, true);
        } else {
            text::find_is_first(line, "https://"@, 0);
            let start = text::find_from(line, "https://"@, 0)->0;
            let end = blank_from(line, start);
            blank_is_within(line, start);
            no_blank_before(line, start);
            assert(text::stands_at(line, url, start));
            assert forall|k: int| 0 <= k < 8 implies !text::is_space(
                #[trigger] line[start + k],
            ) by {
                assert(line.subrange(start, start + 8)[k] == "https://"@[k]);
            }
            if end < start + 8 {
                let k = end - start;
                assert(!text::is_space(line[start + k]));
            }
            assert(url.subrange(0, 8) =~= line.subrange(start, start + 8));
            assert forall|k: int| 0 <= k < url.len() implies !text::is_space(
                #[trigger] url[k],
            ) by {
                assert(url[k] == line[start + k]);
            }
        }
    }
}

proof fn tunnel_urls_hold_no_blank(m: Seq<char>, dots: bool)
    requires
        is_tunnel_url(m, dots),
    ensures
        forall|k: int| 0 <= k < m.len() ==> !text::is_space(#[trigger] m[k]),
{
    reveal_strlit("https://");
    reveal_strlit(".trycloudflare.com");
    let to = m.len() - ".trycloudflare.com"@.len();
    assert forall|k: int| 0 <= k < m.len() implies !text::is_space(#[trigger] m[k]) by {
        if k < 8 {
            assert(m.subrange(0, 8)[k] == "https://"@[k]);
        } else if k >= to {
            assert(m.subrange(to, m.len() as int)[k - to] == ".trycloudflare.com"@[k - to]);
        } else {
            assert(is_name_char(m[k], dots));
        }
    }
}

/// Before the first blank there is none.
proof fn no_blank_before(s: Seq<char>, from: int)
    requires
        0 <= from <= s.len(),
    ensures
        forall|k: int| from <= k < blank_from(s, from) ==> !text::is_space(#[trigger] s[k]),
        blank_from(s, from) < s.len() ==> text::is_space(s[blank_from(s, from)]),
    decreases s.len() - from,
{
    if from < s.len() && !text::is_space(s[from]) {
        no_blank_before(s, from + 1);
    }
}

/// A blank is looked for within the text.
proof fn blank_is_within(s: Seq<char>, from: int)
    requires
        0 <= from <= s.len(),
    ensures
        from <= blank_from(s, from) <= s.len(),
    decreases s.len() - from,
{
    if from < s.len() && !text::is_space(s[from]) {
        blank_is_within(s, from + 1);
    }
}

/// The address of the tunnel after a line, given the address in it.
pub open spec fn url_after(
    url: Option<Seq<char>>,
    line: Seq<char>,
    found: Option<Seq<char>>,
) -> Option<Seq<char>> {
    if (text::holds(line, "trycloudflare.com"@) || text::holds(line, "https://"@)) && found is Some {
        found
    } else {
        url
    }
}

/// What is known of a tunnel.
pub struct CloudflaredTunnel {
    pub running: bool,
    pub public_url: Option<String>,
}

/// What follows a look at the address of the tunnel.
#[derive(Debug)]
pub enum TunnelWait {
    Ready(String),
    Wait,
    TimedOut,
}

/// How many times the address of the tunnel is looked at.
pub const TUNNEL_ATTEMPTS: usize = 30;

/// How long it takes until the address is looked at again, in milliseconds.
pub const TUNNEL_WAIT_MS: u64 = 100;

impl CloudflaredTunnel {
    /// A tunnel that is not open.
    pub fn new() -> (r: CloudflaredTunnel)
        ensures
            !r.running,
            r.public_url is None,
    {
        CloudflaredTunnel { running: false, public_url: None }
    }

    /// The arguments of the program that opens a tunnel to a port.
    pub fn arguments(local_port: u16) -> (r: Vec<String>)
        ensures
            text::views(r@) == seq![
                "tunnel"@,
                "--url"@,
                "http://localhost:"@ + text::decimal(local_port as nat),
            ],
    {
        let mut url = "http://localhost:".to_owned();
        url.append(text::decimal_text(local_port as u128).as_str());
        let mut out: Vec<String> = Vec::new();
        out.push("tunnel".to_owned());
        out.push("--url".to_owned());
        out.push(url);
        assert(text::views(out@) =~= seq![
            "tunnel"@,
            "--url"@,
            "http://localhost:"@ + text::decimal(local_port as nat),
        ]);
        out
    }

    /// The program that opens the tunnel was started.
    pub fn started(&mut self)
        ensures
            final(self).running,
            final(self).public_url == old(self).public_url,
    {
        self.running = true;
    }

    /// The program wrote a line.
    pub fn read_line(&mut self, line: &str)
        ensures
            final(self).running == old(self).running,
            text::opt_view(final(self).public_url) == url_after(
                text::opt_view(old(self).public_url),
                line@,
                line_url(line@),
            ),
    {
        let found = extract_url_from_line(line);
        self.take_url(line, found);
    }

    /// The program wrote a line, which holds an address or none.
    pub fn take_url(&mut self, line: &str, found: Option<String>)
        ensures
            final(self).running == old(self).running,
            text::opt_view(final(self).public_url) == url_after(
                text::opt_view(old(self).public_url),
                line@,
                text::opt_view(found),
            ),
    {
        if text::text_holds(line, "trycloudflare.com") || text::text_holds(line, "https://") {
            if let Some(url) = found {
                self.public_url = Some(url);
            }
        }
    }

    /// Looks at the address of the tunnel. `looks` counts the looks before this one.
    pub fn wait(&self, looks: usize) -> (r: TunnelWait)
        ensures
            match self.public_url {
                Some(url) => r matches TunnelWait::Ready(u) && u@ == url@,
                None => if looks + 1 < TUNNEL_ATTEMPTS {
                    r is Wait
                } else {
                    r is TimedOut
                },
            },
    {
        match &self.public_url {
            Some(url) => TunnelWait::Ready(url.clone()),
            None => if looks < TUNNEL_ATTEMPTS - 1 {
                TunnelWait::Wait
            } else {
                TunnelWait::TimedOut
            },
        }
    }

    /// What is said when the tunnel gets no address in time.
    pub fn timeout_message() -> (r: String)
        ensures
            r@ == "Failed to get public URL from cloudflared within timeout"@,
    {
        "Failed to get public URL from cloudflared within timeout".to_owned()
    }

    /// The address of the tunnel.
    pub fn get_public_url(&self) -> (r: Option<String>)
        ensures
            text::opt_view(r) == text::opt_view(self.public_url),
    {
        match &self.public_url {
            Some(u) => Some(u.clone()),
            None => None,
        }
    }

    /// Closes the tunnel. Says whether a program is to be ended.
    pub fn stop(&mut self) -> (r: bool)
        ensures
            r == old(self).running,
            !final(self).running,
            final(self).public_url is None,
    {
        let running = self.running;
        self.running = false;
        self.public_url = None;
        running
    }

    /// Whether the tunnel is open.
    pub fn is_running(&self) -> (r: bool)
        ensures
            r == self.running,
    {
        self.running
    }
}

// ---------------------------------------------------------------------------
// Installing the program
// ---------------------------------------------------------------------------

/// The system that the program is installed on.
#[derive(Debug, Clone, Copy, PartialEq, Eq, Structural)]
pub enum Platform {
    Linux,
    MacOs,
    Windows,
    Other,
}

/// The machine that the program is installed on.
#[derive(Debug)]
pub struct Machine {
    pub platform: Platform,
    pub arch: String,
    pub temp_dir: String,
    pub program_files: Option<String>,
}

/// What is being done to install the program.
#[derive(Debug, Clone, Copy, PartialEq, Eq, Structural)]
pub enum InstallState {
    Start,
    FindDnf,
    RunDnf,
    FindApt,
    DownloadDeb,
    RunDpkg,
    FindBrew,
    RunBrew,
    DownloadArchive,
    ExtractArchive,
    MoveBinary,
    FindChoco,
    RunChoco,
    FindScoop,
    RunScoop,
    DownloadExe,
    DownloadBinary,
    MakeExecutable,
}

/// How a command ended: it could not be started, or it ended and says whether it succeeded.
#[derive(Debug)]
pub enum CommandOutcome {
    NotStarted(String),
    Ended(bool),
}

/// What is done next.
#[derive(Debug)]
pub enum InstallMove {
    Run { state: InstallState, command: Vec<String> },
    Done,
    Failed(String),
}

/// What is done next.
pub ghost enum MoveView {
    Run { state: InstallState, command: Seq<Seq<char>> },
    Done,
    Failed(Seq<char>),
}

impl View for InstallMove {
    type V = MoveView;

    open spec fn view(&self) -> MoveView {
        match self {
            InstallMove::Run { state, command } => MoveView::Run {
                state: *state,
                command: text::views(command@),
            },
            InstallMove::Done => MoveView::Done,
            InstallMove::Failed(e) => MoveView::Failed(e@),
        }
    }
}

/// Where the program is put.
pub open spec fn install_path() -> Seq<char> {
    "/usr/local/bin/cloudflared"@
}

/// Where the program is put on Windows.
pub open spec fn exe_path(m: Machine) -> Seq<char> {
    (match m.program_files {
        Some(p) => p@,
        None => "C:\\Program Files"@,
    }) + "\\cloudflared\\cloudflared.exe"@
}

/// Where the releases of the program are.
pub open spec fn release(file: Seq<char>) -> Seq<char> {
    "https://github.com/cloudflare/cloudflared/releases/latest/download/"@ + file
}

/// The file to download for a state.
pub open spec fn release_file(state: InstallState, arch: Seq<char>) -> Option<Seq<char>> {
    match state {
        InstallState::DownloadDeb => if arch == "x86_64"@ {
            Some("cloudflared-linux-amd64.deb"@)
        } else if arch == "aarch64"@ {
            Some("cloudflared-linux-arm64.deb"@)
        } else {
            None
        },
        InstallState::DownloadBinary => if arch == "x86_64"@ {
            Some("cloudflared-linux-amd64"@)
        } else if arch == "aarch64"@ {
            Some("cloudflared-linux-arm64"@)
        } else {
            None
        },
        InstallState::DownloadArchive => if arch == "x86_64"@ || arch == "aarch64"@ {
            Some("cloudflared-darwin-amd64.tgz"@)
        } else {
            None
        },
        InstallState::DownloadExe => if arch == "x86_64"@ {
            Some("cloudflared-windows-amd64.exe"@)
        } else {
            None
        },
        _ => None,
    }
}

/// The command of a state, where `url` is what is downloaded.
pub open spec fn command_of(state: InstallState, m: Machine, url: Seq<char>) -> Seq<Seq<char>> {
    match state {
        InstallState::Start => Seq::empty(),
        InstallState::FindDnf => seq!["which"@, "dnf"@],
        InstallState::RunDnf => seq!["sudo"@, "dnf"@, "install"@, "-y"@, "cloudflared"@],
        InstallState::FindApt => seq!["which"@, "apt-get"@],
        InstallState::DownloadDeb => seq![
            "curl"@,
            "-L"@,
            "-o"@,
            paths::joined(m.temp_dir@, "cloudflared.deb"@),
            url,
        ],
        InstallState::RunDpkg => seq![
            "sudo"@,
            "dpkg"@,
            "-i"@,
            paths::joined(m.temp_dir@, "cloudflared.deb"@),
        ],
        InstallState::FindBrew => seq!["which"@, "brew"@],
        InstallState::RunBrew => seq!["brew"@, "install"@, "cloudflared"@],
        InstallState::DownloadArchive => seq![
            "curl"@,
            "-L"@,
            "-o"@,
            paths::joined(m.temp_dir@, "cloudflared.tgz"@),
            url,
        ],
        InstallState::ExtractArchive => seq![
            "tar"@,
            "-xzf"@,
            paths::joined(m.temp_dir@, "cloudflared.tgz"@),
            "-C"@,
            m.temp_dir@,
        ],
        InstallState::MoveBinary => seq![
            "sudo"@,
            "mv"@,
            paths::joined(m.temp_dir@, "cloudflared"@),
            install_path(),
        ],
        InstallState::FindChoco => seq!["where"@, "choco"@],
        InstallState::RunChoco => seq!["choco"@, "install"@, "cloudflared"@, "-y"@],
        InstallState::FindScoop => seq!["where"@, "scoop"@],
        InstallState::RunScoop => seq!["scoop"@, "install"@, "cloudflared"@],
        InstallState::DownloadExe => seq!["curl"@, "-L"@, "-o"@, exe_path(m), url],
        InstallState::DownloadBinary => seq![
            "sudo"@,
            "curl"@,
            "-L"@,
            "-o"@,
            install_path(),
            url,
        ],
        InstallState::MakeExecutable => seq!["sudo"@, "chmod"@, "+x"@, install_path()],
    }
}

/// Whether a state downloads something.
pub open spec fn downloads(state: InstallState) -> bool {
    state == InstallState::DownloadDeb || state == InstallState::DownloadBinary || state
        == InstallState::DownloadArchive || state == InstallState::DownloadExe
}

/// A state is entered. What has no release for the machine fails.
pub open spec fn entered(state: InstallState, m: Machine) -> MoveView {
    if downloads(state) {
        match release_file(state, m.arch@) {
            Some(file) => MoveView::Run { state, command: command_of(state, m, release(file)) },
            None => MoveView::Failed("Unsupported architecture: "@ + m.arch@),
        }
    } else {
        MoveView::Run { state, command: command_of(state, m, Seq::empty()) }
    }
}

/// Whether a state only finds out whether a program is there. Then the command counts as long as it
/// could be started.
pub open spec fn looks(state: InstallState) -> bool {
    state == InstallState::FindDnf || state == InstallState::FindApt || state
        == InstallState::FindBrew || state == InstallState::FindChoco || state
        == InstallState::FindScoop
}

/// What follows a command that went well.
pub open spec fn on_success(state: InstallState, m: Machine) -> MoveView {
    match state {
        InstallState::FindDnf => entered(InstallState::RunDnf, m),
        InstallState::FindApt => entered(InstallState::DownloadDeb, m),
        InstallState::DownloadDeb => entered(InstallState::RunDpkg, m),
        InstallState::FindBrew => entered(InstallState::RunBrew, m),
        InstallState::DownloadArchive => entered(InstallState::ExtractArchive, m),
        InstallState::ExtractArchive => entered(InstallState::MoveBinary, m),
        InstallState::MoveBinary => entered(InstallState::MakeExecutable, m),
        InstallState::FindChoco => entered(InstallState::RunChoco, m),
        InstallState::FindScoop => entered(InstallState::RunScoop, m),
        InstallState::DownloadBinary => entered(InstallState::MakeExecutable, m),
        _ => MoveView::Done,
    }
}

/// What follows a command that did not go well.
pub open spec fn on_failure(state: InstallState, m: Machine) -> MoveView {
    match state {
        InstallState::FindDnf | InstallState::RunDnf => entered(InstallState::FindApt, m),
        InstallState::FindApt | InstallState::RunDpkg => entered(InstallState::DownloadBinary, m),
        InstallState::FindBrew | InstallState::RunBrew => entered(InstallState::DownloadArchive, m),
        InstallState::FindChoco | InstallState::RunChoco => entered(InstallState::FindScoop, m),
        InstallState::FindScoop | InstallState::RunScoop => entered(InstallState::DownloadExe, m),
        InstallState::DownloadDeb => MoveView::Failed("Failed to download cloudflared package"@),
        InstallState::DownloadArchive => MoveView::Failed(
            "Failed to download cloudflared archive"@,
        ),
        InstallState::ExtractArchive => MoveView::Failed("Failed to extract cloudflared archive"@),
        InstallState::MoveBinary => MoveView::Failed(
            "Failed to move cloudflared to install location"@,
        ),
        InstallState::DownloadExe | InstallState::DownloadBinary => MoveView::Failed(
            "Failed to download cloudflared binary"@,
        ),
        InstallState::MakeExecutable => MoveView::Failed("Failed to make cloudflared executable"@),
        InstallState::Start => MoveView::Done,
    }
}

/// What is done after a state.
pub open spec fn install_move(
    state: InstallState,
    m: Machine,
    outcome: CommandOutcome,
) -> MoveView {
    if state == InstallState::Start {
        match m.platform {
            Platform::Linux => entered(InstallState::FindDnf, m),
            Platform::MacOs => entered(InstallState::FindBrew, m),
            Platform::Windows => entered(InstallState::FindChoco, m),
            Platform::Other => MoveView::Failed(
                "Unsupported platform for automatic cloudflared installation"@,
            ),
        }
    } else {
        match outcome {
            CommandOutcome::NotStarted(e) => if looks(state) {
                on_failure(state, m)
            } else {
                MoveView::Failed(e@)
            },
            CommandOutcome::Ended(success) => if looks(state) || success {
                on_success(state, m)
            } else {
                on_failure(state, m)
            },
        }
    }
}

fn words(all: Vec<&str>) -> (r: Vec<String>)
    ensures
        text::views(r@) == all@.map_values(|w: &str| w@),
{
    let mut out: Vec<String> = Vec::new();
    let ghost names = all@.map_values(|w: &str| w@);
    for i in 0..all.len()
        invariant
            names == all@.map_values(|w: &str| w@),
            text::views(out@) == names.take(i as int),
    {
        let ghost seen = out@;
        let word = all[i].to_owned();
        out.push(word);
        assert(text::views(out@) =~= text::views(seen).push(word@));
        assert(names.take(i + 1) =~= names.take(i as int).push(word@));
    }
    assert(names.take(names.len() as int) =~= names);
    out
}

fn exe_path_text(m: &Machine) -> (r: String)
    ensures
        r@ == exe_path(*m),
{
    let mut out = match &m.program_files {
        Some(p) => p.clone(),
        None => "C:\\Program Files".to_owned(),
    };
    out.append("\\cloudflared\\cloudflared.exe");
    out
}

fn command_words(state: InstallState, m: &Machine, url: &str) -> (r: Vec<String>)
    ensures
        text::views(r@) == command_of(state, *m, url@),
{
    let deb = paths::join_paths(m.temp_dir.as_str(), "cloudflared.deb");
    let archive = paths::join_paths(m.temp_dir.as_str(), "cloudflared.tgz");
    let unpacked = paths::join_paths(m.temp_dir.as_str(), "cloudflared");
    let exe = exe_path_text(m);
    let path = "/usr/local/bin/cloudflared";
    let all: Vec<&str> = match state {
        InstallState::Start => Vec::new(),
        InstallState::FindDnf => vec!["which", "dnf"],
        InstallState::RunDnf => vec!["sudo", "dnf", "install", "-y", "cloudflared"],
        InstallState::FindApt => vec!["which", "apt-get"],
        InstallState::DownloadDeb => vec!["curl", "-L", "-o", deb.as_str(), url],
        InstallState::RunDpkg => vec!["sudo", "dpkg", "-i", deb.as_str()],
        InstallState::FindBrew => vec!["which", "brew"],
        InstallState::RunBrew => vec!["brew", "install", "cloudflared"],
        InstallState::DownloadArchive => vec!["curl", "-L", "-o", archive.as_str(), url],
        InstallState::ExtractArchive => vec![
            "tar",
            "-xzf",
            archive.as_str(),
            "-C",
            m.temp_dir.as_str(),
        ],
        InstallState::MoveBinary => vec!["sudo", "mv", unpacked.as_str(), path],
        InstallState::FindChoco => vec!["where", "choco"],
        InstallState::RunChoco => vec!["choco", "install", "cloudflared", "-y"],
        InstallState::FindScoop => vec!["where", "scoop"],
        InstallState::RunScoop => vec!["scoop", "install", "cloudflared"],
        InstallState::DownloadExe => vec!["curl", "-L", "-o", exe.as_str(), url],
        InstallState::DownloadBinary => vec!["sudo", "curl", "-L", "-o", path, url],
        InstallState::MakeExecutable => vec!["sudo", "chmod", "+x", path],
    };
    assert(all@.map_values(|w: &str| w@) =~= command_of(state, *m, url@));
    words(all)
}

fn file_of(state: InstallState, arch: &str) -> (r: Option<String>)
    ensures
        text::opt_view(r) == release_file(state, arch@),
{
    let intel = text::same(arch, "x86_64");
    let arm = text::same(arch, "aarch64");
    match state {
        InstallState::DownloadDeb => if intel {
            Some("cloudflared-linux-amd64.deb".to_owned())
        } else if arm {
            Some("cloudflared-linux-arm64.deb".to_owned())
        } else {
            None
        },
        InstallState::DownloadBinary => if intel {
            Some("cloudflared-linux-amd64".to_owned())
        } else if arm {
            Some("cloudflared-linux-arm64".to_owned())
        } else {
            None
        },
        InstallState::DownloadArchive => if intel || arm {
            Some("cloudflared-darwin-amd64.tgz".to_owned())
        } else {
            None
        },
        InstallState::DownloadExe => if intel {
            Some("cloudflared-windows-amd64.exe".to_owned())
        } else {
            None
        },
        _ => None,
    }
}

fn enter(state: InstallState, m: &Machine) -> (r: InstallMove)
    ensures
        r@ == entered(state, *m),
{
    let fetches = match state {
        InstallState::DownloadDeb => true,
        InstallState::DownloadBinary => true,
        InstallState::DownloadArchive => true,
        InstallState::DownloadExe => true,
        _ => false,
    };
    if fetches {
        match file_of(state, m.arch.as_str()) {
            Some(file) => {
                let mut url =
                    "https://github.com/cloudflare/cloudflared/releases/latest/download/".to_owned();
                url.append(file.as_str());
                InstallMove::Run { state, command: command_words(state, m, url.as_str()) }
            },
            None => {
                let mut out = "Unsupported architecture: ".to_owned();
                out.append(m.arch.as_str());
                InstallMove::Failed(out)
            },
        }
    } else {
        proof {
            reveal_strlit("");
            assert(""@ =~= Seq::<char>::empty());
        }
        InstallMove::Run { state, command: command_words(state, m, "") }
    }
}

fn after_success(state: InstallState, m: &Machine) -> (r: InstallMove)
    ensures
        r@ == on_success(state, *m),
{
    match state {
        InstallState::FindDnf => enter(InstallState::RunDnf, m),
        InstallState::FindApt => enter(InstallState::DownloadDeb, m),
        InstallState::DownloadDeb => enter(InstallState::RunDpkg, m),
        InstallState::FindBrew => enter(InstallState::RunBrew, m),
        InstallState::DownloadArchive => enter(InstallState::ExtractArchive, m),
        InstallState::ExtractArchive => enter(InstallState::MoveBinary, m),
        InstallState::MoveBinary => enter(InstallState::MakeExecutable, m),
        InstallState::FindChoco => enter(InstallState::RunChoco, m),
        InstallState::FindScoop => enter(InstallState::RunScoop, m),
        InstallState::DownloadBinary => enter(InstallState::MakeExecutable, m),
        _ => InstallMove::Done,
    }
}

fn after_failure(state: InstallState, m: &Machine) -> (r: InstallMove)
    ensures
        r@ == on_failure(state, *m),
{
    match state {
        InstallState::FindDnf | InstallState::RunDnf => enter(InstallState::FindApt, m),
        InstallState::FindApt | InstallState::RunDpkg => enter(InstallState::DownloadBinary, m),
        InstallState::FindBrew | InstallState::RunBrew => enter(InstallState::DownloadArchive, m),
        InstallState::FindChoco | InstallState::RunChoco => enter(InstallState::FindScoop, m),
        InstallState::FindScoop | InstallState::RunScoop => enter(InstallState::DownloadExe, m),
        InstallState::DownloadDeb => InstallMove::Failed(
            "Failed to download cloudflared package".to_owned(),
        ),
        InstallState::DownloadArchive => InstallMove::Failed(
            "Failed to download cloudflared archive".to_owned(),
        ),
        InstallState::ExtractArchive => InstallMove::Failed(
            "Failed to extract cloudflared archive".to_owned(),
        ),
        InstallState::MoveBinary => InstallMove::Failed(
            "Failed to move cloudflared to install location".to_owned(),
        ),
        InstallState::DownloadExe | InstallState::DownloadBinary => InstallMove::Failed(
            "Failed to download cloudflared binary".to_owned(),
        ),
        InstallState::MakeExecutable => InstallMove::Failed(
            "Failed to make cloudflared executable".to_owned(),
        ),
        InstallState::Start => InstallMove::Done,
    }
}

/// Decides what is done next to install the program, when the command of a state has ended. At the
/// start no command has, and the outcome does not count.
pub fn install_step(state: InstallState, m: &Machine, outcome: &CommandOutcome) -> (r: InstallMove)
    ensures
        r@ == install_move(state, *m, *outcome),
{
    if state == InstallState::Start {
        return match m.platform {
            Platform::Linux => enter(InstallState::FindDnf, m),
            Platform::MacOs => enter(InstallState::FindBrew, m),
            Platform::Windows => enter(InstallState::FindChoco, m),
            Platform::Other => InstallMove::Failed(
                "Unsupported platform for automatic cloudflared installation".to_owned(),
            ),
        };
    }
    let only_looks = match state {
        InstallState::FindDnf => true,
        InstallState::FindApt => true,
        InstallState::FindBrew => true,
        InstallState::FindChoco => true,
        InstallState::FindScoop => true,
        _ => false,
    };
    match outcome {
        CommandOutcome::NotStarted(e) => if only_looks {
            after_failure(state, m)
        } else {
            InstallMove::Failed(e.clone())
        },
        CommandOutcome::Ended(success) => if only_looks || *success {
            after_success(state, m)
        } else {
            after_failure(state, m)
        },
    }
}

// ---------------------------------------------------------------------------
// Laws
// ---------------------------------------------------------------------------

/// How far the installation has come.
pub open spec fn stage(state: InstallState) -> nat {
    match state {
        InstallState::Start => 0,
        InstallState::FindDnf | InstallState::FindBrew | InstallState::FindChoco => 1,
        InstallState::RunDnf | InstallState::RunBrew | InstallState::RunChoco => 2,
        InstallState::FindApt | InstallState::FindScoop => 3,
        InstallState::DownloadDeb | InstallState::RunScoop => 4,
        InstallState::RunDpkg => 5,
        InstallState::DownloadArchive | InstallState::DownloadExe => 6,
        InstallState::ExtractArchive => 7,
        InstallState::MoveBinary => 8,
        InstallState::DownloadBinary => 9,
        InstallState::MakeExecutable => 10,
    }
}

/// The installation ends: every command that is run brings it further, whatever came of the one
/// before.
pub proof fn installing_ends(state: InstallState, m: Machine, outcome: CommandOutcome)
    ensures
        match install_move(state, m, outcome) {
            MoveView::Run { state: next, .. } => stage(state) < stage(next) <= 10,
            _ => true,
        },
{
}

/// A program that could not be looked for is not the end of the installation.
pub proof fn a_look_never_fails(state: InstallState, m: Machine, outcome: CommandOutcome)
    requires
        looks(state),
        m.arch@ == "x86_64"@,
    ensures
        install_move(state, m, outcome) is Run,
{
}

} // verus!
