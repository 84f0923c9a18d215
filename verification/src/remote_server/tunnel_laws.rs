//! What holds of the tunnel: how its address is found, and how the program is installed.

use vstd::prelude::*;

use crate::remote_server::cloudflared;
use crate::remote_server::cloudflared::{CommandOutcome, InstallState, Machine, Platform};
use crate::text;

verus! {

// ---------------------------------------------------------------------------
// The address
// ---------------------------------------------------------------------------

/// Where an address of a tunnel stands in a text, one is found: it is an address of a tunnel, a part of
/// the text, and no other starts before it.
pub proof fn addresses_are_found(s: Seq<char>, from: int, to: int, dots: bool)
    requires
        0 <= from < to <= s.len(),
        cloudflared::is_tunnel_url(s.subrange(from, to), dots),
    ensures
        cloudflared::first_url(s, dots) is Some,
        exists|i: int, j: int|
            {
                &&& 0 <= i <= from
                &&& i < j <= s.len()
                &&& cloudflared::first_url(s, dots) == Some(#[trigger] s.subrange(i, j))
                &&& cloudflared::is_tunnel_url(s.subrange(i, j), dots)
                &&& i == from ==> j >= to
            },
{
    found_from(s, 0, from, to, dots);
}

proof fn found_from(s: Seq<char>, at: int, from: int, to: int, dots: bool)
    requires
        0 <= at <= from < to <= s.len(),
        cloudflared::is_tunnel_url(s.subrange(from, to), dots),
    ensures
        exists|i: int, j: int|
            {
                &&& at <= i <= from
                &&& i < j <= s.len()
                &&& cloudflared::url_from(s, at, dots) == Some(#[trigger] s.subrange(i, j))
                &&& cloudflared::is_tunnel_url(s.subrange(i, j), dots)
                &&& i == from ==> j >= to
            },
    decreases from - at,
{
    let len = s.len() as int;
    ends_are_longest(s, at, len, dots);
    match cloudflared::url_end(s, at, len, dots) {
        Some(j) => {
            assert(cloudflared::url_from(s, at, dots) == Some(s.subrange(at, j)));
            if at == from {
                if j < to {
                    assert(!cloudflared::is_tunnel_url(s.subrange(at, to), dots));
                }
            }
        },
        None => {
            if at == from {
                assert(!cloudflared::is_tunnel_url(s.subrange(at, to), dots));
            }
            found_from(s, at + 1, from, to, dots);
        },
    }
}

proof fn ends_are_longest(s: Seq<char>, i: int, j: int, dots: bool)
    requires
        0 <= i,
        j <= s.len(),
    ensures
        match cloudflared::url_end(s, i, j, dots) {
            Some(e) => i < e <= j && cloudflared::is_tunnel_url(s.subrange(i, e), dots) && forall|
                k: int,
            |
                e < k <= j ==> !cloudflared::is_tunnel_url(#[trigger] s.subrange(i, k), dots),
            None => forall|k: int|
                i < k <= j ==> !cloudflared::is_tunnel_url(#[trigger] s.subrange(i, k), dots),
        },
    decreases j - i,
{
    if j > i && !cloudflared::is_tunnel_url(s.subrange(i, j), dots) {
        ends_are_longest(s, i, j - 1, dots);
    }
}

/// An address of a tunnel in a line comes before all else that looks like an address.
pub proof fn tunnels_come_first(line: Seq<char>)
    ensures
        cloudflared::first_url(line, false) is Some ==> cloudflared::line_url(line)
            == cloudflared::first_url(line, false),
        cloudflared::first_url(line, false) is None && cloudflared::first_url(line, true) is Some
            ==> cloudflared::line_url(line) == cloudflared::first_url(line, true),
{
}

/// Without one, what starts with `https://` is taken, up to the next blank.
pub proof fn other_addresses_end_at_a_blank(line: Seq<char>, start: int, end: int)
    requires
        cloudflared::first_url(line, false) is None,
        cloudflared::first_url(line, true) is None,
        0 <= start < end <= line.len(),
        text::stands_at(line, "https://"@, start),
        forall|i: int| 0 <= i < start ==> !text::stands_at(line, "https://"@, i),
        forall|i: int| start <= i < end ==> !text::is_space(#[trigger] line[i]),
        end < line.len() ==> text::is_space(line[end]),
    ensures
        cloudflared::line_url(line) == Some(line.subrange(start, end)),
{
    text::find_is_first(line, "https://"@, 0);
    blank_is_next(line, start, end);
}

proof fn blank_is_next(s: Seq<char>, from: int, end: int)
    requires
        0 <= from <= end <= s.len(),
        forall|i: int| from <= i < end ==> !text::is_space(#[trigger] s[i]),
        end < s.len() ==> text::is_space(s[end]),
    ensures
        cloudflared::blank_from(s, from) == end,
    decreases end - from,
{
    if from < end {
        assert(!text::is_space(s[from]));
        blank_is_next(s, from + 1, end);
    }
}

/// The address of the tunnel is the last one that was found; a line without one changes nothing.
pub proof fn the_last_address_is_kept(url: Option<Seq<char>>, line: Seq<char>, found: Option<Seq<char>>)
    ensures
        found is None ==> cloudflared::url_after(url, line, found) == url,
        text::holds(line, "https://"@) && found is Some ==> cloudflared::url_after(url, line, found)
            == found,
        text::holds(line, "trycloudflare.com"@) && found is Some ==> cloudflared::url_after(
            url,
            line,
            found,
        ) == found,
        !text::holds(line, "https://"@) && !text::holds(line, "trycloudflare.com"@)
            ==> cloudflared::url_after(url, line, found) == url,
{
}

// ---------------------------------------------------------------------------
// Installing
// ---------------------------------------------------------------------------

/// Whether a state brings the program onto the machine, so that nothing is left to do when it has ended
/// well.
pub open spec fn installs(state: InstallState) -> bool {
    ||| state == InstallState::RunDnf
    ||| state == InstallState::RunDpkg
    ||| state == InstallState::RunBrew
    ||| state == InstallState::RunChoco
    ||| state == InstallState::RunScoop
    ||| state == InstallState::DownloadExe
    ||| state == InstallState::MakeExecutable
}

/// The installation is done exactly where a command that brings the program onto the machine has ended
/// well.
pub proof fn only_installing_is_the_end(state: InstallState, m: Machine, outcome: CommandOutcome)
    ensures
        cloudflared::install_move(state, m, outcome) is Done <==> installs(state) && outcome
            == CommandOutcome::Ended(true),
{
}

/// An installation starts with the usual program of the system; on another system it fails.
pub proof fn installing_starts_by_system(m: Machine, outcome: CommandOutcome)
    ensures
        ({
            let first = cloudflared::install_move(InstallState::Start, m, outcome);
            match m.platform {
                Platform::Linux => first == (cloudflared::MoveView::Run {
                    state: InstallState::FindDnf,
                    command: seq!["which"@, "dnf"@],
                }),
                Platform::MacOs => first == (cloudflared::MoveView::Run {
                    state: InstallState::FindBrew,
                    command: seq!["which"@, "brew"@],
                }),
                Platform::Windows => first == (cloudflared::MoveView::Run {
                    state: InstallState::FindChoco,
                    command: seq!["where"@, "choco"@],
                }),
                Platform::Other => first is Failed,
            }
        }),
{
}

/// Whether a state is one of a system.
pub open spec fn belongs(state: InstallState, platform: Platform) -> bool {
    match state {
        InstallState::Start => true,
        InstallState::FindDnf | InstallState::RunDnf | InstallState::FindApt
        | InstallState::DownloadDeb | InstallState::RunDpkg | InstallState::DownloadBinary =>
        platform == Platform::Linux,
        InstallState::FindBrew | InstallState::RunBrew | InstallState::DownloadArchive
        | InstallState::ExtractArchive | InstallState::MoveBinary => platform == Platform::MacOs,
        InstallState::FindChoco | InstallState::RunChoco | InstallState::FindScoop
        | InstallState::RunScoop | InstallState::DownloadExe => platform == Platform::Windows,
        InstallState::MakeExecutable => platform == Platform::Linux || platform == Platform::MacOs,
    }
}

/// Nothing is run but what is for the system.
pub proof fn only_what_fits_the_system_is_run(
    state: InstallState,
    m: Machine,
    outcome: CommandOutcome,
)
    requires
        belongs(state, m.platform),
    ensures
        cloudflared::install_move(state, m, outcome) matches cloudflared::MoveView::Run {
            state: next,
            command,
        } ==> belongs(next, m.platform) && command.len() > 0,
{
}

/// A program for packages that is there is used; where it is not there, or does not do it, the next one
/// is looked for, and in the end the program itself is downloaded.
pub proof fn the_next_way_is_tried(state: InstallState, m: Machine, error: String)
    requires
        m.arch@ == "x86_64"@,
    ensures
        ({
            let missing = CommandOutcome::NotStarted(error);
            let failed = CommandOutcome::Ended(false);
            let found = CommandOutcome::Ended(true);
            &&& cloudflared::install_move(InstallState::FindDnf, m, found) matches
                cloudflared::MoveView::Run { state: s, .. } && s == InstallState::RunDnf
            &&& cloudflared::install_move(InstallState::FindDnf, m, missing) matches
                cloudflared::MoveView::Run { state: s, .. } && s == InstallState::FindApt
            &&& cloudflared::install_move(InstallState::RunDnf, m, failed) matches
                cloudflared::MoveView::Run { state: s, .. } && s == InstallState::FindApt
            &&& cloudflared::install_move(InstallState::FindApt, m, found) matches
                cloudflared::MoveView::Run { state: s, .. } && s == InstallState::DownloadDeb
            &&& cloudflared::install_move(InstallState::FindApt, m, missing) matches
                cloudflared::MoveView::Run { state: s, .. } && s == InstallState::DownloadBinary
            &&& cloudflared::install_move(InstallState::DownloadDeb, m, found) matches
                cloudflared::MoveView::Run { state: s, .. } && s == InstallState::RunDpkg
            &&& cloudflared::install_move(InstallState::RunDpkg, m, failed) matches
                cloudflared::MoveView::Run { state: s, .. } && s == InstallState::DownloadBinary
            &&& cloudflared::install_move(InstallState::DownloadBinary, m, found) matches
                cloudflared::MoveView::Run { state: s, .. } && s == InstallState::MakeExecutable
            &&& cloudflared::install_move(InstallState::FindBrew, m, found) matches
                cloudflared::MoveView::Run { state: s, .. } && s == InstallState::RunBrew
            &&& cloudflared::install_move(InstallState::FindBrew, m, missing) matches
                cloudflared::MoveView::Run { state: s, .. } && s == InstallState::DownloadArchive
            &&& cloudflared::install_move(InstallState::RunBrew, m, failed) matches
                cloudflared::MoveView::Run { state: s, .. } && s == InstallState::DownloadArchive
            &&& cloudflared::install_move(InstallState::DownloadArchive, m, found) matches
                cloudflared::MoveView::Run { state: s, .. } && s == InstallState::ExtractArchive
            &&& cloudflared::install_move(InstallState::ExtractArchive, m, found) matches
                cloudflared::MoveView::Run { state: s, .. } && s == InstallState::MoveBinary
            &&& cloudflared::install_move(InstallState::MoveBinary, m, found) matches
                cloudflared::MoveView::Run { state: s, .. } && s == InstallState::MakeExecutable
            &&& cloudflared::install_move(InstallState::FindChoco, m, found) matches
                cloudflared::MoveView::Run { state: s, .. } && s == InstallState::RunChoco
            &&& cloudflared::install_move(InstallState::FindChoco, m, missing) matches
                cloudflared::MoveView::Run { state: s, .. } && s == InstallState::FindScoop
            &&& cloudflared::install_move(InstallState::RunChoco, m, failed) matches
                cloudflared::MoveView::Run { state: s, .. } && s == InstallState::FindScoop
            &&& cloudflared::install_move(InstallState::FindScoop, m, found) matches
                cloudflared::MoveView::Run { state: s, .. } && s == InstallState::RunScoop
            &&& cloudflared::install_move(InstallState::FindScoop, m, missing) matches
                cloudflared::MoveView::Run { state: s, .. } && s == InstallState::DownloadExe
            &&& cloudflared::install_move(InstallState::RunScoop, m, failed) matches
                cloudflared::MoveView::Run { state: s, .. } && s == InstallState::DownloadExe
        }),
{
}

/// A download, an unpacking, a move or a change of rights that did not go well ends the installation.
pub proof fn other_failures_end_the_installation(state: InstallState, m: Machine)
    requires
        state == InstallState::DownloadDeb || state == InstallState::DownloadArchive || state
            == InstallState::ExtractArchive || state == InstallState::MoveBinary || state
            == InstallState::DownloadExe || state == InstallState::DownloadBinary || state
            == InstallState::MakeExecutable,
    ensures
        cloudflared::install_move(state, m, CommandOutcome::Ended(false)) is Failed,
{
}

/// What is downloaded is a release of the program for the system and the machine, and what follows works
/// on the file that was downloaded.
pub proof fn downloads_fit_the_machine(m: Machine)
    requires
        m.arch@ == "x86_64"@ || m.arch@ == "aarch64"@,
    ensures
        ({
            let base = "https://github.com/cloudflare/cloudflared/releases/latest/download/"@;
            let intel = m.arch@ == "x86_64"@;
            let deb = cloudflared::entered(InstallState::DownloadDeb, m);
            let archive = cloudflared::entered(InstallState::DownloadArchive, m);
            let binary = cloudflared::entered(InstallState::DownloadBinary, m);
            let dpkg = cloudflared::entered(InstallState::RunDpkg, m);
            let tar = cloudflared::entered(InstallState::ExtractArchive, m);
            let chmod = cloudflared::entered(InstallState::MakeExecutable, m);
            &&& deb is Run && deb->command.last() == base + (if intel {
                "cloudflared-linux-amd64.deb"@
            } else {
                "cloudflared-linux-arm64.deb"@
            })
            &&& binary is Run && binary->command.last() == base + (if intel {
                "cloudflared-linux-amd64"@
            } else {
                "cloudflared-linux-arm64"@
            })
            &&& archive is Run && archive->command.last() == base + "cloudflared-darwin-amd64.tgz"@
            &&& dpkg is Run && dpkg->command[3] == deb->command[3]
            &&& tar is Run && tar->command[2] == archive->command[3]
            &&& chmod is Run && chmod->command[3] == binary->command[4]
        }),
{
    reveal_strlit("x86_64");
    reveal_strlit("aarch64");
    assert("x86_64"@.len() == 6 && "aarch64"@.len() == 7);
}

/// For another machine nothing is downloaded.
pub proof fn other_machines_are_told(state: InstallState, m: Machine)
    requires
        cloudflared::downloads(state),
        m.arch@ != "x86_64"@,
        m.arch@ != "aarch64"@,
    ensures
        cloudflared::entered(state, m) == cloudflared::MoveView::Failed(
            "Unsupported architecture: "@ + m.arch@,
        ),
{
}

} // verus!
