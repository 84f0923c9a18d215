//! Finding out which shells there are.

use vstd::prelude::*;

use crate::paths;
use crate::text;
use crate::tools::ToolKind;

verus! {

/// Nothing has to be said to detect shells.
#[derive(Debug, Clone, Copy, PartialEq, Eq, Structural)]
pub struct ShellDetectorToolInput {}

/// The family of a shell.
#[derive(Debug, Clone, Copy, PartialEq, Eq, Structural)]
pub enum ShellType {
    Bash,
    Zsh,
    Fish,
    Sh,
    Dash,
    Ksh,
    Tcsh,
    Csh,
    Unknown,
}

/// A shell, and where it is.
#[derive(Debug)]
pub struct ShellInfo {
    pub name: String,
    pub path: String,
    pub exists: bool,
    pub shell_type: ShellType,
}

/// A shell, and where it is.
pub ghost struct ShellView {
    pub name: Seq<char>,
    pub path: Seq<char>,
    pub exists: bool,
    pub shell_type: ShellType,
}

impl View for ShellInfo {
    type V = ShellView;

    open spec fn view(&self) -> ShellView {
        ShellView {
            name: self.name@,
            path: self.path@,
            exists: self.exists,
            shell_type: self.shell_type,
        }
    }
}

impl ShellInfo {
    /// The same shell once more.
    pub fn copy(&self) -> (r: ShellInfo)
        ensures
            r@ == self@,
    {
        ShellInfo {
            name: self.name.clone(),
            path: self.path.clone(),
            exists: self.exists,
            shell_type: self.shell_type,
        }
    }
}

/// The views of shells.
pub open spec fn shell_views(shells: Seq<ShellInfo>) -> Seq<ShellView> {
    shells.map_values(|s: ShellInfo| s@)
}

/// Where shells are looked for, in this order.
pub open spec fn common_shells() -> Seq<ShellView> {
    seq![
        ShellView { name: "bash"@, path: "/bin/bash"@, exists: true, shell_type: ShellType::Bash },
        ShellView { name: "bash"@, path: "/usr/bin/bash"@, exists: true, shell_type: ShellType::Bash },
        ShellView { name: "zsh"@, path: "/bin/zsh"@, exists: true, shell_type: ShellType::Zsh },
        ShellView { name: "zsh"@, path: "/usr/bin/zsh"@, exists: true, shell_type: ShellType::Zsh },
        ShellView { name: "zsh"@, path: "/usr/local/bin/zsh"@, exists: true, shell_type: ShellType::Zsh },
        ShellView { name: "fish"@, path: "/bin/fish"@, exists: true, shell_type: ShellType::Fish },
        ShellView { name: "fish"@, path: "/usr/bin/fish"@, exists: true, shell_type: ShellType::Fish },
        ShellView { name: "fish"@, path: "/usr/local/bin/fish"@, exists: true, shell_type: ShellType::Fish },
        ShellView { name: "sh"@, path: "/bin/sh"@, exists: true, shell_type: ShellType::Sh },
        ShellView { name: "sh"@, path: "/usr/bin/sh"@, exists: true, shell_type: ShellType::Sh },
        ShellView { name: "dash"@, path: "/bin/dash"@, exists: true, shell_type: ShellType::Dash },
        ShellView { name: "dash"@, path: "/usr/bin/dash"@, exists: true, shell_type: ShellType::Dash },
        ShellView { name: "ksh"@, path: "/bin/ksh"@, exists: true, shell_type: ShellType::Ksh },
        ShellView { name: "ksh"@, path: "/usr/bin/ksh"@, exists: true, shell_type: ShellType::Ksh },
        ShellView { name: "tcsh"@, path: "/bin/tcsh"@, exists: true, shell_type: ShellType::Tcsh },
        ShellView { name: "tcsh"@, path: "/usr/bin/tcsh"@, exists: true, shell_type: ShellType::Tcsh },
        ShellView { name: "csh"@, path: "/bin/csh"@, exists: true, shell_type: ShellType::Csh },
        ShellView { name: "csh"@, path: "/usr/bin/csh"@, exists: true, shell_type: ShellType::Csh },
    ]
}

/// Whether some shell has a name.
pub open spec fn has_name(shells: Seq<ShellView>, name: Seq<char>) -> bool {
    exists|i: int| 0 <= i < shells.len() && (#[trigger] shells[i]).name == name
}

/// Whether some shell is at a path.
pub open spec fn has_path(shells: Seq<ShellView>, path: Seq<char>) -> bool {
    exists|i: int| 0 <= i < shells.len() && (#[trigger] shells[i]).path == path
}

/// Of each name the first shell whose path exists.
pub open spec fn present(shells: Seq<ShellView>, existing: Seq<Seq<char>>) -> Seq<ShellView>
    decreases shells.len(),
{
    if shells.len() == 0 {
        Seq::empty()
    } else {
        let before = present(shells.drop_last(), existing);
        let last = shells.last();
        if existing.contains(last.path) && !has_name(before, last.name) {
            before.push(last)
        } else {
            before
        }
    }
}

/// The shell of the user, as its path names it.
pub open spec fn own_shell(path: Seq<char>) -> ShellView {
    ShellView {
        name: match paths::file_name(path) {
            Some(n) => n,
            None => "unknown"@,
        },
        path,
        exists: true,
        shell_type: ShellType::Unknown,
    }
}

/// The shells that are there. The one of the user comes last, unless it is among the others.
pub open spec fn available(existing: Seq<Seq<char>>, own: Option<Seq<char>>) -> Seq<ShellView> {
    let found = present(common_shells(), existing);
    match own {
        Some(path) => if has_path(found, path) {
            found
        } else {
            found.push(own_shell(path))
        },
        None => found,
    }
}

fn shell(name: &str, path: &str, shell_type: ShellType) -> (r: ShellInfo)
    ensures
        r@ == (ShellView { name: name@, path: path@, exists: true, shell_type }),
{
    ShellInfo { name: name.to_owned(), path: path.to_owned(), exists: true, shell_type }
}

/// Where shells are looked for.
pub fn common_shell_paths() -> (r: Vec<ShellInfo>)
    ensures
        shell_views(r@) == common_shells(),
{
    let mut out: Vec<ShellInfo> = Vec::new();
    out.push(shell("bash", "/bin/bash", ShellType::Bash));
    out.push(shell("bash", "/usr/bin/bash", ShellType::Bash));
    out.push(shell("zsh", "/bin/zsh", ShellType::Zsh));
    out.push(shell("zsh", "/usr/bin/zsh", ShellType::Zsh));
    out.push(shell("zsh", "/usr/local/bin/zsh", ShellType::Zsh));
    out.push(shell("fish", "/bin/fish", ShellType::Fish));
    out.push(shell("fish", "/usr/bin/fish", ShellType::Fish));
    out.push(shell("fish", "/usr/local/bin/fish", ShellType::Fish));
    out.push(shell("sh", "/bin/sh", ShellType::Sh));
    out.push(shell("sh", "/usr/bin/sh", ShellType::Sh));
    out.push(shell("dash", "/bin/dash", ShellType::Dash));
    out.push(shell("dash", "/usr/bin/dash", ShellType::Dash));
    out.push(shell("ksh", "/bin/ksh", ShellType::Ksh));
    out.push(shell("ksh", "/usr/bin/ksh", ShellType::Ksh));
    out.push(shell("tcsh", "/bin/tcsh", ShellType::Tcsh));
    out.push(shell("tcsh", "/usr/bin/tcsh", ShellType::Tcsh));
    out.push(shell("csh", "/bin/csh", ShellType::Csh));
    out.push(shell("csh", "/usr/bin/csh", ShellType::Csh));
    assert(shell_views(out@) =~= common_shells());
    out
}

fn name_is_there(shells: &Vec<ShellInfo>, name: &str) -> (r: bool)
    ensures
        r == has_name(shell_views(shells@), name@),
{
    let ghost all = shell_views(shells@);
    for i in 0..shells.len()
        invariant
            all == shell_views(shells@),
            forall|j: int| 0 <= j < i ==> (#[trigger] all[j]).name != name@,
    {
        assert(all[i as int].name == shells@[i as int].name@);
        if text::same(shells[i].name.as_str(), name) {
            return true;
        }
    }
    false
}

fn path_is_there(shells: &Vec<ShellInfo>, path: &str) -> (r: bool)
    ensures
        r == has_path(shell_views(shells@), path@),
{
    let ghost all = shell_views(shells@);
    for i in 0..shells.len()
        invariant
            all == shell_views(shells@),
            forall|j: int| 0 <= j < i ==> (#[trigger] all[j]).path != path@,
    {
        assert(all[i as int].path == shells@[i as int].path@);
        if text::same(shells[i].path.as_str(), path) {
            return true;
        }
    }
    false
}

/// The shells that are there. `existing` holds the paths that exist of those that are looked at;
/// `own` is the path of the shell of the user.
pub fn detect_available_shells(existing: &Vec<String>, own: &Option<String>) -> (r: Vec<ShellInfo>)
    ensures
        shell_views(r@) == available(text::views(existing@), text::opt_view(*own)),
{
    let known = common_shell_paths();
    let ghost all = common_shells();
    let ghost there = text::views(existing@);
    let mut out: Vec<ShellInfo> = Vec::new();
    assert(shell_views(out@) =~= present(all.take(0), there));
    for i in 0..known.len()
        invariant
            all == shell_views(known@),
            there == text::views(existing@),
            shell_views(out@) == present(all.take(i as int), there),
    {
        assert(all.take(i + 1).drop_last() =~= all.take(i as int));
        assert(all.take(i + 1).last() == known@[i as int]@);
        if text::contains_text(existing, known[i].path.as_str()) && !name_is_there(
            &out,
            known[i].name.as_str(),
        ) {
            let ghost seen = out@;
            let found = known[i].copy();
            out.push(found);
            assert(shell_views(out@) =~= shell_views(seen).push(found@));
        }
    }
    assert(all.take(all.len() as int) =~= all);
    match own {
        Some(path) => {
            if !path_is_there(&out, path.as_str()) {
                let name = match paths::file_name_of(path.as_str()) {
                    Some(n) => n,
                    None => "unknown".to_owned(),
                };
                let ghost seen = out@;
                let found = ShellInfo {
                    name,
                    path: path.clone(),
                    exists: true,
                    shell_type: ShellType::Unknown,
                };
                out.push(found);
                assert(shell_views(out@) =~= shell_views(seen).push(found@));
            }
        },
        None => {},
    }
    out
}

/// Shells, one in a line.
pub open spec fn shell_lines(shells: Seq<ShellView>) -> Seq<char>
    decreases shells.len(),
{
    if shells.len() == 0 {
        "Available shells:\n\n"@
    } else {
        shell_lines(shells.drop_last()) + "- **"@ + shells.last().name + "**: `"@
            + shells.last().path + "`\n"@
    }
}

/// Shells as they are shown.
pub open spec fn shown_shells(shells: Seq<ShellView>, own: Option<Seq<char>>) -> Seq<char> {
    if shells.len() == 0 {
        "No shells detected on the system."@
    } else {
        let lines = shell_lines(shells);
        (match own {
            Some(path) => lines + "\nCurrent shell (from $SHELL): `"@ + path + "`\n"@,
            None => lines,
        })
            + "\nYou can use any of these shells when executing terminal commands by specifying the full path or shell name."@
    }
}

/// Shells as they are shown.
pub fn format_shell_output(shells: &Vec<ShellInfo>, own: &Option<String>) -> (r: String)
    ensures
        r@ == shown_shells(shell_views(shells@), text::opt_view(*own)),
{
    if shells.len() == 0 {
        return "No shells detected on the system.".to_owned();
    }
    let ghost all = shell_views(shells@);
    let mut out = "Available shells:\n\n".to_owned();
    for i in 0..shells.len()
        invariant
            all == shell_views(shells@),
            out@ == shell_lines(all.take(i as int)),
    {
        assert(all.take(i + 1).drop_last() =~= all.take(i as int));
        assert(all.take(i + 1).last() == shells@[i as int]@);
        out.append("- **");
        out.append(shells[i].name.as_str());
        out.append("**: `");
        out.append(shells[i].path.as_str());
        out.append("`\n");
    }
    assert(all.take(all.len() as int) =~= all);
    match own {
        Some(path) => {
            out.append("\nCurrent shell (from $SHELL): `");
            out.append(path.as_str());
            out.append("`\n");
        },
        None => {},
    }
    out.append(
        "\nYou can use any of these shells when executing terminal commands by specifying the full path or shell name.",
    );
    out
}

/// Finds out which shells there are.
#[derive(Debug, Clone, Copy, PartialEq, Eq, Structural)]
pub struct ShellDetectorTool;

impl ShellDetectorTool {
    pub fn new() -> (r: ShellDetectorTool)
        ensures
            r == ShellDetectorTool,
    {
        ShellDetectorTool
    }

    /// The name of the tool.
    pub fn name() -> (r: &'static str)
        ensures
            r@ == "detect_shells"@,
    {
        "detect_shells"
    }

    /// What the tool does to its subject.
    pub fn kind() -> (r: ToolKind)
        ensures
            r == ToolKind::Read,
    {
        ToolKind::Read
    }

    /// The title of a call of the tool.
    pub fn initial_title(&self) -> (r: String)
        ensures
            r@ == "Detecting available shells..."@,
    {
        "Detecting available shells...".to_owned()
    }
}

// ---------------------------------------------------------------------------
// Laws
// ---------------------------------------------------------------------------

/// Of the shells that were looked for, no two that are there have one name, and each is at a path
/// that exists.
pub proof fn shells_are_named_apart(shells: Seq<ShellView>, existing: Seq<Seq<char>>)
    ensures
        forall|i: int, j: int|
            0 <= i < j < present(shells, existing).len() ==> (#[trigger] present(
                shells,
                existing,
            )[i]).name != (#[trigger] present(shells, existing)[j]).name,
        forall|i: int|
            0 <= i < present(shells, existing).len() ==> existing.contains(
                (#[trigger] present(shells, existing)[i]).path,
            ),
    decreases shells.len(),
{
    if shells.len() > 0 {
        shells_are_named_apart(shells.drop_last(), existing);
        let before = present(shells.drop_last(), existing);
        let last = shells.last();
        if existing.contains(last.path) && !has_name(before, last.name) {
            let now = before.push(last);
            assert forall|i: int, j: int| 0 <= i < j < now.len() implies (#[trigger] now[i]).name
                != (#[trigger] now[j]).name by {
                assert(before[i] == now[i]);
            }
        }
    }
}

} // verus!
