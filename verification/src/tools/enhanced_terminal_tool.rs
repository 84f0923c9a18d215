//! Running a command in a shell.

use vstd::prelude::*;
use vstd::utf8::*;

use crate::markdown;
use crate::paths;
use crate::text;
use crate::tools::ToolKind;

verus! {

pub const DEFAULT_OUTPUT_LIMIT: u64 = 16384;

pub const LARGE_OUTPUT_LIMIT: u64 = 262144;

/// What is run, and how.
#[derive(Debug)]
pub struct EnhancedTerminalToolInput {
    pub command: String,
    pub cwd: String,
    pub use_sudo: bool,
    pub shell: Option<String>,
    pub output_limit: Option<u64>,
    pub timeout_seconds: Option<u64>,
}

/// A command is run at the root of the project unless the input says otherwise.
pub fn default_working_dir() -> (r: String)
    ensures
        r@ == "."@,
{
    ".".to_owned()
}

/// Why there is no directory to run a command in.
#[derive(Debug)]
pub enum DirectoryError {
    Ambiguous,
    Missing(String),
    NotFound(String),
}

/// An error of the directory in words.
pub open spec fn directory_error_text(e: DirectoryError) -> Seq<char> {
    match e {
        DirectoryError::Ambiguous =>
            "'.' is ambiguous in multi-root workspaces. Please specify a root directory explicitly."@,
        DirectoryError::Missing(dir) => "Directory '"@ + dir@
            + "' does not exist. Please specify a valid absolute path."@,
        DirectoryError::NotFound(dir) => "Directory '"@ + dir@
            + "' was not found. Specify an absolute path (e.g., '/home/user/project') or a project worktree name."@,
    }
}

impl DirectoryError {
    /// The error in words.
    pub fn message(&self) -> (r: String)
        ensures
            r@ == directory_error_text(*self),
    {
        match self {
            DirectoryError::Ambiguous =>
                "'.' is ambiguous in multi-root workspaces. Please specify a root directory explicitly.".to_owned(),
            DirectoryError::Missing(dir) => {
                let mut out = "Directory '".to_owned();
                out.append(dir.as_str());
                out.append("' does not exist. Please specify a valid absolute path.");
                out
            },
            DirectoryError::NotFound(dir) => {
                let mut out = "Directory '".to_owned();
                out.append(dir.as_str());
                out.append(
                    "' was not found. Specify an absolute path (e.g., '/home/user/project') or a project worktree name.",
                );
                out
            },
        }
    }
}

/// A root of a project: its name and its path.
#[derive(Debug)]
pub struct Root {
    pub name: String,
    pub path: String,
}

/// The place of the first root with a name.
pub open spec fn root_named(roots: Seq<Root>, name: Seq<char>) -> Option<int>
    decreases roots.len(),
{
    if roots.len() == 0 {
        None
    } else {
        match root_named(roots.drop_last(), name) {
            Some(i) => Some(i),
            None => if roots.last().name@ == name {
                Some(roots.len() - 1)
            } else {
                None
            },
        }
    }
}

fn find_root(roots: &Vec<Root>, name: &str) -> (r: Option<usize>)
    ensures
        match r {
            Some(i) => i < roots@.len() && root_named(roots@, name@) == Some(i as int),
            None => root_named(roots@, name@) is None,
        },
{
    let mut found: Option<usize> = None;
    for i in 0..roots.len()
        invariant
            match found {
                Some(k) => k < i && root_named(roots@.take(i as int), name@) == Some(k as int),
                None => root_named(roots@.take(i as int), name@) is None,
            },
    {
        assert(roots@.take(i + 1).drop_last() =~= roots@.take(i as int));
        assert(roots@.take(i + 1).last() == roots@[i as int]);
        if found.is_none() && text::same(roots[i].name.as_str(), name) {
            found = Some(i);
        }
    }
    assert(roots@.take(roots@.len() as int) =~= roots@);
    found
}

/// Whether a directory stands for the root of the project.
pub open spec fn is_root(cwd: Seq<char>) -> bool {
    cwd == "."@ || cwd.len() == 0
}

/// Whether a relative path stays below where it starts: no part of it leads upwards.
pub open spec fn stays_inside(cwd: Seq<char>) -> bool {
    !text::split(cwd, '/').contains(".."@)
}

/// Where a relative path leads from each root.
pub open spec fn paths_from(roots: Seq<Root>, cwd: Seq<char>) -> Seq<Seq<char>> {
    roots.map_values(|r: Root| paths::joined(r.path@, cwd))
}

/// The paths that are looked at to find a directory: the path itself where it is absolute, and where a
/// relative path that is no root's name leads from each root.
pub open spec fn looked_at(cwd: Seq<char>, roots: Seq<Root>) -> Seq<Seq<char>> {
    if is_root(cwd) {
        Seq::empty()
    } else if text::starts_with(cwd, "/"@) {
        seq![cwd]
    } else if root_named(roots, cwd) is Some || !stays_inside(cwd) {
        Seq::empty()
    } else {
        paths_from(roots, cwd)
    }
}

/// The first of some paths that exists.
pub open spec fn first_existing(places: Seq<Seq<char>>, existing: Seq<Seq<char>>) -> Option<
    Seq<char>,
>
    decreases places.len(),
{
    if places.len() == 0 {
        None
    } else if existing.contains(places[0]) {
        Some(places[0])
    } else {
        first_existing(places.drop_first(), existing)
    }
}

fn climbs(cwd: &str) -> (r: bool)
    ensures
        r == !stays_inside(cwd@),
{
    let parts = text::split_text(cwd, '/');
    text::contains_text(&parts, "..")
}

/// The paths that are looked at to find a directory.
pub fn directory_candidates(cwd: &str, roots: &Vec<Root>) -> (r: Vec<String>)
    ensures
        text::views(r@) == looked_at(cwd@, roots@),
{
    let mut out: Vec<String> = Vec::new();
    if text::same(cwd, ".") || cwd.unicode_len() == 0 {
        assert(text::views(out@) =~= looked_at(cwd@, roots@));
        return out;
    }
    if text::text_starts_with(cwd, "/") {
        out.push(cwd.to_owned());
        assert(text::views(out@) =~= looked_at(cwd@, roots@));
        return out;
    }
    if find_root(roots, cwd).is_some() || climbs(cwd) {
        assert(text::views(out@) =~= looked_at(cwd@, roots@));
        return out;
    }
    for i in 0..roots.len()
        invariant
            out@.len() == i,
            forall|k: int|
                0 <= k < i ==> (#[trigger] out@[k])@ == paths::joined(roots@[k].path@, cwd@),
    {
        out.push(paths::join_paths(roots[i].path.as_str(), cwd));
    }
    assert(text::views(out@) =~= looked_at(cwd@, roots@));
    out
}

fn first_that_exists(places: &Vec<String>, existing: &Vec<String>) -> (r: Option<String>)
    ensures
        text::opt_view(r) == first_existing(text::views(places@), text::views(existing@)),
{
    let ghost all = text::views(places@);
    let ghost there = text::views(existing@);
    let mut i: usize = 0;
    assert(all.skip(0) =~= all);
    while i < places.len()
        invariant
            all == text::views(places@),
            there == text::views(existing@),
            i <= places@.len(),
            first_existing(all, there) == first_existing(all.skip(i as int), there),
        decreases places@.len() - i,
    {
        assert(all.skip(i as int)[0] == places@[i as int]@);
        assert(all.skip(i as int).drop_first() =~= all.skip(i + 1));
        if text::contains_text(existing, places[i].as_str()) {
            return Some(places[i].clone());
        }
        i = i + 1;
    }
    None
}

/// Finds the directory to run a command in; none, where the project has no root. It is named by an
/// absolute path, by the name of a root, or by a relative path within the project. `existing` holds
/// those of the candidates that exist.
pub fn resolve_working_directory(cwd: &str, roots: &Vec<Root>, existing: &Vec<String>) -> (r: Result<
    Option<String>,
    DirectoryError,
>)
    ensures
        is_root(cwd@) ==> (if roots@.len() == 0 {
            r matches Ok(None)
        } else if roots@.len() == 1 {
            r matches Ok(Some(p)) && p@ == roots@[0].path@
        } else {
            r matches Err(DirectoryError::Ambiguous)
        }),
        !is_root(cwd@) && text::starts_with(cwd@, "/"@) ==> (if text::views(existing@).contains(
            cwd@,
        ) {
            r matches Ok(Some(p)) && p@ == cwd@
        } else {
            r matches Err(DirectoryError::Missing(d)) && d@ == cwd@
        }),
        !is_root(cwd@) && !text::starts_with(cwd@, "/"@) ==> match root_named(roots@, cwd@) {
            Some(i) => r matches Ok(Some(p)) && p@ == roots@[i].path@,
            None => match first_existing(looked_at(cwd@, roots@), text::views(existing@)) {
                Some(found) => r matches Ok(Some(p)) && p@ == found,
                None => r matches Err(DirectoryError::NotFound(d)) && d@ == cwd@,
            },
        },
{
    if text::same(cwd, ".") || cwd.unicode_len() == 0 {
        return if roots.len() == 0 {
            Ok(None)
        } else if roots.len() == 1 {
            Ok(Some(roots[0].path.clone()))
        } else {
            Err(DirectoryError::Ambiguous)
        };
    }
    if text::text_starts_with(cwd, "/") {
        if text::contains_text(existing, cwd) {
            Ok(Some(cwd.to_owned()))
        } else {
            Err(DirectoryError::Missing(cwd.to_owned()))
        }
    } else {
        match find_root(roots, cwd) {
            Some(i) => Ok(Some(roots[i].path.clone())),
            None => match first_that_exists(&directory_candidates(cwd, roots), existing) {
                Some(path) => Ok(Some(path)),
                None => Err(DirectoryError::NotFound(cwd.to_owned())),
            },
        }
    }
}

/// In a project with one root, a relative path within it that exists is the directory below the root.
pub proof fn relative_path_is_below_the_root(
    cwd: Seq<char>,
    roots: Seq<Root>,
    existing: Seq<Seq<char>>,
)
    requires
        roots.len() == 1,
        !is_root(cwd),
        !text::starts_with(cwd, "/"@),
        root_named(roots, cwd) is None,
        stays_inside(cwd),
        existing.contains(paths::joined(roots[0].path@, cwd)),
    ensures
        first_existing(looked_at(cwd, roots), existing) == Some(
            paths::joined(roots[0].path@, cwd),
        ),
{
    assert(looked_at(cwd, roots)[0] == paths::joined(roots[0].path@, cwd));
}

/// Where a shell may be. A path that starts at the root is looked for as it is.
pub open spec fn candidates(shell: Seq<char>) -> Seq<Seq<char>> {
    if text::starts_with(shell, "/"@) {
        seq![shell]
    } else if shell == "bash"@ {
        seq!["/bin/bash"@, "/usr/bin/bash"@]
    } else if shell == "zsh"@ {
        seq!["/bin/zsh"@, "/usr/bin/zsh"@, "/usr/local/bin/zsh"@]
    } else if shell == "fish"@ {
        seq!["/bin/fish"@, "/usr/bin/fish"@, "/usr/local/bin/fish"@]
    } else if shell == "sh"@ {
        seq!["/bin/sh"@, "/usr/bin/sh"@]
    } else if shell == "dash"@ {
        seq!["/bin/dash"@, "/usr/bin/dash"@]
    } else if shell == "ksh"@ {
        seq!["/bin/ksh"@, "/usr/bin/ksh"@]
    } else {
        Seq::empty()
    }
}

/// Where a shell may be.
pub fn shell_candidates(shell: &str) -> (r: Vec<String>)
    ensures
        text::views(r@) == candidates(shell@),
{
    let mut out: Vec<String> = Vec::new();
    if text::text_starts_with(shell, "/") {
        out.push(shell.to_owned());
    } else if text::same(shell, "bash") {
        out.push("/bin/bash".to_owned());
        out.push("/usr/bin/bash".to_owned());
    } else if text::same(shell, "zsh") {
        out.push("/bin/zsh".to_owned());
        out.push("/usr/bin/zsh".to_owned());
        out.push("/usr/local/bin/zsh".to_owned());
    } else if text::same(shell, "fish") {
        out.push("/bin/fish".to_owned());
        out.push("/usr/bin/fish".to_owned());
        out.push("/usr/local/bin/fish".to_owned());
    } else if text::same(shell, "sh") {
        out.push("/bin/sh".to_owned());
        out.push("/usr/bin/sh".to_owned());
    } else if text::same(shell, "dash") {
        out.push("/bin/dash".to_owned());
        out.push("/usr/bin/dash".to_owned());
    } else if text::same(shell, "ksh") {
        out.push("/bin/ksh".to_owned());
        out.push("/usr/bin/ksh".to_owned());
    }
    assert(text::views(out@) =~= candidates(shell@));
    out
}

/// The first candidate that exists, or else the shell as it was named.
pub open spec fn shell_path(
    shell: Seq<char>,
    places: Seq<Seq<char>>,
    existing: Seq<Seq<char>>,
) -> Seq<char>
    decreases places.len(),
{
    if places.len() == 0 {
        shell
    } else if existing.contains(places[0]) {
        places[0]
    } else {
        shell_path(shell, places.drop_first(), existing)
    }
}

/// The path of a shell. `existing` holds the candidates that exist.
pub fn resolve_shell_path(shell: &str, existing: &Vec<String>) -> (r: String)
    ensures
        r@ == shell_path(shell@, candidates(shell@), text::views(existing@)),
{
    let places = shell_candidates(shell);
    let ghost all = candidates(shell@);
    let ghost there = text::views(existing@);
    let mut i: usize = 0;
    assert(all.skip(0) =~= all);
    while i < places.len()
        invariant
            all == candidates(shell@),
            all == text::views(places@),
            there == text::views(existing@),
            i <= places@.len(),
            shell_path(shell@, all, there) == shell_path(shell@, all.skip(i as int), there),
        decreases places@.len() - i,
    {
        assert(all.skip(i as int)[0] == places@[i as int]@);
        assert(all.skip(i as int).drop_first() =~= all.skip(i + 1));
        if text::contains_text(existing, places[i].as_str()) {
            return places[i].clone();
        }
        i = i + 1;
    }
    shell.to_owned()
}

/// The command line. `shell` is the path of the shell that runs the command.
pub open spec fn command_line(command: Seq<char>, use_sudo: bool, shell: Option<Seq<char>>) -> Seq<
    char,
> {
    let line = if use_sudo {
        "sudo -S "@ + command
    } else {
        command
    };
    match shell {
        Some(s) => s + " -c '"@ + text::substitute(line, '\'', "'\\''"@) + "'"@,
        None => line,
    }
}

/// The path of the shell that an input names.
pub open spec fn input_shell(input: EnhancedTerminalToolInput, existing: Seq<Seq<char>>) -> Option<
    Seq<char>,
> {
    match input.shell {
        Some(s) => Some(shell_path(s@, candidates(s@), existing)),
        None => None,
    }
}

/// The command line of an input. `existing` holds the candidates for the shell that exist.
pub fn prepare_command(input: &EnhancedTerminalToolInput, existing: &Vec<String>) -> (r: String)
    ensures
        r@ == command_line(
            input.command@,
            input.use_sudo,
            input_shell(*input, text::views(existing@)),
        ),
{
    let mut line = if input.use_sudo {
        "sudo -S ".to_owned()
    } else {
        String::new()
    };
    line.append(input.command.as_str());
    assert(!input.use_sudo ==> line@ =~= input.command@);
    match &input.shell {
        Some(s) => {
            let mut out = resolve_shell_path(s.as_str(), existing);
            out.append(" -c '");
            out.append(text::substitute_text(line.as_str(), '\'', "'\\''").as_str());
            out.append("'");
            out
        },
        None => line,
    }
}

/// What a command wrote, as it is shown.
pub open spec fn shown_output(output: Seq<char>, truncated: bool) -> Seq<char> {
    let block = "```\n"@ + text::trim(output) + "\n```"@;
    if truncated {
        "Command output too long. The first "@ + text::decimal(encode_utf8(block).len())
            + " bytes:\n\n"@ + block
    } else {
        block
    }
}

/// What is said of a command that has ended.
pub open spec fn outcome(
    output: Seq<char>,
    truncated: bool,
    command: Seq<char>,
    exit_code: Option<u32>,
    used_sudo: bool,
) -> Seq<char> {
    let prefix = if used_sudo {
        "[SUDO] "@
    } else {
        Seq::empty()
    };
    let rest = if text::trim(output).len() == 0 {
        Seq::empty()
    } else {
        "\n\n"@ + shown_output(output, truncated)
    };
    match exit_code {
        Some(code) => if code == 0 {
            prefix + "Command executed successfully."@ + rest
        } else {
            prefix + "Command \""@ + command + "\" failed with exit code "@ + text::decimal(
                code as nat,
            ) + "."@ + rest
        },
        None => prefix + "Command failed or was interrupted.\nPartial output captured:\n\n"@
            + shown_output(output, truncated),
    }
}

fn shown_output_text(output: &str, truncated: bool) -> (r: String)
    ensures
        r@ == shown_output(output@, truncated),
{
    let mut block = "```\n".to_owned();
    block.append(text::trim_text(output).as_str());
    block.append("\n```");
    if truncated {
        let mut out = "Command output too long. The first ".to_owned();
        out.append(text::count_text(text::byte_len(block.as_str())).as_str());
        out.append(" bytes:\n\n");
        out.append(block.as_str());
        out
    } else {
        block
    }
}

/// What is said of a command that has ended. It has no exit code where it was interrupted.
pub fn process_command_output(
    output: &str,
    truncated: bool,
    command: &str,
    exit_code: Option<u32>,
    used_sudo: bool,
) -> (r: String)
    ensures
        r@ == outcome(output@, truncated, command@, exit_code, used_sudo),
{
    let content = shown_output_text(output, truncated);
    let mut rest = String::new();
    if text::trim_text(output).as_str().unicode_len() > 0 {
        rest.append("\n\n");
        rest.append(content.as_str());
    }
    assert(text::trim(output@).len() > 0 ==> rest@ =~= "\n\n"@ + shown_output(output@, truncated));
    let mut out = String::new();
    if used_sudo {
        out.append("[SUDO] ");
    }
    assert(used_sudo ==> out@ =~= "[SUDO] "@);
    match exit_code {
        Some(code) => {
            if code == 0 {
                out.append("Command executed successfully.");
            } else {
                out.append("Command \"");
                out.append(command);
                out.append("\" failed with exit code ");
                out.append(text::decimal_text(code as u128).as_str());
                out.append(".");
            }
            out.append(rest.as_str());
        },
        None => {
            out.append("Command failed or was interrupted.\nPartial output captured:\n\n");
            out.append(content.as_str());
        },
    }
    out
}

/// What is said of a command that took too long.
pub fn timeout_message(seconds: u64) -> (r: String)
    ensures
        r@ == "Command execution timed out after "@ + text::decimal(seconds as nat) + " seconds"@,
{
    let mut out = "Command execution timed out after ".to_owned();
    out.append(text::decimal_text(seconds as u128).as_str());
    out.append(" seconds");
    out
}

/// The first line of a command, and how many lines follow.
pub open spec fn title_line(command: Seq<char>, use_sudo: bool) -> Seq<char> {
    let lines = text::lines(command);
    let first = if lines.len() == 0 {
        Seq::empty()
    } else {
        lines[0]
    };
    let prefix = if use_sudo {
        "sudo "@
    } else {
        Seq::empty()
    };
    if lines.len() <= 1 {
        prefix + first
    } else if lines.len() == 2 {
        prefix + first + " - "@ + text::decimal(1) + " more line"@
    } else {
        prefix + first + " - "@ + text::decimal((lines.len() - 1) as nat) + " more lines"@
    }
}

fn title_line_text(command: &str, use_sudo: bool) -> (r: String)
    ensures
        r@ == title_line(command@, use_sudo),
{
    let lines = text::lines_of(command);
    let n: usize = lines.len();
    assert(text::views(lines@).len() == n);
    let mut out = String::new();
    if use_sudo {
        out.append("sudo ");
    }
    assert(use_sudo ==> out@ =~= "sudo "@);
    if n > 0 {
        assert(text::views(lines@)[0] == lines@[0]@);
        out.append(lines[0].as_str());
    } else {
        assert(out@ =~= out@ + Seq::<char>::empty());
    }
    if n > 1 {
        out.append(" - ");
        out.append(text::count_text(n - 1).as_str());
        if n == 2 {
            out.append(" more line");
        } else {
            out.append(" more lines");
        }
    }
    out
}

/// Runs commands in a shell.
pub struct EnhancedTerminalTool;

impl EnhancedTerminalTool {
    /// The name of the tool.
    pub fn name() -> (r: &'static str)
        ensures
            r@ == "enhanced_terminal"@,
    {
        "enhanced_terminal"
    }

    /// What the tool does to its subject.
    pub fn kind() -> (r: ToolKind)
        ensures
            r == ToolKind::Execute,
    {
        ToolKind::Execute
    }

    /// The title of a call of the tool. The input is missing where it could not be read.
    pub fn initial_title(input: &Option<EnhancedTerminalToolInput>) -> (r: String)
        ensures
            r@ == match input {
                Some(i) => markdown::inline_code(title_line(i.command@, i.use_sudo)),
                None => ""@,
            },
    {
        match input {
            Some(i) => {
                let line = title_line_text(i.command.as_str(), i.use_sudo);
                markdown::inline_code_text(line.as_str())
            },
            None => "".to_owned(),
        }
    }

    /// How much of the output is kept.
    pub fn output_limit(input: &EnhancedTerminalToolInput) -> (r: u64)
        ensures
            r == match input.output_limit {
                Some(n) => n,
                None => if input.use_sudo {
                    LARGE_OUTPUT_LIMIT
                } else {
                    DEFAULT_OUTPUT_LIMIT
                },
            },
    {
        match input.output_limit {
            Some(n) => n,
            None => if input.use_sudo {
                LARGE_OUTPUT_LIMIT
            } else {
                DEFAULT_OUTPUT_LIMIT
            },
        }
    }
}

// ---------------------------------------------------------------------------
// Laws
// ---------------------------------------------------------------------------

/// The text without quotes, as a shell reads what stands between single quotes: a quote ends and
/// starts them, and a back slash outside of them keeps the quote that follows.
pub open spec fn unquoted(s: Seq<char>, inside: bool) -> Seq<char>
    decreases s.len(),
{
    if s.len() == 0 {
        Seq::empty()
    } else if s[0] == '\'' {
        unquoted(s.drop_first(), !inside)
    } else if !inside && s[0] == '\\' && s.len() > 1 {
        seq![s[1]] + unquoted(s.skip(2), inside)
    } else {
        seq![s[0]] + unquoted(s.drop_first(), inside)
    }
}

/// A shell that is handed a quoted command reads the command itself.
pub proof fn quoting_is_undone(command: Seq<char>)
    ensures
        unquoted(text::substitute(command, '\'', "'\\''"@) + "'"@, true) == command,
{
    reveal_strlit("'");
    let rest = "'"@;
    assert(unquoted(rest, true) =~= Seq::<char>::empty()) by {
        reveal_with_fuel(unquoted, 2);
        assert(rest.drop_first() =~= Seq::<char>::empty());
    }
    quoted_then(command, rest);
    assert(command + unquoted(rest, true) =~= command);
}

/// What follows a quoted text is read as if it stood alone.
proof fn quoted_then(s: Seq<char>, rest: Seq<char>)
    ensures
        unquoted(text::substitute(s, '\'', "'\\''"@) + rest, true) == s + unquoted(rest, true),
    decreases s.len(),
{
    let quote = "'\\''"@;
    reveal_strlit("'\\''");
    if s.len() == 0 {
        assert(text::substitute(s, '\'', quote) + rest =~= rest);
        assert(s + unquoted(rest, true) =~= unquoted(rest, true));
    } else {
        let c = s.last();
        let before = text::substitute(s.drop_last(), '\'', quote);
        if c == '\'' {
            let next = quote + rest;
            quoted_then(s.drop_last(), next);
            assert(text::substitute(s, '\'', quote) + rest =~= before + next);
            let a = next.drop_first();
            assert(a[0] == '\\' && a[1] == '\'');
            let b = a.skip(2);
            assert(b[0] == '\'');
            assert(b.drop_first() =~= rest);
            assert(unquoted(next, true) == unquoted(a, false));
            assert(unquoted(a, false) == seq!['\''] + unquoted(b, false));
            assert(unquoted(b, false) == unquoted(rest, true));
            assert(s.drop_last() + (seq!['\''] + unquoted(rest, true)) =~= s + unquoted(
                rest,
                true,
            ));
        } else {
            let next = seq![c] + rest;
            quoted_then(s.drop_last(), next);
            assert(text::substitute(s, '\'', quote) + rest =~= before + next);
            assert(next.drop_first() =~= rest);
            assert(unquoted(next, true) == seq![c] + unquoted(rest, true));
            assert(s.drop_last() + (seq![c] + unquoted(rest, true)) =~= s + unquoted(rest, true));
        }
    }
}

} // verus!
