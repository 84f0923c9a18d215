//! Which tools there are, and under which names they are offered to a model.

use vstd::prelude::*;
use vstd::utf8::*;

use crate::text;
use crate::thread;
use crate::thread::Thread;
use crate::tools::enhanced_terminal_tool::EnhancedTerminalTool;
use crate::tools::list_history_tool::ListHistoryTool;
use crate::tools::memory_tool::MemoryAgentTool;
use crate::tools::shell_detector_tool::ShellDetectorTool;
use crate::tools::token_usage_tool::TokenUsageTool;

verus! {

/// How long the name of a tool may be, in bytes.
pub const MAX_TOOL_NAME_LENGTH: usize = 64;

/// The names of the tools that are built in.
pub open spec fn default_names() -> Seq<Seq<char>> {
    seq![
        "copy_path"@, "create_directory"@, "delete_path"@, "diagnostics"@, "edit_file"@,
        "fetch"@, "find_path"@, "grep"@, "list_directory"@, "list_history"@, "memory"@,
        "token_usage"@, "enhanced_terminal"@, "detect_shells"@, "move_path"@, "now"@, "open"@,
        "read_file"@, "terminal"@, "thinking"@, "web_search"@,
    ]
}

/// The names of the tools that a thread is given.
pub open spec fn given_names() -> Seq<Seq<char>> {
    seq![
        "copy_path"@, "create_directory"@, "delete_path"@, "diagnostics"@, "edit_file"@,
        "fetch"@, "find_path"@, "grep"@, "list_directory"@, "memory"@, "token_usage"@,
        "move_path"@, "now"@, "open"@, "read_file"@, "terminal"@, "enhanced_terminal"@,
        "detect_shells"@, "thinking"@, "web_search"@,
    ]
}

/// What names hold.
pub open spec fn name_views(names: Seq<&'static str>) -> Seq<Seq<char>> {
    names.map_values(|n: &'static str| n@)
}

/// The names of the tools that are built in.
pub fn default_tool_names() -> (r: Vec<&'static str>)
    ensures
        name_views(r@) == default_names(),
{
    let mut out: Vec<&'static str> = Vec::new();
    out.push("copy_path");
    out.push("create_directory");
    out.push("delete_path");
    out.push("diagnostics");
    out.push("edit_file");
    out.push("fetch");
    out.push("find_path");
    out.push("grep");
    out.push("list_directory");
    out.push(ListHistoryTool::name());
    out.push(MemoryAgentTool::name());
    out.push(TokenUsageTool::name());
    out.push(EnhancedTerminalTool::name());
    out.push(ShellDetectorTool::name());
    out.push("move_path");
    out.push("now");
    out.push("open");
    out.push("read_file");
    out.push("terminal");
    out.push("thinking");
    out.push("web_search");
    assert(name_views(out@) =~= default_names());
    out
}

// ---------------------------------------------------------------------------
// The tools of a thread
// ---------------------------------------------------------------------------

impl Thread {
    /// Gives the thread a tool. One that the thread has under the name is replaced.
    pub fn add_tool(&mut self, name: &str)
        requires
            text::in_order(old(self)@.tools),
        ensures
            text::in_order(final(self)@.tools),
            forall|t: Seq<char>| #[trigger]
                final(self)@.tools.contains(t) == (old(self)@.tools.contains(t) || t == name@),
            final(self)@ == (thread::ThreadView { tools: final(self)@.tools, ..old(self)@ }),
    {
        text::place_text(&mut self.tools, name);
    }

    /// Takes a tool from the thread. Says whether the thread had it.
    pub fn remove_tool(&mut self, name: &str) -> (r: bool)
        requires
            text::in_order(old(self)@.tools),
        ensures
            r == old(self)@.tools.contains(name@),
            text::in_order(final(self)@.tools),
            forall|t: Seq<char>| #[trigger]
                final(self)@.tools.contains(t) == (old(self)@.tools.contains(t) && t != name@),
            final(self)@ == (thread::ThreadView { tools: final(self)@.tools, ..old(self)@ }),
    {
        text::remove_text(&mut self.tools, name)
    }

    /// Gives the thread the tools that it has by default. The history is not among them.
    pub fn add_default_tools(&mut self)
        requires
            text::in_order(old(self)@.tools),
        ensures
            text::in_order(final(self)@.tools),
            forall|t: Seq<char>| #[trigger]
                final(self)@.tools.contains(t) == (old(self)@.tools.contains(t)
                    || given_names().contains(t)),
            final(self)@ == (thread::ThreadView { tools: final(self)@.tools, ..old(self)@ }),
    {
        let names = default_tool_names();
        let ghost before = self@;
        let ghost all = default_names();
        for i in 0..names.len()
            invariant
                all == name_views(names@),
                text::in_order(self@.tools),
                forall|t: Seq<char>| #[trigger]
                    self@.tools.contains(t) == (before.tools.contains(t) || (all.take(
                        i as int,
                    ).contains(t) && t != "list_history"@)),
                self@ == (thread::ThreadView { tools: self@.tools, ..before }),
        {
            let ghost less = all.take(i as int);
            let ghost more = all.take(i + 1);
            let ghost had = self@.tools;
            assert(more =~= less.push(all[i as int]));
            assert(all[i as int] == names@[i as int]@);
            if !text::same(names[i], ListHistoryTool::name()) {
                self.add_tool(names[i]);
            }
            assert forall|t: Seq<char>| #[trigger]
                self@.tools.contains(t) == (before.tools.contains(t) || (more.contains(t) && t
                    != "list_history"@)) by {
                assert(had.contains(t) == (before.tools.contains(t) || (less.contains(t) && t
                    != "list_history"@)));
                text::contains_one_more(all, i as int, t);
            }
        }
        assert(all.take(all.len() as int) =~= all);
        proof {
            given_are_the_others();
        }
    }
}

/// The tools that a thread is given are those that are built in, but for the history.
pub proof fn given_are_the_others()
    ensures
        forall|t: Seq<char>| #[trigger]
            given_names().contains(t) == (default_names().contains(t) && t != "list_history"@),
{
    default_names_are_distinct();
    let all = default_names();
    let given = given_names();
    assert(all[9] == "list_history"@);
    assert forall|t: Seq<char>| #[trigger]
        given.contains(t) == (all.contains(t) && t != "list_history"@) by {
        if given.contains(t) {
            let i = choose|i: int| 0 <= i < given.len() && given[i] == t;
            let j = if i < 9 {
                i
            } else if i < 11 {
                i + 1
            } else if i < 16 {
                i + 3
            } else if i < 18 {
                i - 4
            } else {
                i + 1
            };
            assert(all[j] == t);
        }
        if all.contains(t) && t != "list_history"@ {
            let j = choose|j: int| 0 <= j < all.len() && all[j] == t;
            let i = if j < 9 {
                j
            } else if j < 12 {
                j - 1
            } else if j < 14 {
                j + 4
            } else if j < 19 {
                j - 3
            } else {
                j - 1
            };
            assert(given[i] == t);
        }
    }
}

// ---------------------------------------------------------------------------
// The tools that a model is offered
// ---------------------------------------------------------------------------

/// A tool of a thread. `supported` says whether it works with the provider of the model, `enabled`
/// whether the profile allows it. `id` is that by which the tool is found again.
#[derive(Debug)]
pub struct OwnTool {
    pub name: String,
    pub supported: bool,
    pub enabled: bool,
    pub id: u64,
}

/// A tool of a context server.
#[derive(Debug)]
pub struct ServerTool {
    pub server_id: String,
    pub name: String,
    pub enabled: bool,
    pub id: u64,
}

/// A name that is not too long.
pub open spec fn cut_name(name: Seq<char>) -> Seq<char> {
    text::byte_head(name, MAX_TOOL_NAME_LENGTH as int)
}

/// The tools of a thread that are offered, by their names. Of tools that are named alike the last
/// one stays.
pub open spec fn own_offers(tools: Seq<OwnTool>) -> Map<Seq<char>, u64>
    decreases tools.len(),
{
    if tools.len() == 0 {
        Map::empty()
    } else {
        let before = own_offers(tools.drop_last());
        let last = tools.last();
        if last.supported && last.enabled {
            before.insert(cut_name(last.name@), last.id)
        } else {
            before
        }
    }
}

/// How many tools of context servers are offered under a name.
pub open spec fn name_count(tools: Seq<ServerTool>, name: Seq<char>) -> nat
    decreases tools.len(),
{
    if tools.len() == 0 {
        0
    } else {
        name_count(tools.drop_last(), name) + if tools.last().enabled && cut_name(
            tools.last().name@,
        ) == name {
            1nat
        } else {
            0nat
        }
    }
}

/// Whether a name of a tool of a context server is that of another tool too.
pub open spec fn is_duplicate(
    own: Map<Seq<char>, u64>,
    tools: Seq<ServerTool>,
    name: Seq<char>,
) -> bool {
    name_count(tools, name) + if own.dom().contains(name) {
        1nat
    } else {
        0nat
    } > 1
}

/// The name of a tool with that of its server in front, as far as there is room for it.
pub open spec fn server_name(server: Seq<char>, name: Seq<char>) -> Seq<char> {
    let room = MAX_TOOL_NAME_LENGTH - encode_utf8(name).len();
    if room >= 2 {
        text::byte_head(server, room - 1) + "_"@ + name
    } else {
        name
    }
}

/// The name that a tool of a context server is offered under.
pub open spec fn offered_name(
    own: Map<Seq<char>, u64>,
    all: Seq<ServerTool>,
    tool: ServerTool,
) -> Seq<char> {
    let name = cut_name(tool.name@);
    if is_duplicate(own, all, name) {
        server_name(tool.server_id@, name)
    } else {
        name
    }
}

/// All tools that are offered, by their names: those of the thread, then the first `n` of the
/// context servers.
pub open spec fn offers(own: Map<Seq<char>, u64>, all: Seq<ServerTool>, n: int) -> Map<
    Seq<char>,
    u64,
>
    decreases n,
{
    if n <= 0 || n > all.len() {
        own
    } else {
        let before = offers(own, all, n - 1);
        let last = all[n - 1];
        if last.enabled {
            before.insert(offered_name(own, all, last), last.id)
        } else {
            before
        }
    }
}

/// Names with what they stand for.
pub open spec fn entry_names(entries: Seq<(String, u64)>) -> Seq<Seq<char>> {
    entries.map_values(|e: (String, u64)| e.0@)
}

/// What entries say that names stand for.
pub open spec fn entry_map(entries: Seq<(String, u64)>) -> Map<Seq<char>, u64>
    decreases entries.len(),
{
    if entries.len() == 0 {
        Map::empty()
    } else {
        entry_map(entries.drop_last()).insert(entries.last().0@, entries.last().1)
    }
}

/// A name stands for what its entry says.
proof fn entry_says(entries: Seq<(String, u64)>)
    requires
        text::in_order(entry_names(entries)),
    ensures
        forall|n: Seq<char>| #[trigger]
            entry_map(entries).dom().contains(n) == entry_names(entries).contains(n),
        forall|i: int|
            0 <= i < entries.len() ==> entry_map(entries)[(#[trigger] entries[i]).0@]
                == entries[i].1,
    decreases entries.len(),
{
    let names = entry_names(entries);
    if entries.len() > 0 {
        let less = entries.drop_last();
        assert(entry_names(less) =~= names.drop_last());
        assert forall|i: int, j: int| 0 <= i < j < less.len() implies text::before(
            #[trigger] entry_names(less)[i],
            #[trigger] entry_names(less)[j],
        ) by {
            assert(text::before(names[i], names[j]));
        }
        entry_says(less);
        let last = entries.last();
        assert(names.last() == last.0@);
        assert forall|n: Seq<char>| #[trigger]
            entry_map(entries).dom().contains(n) == names.contains(n) by {
            text::contains_one_more(names, less.len() as int, n);
            assert(entry_map(less).dom().contains(n) == entry_names(less).contains(n));
            assert(names.take(less.len() as int) =~= entry_names(less));
            assert(names.take(names.len() as int) =~= names);
        }
        assert forall|i: int| 0 <= i < entries.len() implies entry_map(
            entries,
        )[(#[trigger] entries[i]).0@] == entries[i].1 by {
            if i < less.len() {
                assert(less[i] == entries[i]);
                assert(text::before(names[i], names[entries.len() - 1]));
                text::before_is_strict(names[i]);
            }
        }
    }
}

/// Lets a name stand for something.
fn set_entry(entries: &mut Vec<(String, u64)>, name: &str, id: u64)
    requires
        text::in_order(entry_names(old(entries)@)),
    ensures
        text::in_order(entry_names(final(entries)@)),
        entry_map(final(entries)@) == entry_map(old(entries)@).insert(name@, id),
{
    let ghost had = entries@;
    let ghost names = entry_names(entries@);
    let mut i: usize = 0;
    while i < entries.len() && text::comes_before(entries[i].0.as_str(), name)
        invariant
            entries@ == had,
            had == old(entries)@,
            names == entry_names(entries@),
            i <= entries@.len(),
            forall|j: int| 0 <= j < i ==> text::before(#[trigger] names[j], name@),
        decreases entries@.len() - i,
    {
        assert(names[i as int] == entries@[i as int].0@);
        i = i + 1;
    }
    proof {
        entry_says(had);
    }
    let ghost wanted = entry_map(had).insert(name@, id);
    if i < entries.len() && text::same(entries[i].0.as_str(), name) {
        entries.set(i, (name.to_owned(), id));
        assert(entry_names(entries@) =~= names);
        proof {
            entry_says(entries@);
        }
        assert forall|n: Seq<char>| wanted.dom().contains(n) implies entry_map(entries@)[n]
            == wanted[n] by {
            if n == name@ {
                assert(entries@[i as int].0@ == n);
            } else {
                assert(names.contains(n));
                let j = choose|j: int| 0 <= j < names.len() && names[j] == n;
                assert(had[j].0@ == n);
                assert(entries@[j].0@ == n);
            }
        }
        assert(names[i as int] == name@);
        assert(entry_map(entries@) =~= wanted);
        return ;
    }
    proof {
        if i < entries@.len() {
            assert(names[i as int] == entries@[i as int].0@);
            text::before_is_total(names[i as int], name@);
        }
    }
    entries.insert(i, (name.to_owned(), id));
    let ghost now = entry_names(entries@);
    assert(now =~= names.insert(i as int, name@));
    assert forall|j: int, k: int| 0 <= j < k < now.len() implies text::before(
        #[trigger] now[j],
        #[trigger] now[k],
    ) by {
        if j == i && i + 1 < k {
            assert(text::before(names[i as int], names[k - 1]));
            text::before_is_transitive(name@, names[i as int], names[k - 1]);
        }
    }
    proof {
        entry_says(entries@);
    }
    assert forall|n: Seq<char>| now.contains(n) == (names.contains(n) || n == name@) by {
        if names.contains(n) {
            let j = choose|j: int| 0 <= j < names.len() && names[j] == n;
            if j < i {
                assert(now[j] == n);
            } else {
                assert(now[j + 1] == n);
            }
        }
        assert(now[i as int] == name@);
        if now.contains(n) {
            let j = choose|j: int| 0 <= j < now.len() && now[j] == n;
            if j < i {
                assert(names[j] == n);
            } else if j > i {
                assert(names[j - 1] == n);
            }
        }
    }
    assert forall|n: Seq<char>| wanted.dom().contains(n) implies entry_map(entries@)[n]
        == wanted[n] by {
        if n == name@ {
            assert(entries@[i as int].0@ == n);
        } else {
            assert(names.contains(n));
            let j = choose|j: int| 0 <= j < names.len() && names[j] == n;
            assert(had[j].0@ == n);
            if j < i {
                assert(entries@[j].0@ == n);
            } else {
                assert(entries@[j + 1].0@ == n);
            }
        }
    }
    assert(entry_map(entries@) =~= wanted);
}

fn has_entry(entries: &Vec<(String, u64)>, name: &str) -> (r: bool)
    requires
        text::in_order(entry_names(entries@)),
    ensures
        r == entry_map(entries@).dom().contains(name@),
{
    let ghost names = entry_names(entries@);
    proof {
        entry_says(entries@);
    }
    for i in 0..entries.len()
        invariant
            names == entry_names(entries@),
            entry_map(entries@).dom().contains(name@) == names.contains(name@),
            forall|j: int| 0 <= j < i ==> #[trigger] names[j] != name@,
    {
        assert(names[i as int] == entries@[i as int].0@);
        if text::same(entries[i].0.as_str(), name) {
            return true;
        }
    }
    false
}

fn count_name(tools: &Vec<ServerTool>, name: &str) -> (n: usize)
    ensures
        n == name_count(tools@, name@),
{
    let mut n: usize = 0;
    for i in 0..tools.len()
        invariant
            n <= i,
            n == name_count(tools@.take(i as int), name@),
    {
        assert(tools@.take(i + 1).drop_last() =~= tools@.take(i as int));
        assert(tools@.take(i + 1).last() == tools@[i as int]);
        let cut = text::byte_head_text(tools[i].name.as_str(), MAX_TOOL_NAME_LENGTH);
        if tools[i].enabled && text::same(cut.as_str(), name) {
            n = n + 1;
        }
    }
    assert(tools@.take(tools@.len() as int) =~= tools@);
    n
}

fn server_name_text(server: &str, name: &str) -> (r: String)
    ensures
        r@ == server_name(server@, name@),
{
    let len: usize = text::byte_len(name);
    if len <= 62 {
        let mut out = text::byte_head_text(server, MAX_TOOL_NAME_LENGTH - len - 1);
        out.append("_");
        out.append(name);
        out
    } else {
        name.to_owned()
    }
}

/// The tools that a model is offered, by their names, in the order of the names. `tools` are those
/// of the thread, in the order of their names; `server_tools` those of the context servers, in the
/// order in which the servers give them.
pub fn enabled_tools(tools: &Vec<OwnTool>, server_tools: &Vec<ServerTool>) -> (r: Vec<
    (String, u64),
>)
    ensures
        text::in_order(entry_names(r@)),
        entry_map(r@) == offers(own_offers(tools@), server_tools@, server_tools@.len() as int),
{
    let mut own: Vec<(String, u64)> = Vec::new();
    assert(entry_names(own@) =~= Seq::empty());
    for i in 0..tools.len()
        invariant
            text::in_order(entry_names(own@)),
            entry_map(own@) == own_offers(tools@.take(i as int)),
    {
        assert(tools@.take(i + 1).drop_last() =~= tools@.take(i as int));
        assert(tools@.take(i + 1).last() == tools@[i as int]);
        if tools[i].supported && tools[i].enabled {
            let name = text::byte_head_text(tools[i].name.as_str(), MAX_TOOL_NAME_LENGTH);
            set_entry(&mut own, name.as_str(), tools[i].id);
        }
    }
    assert(tools@.take(tools@.len() as int) =~= tools@);
    let ghost own_map = entry_map(own@);
    let mut out = copy_entries(&own);
    for i in 0..server_tools.len()
        invariant
            text::in_order(entry_names(own@)),
            own_map == entry_map(own@),
            text::in_order(entry_names(out@)),
            entry_map(out@) == offers(own_map, server_tools@, i as int),
    {
        if server_tools[i].enabled {
            let name = text::byte_head_text(server_tools[i].name.as_str(), MAX_TOOL_NAME_LENGTH);
            let times: usize = count_name(server_tools, name.as_str());
            if times > 1 || (times == 1 && has_entry(&own, name.as_str())) {
                let full = server_name_text(server_tools[i].server_id.as_str(), name.as_str());
                set_entry(&mut out, full.as_str(), server_tools[i].id);
            } else {
                proof {
                    counted(server_tools@, i as int);
                }
                set_entry(&mut out, name.as_str(), server_tools[i].id);
            }
        }
    }
    out
}

fn copy_entries(entries: &Vec<(String, u64)>) -> (r: Vec<(String, u64)>)
    ensures
        entry_names(r@) == entry_names(entries@),
        entry_map(r@) == entry_map(entries@),
{
    let mut out: Vec<(String, u64)> = Vec::new();
    let ghost names = entry_names(entries@);
    assert(entry_names(out@) =~= names.take(0));
    assert(entry_map(out@) =~= entry_map(entries@.take(0)));
    for i in 0..entries.len()
        invariant
            names == entry_names(entries@),
            entry_names(out@) == names.take(i as int),
            entry_map(out@) == entry_map(entries@.take(i as int)),
    {
        assert(entries@.take(i + 1).drop_last() =~= entries@.take(i as int));
        assert(entries@.take(i + 1).last() == entries@[i as int]);
        let ghost seen = out@;
        out.push((entries[i].0.clone(), entries[i].1));
        assert(out@.drop_last() =~= seen);
        assert(entry_names(out@) =~= entry_names(seen).push(names[i as int]));
        assert(names.take(i + 1) =~= names.take(i as int).push(names[i as int]));
    }
    assert(names.take(names.len() as int) =~= names);
    assert(entries@.take(entries@.len() as int) =~= entries@);
    out
}

/// A tool that is offered counts under its name.
proof fn counted(tools: Seq<ServerTool>, i: int)
    requires
        0 <= i < tools.len(),
        tools[i].enabled,
    ensures
        name_count(tools, cut_name(tools[i].name@)) >= 1,
    decreases tools.len(),
{
    if i < tools.len() - 1 {
        counted(tools.drop_last(), i);
    }
}

// ---------------------------------------------------------------------------
// Laws
// ---------------------------------------------------------------------------

/// No two tools that are built in have one name.
pub proof fn default_names_are_distinct()
    ensures
        forall|i: int, j: int|
            0 <= i < j < default_names().len() ==> #[trigger] default_names()[i]
                != #[trigger] default_names()[j],
{
    reveal_strlit("copy_path");
    reveal_strlit("create_directory");
    reveal_strlit("delete_path");
    reveal_strlit("diagnostics");
    reveal_strlit("edit_file");
    reveal_strlit("fetch");
    reveal_strlit("find_path");
    reveal_strlit("grep");
    reveal_strlit("list_directory");
    reveal_strlit("list_history");
    reveal_strlit("memory");
    reveal_strlit("token_usage");
    reveal_strlit("enhanced_terminal");
    reveal_strlit("detect_shells");
    reveal_strlit("move_path");
    reveal_strlit("now");
    reveal_strlit("open");
    reveal_strlit("read_file");
    reveal_strlit("terminal");
    reveal_strlit("thinking");
    reveal_strlit("web_search");
    assert("copy_path"@[0] != "edit_file"@[0]);
    assert("copy_path"@[0] != "find_path"@[0]);
    assert("copy_path"@[0] != "move_path"@[0]);
    assert("copy_path"@[0] != "read_file"@[0]);
    assert("delete_path"@[1] != "diagnostics"@[1]);
    assert("delete_path"@[0] != "token_usage"@[0]);
    assert("diagnostics"@[0] != "token_usage"@[0]);
    assert("edit_file"@[0] != "find_path"@[0]);
    assert("edit_file"@[0] != "move_path"@[0]);
    assert("edit_file"@[0] != "read_file"@[0]);
    assert("find_path"@[0] != "move_path"@[0]);
    assert("find_path"@[0] != "read_file"@[0]);
    assert("grep"@[0] != "open"@[0]);
    assert("move_path"@[0] != "read_file"@[0]);
    assert("terminal"@[1] != "thinking"@[1]);
    let all = default_names();
    assert(all[0].len() == 9);
    assert(all[1].len() == 16);
    assert(all[2].len() == 11);
    assert(all[3].len() == 11);
    assert(all[4].len() == 9);
    assert(all[5].len() == 5);
    assert(all[6].len() == 9);
    assert(all[7].len() == 4);
    assert(all[8].len() == 14);
    assert(all[9].len() == 12);
    assert(all[10].len() == 6);
    assert(all[11].len() == 11);
    assert(all[12].len() == 17);
    assert(all[13].len() == 13);
    assert(all[14].len() == 9);
    assert(all[15].len() == 3);
    assert(all[16].len() == 4);
    assert(all[17].len() == 9);
    assert(all[18].len() == 8);
    assert(all[19].len() == 8);
    assert(all[20].len() == 10);
}

/// The tools for the memory and for the history are among those that are built in.
pub proof fn context_tools_are_built_in()
    ensures
        default_names().contains("memory"@),
        default_names().contains("list_history"@),
{
    assert(default_names()[10] == "memory"@);
    assert(default_names()[9] == "list_history"@);
}

/// No name that a model is offered is too long.
pub proof fn offered_names_fit(tools: Seq<OwnTool>, all: Seq<ServerTool>, n: int, name: Seq<char>)
    requires
        offers(own_offers(tools), all, n).dom().contains(name),
    ensures
        encode_utf8(name).len() <= MAX_TOOL_NAME_LENGTH,
    decreases n,
{
    if n <= 0 || n > all.len() {
        own_names_fit(tools, name);
    } else {
        let own = own_offers(tools);
        let last = all[n - 1];
        if offers(own, all, n - 1).dom().contains(name) {
            offered_names_fit(tools, all, n - 1, name);
        } else {
            let cut = cut_name(last.name@);
            text::byte_head_fits(last.name@, MAX_TOOL_NAME_LENGTH as int);
            let room = MAX_TOOL_NAME_LENGTH - encode_utf8(cut).len();
            if is_duplicate(own, all, cut) && room >= 2 {
                text::byte_head_fits(last.server_id@, room - 1);
                let head = text::byte_head(last.server_id@, room - 1);
                reveal_strlit("_");
                text::bytes_add_up(head + "_"@, cut);
                text::bytes_add_up(head, "_"@);
                text::bytes_of_next("_"@, 0);
                assert("_"@.take(1) =~= "_"@);
                assert("_"@.take(0) =~= Seq::<char>::empty());
            }
        }
    }
}

proof fn own_names_fit(tools: Seq<OwnTool>, name: Seq<char>)
    requires
        own_offers(tools).dom().contains(name),
    ensures
        encode_utf8(name).len() <= MAX_TOOL_NAME_LENGTH,
    decreases tools.len(),
{
    if tools.len() > 0 {
        if own_offers(tools.drop_last()).dom().contains(name) {
            own_names_fit(tools.drop_last(), name);
        } else {
            text::byte_head_fits(tools.last().name@, MAX_TOOL_NAME_LENGTH as int);
        }
    }
}

/// Where no tool of a context server is named like a tool of the thread, each tool of the thread is
/// offered, unless a tool with the name of its server in front is named like it.
pub proof fn own_tools_are_offered(
    tools: Seq<OwnTool>,
    all: Seq<ServerTool>,
    n: int,
    name: Seq<char>,
)
    requires
        own_offers(tools).dom().contains(name),
        forall|i: int|
            0 <= i < all.len() && (#[trigger] all[i]).enabled ==> offered_name(
                own_offers(tools),
                all,
                all[i],
            ) != name,
    ensures
        offers(own_offers(tools), all, n).dom().contains(name),
        offers(own_offers(tools), all, n)[name] == own_offers(tools)[name],
    decreases n,
{
    if 0 < n <= all.len() {
        own_tools_are_offered(tools, all, n - 1, name);
        assert(all[n - 1].enabled ==> offered_name(own_offers(tools), all, all[n - 1]) != name);
    }
}

} // verus!
