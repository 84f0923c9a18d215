//! Finding out which programs of developers are there, and in which versions.

use vstd::prelude::*;

use crate::json;
use crate::json::Json;
use crate::text;
use crate::tools::ToolKind;

verus! {

/// What is looked for. At least one program is probed at a time. The timeout is that of one attempt.
#[derive(Debug)]
pub struct DetectBinariesToolInput {
    pub filter_categories: Option<Vec<String>>,
    pub max_concurrency: usize,
    pub version_timeout_ms: u64,
}

/// How many programs are probed at a time unless the input says otherwise.
pub fn default_max_concurrency() -> (r: usize)
    ensures
        r == 12,
{
    12
}

/// How long an attempt may take unless the input says otherwise.
pub fn default_version_timeout_ms() -> (r: u64)
    ensures
        r == 1500,
{
    1500
}

/// How the groups of programs differ from those that are looked for by default.
#[derive(Debug)]
pub struct DetectBinariesSettings {
    pub add_groups: Vec<(String, Vec<String>)>,
    pub add_binaries: Vec<(String, Vec<String>)>,
    pub exclude_groups: Vec<String>,
    pub exclude_binaries: Vec<String>,
    pub include_only_groups: Option<Vec<String>>,
}

// ---------------------------------------------------------------------------
// Groups
// ---------------------------------------------------------------------------

/// Groups with their programs.
pub open spec fn group_views(groups: Seq<(String, Vec<String>)>) -> Seq<
    (Seq<char>, Seq<Seq<char>>),
> {
    groups.map_values(|g: (String, Vec<String>)| (g.0@, text::views(g.1@)))
}

/// Whether a group lists a program.
pub open spec fn lists(
    groups: Seq<(Seq<char>, Seq<Seq<char>>)>,
    group: Seq<char>,
    bin: Seq<char>,
) -> bool {
    exists|i: int|
        0 <= i < groups.len() && (#[trigger] groups[i]).0 == group && groups[i].1.contains(bin)
}

/// Whether a group lists a program, where the names of groups are turned into lower case.
pub open spec fn lists_lower(
    groups: Seq<(Seq<char>, Seq<Seq<char>>)>,
    group: Seq<char>,
    bin: Seq<char>,
) -> bool {
    exists|i: int|
        0 <= i < groups.len() && text::lowercase((#[trigger] groups[i]).0) == group
            && groups[i].1.contains(bin)
}

/// Whether there is a group with a name.
pub open spec fn is_named(groups: Seq<(Seq<char>, Seq<Seq<char>>)>, group: Seq<char>) -> bool {
    exists|i: int| 0 <= i < groups.len() && (#[trigger] groups[i]).0 == group
}

/// Whether groups and their programs stand in order, and no group is empty.
pub open spec fn groups_in_order(groups: Seq<(Seq<char>, Seq<Seq<char>>)>) -> bool {
    &&& forall|i: int, j: int|
        0 <= i < j < groups.len() ==> text::before(
            (#[trigger] groups[i]).0,
            (#[trigger] groups[j]).0,
        )
    &&& forall|i: int|
        0 <= i < groups.len() ==> text::in_order((#[trigger] groups[i]).1) && groups[i].1.len() > 0
}

/// The groups that are looked for by default.
pub open spec fn base_groups() -> Seq<(Seq<char>, Seq<Seq<char>>)> {
    seq![
        ("package_managers"@, seq!["pnpm"@, "yarn"@, "npm"@, "pip"@, "pipx"@, "uv"@, "uvx"@, "poetry"@, "cargo"@, "rustup"@, "dnf"@, "apt"@, "pacman"@, "zypper"@, "snap"@, "flatpak"@]),
        ("rust_tools"@, seq!["cargo"@, "rustc"@, "rustfmt"@, "clippy-driver"@, "wasm-pack"@]),
        ("python_quality"@, seq!["black"@, "ruff"@, "mypy"@, "isort"@, "pytest"@, "basedpyright"@, "pyright"@]),
        ("search_productivity"@, seq!["rg"@, "ag"@, "fd"@, "fzf"@, "jq"@, "exa"@, "bat"@, "tree"@, "tldr"@]),
        ("system_perf"@, seq!["htop"@, "lsof"@, "strace"@, "perf"@, "time"@]),
        ("containers"@, seq!["docker"@, "podman"@, "nerdctl"@, "kubectl"@, "helm"@, "kind"@, "minikube"@, "k9s"@]),
        ("cloud"@, seq!["aws"@, "az"@, "gcloud"@, "doctl"@, "flyctl"@, "heroku"@]),
        ("infra"@, seq!["terraform"@, "ansible"@, "pulumi"@, "packer"@]),
        ("networking"@, seq!["curl"@, "wget"@, "dig"@, "host"@, "nslookup"@, "ip"@, "traceroute"@]),
        ("databases"@, seq!["sqlite3"@, "psql"@, "mysql"@, "redis-cli"@, "mongosh"@, "duckdb"@]),
        ("docs"@, seq!["pandoc"@, "sphinx-build"@, "mkdocs"@, "mdbook"@]),
        ("vcs"@, seq!["git"@, "gh"@]),
    ]
}

/// Texts in lower case.
pub open spec fn lowercases(texts: Seq<Seq<char>>) -> Seq<Seq<char>> {
    texts.map_values(|t: Seq<char>| text::lowercase(t))
}

/// Whether some group offers a program.
pub open spec fn offered(cfg: DetectBinariesSettings, group: Seq<char>, bin: Seq<char>) -> bool {
    ||| lists(base_groups(), group, bin)
    ||| lists_lower(group_views(cfg.add_groups@), group, bin)
    ||| lists_lower(group_views(cfg.add_binaries@), group, bin)
}

/// Whether a group is looked at.
pub open spec fn wanted(
    cfg: DetectBinariesSettings,
    filter: Option<Vec<String>>,
    group: Seq<char>,
) -> bool {
    let name = text::lowercase(group);
    &&& !lowercases(text::views(cfg.exclude_groups@)).contains(name)
    &&& cfg.include_only_groups matches Some(only) ==> lowercases(text::views(only@)).contains(name)
    &&& filter matches Some(f) ==> lowercases(text::views(f@)).contains(name)
}

/// Whether a program is left out of every group.
pub open spec fn excluded(cfg: DetectBinariesSettings, bin: Seq<char>) -> bool {
    lowercases(text::views(cfg.exclude_binaries@)).contains(text::lowercase(bin))
}

/// Whether groups are those to look at: in order, each with the programs that are offered and not
/// excluded.
pub open spec fn effective(
    cfg: DetectBinariesSettings,
    filter: Option<Vec<String>>,
    groups: Seq<(Seq<char>, Seq<Seq<char>>)>,
) -> bool {
    &&& groups_in_order(groups)
    &&& forall|g: Seq<char>, b: Seq<char>| #[trigger]
        lists(groups, g, b) == (offered(cfg, g, b) && wanted(cfg, filter, g) && !excluded(cfg, b))
}

fn lower_texts(texts: &Vec<String>) -> (r: Vec<String>)
    ensures
        text::views(r@) == lowercases(text::views(texts@)),
{
    let mut out: Vec<String> = Vec::new();
    for i in 0..texts.len()
        invariant
            text::views(out@) == lowercases(text::views(texts@)).take(i as int),
    {
        let lower = text::lowercase_text(texts[i].as_str());
        let ghost seen = out@;
        out.push(lower);
        assert(text::views(out@) =~= text::views(seen).push(lower@));
        assert(text::views(texts@)[i as int] == texts@[i as int]@);
        assert(lowercases(text::views(texts@)).take(i + 1) =~= lowercases(
            text::views(texts@),
        ).take(i as int).push(lower@));
    }
    assert(lowercases(text::views(texts@)).take(texts@.len() as int) =~= lowercases(
        text::views(texts@),
    ));
    out
}

fn named_group(name: &'static str, bins: Vec<&'static str>) -> (r: (String, Vec<String>))
    ensures
        r.0@ == name@,
        text::views(r.1@) == bins@.map_values(|b: &'static str| b@),
{
    let mut out: Vec<String> = Vec::new();
    let ghost all = bins@.map_values(|b: &'static str| b@);
    for i in 0..bins.len()
        invariant
            all == bins@.map_values(|b: &'static str| b@),
            text::views(out@) == all.take(i as int),
    {
        let ghost seen = out@;
        let bin = bins[i].to_owned();
        out.push(bin);
        assert(text::views(out@) =~= text::views(seen).push(bin@));
        assert(all.take(i + 1) =~= all.take(i as int).push(bin@));
    }
    assert(all.take(all.len() as int) =~= all);
    (name.to_owned(), out)
}

/// The groups that are looked for by default.
pub fn default_groups() -> (r: Vec<(String, Vec<String>)>)
    ensures
        group_views(r@) == base_groups(),
{
    let mut out: Vec<(String, Vec<String>)> = Vec::new();
    out.push(named_group("package_managers", vec!["pnpm", "yarn", "npm", "pip", "pipx", "uv", "uvx", "poetry", "cargo", "rustup", "dnf", "apt", "pacman", "zypper", "snap", "flatpak"]));
    out.push(named_group("rust_tools", vec!["cargo", "rustc", "rustfmt", "clippy-driver", "wasm-pack"]));
    out.push(named_group("python_quality", vec!["black", "ruff", "mypy", "isort", "pytest", "basedpyright", "pyright"]));
    out.push(named_group("search_productivity", vec!["rg", "ag", "fd", "fzf", "jq", "exa", "bat", "tree", "tldr"]));
    out.push(named_group("system_perf", vec!["htop", "lsof", "strace", "perf", "time"]));
    out.push(named_group("containers", vec!["docker", "podman", "nerdctl", "kubectl", "helm", "kind", "minikube", "k9s"]));
    out.push(named_group("cloud", vec!["aws", "az", "gcloud", "doctl", "flyctl", "heroku"]));
    out.push(named_group("infra", vec!["terraform", "ansible", "pulumi", "packer"]));
    out.push(named_group("networking", vec!["curl", "wget", "dig", "host", "nslookup", "ip", "traceroute"]));
    out.push(named_group("databases", vec!["sqlite3", "psql", "mysql", "redis-cli", "mongosh", "duckdb"]));
    out.push(named_group("docs", vec!["pandoc", "sphinx-build", "mkdocs", "mdbook"]));
    out.push(named_group("vcs", vec!["git", "gh"]));
    assert(group_views(out@)[0].1 =~= base_groups()[0].1);
    assert(group_views(out@)[1].1 =~= base_groups()[1].1);
    assert(group_views(out@)[2].1 =~= base_groups()[2].1);
    assert(group_views(out@)[3].1 =~= base_groups()[3].1);
    assert(group_views(out@)[4].1 =~= base_groups()[4].1);
    assert(group_views(out@)[5].1 =~= base_groups()[5].1);
    assert(group_views(out@)[6].1 =~= base_groups()[6].1);
    assert(group_views(out@)[7].1 =~= base_groups()[7].1);
    assert(group_views(out@)[8].1 =~= base_groups()[8].1);
    assert(group_views(out@)[9].1 =~= base_groups()[9].1);
    assert(group_views(out@)[10].1 =~= base_groups()[10].1);
    assert(group_views(out@)[11].1 =~= base_groups()[11].1);
    assert(group_views(out@) =~= base_groups());
    out
}

/// Lists a program in a group. `groups` are in order.
fn place_in_group(groups: &mut Vec<(String, Vec<String>)>, group: &str, bin: &str)
    requires
        groups_in_order(group_views(old(groups)@)),
    ensures
        groups_in_order(group_views(final(groups)@)),
        forall|g: Seq<char>, b: Seq<char>| #[trigger]
            lists(group_views(final(groups)@), g, b) == (lists(group_views(old(groups)@), g, b)
                || (g == group@ && b == bin@)),
{
    let ghost all = group_views(groups@);
    let mut i: usize = 0;
    while i < groups.len() && text::comes_before(groups[i].0.as_str(), group)
        invariant
            all == group_views(groups@),
            groups@ == old(groups)@,
            i <= groups@.len(),
            forall|j: int| 0 <= j < i ==> text::before((#[trigger] all[j]).0, group@),
        decreases groups@.len() - i,
    {
        assert(all[i as int].0 == groups@[i as int].0@);
        i = i + 1;
    }
    if i < groups.len() && text::same(groups[i].0.as_str(), group) {
        let mut entry = groups.remove(i);
        let ghost old_bins = text::views(entry.1@);
        assert(all[i as int] == (entry.0@, old_bins));
        text::place_text(&mut entry.1, bin);
        let ghost new_bins = text::views(entry.1@);
        assert(new_bins.contains(bin@));
        groups.insert(i, entry);
        let ghost now = group_views(groups@);
        assert(now =~= all.update(i as int, (group@, new_bins)));
        assert forall|g: Seq<char>, b: Seq<char>| #[trigger]
            lists(now, g, b) == (lists(all, g, b) || (g == group@ && b == bin@)) by {
            assert(new_bins.contains(b) == (old_bins.contains(b) || b == bin@));
            if lists(now, g, b) {
                let j = choose|j: int|
                    0 <= j < now.len() && (#[trigger] now[j]).0 == g && now[j].1.contains(b);
                assert(all[j].0 == g);
            }
            if lists(all, g, b) {
                let j = choose|j: int|
                    0 <= j < all.len() && (#[trigger] all[j]).0 == g && all[j].1.contains(b);
                assert(now[j].0 == g && now[j].1.contains(b));
            }
            if g == group@ && b == bin@ {
                assert(now[i as int].0 == g && now[i as int].1.contains(b));
            }
        }
        return ;
    }
    proof {
        if i < groups@.len() {
            assert(all[i as int].0 == groups@[i as int].0@);
            text::before_is_total(all[i as int].0, group@);
        }
    }
    let mut bins: Vec<String> = Vec::new();
    bins.push(bin.to_owned());
    let ghost new_bins = text::views(bins@);
    assert(new_bins =~= seq![bin@]);
    groups.insert(i, (group.to_owned(), bins));
    let ghost now = group_views(groups@);
    assert(now =~= all.insert(i as int, (group@, new_bins)));
    assert(new_bins[0] == bin@);
    assert forall|j: int, k: int| 0 <= j < k < now.len() implies text::before(
        (#[trigger] now[j]).0,
        (#[trigger] now[k]).0,
    ) by {
        if j == i && i + 1 < k {
            assert(text::before(all[i as int].0, all[k - 1].0));
            text::before_is_transitive(group@, all[i as int].0, all[k - 1].0);
        } else if j < i && k < i {
            assert(text::before(all[j].0, all[k].0));
        } else if j < i && i < k {
            assert(text::before(all[j].0, all[k - 1].0));
        } else if i < j {
            assert(text::before(all[j - 1].0, all[k - 1].0));
        }
    }
    assert forall|j: int| 0 <= j < now.len() implies text::in_order((#[trigger] now[j]).1)
        && now[j].1.len() > 0 by {
        if j < i {
            assert(now[j] == all[j]);
        } else if i < j {
            assert(now[j] == all[j - 1]);
        }
    }
    assert forall|g: Seq<char>, b: Seq<char>| #[trigger]
        lists(now, g, b) == (lists(all, g, b) || (g == group@ && b == bin@)) by {
        if lists(now, g, b) {
            let j = choose|j: int|
                0 <= j < now.len() && (#[trigger] now[j]).0 == g && now[j].1.contains(b);
            if j < i {
                assert(all[j].0 == g);
            } else if j > i {
                assert(all[j - 1].0 == g);
            }
        }
        if lists(all, g, b) {
            let j = choose|j: int|
                0 <= j < all.len() && (#[trigger] all[j]).0 == g && all[j].1.contains(b);
            if j < i {
                assert(now[j].0 == g);
            } else {
                assert(now[j + 1].0 == g);
            }
        }
        if g == group@ && b == bin@ {
            assert(now[i as int].0 == g && now[i as int].1.contains(b));
        }
    }
}

/// Lists programs in a group. `groups` are in order.
fn place_all(groups: &mut Vec<(String, Vec<String>)>, group: &str, bins: &Vec<String>)
    requires
        groups_in_order(group_views(old(groups)@)),
    ensures
        groups_in_order(group_views(final(groups)@)),
        forall|g: Seq<char>, b: Seq<char>| #[trigger]
            lists(group_views(final(groups)@), g, b) == (lists(group_views(old(groups)@), g, b)
                || (g == group@ && text::views(bins@).contains(b))),
{
    let ghost before = group_views(groups@);
    let ghost names = text::views(bins@);
    for i in 0..bins.len()
        invariant
            names == text::views(bins@),
            groups_in_order(group_views(groups@)),
            forall|g: Seq<char>, b: Seq<char>| #[trigger]
                lists(group_views(groups@), g, b) == (lists(before, g, b) || (g == group@
                    && names.take(i as int).contains(b))),
    {
        assert(names[i as int] == bins@[i as int]@);
        let ghost now = group_views(groups@);
        place_in_group(groups, group, bins[i].as_str());
        assert forall|g: Seq<char>, b: Seq<char>| #[trigger]
            lists(group_views(groups@), g, b) == (lists(before, g, b) || (g == group@
                && names.take(i + 1).contains(b))) by {
            assert(lists(now, g, b) == (lists(before, g, b) || (g == group@ && names.take(
                i as int,
            ).contains(b))));
            let less = names.take(i as int);
            let more = names.take(i + 1);
            if less.contains(b) {
                let j = choose|j: int| 0 <= j < less.len() && less[j] == b;
                assert(more[j] == b);
            }
            assert(more[i as int] == names[i as int]);
            if more.contains(b) {
                let j = choose|j: int| 0 <= j < more.len() && more[j] == b;
                if j < i {
                    assert(less[j] == b);
                }
            }
        }
    }
    assert(names.take(names.len() as int) =~= names);
}

/// Lists the programs of groups, whose names are turned into lower case where `lower` holds.
fn place_groups(
    groups: &mut Vec<(String, Vec<String>)>,
    added: &Vec<(String, Vec<String>)>,
    lower: bool,
)
    requires
        groups_in_order(group_views(old(groups)@)),
    ensures
        groups_in_order(group_views(final(groups)@)),
        forall|g: Seq<char>, b: Seq<char>| #[trigger]
            lists(group_views(final(groups)@), g, b) == (lists(group_views(old(groups)@), g, b)
                || if lower {
                lists_lower(group_views(added@), g, b)
            } else {
                lists(group_views(added@), g, b)
            }),
{
    let ghost before = group_views(groups@);
    let ghost all = group_views(added@);
    for i in 0..added.len()
        invariant
            all == group_views(added@),
            groups_in_order(group_views(groups@)),
            forall|g: Seq<char>, b: Seq<char>| #[trigger]
                lists(group_views(groups@), g, b) == (lists(before, g, b) || if lower {
                    lists_lower(all.take(i as int), g, b)
                } else {
                    lists(all.take(i as int), g, b)
                }),
    {
        let ghost now = group_views(groups@);
        let name = if lower {
            text::lowercase_text(added[i].0.as_str())
        } else {
            added[i].0.clone()
        };
        place_all(groups, name.as_str(), &added[i].1);
        assert(all[i as int] == (added@[i as int].0@, text::views(added@[i as int].1@)));
        assert forall|g: Seq<char>, b: Seq<char>| #[trigger]
            lists(group_views(groups@), g, b) == (lists(before, g, b) || if lower {
                lists_lower(all.take(i + 1), g, b)
            } else {
                lists(all.take(i + 1), g, b)
            }) by {
            assert(lists(now, g, b) == (lists(before, g, b) || if lower {
                lists_lower(all.take(i as int), g, b)
            } else {
                lists(all.take(i as int), g, b)
            }));
            one_more_group(all, i as int, g, b);
        }
    }
    assert(all.take(all.len() as int) =~= all);
}

/// One more group lists its own programs.
proof fn one_more_group(
    all: Seq<(Seq<char>, Seq<Seq<char>>)>,
    i: int,
    g: Seq<char>,
    b: Seq<char>,
)
    requires
        0 <= i < all.len(),
    ensures
        lists(all.take(i + 1), g, b) == (lists(all.take(i), g, b) || (all[i].0 == g
            && all[i].1.contains(b))),
        lists_lower(all.take(i + 1), g, b) == (lists_lower(all.take(i), g, b) || (text::lowercase(
            all[i].0,
        ) == g && all[i].1.contains(b))),
{
    let less = all.take(i);
    let more = all.take(i + 1);
    assert(more[i] == all[i]);
    if lists(less, g, b) {
        let j = choose|j: int|
            0 <= j < less.len() && (#[trigger] less[j]).0 == g && less[j].1.contains(b);
        assert(more[j] == less[j]);
    }
    if lists(more, g, b) {
        let j = choose|j: int|
            0 <= j < more.len() && (#[trigger] more[j]).0 == g && more[j].1.contains(b);
        if j < i {
            assert(less[j] == more[j]);
        }
    }
    if lists_lower(less, g, b) {
        let j = choose|j: int|
            0 <= j < less.len() && text::lowercase((#[trigger] less[j]).0) == g
                && less[j].1.contains(b);
        assert(more[j] == less[j]);
    }
    if lists_lower(more, g, b) {
        let j = choose|j: int|
            0 <= j < more.len() && text::lowercase((#[trigger] more[j]).0) == g
                && more[j].1.contains(b);
        if j < i {
            assert(less[j] == more[j]);
        }
    }
}

fn is_wanted(cfg: &DetectBinariesSettings, filter: &Option<Vec<String>>, group: &str) -> (r: bool)
    ensures
        r == wanted(*cfg, *filter, group@),
{
    let name = text::lowercase_text(group);
    if text::contains_text(&lower_texts(&cfg.exclude_groups), name.as_str()) {
        return false;
    }
    match &cfg.include_only_groups {
        Some(only) => {
            if !text::contains_text(&lower_texts(only), name.as_str()) {
                return false;
            }
        },
        None => {},
    }
    match filter {
        Some(f) => text::contains_text(&lower_texts(f), name.as_str()),
        None => true,
    }
}

/// The programs that are not excluded, in the same order.
fn without_excluded(cfg: &DetectBinariesSettings, bins: &Vec<String>) -> (r: Vec<String>)
    requires
        text::in_order(text::views(bins@)),
    ensures
        text::in_order(text::views(r@)),
        forall|b: Seq<char>| #[trigger]
            text::views(r@).contains(b) == (text::views(bins@).contains(b) && !excluded(*cfg, b)),
{
    let gone = lower_texts(&cfg.exclude_binaries);
    let ghost names = text::views(bins@);
    let mut out: Vec<String> = Vec::new();
    for i in 0..bins.len()
        invariant
            names == text::views(bins@),
            text::in_order(names),
            text::views(gone@) == lowercases(text::views(cfg.exclude_binaries@)),
            text::in_order(text::views(out@)),
            forall|j: int|
                0 <= j < out@.len() ==> names.take(i as int).contains(
                    #[trigger] text::views(out@)[j],
                ),
            forall|b: Seq<char>| #[trigger]
                text::views(out@).contains(b) == (names.take(i as int).contains(b) && !excluded(
                    *cfg,
                    b,
                )),
    {
        let bin = bins[i].clone();
        assert(names[i as int] == bin@);
        let lower = text::lowercase_text(bin.as_str());
        let ghost seen = text::views(out@);
        let ghost less = names.take(i as int);
        let ghost more = names.take(i + 1);
        assert(more =~= less.push(bin@));
        assert(more[i as int] == bin@);
        proof {
            text::before_is_strict(bin@);
            if less.contains(bin@) {
                let j = choose|j: int| 0 <= j < less.len() && less[j] == bin@;
                assert(text::before(names[j], names[i as int]));
            }
        }
        if !text::contains_text(&gone, lower.as_str()) {
            out.push(bin);
            assert(text::views(out@) =~= seen.push(bin@));
            assert forall|j: int, k: int| 0 <= j < k < out@.len() implies text::before(
                #[trigger] text::views(out@)[j],
                #[trigger] text::views(out@)[k],
            ) by {
                if k == out@.len() - 1 {
                    assert(less.contains(seen[j]));
                    let m = choose|m: int| 0 <= m < less.len() && less[m] == seen[j];
                    assert(text::before(names[m], names[i as int]));
                } else {
                    assert(text::before(seen[j], seen[k]));
                }
            }
            assert(text::views(out@)[out@.len() - 1] == bin@);
        }
        assert forall|b: Seq<char>| #[trigger]
            text::views(out@).contains(b) == (more.contains(b) && !excluded(*cfg, b)) by {
            assert(seen.contains(b) == (less.contains(b) && !excluded(*cfg, b)));
            assert(more.contains(b) == (less.contains(b) || b == bin@)) by {
                if less.contains(b) {
                    let j = choose|j: int| 0 <= j < less.len() && less[j] == b;
                    assert(more[j] == b);
                }
                if more.contains(b) {
                    let j = choose|j: int| 0 <= j < more.len() && more[j] == b;
                    if j < i {
                        assert(less[j] == b);
                    }
                }
            }
            if seen.contains(b) {
                let j = choose|j: int| 0 <= j < seen.len() && seen[j] == b;
                assert(text::views(out@)[j] == b);
            }
            if text::views(out@).contains(b) {
                let j = choose|j: int| 0 <= j < out@.len() && text::views(out@)[j] == b;
                if j < seen.len() {
                    assert(seen[j] == b);
                }
            }
        }
        assert forall|j: int| 0 <= j < out@.len() implies more.contains(
            #[trigger] text::views(out@)[j],
        ) by {
            if j < seen.len() {
                assert(less.contains(seen[j]));
                let m = choose|m: int| 0 <= m < less.len() && less[m] == seen[j];
                assert(more[m] == seen[j]);
            }
        }
    }
    assert(names.take(names.len() as int) =~= names);
    out
}

/// The groups to look at. `filter` says which are asked for.
pub fn build_effective_groups(cfg: &DetectBinariesSettings, filter: &Option<Vec<String>>) -> (r:
    Vec<(String, Vec<String>)>)
    ensures
        effective(*cfg, *filter, group_views(r@)),
{
    let mut all: Vec<(String, Vec<String>)> = Vec::new();
    assert(group_views(all@) =~= Seq::empty());
    place_groups(&mut all, &default_groups(), false);
    place_groups(&mut all, &cfg.add_groups, true);
    place_groups(&mut all, &cfg.add_binaries, true);
    let ghost names = group_views(all@);
    assert(forall|g: Seq<char>, b: Seq<char>| #[trigger] lists(names, g, b) == offered(*cfg, g, b));
    let mut out: Vec<(String, Vec<String>)> = Vec::new();
    for i in 0..all.len()
        invariant
            names == group_views(all@),
            groups_in_order(names),
            groups_in_order(group_views(out@)),
            forall|j: int|
                0 <= j < out@.len() ==> is_named(
                    names.take(i as int),
                    (#[trigger] group_views(out@)[j]).0,
                ),
            forall|g: Seq<char>, b: Seq<char>| #[trigger]
                lists(group_views(out@), g, b) == (lists(names.take(i as int), g, b) && wanted(
                    *cfg,
                    *filter,
                    g,
                ) && !excluded(*cfg, b)),
    {
        let ghost seen = group_views(out@);
        let name = all[i].0.clone();
        assert(names[i as int] == (name@, text::views(all@[i as int].1@)));
        let bins = without_excluded(cfg, &all[i].1);
        let ghost kept = text::views(bins@);
        let taken = is_wanted(cfg, filter, name.as_str()) && bins.len() > 0;
        if taken {
            out.push((name, bins));
            assert(group_views(out@) =~= seen.push((name@, kept)));
        }
        let ghost now = group_views(out@);
        assert forall|j: int, k: int| 0 <= j < k < now.len() implies text::before(
            (#[trigger] now[j]).0,
            (#[trigger] now[k]).0,
        ) by {
            if k < seen.len() {
                assert(text::before(seen[j].0, seen[k].0));
            } else {
                let less = names.take(i as int);
                assert(is_named(less, seen[j].0));
                let m = choose|m: int| 0 <= m < less.len() && (#[trigger] less[m]).0 == seen[j].0;
                assert(text::before(names[m].0, names[i as int].0));
            }
        }
        assert forall|j: int| 0 <= j < now.len() implies is_named(
            names.take(i + 1),
            (#[trigger] now[j]).0,
        ) by {
            let less = names.take(i as int);
            let more = names.take(i + 1);
            if j < seen.len() {
                assert(is_named(less, seen[j].0));
                let m = choose|m: int| 0 <= m < less.len() && (#[trigger] less[m]).0 == seen[j].0;
                assert(more[m].0 == now[j].0);
            } else {
                assert(more[i as int].0 == now[j].0);
            }
        }
        assert forall|g: Seq<char>, b: Seq<char>| #[trigger]
            lists(now, g, b) == (lists(names.take(i + 1), g, b) && wanted(*cfg, *filter, g)
                && !excluded(*cfg, b)) by {
            assert(lists(seen, g, b) == (lists(names.take(i as int), g, b) && wanted(
                *cfg,
                *filter,
                g,
            ) && !excluded(*cfg, b)));
            one_more_group(names, i as int, g, b);
            assert(kept.contains(b) == (names[i as int].1.contains(b) && !excluded(*cfg, b)));
            if taken {
                one_more_group(now, seen.len() as int, g, b);
                assert(now.take(seen.len() as int) =~= seen);
                assert(now.take(seen.len() as int + 1) =~= now);
            } else if kept.contains(b) {
                assert(kept.len() > 0);
            }
        }
    }
    assert(names.take(names.len() as int) =~= names);
    out
}

// ---------------------------------------------------------------------------
// Versions
// ---------------------------------------------------------------------------

/// Why no version was found.
#[derive(Debug)]
pub enum ProbeError {
    NoOutput,
    EmptyOutput,
    NotStarted(String),
    Timeout(u64),
    Disconnected,
}

/// An error of a probe in words.
pub open spec fn probe_error_text(e: ProbeError) -> Seq<char> {
    match e {
        ProbeError::NoOutput => "non-success exit (no output)"@,
        ProbeError::EmptyOutput => "empty version output"@,
        ProbeError::NotStarted(e) => "spawn failed: "@ + e@,
        ProbeError::Timeout(ms) => "version probe timeout after "@ + text::decimal(ms as nat)
            + "ms"@,
        ProbeError::Disconnected => "version probe worker disconnected"@,
    }
}

impl ProbeError {
    /// The error in words.
    pub fn message(&self) -> (r: String)
        ensures
            r@ == probe_error_text(*self),
    {
        match self {
            ProbeError::NoOutput => "non-success exit (no output)".to_owned(),
            ProbeError::EmptyOutput => "empty version output".to_owned(),
            ProbeError::NotStarted(e) => {
                let mut out = "spawn failed: ".to_owned();
                out.append(e.as_str());
                out
            },
            ProbeError::Timeout(ms) => {
                let mut out = "version probe timeout after ".to_owned();
                out.append(text::decimal_text(*ms as u128).as_str());
                out.append("ms");
                out
            },
            ProbeError::Disconnected => "version probe worker disconnected".to_owned(),
        }
    }
}

/// The first line of a text, without the blanks around it.
pub open spec fn first_line(s: Seq<char>) -> Seq<char> {
    let lines = text::lines(s);
    if lines.len() == 0 {
        Seq::empty()
    } else {
        text::trim(lines[0])
    }
}

/// Reads a version from what a program wrote. The texts are empty where it wrote nothing.
pub fn version_line(success: bool, stdout: &str, stderr: &str) -> (r: Result<String, ProbeError>)
    ensures
        ({
            let said = if stdout@.len() > 0 {
                stdout@
            } else {
                stderr@
            };
            match r {
                Ok(v) => v@ == first_line(said) && v@.len() > 0,
                Err(ProbeError::NoOutput) => !success && stdout@.len() == 0 && stderr@.len() == 0,
                Err(ProbeError::EmptyOutput) => (success || said.len() > 0) && first_line(
                    said,
                ).len() == 0,
                Err(_) => false,
            }
        }),
{
    if !success && stdout.unicode_len() == 0 && stderr.unicode_len() == 0 {
        return Err(ProbeError::NoOutput);
    }
    let lines = if stdout.unicode_len() > 0 {
        text::lines_of(stdout)
    } else {
        text::lines_of(stderr)
    };
    assert(text::views(lines@).len() == lines@.len());
    if lines.len() == 0 {
        return Err(ProbeError::EmptyOutput);
    }
    assert(text::views(lines@)[0] == lines@[0]@);
    let line = text::trim_text(lines[0].as_str());
    if line.as_str().unicode_len() == 0 {
        Err(ProbeError::EmptyOutput)
    } else {
        Ok(line)
    }
}

/// The arguments that programs are asked for their version with, one attempt after another.
pub open spec fn version_arguments() -> Seq<Seq<char>> {
    seq!["--version"@, "version"@, "-V"@]
}

/// The argument of an attempt.
pub fn version_argument(attempt: usize) -> (r: Option<String>)
    ensures
        text::opt_view(r) == if attempt < version_arguments().len() {
            Some(version_arguments()[attempt as int])
        } else {
            None
        },
{
    if attempt == 0 {
        Some("--version".to_owned())
    } else if attempt == 1 {
        Some("version".to_owned())
    } else if attempt == 2 {
        Some("-V".to_owned())
    } else {
        None
    }
}

/// What follows an attempt.
#[derive(Debug)]
pub enum ProbeStep {
    Found(String),
    Attempt(usize),
    Failed(String),
}

/// Decides what follows an attempt: the next one, unless a version was found, the time was over or
/// none is left.
pub fn after_attempt(attempt: usize, result: &Result<String, ProbeError>) -> (r: ProbeStep)
    requires
        attempt < version_arguments().len(),
    ensures
        match result {
            Ok(v) => r matches ProbeStep::Found(w) && w@ == v@,
            Err(e) => if attempt + 1 < version_arguments().len() && !text::holds(
                probe_error_text(*e),
                "timeout"@,
            ) {
                r == ProbeStep::Attempt((attempt + 1) as usize)
            } else {
                r matches ProbeStep::Failed(m) && m@ == probe_error_text(*e)
            },
        },
{
    match result {
        Ok(v) => ProbeStep::Found(v.clone()),
        Err(e) => {
            let message = e.message();
            if attempt < 2 && !text::text_holds(message.as_str(), "timeout") {
                ProbeStep::Attempt(attempt + 1)
            } else {
                ProbeStep::Failed(message)
            }
        },
    }
}

/// Whether someone may run a file with these permissions.
pub fn is_executable(mode: u32) -> (r: bool)
    ensures
        r == (mode & 0o111 != 0),
{
    mode & 0o111 != 0
}

// ---------------------------------------------------------------------------
// Reports
// ---------------------------------------------------------------------------

/// What was found out about a program.
#[derive(Debug)]
pub struct BinaryReport {
    pub name: String,
    pub category: String,
    pub found: bool,
    pub path: Option<String>,
    pub version: Option<String>,
    pub elapsed_ms: Option<u64>,
    pub error: Option<String>,
}

/// What was found out about a program.
pub ghost struct ReportView {
    pub name: Seq<char>,
    pub category: Seq<char>,
    pub found: bool,
    pub path: Option<Seq<char>>,
    pub version: Option<Seq<char>>,
    pub elapsed_ms: Option<u64>,
    pub error: Option<Seq<char>>,
}

impl View for BinaryReport {
    type V = ReportView;

    open spec fn view(&self) -> ReportView {
        ReportView {
            name: self.name@,
            category: self.category@,
            found: self.found,
            path: text::opt_view(self.path),
            version: text::opt_view(self.version),
            elapsed_ms: self.elapsed_ms,
            error: text::opt_view(self.error),
        }
    }
}

/// The views of reports.
pub open spec fn report_views(reports: Seq<BinaryReport>) -> Seq<ReportView> {
    reports.map_values(|r: BinaryReport| r@)
}

/// The report on a program that is in some places. The places are named where there are several.
pub open spec fn report(
    category: Seq<char>,
    name: Seq<char>,
    paths: Seq<Seq<char>>,
    version: Result<Seq<char>, Seq<char>>,
    elapsed_ms: u64,
) -> ReportView {
    ReportView {
        name,
        category,
        found: paths.len() > 0,
        path: if paths.len() > 1 {
            Some(text::join(paths, ";"@))
        } else {
            None
        },
        version: if paths.len() > 0 {
            match version {
                Ok(v) => Some(v),
                Err(_) => None,
            }
        } else {
            None
        },
        elapsed_ms: Some(elapsed_ms),
        error: if paths.len() > 0 {
            match version {
                Ok(_) => None,
                Err(e) => Some(e),
            }
        } else {
            None
        },
    }
}

/// A version or why there is none.
pub open spec fn version_view(version: Result<String, String>) -> Result<Seq<char>, Seq<char>> {
    match version {
        Ok(v) => Ok(v@),
        Err(e) => Err(e@),
    }
}

/// The report on a program. Its version does not count where the program is in no place.
pub fn report_of(
    category: &str,
    name: &str,
    paths: &Vec<String>,
    version: &Result<String, String>,
    elapsed_ms: u64,
) -> (r: BinaryReport)
    ensures
        r@ == report(
            category@,
            name@,
            text::views(paths@),
            version_view(*version),
            elapsed_ms,
        ),
{
    let found = paths.len() > 0;
    let path = if paths.len() > 1 {
        Some(text::join_texts(paths, ";"))
    } else {
        None
    };
    let mut line: Option<String> = None;
    let mut error: Option<String> = None;
    if found {
        match version {
            Ok(v) => {
                line = Some(v.clone());
            },
            Err(e) => {
                error = Some(e.clone());
            },
        }
    }
    BinaryReport {
        name: name.to_owned(),
        category: category.to_owned(),
        found,
        path,
        version: line,
        elapsed_ms: Some(elapsed_ms),
        error,
    }
}

/// Whether a report comes before another: by the category, then by the name.
pub open spec fn report_before(a: ReportView, b: ReportView) -> bool {
    text::before(a.category, b.category) || (a.category == b.category && text::before(
        a.name,
        b.name,
    ))
}

/// Where a report is put among others: before the first that it comes before.
pub open spec fn report_place(reports: Seq<ReportView>, added: ReportView) -> int
    decreases reports.len(),
{
    if reports.len() == 0 || !report_before(added, reports.last()) {
        reports.len() as int
    } else {
        report_place(reports.drop_last(), added)
    }
}

/// Reports in order. Those that are alike keep their order.
pub open spec fn sorted_reports(reports: Seq<ReportView>) -> Seq<ReportView>
    decreases reports.len(),
{
    if reports.len() == 0 {
        Seq::empty()
    } else {
        let before = sorted_reports(reports.drop_last());
        before.insert(report_place(before, reports.last()), reports.last())
    }
}

/// A place is within the reports.
proof fn place_is_within(reports: Seq<ReportView>, added: ReportView)
    ensures
        0 <= report_place(reports, added) <= reports.len(),
    decreases reports.len(),
{
    if reports.len() > 0 {
        place_is_within(reports.drop_last(), added);
    }
}

/// Puts reports in order.
pub fn sort_reports(reports: Vec<BinaryReport>) -> (r: Vec<BinaryReport>)
    ensures
        report_views(r@) == sorted_reports(report_views(reports@)),
{
    let ghost all = report_views(reports@);
    let mut out: Vec<BinaryReport> = Vec::new();
    let mut rest = reports;
    let n: usize = rest.len();
    assert(report_views(out@) =~= sorted_reports(all.take(0)));
    let mut i: usize = 0;
    assert(report_views(rest@) =~= all.skip(0));
    while i < n
        invariant
            i <= n == all.len(),
            report_views(rest@) == all.skip(i as int),
            report_views(out@) == sorted_reports(all.take(i as int)),
        decreases n - i,
    {
        assert(rest@.len() == report_views(rest@).len());
        let ghost left = report_views(rest@);
        let next = rest.remove(0);
        assert(left[0] == next@);
        assert(report_views(rest@) =~= left.drop_first());
        assert(left.drop_first() =~= all.skip(i + 1));
        assert(all.take(i + 1).drop_last() =~= all.take(i as int));
        assert(all.take(i + 1).last() == all[i as int]);
        let ghost seen = report_views(out@);
        let mut at: usize = out.len();
        assert(seen.take(seen.len() as int) =~= seen);
        while at > 0 && (text::comes_before(next.category.as_str(), out[at - 1].category.as_str())
            || (text::same(next.category.as_str(), out[at - 1].category.as_str())
            && text::comes_before(next.name.as_str(), out[at - 1].name.as_str())))
            invariant
                seen == report_views(out@),
                at <= out@.len(),
                report_place(seen, next@) == report_place(seen.take(at as int), next@),
            decreases at,
        {
            assert(seen.take(at as int).last() == out@[at - 1]@);
            assert(seen.take(at as int).drop_last() =~= seen.take(at - 1));
            at = at - 1;
        }
        proof {
            if at > 0 {
                assert(seen.take(at as int).last() == out@[at - 1]@);
            }
        }
        assert(report_place(seen, next@) == at);
        out.insert(at, next);
        assert(report_views(out@) =~= seen.insert(at as int, next@));
        i = i + 1;
    }
    assert(all.take(n as int) =~= all);
    out
}

/// How many programs were found.
pub open spec fn found_count(reports: Seq<ReportView>) -> nat
    decreases reports.len(),
{
    if reports.len() == 0 {
        0
    } else {
        found_count(reports.drop_last()) + if reports.last().found {
            1nat
        } else {
            0nat
        }
    }
}

/// No more are found than there are reports.
proof fn found_count_fits(reports: Seq<ReportView>)
    ensures
        found_count(reports) <= reports.len(),
    decreases reports.len(),
{
    if reports.len() > 0 {
        found_count_fits(reports.drop_last());
    }
}

fn count_found(reports: &Vec<BinaryReport>) -> (n: usize)
    ensures
        n == found_count(report_views(reports@)),
{
    let ghost all = report_views(reports@);
    let mut n: usize = 0;
    for i in 0..reports.len()
        invariant
            all == report_views(reports@),
            n <= i,
            n == found_count(all.take(i as int)),
    {
        assert(all.take(i + 1).drop_last() =~= all.take(i as int));
        assert(all.take(i + 1).last() == reports@[i as int]@);
        if reports[i].found {
            n = n + 1;
        }
    }
    assert(all.take(all.len() as int) =~= all);
    n
}

/// A report as a JSON value.
pub open spec fn report_json(r: ReportView) -> json::JsonView {
    json::JsonView::Object(
        seq![
            ("name"@, json::JsonView::Text(r.name)),
            ("category"@, json::JsonView::Text(r.category)),
            ("found"@, json::JsonView::Bool(r.found)),
            ("path"@, json::opt_text_view(r.path)),
            ("version"@, json::opt_text_view(r.version)),
            (
                "elapsed_ms"@,
                match r.elapsed_ms {
                    Some(ms) => json::JsonView::Unsigned(ms),
                    None => json::JsonView::Null,
                },
            ),
            ("error"@, json::opt_text_view(r.error)),
        ],
    )
}

fn report_value(r: &BinaryReport) -> (j: Json)
    ensures
        j@ == report_json(r@),
{
    broadcast use json::object_view;

    let mut fields: Vec<(String, Json)> = Vec::new();
    fields.push(("name".to_owned(), Json::Text(r.name.clone())));
    fields.push(("category".to_owned(), Json::Text(r.category.clone())));
    fields.push(("found".to_owned(), Json::Bool(r.found)));
    fields.push(("path".to_owned(), json::opt_text_value(&r.path)));
    fields.push(("version".to_owned(), json::opt_text_value(&r.version)));
    let elapsed = match r.elapsed_ms {
        Some(ms) => Json::Unsigned(ms),
        None => Json::Null,
    };
    fields.push(("elapsed_ms".to_owned(), elapsed));
    fields.push(("error".to_owned(), json::opt_text_value(&r.error)));
    assert(json::fields_view(fields@) =~= report_json(r@)->Object_0);
    Json::Object(fields)
}

fn report_values(reports: &Vec<BinaryReport>) -> (r: Vec<Json>)
    ensures
        json::items_view(r@) == report_views(reports@).map_values(|r: ReportView| report_json(r)),
{
    let ghost all = report_views(reports@).map_values(|r: ReportView| report_json(r));
    let mut out: Vec<Json> = Vec::new();
    assert(json::items_view(out@) =~= all.take(0));
    for i in 0..reports.len()
        invariant
            all == report_views(reports@).map_values(|r: ReportView| report_json(r)),
            json::items_view(out@) == all.take(i as int),
    {
        let value = report_value(&reports[i]);
        let ghost seen = out@;
        out.push(value);
        assert(json::items_view(out@) =~= json::items_view(seen).push(value@));
        assert(all[i as int] == value@);
        assert(all.take(i + 1) =~= all.take(i as int).push(value@));
    }
    assert(all.take(all.len() as int) =~= all);
    out
}

/// What is given back: the reports in order, and how many programs there are.
pub open spec fn output(
    reports: Seq<ReportView>,
    scanned: usize,
    categories: Seq<Seq<char>>,
    timeout_ms: u64,
) -> json::JsonView {
    let found = found_count(reports);
    json::JsonView::Object(
        seq![
            (
                "binaries"@,
                json::JsonView::Array(
                    sorted_reports(reports).map_values(|r: ReportView| report_json(r)),
                ),
            ),
            (
                "summary"@,
                json::JsonView::Object(
                    seq![
                        ("total_scanned"@, json::JsonView::Unsigned(scanned as u64)),
                        ("found"@, json::JsonView::Unsigned(found as u64)),
                        (
                            "missing"@,
                            json::JsonView::Unsigned(
                                if scanned >= found {
                                    (scanned - found) as u64
                                } else {
                                    0
                                },
                            ),
                        ),
                        ("categories_scanned"@, json::texts_view(categories)),
                        ("version_timeout_ms"@, json::JsonView::Unsigned(timeout_ms)),
                    ],
                ),
            ),
        ],
    )
}

fn summary_value(found: usize, scanned: usize, categories: &Vec<String>, timeout_ms: u64) -> (j:
    Json)
    ensures
        j@ == json::JsonView::Object(
            seq![
                ("total_scanned"@, json::JsonView::Unsigned(scanned as u64)),
                ("found"@, json::JsonView::Unsigned(found as u64)),
                (
                    "missing"@,
                    json::JsonView::Unsigned(
                        if scanned >= found {
                            (scanned - found) as u64
                        } else {
                            0
                        },
                    ),
                ),
                ("categories_scanned"@, json::texts_view(text::views(categories@))),
                ("version_timeout_ms"@, json::JsonView::Unsigned(timeout_ms)),
            ],
        ),
{
    broadcast use json::object_view;

    let missing: usize = if scanned >= found {
        scanned - found
    } else {
        0
    };
    let mut fields: Vec<(String, Json)> = Vec::new();
    fields.push(("total_scanned".to_owned(), Json::Unsigned(scanned as u64)));
    fields.push(("found".to_owned(), Json::Unsigned(found as u64)));
    fields.push(("missing".to_owned(), Json::Unsigned(missing as u64)));
    fields.push(("categories_scanned".to_owned(), json::texts_value(categories)));
    fields.push(("version_timeout_ms".to_owned(), Json::Unsigned(timeout_ms)));
    assert(json::fields_view(fields@) =~= seq![
        ("total_scanned"@, json::JsonView::Unsigned(scanned as u64)),
        ("found"@, json::JsonView::Unsigned(found as u64)),
        ("missing"@, json::JsonView::Unsigned(missing as u64)),
        ("categories_scanned"@, json::texts_view(text::views(categories@))),
        ("version_timeout_ms"@, json::JsonView::Unsigned(timeout_ms)),
    ]);
    Json::Object(fields)
}

/// What is scanned: each program with its category.
pub open spec fn scan_of(groups: Seq<(Seq<char>, Seq<Seq<char>>)>) -> Seq<(Seq<char>, Seq<char>)>
    decreases groups.len(),
{
    if groups.len() == 0 {
        Seq::empty()
    } else {
        let last = groups.last();
        scan_of(groups.drop_last()) + last.1.map_values(|b: Seq<char>| (last.0, b))
    }
}

/// Programs with their categories.
pub open spec fn scan_views(tasks: Seq<(String, String)>) -> Seq<(Seq<char>, Seq<char>)> {
    tasks.map_values(|t: (String, String)| (t.0@, t.1@))
}

fn add_tasks(tasks: &mut Vec<(String, String)>, category: &str, bins: &Vec<String>)
    ensures
        scan_views(final(tasks)@) == scan_views(old(tasks)@) + text::views(bins@).map_values(
            |b: Seq<char>| (category@, b),
        ),
{
    let ghost start = scan_views(tasks@);
    let ghost all = text::views(bins@).map_values(|b: Seq<char>| (category@, b));
    assert(start + all.take(0) =~= start);
    for i in 0..bins.len()
        invariant
            all == text::views(bins@).map_values(|b: Seq<char>| (category@, b)),
            scan_views(tasks@) == start + all.take(i as int),
    {
        let ghost seen = scan_views(tasks@);
        assert(text::views(bins@)[i as int] == bins@[i as int]@);
        tasks.push((category.to_owned(), bins[i].clone()));
        assert(scan_views(tasks@) =~= seen.push(all[i as int]));
        assert(all.take(i + 1) =~= all.take(i as int).push(all[i as int]));
    }
    assert(all.take(all.len() as int) =~= all);
}

/// Finds out which programs are there, and in which versions.
#[derive(Debug, Clone, Copy, PartialEq, Eq, Structural)]
pub struct DetectBinariesTool;

impl DetectBinariesTool {
    pub fn new() -> (r: DetectBinariesTool)
        ensures
            r == DetectBinariesTool,
    {
        DetectBinariesTool
    }

    /// The name of the tool.
    pub fn name() -> (r: &'static str)
        ensures
            r@ == "detect_binaries"@,
    {
        "detect_binaries"
    }

    /// What the tool does to its subject.
    pub fn kind() -> (r: ToolKind)
        ensures
            r == ToolKind::Read,
    {
        ToolKind::Read
    }

    /// The title of a call of the tool.
    pub fn initial_title(&self) -> (r: String)
        ensures
            r@ == "Detecting common developer binaries..."@,
    {
        "Detecting common developer binaries...".to_owned()
    }

    /// The groups that an input asks for.
    pub fn groups(input: &DetectBinariesToolInput, cfg: &DetectBinariesSettings) -> (r: Vec<
        (String, Vec<String>),
    >)
        ensures
            exists|filter: Option<Vec<String>>|
                (match (input.filter_categories, filter) {
                    (Some(f), Some(g)) => text::views(g@) == lowercases(text::views(f@)),
                    (None, None) => true,
                    _ => false,
                }) && #[trigger] effective(*cfg, filter, group_views(r@)),
    {
        let filter = match &input.filter_categories {
            Some(f) => Some(lower_texts(f)),
            None => None,
        };
        build_effective_groups(cfg, &filter)
    }

    /// What is scanned, and the categories.
    pub fn tasks(groups: &Vec<(String, Vec<String>)>) -> (r: (Vec<(String, String)>, Vec<String>))
        ensures
            scan_views(r.0@) == scan_of(group_views(groups@)),
            text::views(r.1@) == group_views(groups@).map_values(
                |g: (Seq<char>, Seq<Seq<char>>)| g.0,
            ),
    {
        let ghost all = group_views(groups@);
        let ghost names = all.map_values(|g: (Seq<char>, Seq<Seq<char>>)| g.0);
        let mut tasks: Vec<(String, String)> = Vec::new();
        let mut categories: Vec<String> = Vec::new();
        assert(scan_views(tasks@) =~= scan_of(all.take(0)));
        assert(text::views(categories@) =~= names.take(0));
        for i in 0..groups.len()
            invariant
                all == group_views(groups@),
                names == all.map_values(|g: (Seq<char>, Seq<Seq<char>>)| g.0),
                scan_views(tasks@) == scan_of(all.take(i as int)),
                text::views(categories@) == names.take(i as int),
        {
            assert(all.take(i + 1).drop_last() =~= all.take(i as int));
            assert(all.take(i + 1).last() == all[i as int]);
            let name = groups[i].0.clone();
            assert(all[i as int] == (name@, text::views(groups@[i as int].1@)));
            add_tasks(&mut tasks, name.as_str(), &groups[i].1);
            let ghost seen = categories@;
            categories.push(name);
            assert(text::views(categories@) =~= text::views(seen).push(name@));
            assert(names.take(i + 1) =~= names.take(i as int).push(name@));
        }
        assert(all.take(all.len() as int) =~= all);
        assert(names.take(names.len() as int) =~= names);
        (tasks, categories)
    }

    /// How many programs are probed at a time.
    pub fn concurrency(input: &DetectBinariesToolInput) -> (r: usize)
        ensures
            r == if input.max_concurrency < 1 {
                1
            } else {
                input.max_concurrency
            },
    {
        if input.max_concurrency < 1 {
            1
        } else {
            input.max_concurrency
        }
    }

    /// What is given back.
    pub fn output(
        reports: Vec<BinaryReport>,
        scanned: usize,
        categories: &Vec<String>,
        timeout_ms: u64,
    ) -> (r: String)
        ensures
            r@ == json::pretty_json(
                output(report_views(reports@), scanned, text::views(categories@), timeout_ms),
            ),
    {
        broadcast use json::object_view, json::array_view;

        let ghost all = report_views(reports@);
        let found: usize = count_found(&reports);
        let sorted = sort_reports(reports);
        let mut fields: Vec<(String, Json)> = Vec::new();
        fields.push(("binaries".to_owned(), Json::Array(report_values(&sorted))));
        let summary = summary_value(found, scanned, categories, timeout_ms);
        fields.push(("summary".to_owned(), summary));
        assert(json::fields_view(fields@) =~= output(
            all,
            scanned,
            text::views(categories@),
            timeout_ms,
        )->Object_0);
        json::to_string_pretty(&Json::Object(fields))
    }
}

// ---------------------------------------------------------------------------
// Laws
// ---------------------------------------------------------------------------

/// Settings and a filter determine the groups to look at.
pub proof fn effective_groups_are_unique(
    cfg: DetectBinariesSettings,
    filter: Option<Vec<String>>,
    x: Seq<(Seq<char>, Seq<Seq<char>>)>,
    y: Seq<(Seq<char>, Seq<Seq<char>>)>,
)
    requires
        effective(cfg, filter, x),
        effective(cfg, filter, y),
    ensures
        x == y,
{
    let a = x.map_values(|g: (Seq<char>, Seq<Seq<char>>)| g.0);
    let b = y.map_values(|g: (Seq<char>, Seq<Seq<char>>)| g.0);
    assert forall|g: Seq<char>, t: Seq<char>| lists(x, g, t) == lists(y, g, t) by {}
    assert forall|g: Seq<char>| a.contains(g) == b.contains(g) by {
        if a.contains(g) {
            let i = choose|i: int| 0 <= i < a.len() && a[i] == g;
            assert(x[i].0 == g && x[i].1.contains(x[i].1[0]));
            assert(lists(x, g, x[i].1[0]));
            assert(lists(y, g, x[i].1[0]));
            let j = choose|j: int|
                0 <= j < y.len() && (#[trigger] y[j]).0 == g && y[j].1.contains(x[i].1[0]);
            assert(b[j] == g);
        }
        if b.contains(g) {
            let i = choose|i: int| 0 <= i < b.len() && b[i] == g;
            assert(y[i].0 == g && y[i].1.contains(y[i].1[0]));
            assert(lists(y, g, y[i].1[0]));
            assert(lists(x, g, y[i].1[0]));
            let j = choose|j: int|
                0 <= j < x.len() && (#[trigger] x[j]).0 == g && x[j].1.contains(y[i].1[0]);
            assert(a[j] == g);
        }
    }
    assert(text::in_order(a)) by {
        assert forall|i: int, j: int| 0 <= i < j < a.len() implies text::before(
            #[trigger] a[i],
            #[trigger] a[j],
        ) by {
            assert(text::before(x[i].0, x[j].0));
        }
    }
    assert(text::in_order(b)) by {
        assert forall|i: int, j: int| 0 <= i < j < b.len() implies text::before(
            #[trigger] b[i],
            #[trigger] b[j],
        ) by {
            assert(text::before(y[i].0, y[j].0));
        }
    }
    text::order_is_unique(a, b);
    assert(x.len() == a.len() == y.len());
    assert forall|i: int| 0 <= i < x.len() implies x[i] == y[i] by {
        assert(a[i] == b[i]);
        assert forall|t: Seq<char>| x[i].1.contains(t) == y[i].1.contains(t) by {
            lists_is_own(x, i, t);
            lists_is_own(y, i, t);
            assert(lists(x, x[i].0, t) == lists(y, x[i].0, t));
        }
        text::order_is_unique(x[i].1, y[i].1);
    }
    assert(x =~= y);
}

/// In groups in order, what a group lists is what stands in it.
proof fn lists_is_own(groups: Seq<(Seq<char>, Seq<Seq<char>>)>, i: int, bin: Seq<char>)
    requires
        groups_in_order(groups),
        0 <= i < groups.len(),
    ensures
        lists(groups, groups[i].0, bin) == groups[i].1.contains(bin),
{
    if lists(groups, groups[i].0, bin) {
        let j = choose|j: int|
            0 <= j < groups.len() && (#[trigger] groups[j]).0 == groups[i].0
                && groups[j].1.contains(bin);
        text::before_is_strict(groups[i].0);
        if j < i {
            assert(text::before(groups[j].0, groups[i].0));
        } else if i < j {
            assert(text::before(groups[i].0, groups[j].0));
        }
    }
}

/// Sorting reports keeps each of them, and puts none before one that comes before it.
pub proof fn sorting_orders_and_keeps(reports: Seq<ReportView>)
    ensures
        sorted_reports(reports).to_multiset() == reports.to_multiset(),
        forall|i: int, j: int|
            0 <= i < j < sorted_reports(reports).len() ==> !report_before(
                #[trigger] sorted_reports(reports)[j],
                #[trigger] sorted_reports(reports)[i],
            ),
    decreases reports.len(),
{
    broadcast use vstd::seq_lib::group_to_multiset_ensures;

    if reports.len() == 0 {
        assert(sorted_reports(reports) =~= reports);
    } else {
        let rest = reports.drop_last();
        let x = reports.last();
        sorting_orders_and_keeps(rest);
        let s = sorted_reports(rest);
        place_is_within(s, x);
        let at = report_place(s, x);
        let all = s.insert(at, x);
        assert(reports =~= rest.push(x));
        vstd::seq_lib::to_multiset_insert(s, at, x);
        assert(all.to_multiset() =~= reports.to_multiset());
        place_parts(s, x);
        assert forall|i: int, j: int| 0 <= i < j < all.len() implies !report_before(
            #[trigger] all[j],
            #[trigger] all[i],
        ) by {
            if j < at {
                assert(!report_before(s[j], s[i]));
            } else if j == at {
                if i == at - 1 {
                } else {
                    assert(!report_before(s[at - 1], s[i]));
                    report_before_is_total(s[at - 1], s[i]);
                    if report_before(x, s[i]) {
                        report_before_goes_on(x, s[i], s[at - 1]);
                    }
                }
            } else if i < at {
                assert(!report_before(s[j - 1], s[i]));
            } else if i == at {
                if report_before(s[j - 1], x) {
                    assert(report_before(x, s[j - 1]));
                    report_before_goes_on(x, s[j - 1], x);
                    text::before_is_strict(x.category);
                    text::before_is_strict(x.name);
                }
            } else {
                assert(!report_before(s[j - 1], s[i - 1]));
            }
        }
    }
}

/// Before its place a report has one that it does not come before; from there on it comes before all.
proof fn place_parts(s: Seq<ReportView>, x: ReportView)
    ensures
        0 < report_place(s, x) ==> !report_before(x, s[report_place(s, x) - 1]),
        forall|i: int| report_place(s, x) <= i < s.len() ==> report_before(x, #[trigger] s[i]),
    decreases s.len(),
{
    place_is_within(s, x);
    if s.len() > 0 && report_before(x, s.last()) {
        place_is_within(s.drop_last(), x);
        place_parts(s.drop_last(), x);
        assert forall|i: int| report_place(s, x) <= i < s.len() implies report_before(
            x,
            #[trigger] s[i],
        ) by {
            if i < s.len() - 1 {
                assert(s.drop_last()[i] == s[i]);
            }
        }
    }
}

proof fn report_before_goes_on(a: ReportView, b: ReportView, c: ReportView)
    requires
        report_before(a, b),
        report_before(b, c) || (b.category == c.category && b.name == c.name),
    ensures
        report_before(a, c),
{
    if text::before(a.category, b.category) && text::before(b.category, c.category) {
        text::before_is_transitive(a.category, b.category, c.category);
    }
    if text::before(a.name, b.name) && text::before(b.name, c.name) {
        text::before_is_transitive(a.name, b.name, c.name);
    }
}

proof fn report_before_is_total(a: ReportView, b: ReportView)
    ensures
        report_before(a, b) || report_before(b, a) || (a.category == b.category && a.name
            == b.name),
{
    text::before_is_total(a.category, b.category);
    text::before_is_total(a.name, b.name);
}

/// Groups whose names, in lower case, are among some names, in the same order.
pub open spec fn restricted(
    groups: Seq<(Seq<char>, Seq<Seq<char>>)>,
    names: Seq<Seq<char>>,
) -> Seq<(Seq<char>, Seq<Seq<char>>)>
    decreases groups.len(),
{
    if groups.len() == 0 {
        Seq::empty()
    } else {
        let before = restricted(groups.drop_last(), names);
        if names.contains(text::lowercase(groups.last().0)) {
            before.push(groups.last())
        } else {
            before
        }
    }
}

/// Groups that are left are those that were there.
proof fn restricted_groups_were_there(
    groups: Seq<(Seq<char>, Seq<Seq<char>>)>,
    names: Seq<Seq<char>>,
)
    requires
        groups_in_order(groups),
    ensures
        groups_in_order(restricted(groups, names)),
        forall|i: int|
            0 <= i < restricted(groups, names).len() ==> groups.contains(
                #[trigger] restricted(groups, names)[i],
            ),
        forall|g: Seq<char>, b: Seq<char>| #[trigger]
            lists(restricted(groups, names), g, b) == (lists(groups, g, b) && names.contains(
                text::lowercase(g),
            )),
    decreases groups.len(),
{
    let kept = restricted(groups, names);
    if groups.len() > 0 {
        let shorter = groups.drop_last();
        let n = groups.len() - 1;
        assert forall|i: int, j: int| 0 <= i < j < shorter.len() implies text::before(
            (#[trigger] shorter[i]).0,
            (#[trigger] shorter[j]).0,
        ) by {
            assert(text::before(groups[i].0, groups[j].0));
        }
        assert forall|i: int| 0 <= i < shorter.len() implies text::in_order(
            (#[trigger] shorter[i]).1,
        ) && shorter[i].1.len() > 0 by {
            assert(shorter[i] == groups[i]);
        }
        restricted_groups_were_there(shorter, names);
        let before = restricted(shorter, names);
        assert forall|i: int| 0 <= i < before.len() implies exists|m: int|
            0 <= m < n && groups[m] == #[trigger] before[i] by {
            assert(shorter.contains(before[i]));
            let m = choose|m: int| 0 <= m < shorter.len() && shorter[m] == before[i];
            assert(groups[m] == before[i]);
        }
        assert forall|i: int| 0 <= i < kept.len() implies groups.contains(#[trigger] kept[i]) by {
            if i < before.len() {
                assert(kept[i] == before[i]);
                let m = choose|m: int| 0 <= m < n && groups[m] == before[i];
                assert(groups[m] == kept[i]);
            } else {
                assert(groups[n] == kept[i]);
            }
        }
        assert forall|i: int, j: int| 0 <= i < j < kept.len() implies text::before(
            (#[trigger] kept[i]).0,
            (#[trigger] kept[j]).0,
        ) by {
            assert(kept[i] == before[i]);
            if j < before.len() {
                assert(text::before(before[i].0, before[j].0));
            } else {
                let m = choose|m: int| 0 <= m < n && groups[m] == before[i];
                assert(text::before(groups[m].0, groups[n].0));
            }
        }
        assert(groups.take(n) =~= shorter);
        assert(groups.take(n + 1) =~= groups);
        assert forall|g: Seq<char>, b: Seq<char>| #[trigger]
            lists(kept, g, b) == (lists(groups, g, b) && names.contains(text::lowercase(g))) by {
            one_more_group(groups, n, g, b);
            assert(lists(before, g, b) == (lists(shorter, g, b) && names.contains(
                text::lowercase(g),
            )));
            if names.contains(text::lowercase(groups.last().0)) {
                one_more_group(kept, before.len() as int, g, b);
                assert(kept.take(before.len() as int) =~= before);
                assert(kept.take(before.len() as int + 1) =~= kept);
            }
        }
    }
}

/// A filter only restricts: the groups to look at with one are those without it whose names it holds,
/// whatever their case, in the same order and with the same programs. An empty filter leaves none, and
/// no filter brings back a group that is left out.
pub proof fn filter_only_restricts(
    cfg: DetectBinariesSettings,
    filter: Vec<String>,
    all: Seq<(Seq<char>, Seq<Seq<char>>)>,
    some: Seq<(Seq<char>, Seq<Seq<char>>)>,
)
    requires
        effective(cfg, None, all),
        effective(cfg, Some(filter), some),
    ensures
        some == restricted(all, lowercases(text::views(filter@))),
        filter@.len() == 0 ==> some.len() == 0,
        forall|i: int| 0 <= i < some.len() ==> all.contains(#[trigger] some[i]),
{
    let names = lowercases(text::views(filter@));
    restricted_groups_were_there(all, names);
    assert forall|g: Seq<char>, b: Seq<char>| #[trigger]
        lists(restricted(all, names), g, b) == (offered(cfg, g, b) && wanted(
            cfg,
            Some(filter),
            g,
        ) && !excluded(cfg, b)) by {
        assert(lists(all, g, b) == (offered(cfg, g, b) && wanted(cfg, None, g) && !excluded(
            cfg,
            b,
        )));
    }
    effective_groups_are_unique(cfg, Some(filter), some, restricted(all, names));
    if filter@.len() == 0 {
        assert(names.len() == 0);
        nothing_is_left(all, names);
    }
}

proof fn nothing_is_left(
    groups: Seq<(Seq<char>, Seq<Seq<char>>)>,
    names: Seq<Seq<char>>,
)
    requires
        names.len() == 0,
    ensures
        restricted(groups, names).len() == 0,
    decreases groups.len(),
{
    if groups.len() > 0 {
        nothing_is_left(groups.drop_last(), names);
    }
}

} // verus!
