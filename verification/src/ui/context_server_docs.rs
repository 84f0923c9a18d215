//! The dialog that shows what a context server offers.

use vstd::prelude::*;

use crate::text;

verus! {

/// A prompt that a server offers. The names of its arguments may not be known.
#[derive(Debug)]
pub struct Prompt {
    pub name: String,
    pub description: Option<String>,
    pub arguments: Option<Vec<String>>,
}

/// A resource that a server offers.
#[derive(Debug)]
pub struct Resource {
    pub uri: String,
    pub name: String,
    pub description: Option<String>,
}

/// What is known of what a server offers.
#[derive(Debug)]
pub enum DocsState {
    Loading,
    Loaded { prompts: Vec<Prompt>, resources: Vec<Resource> },
    Error(String),
}

/// Something that a server offers, as it is shown. The key is that by which it is unfolded.
#[derive(Debug)]
pub struct DocItem {
    pub key: String,
    pub name: String,
    pub description: Option<String>,
    pub detail: Option<String>,
}

/// Something that a server offers, as it is shown.
pub ghost struct ItemView {
    pub key: Seq<char>,
    pub name: Seq<char>,
    pub description: Option<Seq<char>>,
    pub detail: Option<Seq<char>>,
}

impl View for DocItem {
    type V = ItemView;

    open spec fn view(&self) -> ItemView {
        ItemView {
            key: self.key@,
            name: self.name@,
            description: text::opt_view(self.description),
            detail: text::opt_view(self.detail),
        }
    }
}

/// What is shown of a prompt: its arguments are the detail.
pub open spec fn prompt_item(p: Prompt) -> ItemView {
    ItemView {
        key: "prompt:"@ + p.name@,
        name: p.name@,
        description: text::opt_view(p.description),
        detail: match p.arguments {
            Some(a) => Some(
                if a@.len() == 0 {
                    "No arguments"@
                } else {
                    "Arguments: "@ + text::join(text::views(a@), ", "@)
                },
            ),
            None => None,
        },
    }
}

/// What is shown of a resource: its address is the detail.
pub open spec fn resource_item(r: Resource) -> ItemView {
    ItemView {
        key: "resource:"@ + r.uri@,
        name: r.name@,
        description: text::opt_view(r.description),
        detail: Some(r.uri@),
    }
}

impl DocItem {
    /// What is shown of a prompt.
    pub fn of_prompt(p: &Prompt) -> (r: DocItem)
        ensures
            r@ == prompt_item(*p),
    {
        let mut key = "prompt:".to_owned();
        key.append(p.name.as_str());
        let detail = match &p.arguments {
            Some(a) => if a.len() == 0 {
                Some("No arguments".to_owned())
            } else {
                let mut out = "Arguments: ".to_owned();
                out.append(text::join_texts(a, ", ").as_str());
                Some(out)
            },
            None => None,
        };
        DocItem { key, name: p.name.clone(), description: text::copy_option(&p.description), detail }
    }

    /// What is shown of a resource.
    pub fn of_resource(resource: &Resource) -> (r: DocItem)
        ensures
            r@ == resource_item(*resource),
    {
        let mut key = "resource:".to_owned();
        key.append(resource.uri.as_str());
        DocItem {
            key,
            name: resource.name.clone(),
            description: text::copy_option(&resource.description),
            detail: Some(resource.uri.clone()),
        }
    }
}

/// A row of a section. It can be unfolded where it has more to say, and shows that when it is.
/// Above every row but the first is a line.
#[derive(Debug)]
pub struct Row {
    pub item: DocItem,
    pub foldable: bool,
    pub expanded: bool,
    pub line_above: bool,
}

/// A row of a section.
pub ghost struct RowView {
    pub item: ItemView,
    pub foldable: bool,
    pub expanded: bool,
    pub line_above: bool,
}

impl View for Row {
    type V = RowView;

    open spec fn view(&self) -> RowView {
        RowView {
            item: self.item@,
            foldable: self.foldable,
            expanded: self.expanded,
            line_above: self.line_above,
        }
    }
}

/// The rows of a section.
pub open spec fn row_views(rows: Seq<Row>) -> Seq<RowView> {
    rows.map_values(|r: Row| r@)
}

/// The row of something that is offered.
pub open spec fn row_of(item: ItemView, index: int, expanded: Seq<Seq<char>>) -> RowView {
    RowView {
        item,
        foldable: item.description is Some || item.detail is Some,
        expanded: expanded.contains(item.key),
        line_above: index > 0,
    }
}

/// The rows of prompts.
pub open spec fn prompt_rows(prompts: Seq<Prompt>, expanded: Seq<Seq<char>>) -> Seq<RowView> {
    Seq::new(prompts.len(), |i: int| row_of(prompt_item(prompts[i]), i, expanded))
}

/// The rows of resources.
pub open spec fn resource_rows(resources: Seq<Resource>, expanded: Seq<Seq<char>>) -> Seq<RowView> {
    Seq::new(resources.len(), |i: int| row_of(resource_item(resources[i]), i, expanded))
}

/// What the dialog shows: a line of text, or two sections. A section without rows is not shown, and
/// between the sections is a line where both are.
#[derive(Debug)]
pub enum Content {
    Line(String),
    Sections { prompts: Vec<Row>, line: bool, resources: Vec<Row> },
}

/// The dialog. `expanded` holds the keys of what is unfolded.
#[derive(Debug)]
pub struct ConfigureContextServerDocsModal {
    pub context_server_id: String,
    pub expanded: Vec<String>,
    pub state: DocsState,
}

/// Whether a key is another one.
pub open spec fn other_than(key: Seq<char>) -> spec_fn(Seq<char>) -> bool {
    |k: Seq<char>| k != key
}

/// The keys of what is unfolded, after a click on one.
pub open spec fn toggled(expanded: Seq<Seq<char>>, key: Seq<char>) -> Seq<Seq<char>> {
    if expanded.contains(key) {
        expanded.filter(other_than(key))
    } else {
        expanded.push(key)
    }
}

/// Unfolds what is folded, and folds what is unfolded.
pub fn toggle_key(expanded: &mut Vec<String>, key: &str)
    ensures
        text::views(final(expanded)@) == toggled(text::views(old(expanded)@), key@),
{
    let ghost all = text::views(expanded@);
    if !text::contains_text(expanded, key) {
        expanded.push(key.to_owned());
        assert(text::views(expanded@) =~= all.push(key@));
        return ;
    }
    let ghost other = other_than(key@);
    let mut kept: Vec<String> = Vec::new();
    assert(all.take(0) =~= Seq::<Seq<char>>::empty());
    reveal(Seq::filter);
    assert(text::views(kept@) =~= all.take(0).filter(other));
    for i in 0..expanded.len()
        invariant
            all == text::views(expanded@),
            other == other_than(key@),
            text::views(kept@) == all.take(i as int).filter(other),
    {
        reveal(Seq::filter);
        assert(all.take(i + 1).drop_last() =~= all.take(i as int));
        assert(all.take(i + 1).last() == expanded@[i as int]@);
        if !text::same(expanded[i].as_str(), key) {
            let ghost seen = kept@;
            let k = expanded[i].clone();
            kept.push(k);
            assert(text::views(kept@) =~= text::views(seen).push(k@));
        }
    }
    assert(all.take(all.len() as int) =~= all);
    *expanded = kept;
}

fn row(item: DocItem, index: usize, expanded: &Vec<String>) -> (r: Row)
    ensures
        r@ == row_of(item@, index as int, text::views(expanded@)),
{
    let unfolded = text::contains_text(expanded, item.key.as_str());
    let foldable = item.description.is_some() || item.detail.is_some();
    Row { item, foldable, expanded: unfolded, line_above: index > 0 }
}

impl ConfigureContextServerDocsModal {
    /// Nothing is known yet of what the server offers.
    pub fn new(context_server_id: String) -> (r: ConfigureContextServerDocsModal)
        ensures
            r.context_server_id@ == context_server_id@,
            text::views(r.expanded@) == Seq::<Seq<char>>::empty(),
            r.state is Loading,
    {
        let r = ConfigureContextServerDocsModal {
            context_server_id,
            expanded: Vec::new(),
            state: DocsState::Loading,
        };
        assert(text::views(r.expanded@) =~= Seq::empty());
        r
    }

    /// The server does not run, or is not ready.
    pub fn unavailable(&mut self, running: bool)
        ensures
            final(self).context_server_id == old(self).context_server_id,
            final(self).expanded == old(self).expanded,
            final(self).state matches DocsState::Error(e) && e@ == if running {
                "Server is not initialized."@
            } else {
                "Server is not running."@
            },
    {
        self.state = DocsState::Error(
            if running {
                "Server is not initialized.".to_owned()
            } else {
                "Server is not running.".to_owned()
            },
        );
    }

    /// What the server offers is known. Nothing is shown of what could not be asked for.
    pub fn loaded(
        &mut self,
        prompts: Result<Vec<Prompt>, String>,
        resources: Result<Vec<Resource>, String>,
    )
        ensures
            final(self).context_server_id == old(self).context_server_id,
            final(self).expanded == old(self).expanded,
            final(self).state matches DocsState::Loaded { prompts: p, resources: q } && (
            match prompts {
                Ok(v) => p == v,
                Err(_) => p@.len() == 0,
            }) && (match resources {
                Ok(v) => q == v,
                Err(_) => q@.len() == 0,
            }),
    {
        let prompts = match prompts {
            Ok(v) => v,
            Err(_) => Vec::new(),
        };
        let resources = match resources {
            Ok(v) => v,
            Err(_) => Vec::new(),
        };
        self.state = DocsState::Loaded { prompts, resources };
    }

    /// A row was clicked.
    pub fn toggle(&mut self, key: &str)
        ensures
            final(self).context_server_id == old(self).context_server_id,
            final(self).state == old(self).state,
            text::views(final(self).expanded@) == toggled(text::views(old(self).expanded@), key@),
    {
        toggle_key(&mut self.expanded, key);
    }

    /// The headline.
    pub fn headline(&self) -> (r: String)
        ensures
            r@ == "Docs from "@ + self.context_server_id@,
    {
        let mut out = "Docs from ".to_owned();
        out.append(self.context_server_id.as_str());
        out
    }

    /// The rows of prompts.
    pub fn prompt_rows(&self, prompts: &Vec<Prompt>) -> (r: Vec<Row>)
        ensures
            row_views(r@) == prompt_rows(prompts@, text::views(self.expanded@)),
    {
        let ghost open = text::views(self.expanded@);
        let mut out: Vec<Row> = Vec::new();
        assert(row_views(out@) =~= prompt_rows(prompts@, open).take(0));
        for i in 0..prompts.len()
            invariant
                open == text::views(self.expanded@),
                row_views(out@) == prompt_rows(prompts@, open).take(i as int),
        {
            let ghost seen = out@;
            let next = row(DocItem::of_prompt(&prompts[i]), i, &self.expanded);
            out.push(next);
            assert(row_views(out@) =~= row_views(seen).push(next@));
            assert(prompt_rows(prompts@, open).take(i + 1) =~= prompt_rows(prompts@, open).take(
                i as int,
            ).push(next@));
        }
        assert(prompt_rows(prompts@, open).take(prompts@.len() as int) =~= prompt_rows(
            prompts@,
            open,
        ));
        out
    }

    /// The rows of resources.
    pub fn resource_rows(&self, resources: &Vec<Resource>) -> (r: Vec<Row>)
        ensures
            row_views(r@) == resource_rows(resources@, text::views(self.expanded@)),
    {
        let ghost open = text::views(self.expanded@);
        let mut out: Vec<Row> = Vec::new();
        assert(row_views(out@) =~= resource_rows(resources@, open).take(0));
        for i in 0..resources.len()
            invariant
                open == text::views(self.expanded@),
                row_views(out@) == resource_rows(resources@, open).take(i as int),
        {
            let ghost seen = out@;
            let next = row(DocItem::of_resource(&resources[i]), i, &self.expanded);
            out.push(next);
            assert(row_views(out@) =~= row_views(seen).push(next@));
            assert(resource_rows(resources@, open).take(i + 1) =~= resource_rows(
                resources@,
                open,
            ).take(i as int).push(next@));
        }
        assert(resource_rows(resources@, open).take(resources@.len() as int) =~= resource_rows(
            resources@,
            open,
        ));
        out
    }

    /// What the dialog shows.
    pub fn content(&self) -> (r: Content)
        ensures
            match self.state {
                DocsState::Loading => r matches Content::Line(t) && t@ == "Loading…"@,
                DocsState::Error(e) => r matches Content::Line(t) && t@ == e@,
                DocsState::Loaded { prompts, resources } => if prompts@.len() == 0
                    && resources@.len() == 0 {
                    r matches Content::Line(t) && t@
                        == "No prompts or resources exposed by this server."@
                } else {
                    r matches Content::Sections { prompts: p, line, resources: q } && row_views(p@)
                        == prompt_rows(prompts@, text::views(self.expanded@)) && row_views(q@)
                        == resource_rows(resources@, text::views(self.expanded@)) && line == (
                    prompts@.len() > 0 && resources@.len() > 0)
                },
            },
    {
        match &self.state {
            DocsState::Loading => Content::Line("Loading…".to_owned()),
            DocsState::Error(e) => Content::Line(e.clone()),
            DocsState::Loaded { prompts, resources } => {
                if prompts.len() == 0 && resources.len() == 0 {
                    return Content::Line(
                        "No prompts or resources exposed by this server.".to_owned(),
                    );
                }
                Content::Sections {
                    prompts: self.prompt_rows(prompts),
                    line: prompts.len() > 0 && resources.len() > 0,
                    resources: self.resource_rows(resources),
                }
            },
        }
    }
}

// ---------------------------------------------------------------------------
// Laws
// ---------------------------------------------------------------------------

/// A click turns what it is about, and nothing else.
pub proof fn a_click_turns_one(expanded: Seq<Seq<char>>, key: Seq<char>, other: Seq<char>)
    ensures
        toggled(expanded, key).contains(key) == !expanded.contains(key),
        other != key ==> toggled(expanded, key).contains(other) == expanded.contains(other),
{
    let keep = other_than(key);
    if expanded.contains(key) {
        let now = toggled(expanded, key);
        if now.contains(key) {
            let i = choose|i: int| 0 <= i < now.len() && now[i] == key;
            expanded.lemma_filter_pred(keep, i);
        }
        if other != key {
            if expanded.contains(other) {
                let i = choose|i: int| 0 <= i < expanded.len() && expanded[i] == other;
                expanded.lemma_filter_contains(keep, i);
            }
            if now.contains(other) {
                expanded.lemma_filter_contains_rev(keep, other);
            }
        }
    } else {
        let now = expanded.push(key);
        assert(now[expanded.len() as int] == key);
        text::contains_one_more(now, expanded.len() as int, other);
        assert(now.take(expanded.len() as int) =~= expanded);
        assert(now.take(expanded.len() as int + 1) =~= now);
        assert(now.contains(other) == (expanded.contains(other) || key == other));
    }
}

} // verus!
