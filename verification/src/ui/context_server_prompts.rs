//! The dialog that shows the prompts of a context server.

use vstd::prelude::*;

use crate::text;
use crate::ui::context_server_docs;
use crate::ui::context_server_docs::Prompt;

verus! {

/// A row. When it is unfolded it shows the description. Below every row but the last is a line.
#[derive(Debug)]
pub struct PromptRow {
    pub name: String,
    pub expanded: bool,
    pub shown: Option<String>,
    pub line_below: bool,
}

/// A row.
pub ghost struct PromptRowView {
    pub name: Seq<char>,
    pub expanded: bool,
    pub shown: Option<Seq<char>>,
    pub line_below: bool,
}

impl View for PromptRow {
    type V = PromptRowView;

    open spec fn view(&self) -> PromptRowView {
        PromptRowView {
            name: self.name@,
            expanded: self.expanded,
            shown: text::opt_view(self.shown),
            line_below: self.line_below,
        }
    }
}

/// The rows.
pub open spec fn row_views(rows: Seq<PromptRow>) -> Seq<PromptRowView> {
    rows.map_values(|r: PromptRow| r@)
}

/// The rows of prompts.
pub open spec fn rows(prompts: Seq<Prompt>, expanded: Seq<Seq<char>>) -> Seq<PromptRowView> {
    Seq::new(
        prompts.len(),
        |i: int|
            PromptRowView {
                name: prompts[i].name@,
                expanded: expanded.contains(prompts[i].name@),
                shown: if expanded.contains(prompts[i].name@) {
                    text::opt_view(prompts[i].description)
                } else {
                    None
                },
                line_below: i < prompts.len() - 1,
            },
    )
}

/// The dialog. `expanded` holds the names of the prompts that are unfolded.
#[derive(Debug)]
pub struct ConfigureContextServerPromptsModal {
    pub context_server_id: String,
    pub prompts: Vec<Prompt>,
    pub expanded: Vec<String>,
}

impl ConfigureContextServerPromptsModal {
    /// Shows prompts, all of them folded.
    pub fn new(context_server_id: String, prompts: Vec<Prompt>) -> (r:
        ConfigureContextServerPromptsModal)
        ensures
            r.context_server_id@ == context_server_id@,
            r.prompts == prompts,
            text::views(r.expanded@) == Seq::<Seq<char>>::empty(),
    {
        let r = ConfigureContextServerPromptsModal {
            context_server_id,
            prompts,
            expanded: Vec::new(),
        };
        assert(text::views(r.expanded@) =~= Seq::empty());
        r
    }

    /// A row was clicked.
    pub fn toggle(&mut self, name: &str)
        ensures
            final(self).context_server_id == old(self).context_server_id,
            final(self).prompts == old(self).prompts,
            text::views(final(self).expanded@) == context_server_docs::toggled(
                text::views(old(self).expanded@),
                name@,
            ),
    {
        context_server_docs::toggle_key(&mut self.expanded, name);
    }

    /// The headline.
    pub fn headline(&self) -> (r: String)
        ensures
            r@ == "Prompts from "@ + self.context_server_id@,
    {
        let mut out = "Prompts from ".to_owned();
        out.append(self.context_server_id.as_str());
        out
    }

    /// The rows.
    pub fn rows(&self) -> (r: Vec<PromptRow>)
        ensures
            row_views(r@) == rows(self.prompts@, text::views(self.expanded@)),
    {
        let ghost all = rows(self.prompts@, text::views(self.expanded@));
        let n: usize = self.prompts.len();
        let mut out: Vec<PromptRow> = Vec::new();
        assert(row_views(out@) =~= all.take(0));
        for i in 0..n
            invariant
                n == self.prompts@.len(),
                all == rows(self.prompts@, text::views(self.expanded@)),
                row_views(out@) == all.take(i as int),
        {
            let prompt = &self.prompts[i];
            let expanded = text::contains_text(&self.expanded, prompt.name.as_str());
            let mut shown: Option<String> = None;
            if expanded {
                if let Some(d) = &prompt.description {
                    shown = Some(d.clone());
                }
            }
            let ghost seen = out@;
            let next = PromptRow {
                name: prompt.name.clone(),
                expanded,
                shown,
                line_below: i < n - 1,
            };
            out.push(next);
            assert(row_views(out@) =~= row_views(seen).push(next@));
            assert(all[i as int] == next@);
            assert(all.take(i + 1) =~= all.take(i as int).push(next@));
        }
        assert(all.take(all.len() as int) =~= all);
        out
    }
}

} // verus!
