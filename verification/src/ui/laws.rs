//! What holds of the dialogs of context servers: they show all that is offered.

use vstd::prelude::*;

use crate::text;
use crate::ui::context_server_docs;
use crate::ui::context_server_docs::{Prompt, Resource};
use crate::ui::context_server_prompts;

verus! {

/// Every prompt has a row, in order, with its name, its description and its arguments; it can be
/// unfolded where it has either, and is where that was asked for.
pub proof fn every_prompt_has_a_row(prompts: Seq<Prompt>, expanded: Seq<Seq<char>>, i: int)
    requires
        0 <= i < prompts.len(),
    ensures
        ({
            let p = prompts[i];
            let rows = context_server_docs::prompt_rows(prompts, expanded);
            let row = rows[i];
            &&& rows.len() == prompts.len()
            &&& row.item.name == p.name@
            &&& row.item.key == "prompt:"@ + p.name@
            &&& p.description is Some ==> row.item.description == Some(p.description->0@)
            &&& p.description is None ==> row.item.description is None
            &&& p.arguments is None ==> row.item.detail is None
            &&& (p.arguments is Some && p.arguments->0@.len() == 0) ==> row.item.detail == Some(
                "No arguments"@,
            )
            &&& (p.arguments is Some && p.arguments->0@.len() > 0) ==> row.item.detail == Some(
                "Arguments: "@ + text::join(text::views(p.arguments->0@), ", "@),
            )
            &&& row.foldable <==> p.description is Some || p.arguments is Some
            &&& row.expanded <==> expanded.contains("prompt:"@ + p.name@)
            &&& row.line_above <==> i > 0
        }),
{
}

/// Every resource has a row, in order, with its name, its description and its address.
pub proof fn every_resource_has_a_row(resources: Seq<Resource>, expanded: Seq<Seq<char>>, i: int)
    requires
        0 <= i < resources.len(),
    ensures
        ({
            let r = resources[i];
            let rows = context_server_docs::resource_rows(resources, expanded);
            let row = rows[i];
            &&& rows.len() == resources.len()
            &&& row.item.name == r.name@
            &&& row.item.key == "resource:"@ + r.uri@
            &&& r.description is Some ==> row.item.description == Some(r.description->0@)
            &&& r.description is None ==> row.item.description is None
            &&& row.item.detail == Some(r.uri@)
            &&& row.foldable
            &&& row.expanded <==> expanded.contains("resource:"@ + r.uri@)
            &&& row.line_above <==> i > 0
        }),
{
}

/// A prompt and a resource are never unfolded together.
pub proof fn prompts_and_resources_are_told_apart(p: Prompt, r: Resource)
    ensures
        context_server_docs::prompt_item(p).key != context_server_docs::resource_item(r).key,
{
    reveal_strlit("prompt:");
    reveal_strlit("resource:");
    let a = context_server_docs::prompt_item(p).key;
    let b = context_server_docs::resource_item(r).key;
    assert(a[0] == 'p');
    assert(b[0] == 'r');
}

/// In the dialog of prompts every prompt has a row with its name, in order, and shows its description
/// where it is unfolded, and only there.
pub proof fn unfolded_prompts_show_their_description(
    prompts: Seq<Prompt>,
    expanded: Seq<Seq<char>>,
    i: int,
)
    requires
        0 <= i < prompts.len(),
    ensures
        ({
            let p = prompts[i];
            let rows = context_server_prompts::rows(prompts, expanded);
            let open = expanded.contains(p.name@);
            &&& rows.len() == prompts.len()
            &&& rows[i].name == p.name@
            &&& rows[i].expanded == open
            &&& open && p.description is Some ==> rows[i].shown == Some(p.description->0@)
            &&& !open || p.description is None ==> rows[i].shown is None
            &&& rows[i].line_below <==> i < prompts.len() - 1
        }),
{
}

} // verus!
