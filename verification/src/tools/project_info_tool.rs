//! Keeping notes on a project from one conversation to the next.

use vstd::prelude::*;

use crate::text;
use crate::tools::ToolKind;

verus! {

/// What is done with the notes.
#[derive(Debug, Clone, Copy, PartialEq, Eq, Structural)]
pub enum ProjectInfoAction {
    Append,
    /// The action `set`.
    Overwrite,
    Read,
    Clear,
}

/// What is done with the notes, and the text to append or set.
#[derive(Debug)]
pub struct ProjectInfoToolInput {
    pub action: ProjectInfoAction,
    pub content: Option<String>,
}

/// Why the notes could not be changed.
#[derive(Debug, Clone, Copy, PartialEq, Eq, Structural)]
pub enum ProjectInfoError {
    NothingToAppend,
    NothingToSet,
}

impl ProjectInfoError {
    /// The error in words.
    pub fn message(&self) -> (r: String)
        ensures
            r@ == match self {
                ProjectInfoError::NothingToAppend => "Content is required for append action"@,
                ProjectInfoError::NothingToSet => "Content is required for set action"@,
            },
    {
        match self {
            ProjectInfoError::NothingToAppend =>
                "Content is required for append action".to_owned(),
            ProjectInfoError::NothingToSet => "Content is required for set action".to_owned(),
        }
    }
}

/// How the stored notes are changed.
#[derive(Debug)]
pub enum ProjectInfoChange {
    Keep,
    Save(String),
    Delete,
}

/// Why an action fails, if it does.
pub open spec fn info_error(action: ProjectInfoAction, content: Option<Seq<char>>) -> Option<
    ProjectInfoError,
> {
    match (action, content) {
        (ProjectInfoAction::Append, None) => Some(ProjectInfoError::NothingToAppend),
        (ProjectInfoAction::Overwrite, None) => Some(ProjectInfoError::NothingToSet),
        _ => None,
    }
}

/// The notes after an action that does not fail.
pub open spec fn info_after(
    action: ProjectInfoAction,
    content: Option<Seq<char>>,
    existing: Option<Seq<char>>,
) -> Option<Seq<char>> {
    match action {
        ProjectInfoAction::Read => existing,
        ProjectInfoAction::Clear => None,
        ProjectInfoAction::Overwrite => Some(content->0),
        ProjectInfoAction::Append => match existing {
            Some(e) => Some(e + "\n\n"@ + content->0),
            None => Some(content->0),
        },
    }
}

/// What is said after an action that does not fail.
pub open spec fn info_said(action: ProjectInfoAction, existing: Option<Seq<char>>) -> Seq<char> {
    match action {
        ProjectInfoAction::Read => match existing {
            Some(e) => e,
            None => "No project info has been stored yet."@,
        },
        ProjectInfoAction::Append => "Project info updated successfully."@,
        ProjectInfoAction::Overwrite => "Project info set successfully."@,
        ProjectInfoAction::Clear => "Project info cleared successfully."@,
    }
}

/// The notes after a change.
pub open spec fn changed_info(
    change: ProjectInfoChange,
    existing: Option<Seq<char>>,
) -> Option<Seq<char>> {
    match change {
        ProjectInfoChange::Keep => existing,
        ProjectInfoChange::Save(t) => Some(t@),
        ProjectInfoChange::Delete => None,
    }
}

/// Keeps notes on a project.
pub struct ProjectInfoTool;

impl ProjectInfoTool {
    /// The name of the tool.
    pub fn name() -> (r: &'static str)
        ensures
            r@ == "project_info"@,
    {
        "project_info"
    }

    /// What the tool does to its subject.
    pub fn kind() -> (r: ToolKind)
        ensures
            r == ToolKind::Other,
    {
        ToolKind::Other
    }

    /// The title of a call of the tool. The action is missing where it could not be read.
    pub fn initial_title(action: Option<ProjectInfoAction>) -> (r: String)
        ensures
            r@ == match action {
                Some(ProjectInfoAction::Append) => "Append to project info"@,
                Some(ProjectInfoAction::Overwrite) => "Set project info"@,
                Some(ProjectInfoAction::Read) => "Read project info"@,
                Some(ProjectInfoAction::Clear) => "Clear project info"@,
                None => "Manage project info"@,
            },
    {
        match action {
            Some(ProjectInfoAction::Append) => "Append to project info".to_owned(),
            Some(ProjectInfoAction::Overwrite) => "Set project info".to_owned(),
            Some(ProjectInfoAction::Read) => "Read project info".to_owned(),
            Some(ProjectInfoAction::Clear) => "Clear project info".to_owned(),
            None => "Manage project info".to_owned(),
        }
    }

    /// The key under which the notes are stored: the names of the roots of the project.
    pub fn get_project_key(worktree_roots: &Vec<String>) -> (r: String)
        ensures
            r@ == if worktree_roots@.len() == 0 {
                "default"@
            } else {
                text::join(text::views(worktree_roots@), ";"@)
            },
    {
        if worktree_roots.len() == 0 {
            "default".to_owned()
        } else {
            text::join_texts(worktree_roots, ";")
        }
    }

    /// Decides how the notes are changed, and what is said. `existing` are the notes that are stored.
    pub fn run(input: &ProjectInfoToolInput, existing: &Option<String>) -> (r: Result<
        (ProjectInfoChange, String),
        ProjectInfoError,
    >)
        ensures
            match r {
                Ok((change, said)) => info_error(input.action, text::opt_view(input.content)) is None
                    && changed_info(change, text::opt_view(*existing)) == info_after(
                    input.action,
                    text::opt_view(input.content),
                    text::opt_view(*existing),
                ) && said@ == info_said(input.action, text::opt_view(*existing)) && (change is Keep
                    <==> input.action == ProjectInfoAction::Read) && (change is Delete
                    <==> input.action == ProjectInfoAction::Clear),
                Err(e) => info_error(input.action, text::opt_view(input.content)) == Some(e),
            },
    {
        match input.action {
            ProjectInfoAction::Read => {
                let said = match existing {
                    Some(e) => e.clone(),
                    None => "No project info has been stored yet.".to_owned(),
                };
                Ok((ProjectInfoChange::Keep, said))
            },
            ProjectInfoAction::Append => match &input.content {
                None => Err(ProjectInfoError::NothingToAppend),
                Some(content) => {
                    let saved = match existing {
                        Some(e) => {
                            let mut saved = e.clone();
                            saved.append("\n\n");
                            saved.append(content.as_str());
                            saved
                        },
                        None => content.clone(),
                    };
                    Ok(
                        (
                            ProjectInfoChange::Save(saved),
                            "Project info updated successfully.".to_owned(),
                        ),
                    )
                },
            },
            ProjectInfoAction::Overwrite => match &input.content {
                None => Err(ProjectInfoError::NothingToSet),
                Some(content) => Ok(
                    (
                        ProjectInfoChange::Save(content.clone()),
                        "Project info set successfully.".to_owned(),
                    ),
                ),
            },
            ProjectInfoAction::Clear => Ok(
                (ProjectInfoChange::Delete, "Project info cleared successfully.".to_owned()),
            ),
        }
    }
}

// ---------------------------------------------------------------------------
// Laws
// ---------------------------------------------------------------------------

/// Reading after setting gives what was set.
pub proof fn set_then_read(content: Seq<char>, existing: Option<Seq<char>>)
    ensures
        info_said(
            ProjectInfoAction::Read,
            info_after(ProjectInfoAction::Overwrite, Some(content), existing),
        ) == content,
{
}

/// Reading after clearing finds nothing.
pub proof fn clear_then_read(existing: Option<Seq<char>>)
    ensures
        info_said(
            ProjectInfoAction::Read,
            info_after(ProjectInfoAction::Clear, None, existing),
        ) == "No project info has been stored yet."@,
{
}

/// Appending keeps what was there, and what is appended comes last.
pub proof fn append_keeps_the_notes(content: Seq<char>, existing: Option<Seq<char>>)
    ensures
        ({
            let after = info_after(ProjectInfoAction::Append, Some(content), existing)->0;
            &&& existing matches Some(e) ==> text::starts_with(after, e)
            &&& text::ends_with(after, content)
        }),
{
    let after = info_after(ProjectInfoAction::Append, Some(content), existing)->0;
    match existing {
        Some(e) => {
            assert(after.subrange(0, e.len() as int) =~= e);
            assert(after.subrange(after.len() - content.len(), after.len() as int) =~= content);
        },
        None => {
            assert(after.subrange(0, content.len() as int) =~= content);
        },
    }
}

} // verus!
