//! Asking the user whether a tool may run.

use vstd::prelude::*;

use crate::text;

verus! {

/// What choosing an option means.
#[derive(Debug, Clone, Copy, PartialEq, Eq, Structural)]
pub enum PermissionOptionKind {
    AllowAlways,
    AllowOnce,
    RejectOnce,
}

/// An option that the user is given.
#[derive(Debug)]
pub struct PermissionOption {
    pub id: &'static str,
    pub name: &'static str,
    pub kind: PermissionOptionKind,
}

pub ghost struct OptionView {
    pub id: Seq<char>,
    pub name: Seq<char>,
    pub kind: PermissionOptionKind,
}

impl View for PermissionOption {
    type V = OptionView;

    open spec fn view(&self) -> OptionView {
        OptionView { id: self.id@, name: self.name@, kind: self.kind }
    }
}

/// The options that the user is given.
pub open spec fn offered_options() -> Seq<OptionView> {
    seq![
        OptionView {
            id: "always_allow"@,
            name: "Always Allow"@,
            kind: PermissionOptionKind::AllowAlways,
        },
        OptionView { id: "allow"@, name: "Allow"@, kind: PermissionOptionKind::AllowOnce },
        OptionView { id: "deny"@, name: "Deny"@, kind: PermissionOptionKind::RejectOnce },
    ]
}

/// A question to the user, about one call of a tool.
#[derive(Debug)]
pub struct ToolCallAuthorization {
    pub tool_call_id: String,
    pub title: String,
    pub options: Vec<PermissionOption>,
}

/// What follows from an answer.
#[derive(Debug, Clone, Copy, PartialEq, Eq, Structural)]
pub enum Permission {
    Denied,
    /// The tool runs, and no further question is asked.
    GrantedAndKept,
    Granted,
}

/// What follows from the option that the user chose. What is always allowed is kept only where there
/// is a place to keep it.
pub open spec fn permission_for(option: Seq<char>, can_keep: bool) -> Permission {
    if option == "always_allow"@ {
        if can_keep {
            Permission::GrantedAndKept
        } else {
            Permission::Granted
        }
    } else if option == "allow"@ {
        Permission::Granted
    } else {
        Permission::Denied
    }
}

/// The error of a call that the user denied.
pub const DENIED_MESSAGE: &'static str = "Permission to run tool denied by user";

/// The call of a tool that is going on.
#[derive(Debug)]
pub struct ToolCallEventStream {
    pub tool_use_id: String,
    /// Whether the settings can be written.
    pub can_keep: bool,
}

impl ToolCallEventStream {
    /// The question that is to be asked before the tool runs: none where the settings allow all tools.
    pub fn authorize(&self, title: String, always_allow_tool_actions: bool) -> (r: Option<
        ToolCallAuthorization,
    >)
        ensures
            r is None <==> always_allow_tool_actions,
            r matches Some(asked) ==> {
                &&& asked.tool_call_id@ == self.tool_use_id@
                &&& asked.title@ == title@
                &&& asked.options@.map_values(|o: PermissionOption| o@) == offered_options()
            },
    {
        if always_allow_tool_actions {
            return None;
        }
        let mut options: Vec<PermissionOption> = Vec::new();
        options.push(
            PermissionOption {
                id: "always_allow",
                name: "Always Allow",
                kind: PermissionOptionKind::AllowAlways,
            },
        );
        options.push(
            PermissionOption { id: "allow", name: "Allow", kind: PermissionOptionKind::AllowOnce },
        );
        options.push(
            PermissionOption { id: "deny", name: "Deny", kind: PermissionOptionKind::RejectOnce },
        );
        assert(options@.map_values(|o: PermissionOption| o@) =~= offered_options());
        Some(ToolCallAuthorization { tool_call_id: self.tool_use_id.clone(), title, options })
    }

    /// What follows from the option that the user chose.
    pub fn answered(&self, option: &str) -> (r: Permission)
        ensures
            r == permission_for(option@, self.can_keep),
    {
        if text::same(option, "always_allow") {
            if self.can_keep {
                Permission::GrantedAndKept
            } else {
                Permission::Granted
            }
        } else if text::same(option, "allow") {
            Permission::Granted
        } else {
            Permission::Denied
        }
    }
}

/// An option that is offered does what its kind says.
pub proof fn options_do_what_they_say(i: int, can_keep: bool)
    requires
        0 <= i < offered_options().len(),
    ensures
        permission_for(offered_options()[i].id, can_keep) is Denied <==> offered_options()[i].kind
            is RejectOnce,
        permission_for(offered_options()[i].id, can_keep) is GrantedAndKept <==> can_keep
            && offered_options()[i].kind is AllowAlways,
{
    reveal_strlit("always_allow");
    reveal_strlit("allow");
    reveal_strlit("deny");
    assert("always_allow"@.len() == 12);
    assert("allow"@.len() == 5);
    assert("deny"@.len() == 4);
}

/// What was not offered is denied.
pub proof fn other_answers_are_denied(option: Seq<char>, can_keep: bool)
    requires
        forall|i: int|
            0 <= i < offered_options().len() ==> (#[trigger] offered_options()[i]).id != option,
    ensures
        permission_for(option, can_keep) is Denied,
{
    assert(offered_options()[0].id == "always_allow"@);
    assert(offered_options()[1].id == "allow"@);
}

/// A tool runs exactly where the user chose to allow it, once or always; only what is always allowed is
/// kept, and only where it can be.
pub proof fn only_the_user_lets_a_tool_run(option: Seq<char>, can_keep: bool)
    ensures
        permission_for(option, can_keep) != Permission::Denied <==> option == "allow"@ || option
            == "always_allow"@,
        permission_for(option, can_keep) == Permission::GrantedAndKept <==> option
            == "always_allow"@ && can_keep,
{
    reveal_strlit("allow");
    reveal_strlit("always_allow");
}

} // verus!
