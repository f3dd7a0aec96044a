use vstd::prelude::*;
use vstd::string::{StrSliceExecFns, StringExecFns};
use crate::admin::{has_command_permission, role_rank, AdminRole};

verus! {

/// An error of a chat command, as a localisation key and at most one
/// named argument for the localised text.
pub struct CommandError {
    pub key: String,
    pub arg: Option<(String, String)>,
}

/// A command error made of `key` and the argument `name` = `value`.
pub open spec fn is_error_with(err: CommandError, key: Seq<char>, name: Seq<char>, value: Seq<char>) -> bool {
    &&& err.key@ == key
    &&& err.arg matches Some((n, v)) && n@ == name && v@ == value
}

/// Builds a command error with one argument.
pub(crate) fn error_with(key: &str, name: &str, value: &str) -> (err: CommandError)
    ensures
        is_error_with(err, key@, name@, value@),
{
    CommandError { key: String::from_str(key), arg: Some((String::from_str(name), String::from_str(value))) }
}

/// Compares two strings character by character.
pub fn str_equal(a: &str, b: &str) -> (equal: bool)
    ensures
        equal == (a@ == b@),
{
    let n = a.unicode_len();
    if n != b.unicode_len() {
        return false;
    }
    let mut i: usize = 0;
    while i < n
        invariant
            i <= n,
            n == a@.len(),
            n == b@.len(),
            forall|j: int| 0 <= j < i ==> a@[j] == b@[j],
        decreases n - i,
    {
        if a.get_char(i) != b.get_char(i) {
            return false;
        }
        i = i + 1;
    }
    assert(a@ =~= b@);
    true
}

/// Who an entity answers to.
#[derive(Clone, Copy, PartialEq, Eq, Structural, Debug)]
pub enum Alignment {
    Wild,
    Enemy,
    Npc,
    /// Owned by the entity with this uid.
    Owned(u64),
}

pub open spec fn alignment_named(owner: u64, name: Seq<char>) -> Option<Alignment> {
    if name == "wild"@ {
        Some(Alignment::Wild)
    } else if name == "enemy"@ {
        Some(Alignment::Enemy)
    } else if name == "npc"@ {
        Some(Alignment::Npc)
    } else if name == "pet"@ {
        Some(Alignment::Owned(owner))
    } else {
        None
    }
}

/// Reads an alignment argument; `pet` means owned by `owner`.
pub fn parse_alignment(owner: u64, alignment: &str) -> (res: Result<Alignment, CommandError>)
    ensures
        alignment_named(owner, alignment@) matches Some(a) ==> res == Ok::<Alignment, CommandError>(a),
        alignment_named(owner, alignment@) is None ==> (res matches Err(e) && is_error_with(
            e,
            "command-invalid-alignment"@,
            "alignment"@,
            alignment@,
        )),
{
    if str_equal(alignment, "wild") {
        Ok(Alignment::Wild)
    } else if str_equal(alignment, "enemy") {
        Ok(Alignment::Enemy)
    } else if str_equal(alignment, "npc") {
        Ok(Alignment::Npc)
    } else if str_equal(alignment, "pet") {
        Ok(Alignment::Owned(owner))
    } else {
        Err(error_with("command-invalid-alignment", "alignment", alignment))
    }
}

/// The tools with a skill tree of their own.
#[derive(Clone, Copy, PartialEq, Eq, Structural, Debug)]
pub enum ToolKind {
    Sword,
    Axe,
    Hammer,
    Bow,
    Staff,
    Sceptre,
    Pick,
}

/// A skill tree: the general one, or that of a weapon.
#[derive(Clone, Copy, PartialEq, Eq, Structural, Debug)]
pub enum SkillGroupKind {
    General,
    Weapon(ToolKind),
}

pub open spec fn skill_tree_named(name: Seq<char>) -> Option<SkillGroupKind> {
    if name == "general"@ {
        Some(SkillGroupKind::General)
    } else if name == "sword"@ {
        Some(SkillGroupKind::Weapon(ToolKind::Sword))
    } else if name == "axe"@ {
        Some(SkillGroupKind::Weapon(ToolKind::Axe))
    } else if name == "hammer"@ {
        Some(SkillGroupKind::Weapon(ToolKind::Hammer))
    } else if name == "bow"@ {
        Some(SkillGroupKind::Weapon(ToolKind::Bow))
    } else if name == "staff"@ {
        Some(SkillGroupKind::Weapon(ToolKind::Staff))
    } else if name == "sceptre"@ {
        Some(SkillGroupKind::Weapon(ToolKind::Sceptre))
    } else if name == "mining"@ {
        Some(SkillGroupKind::Weapon(ToolKind::Pick))
    } else {
        None
    }
}

/// Reads a skill-tree argument.
pub fn parse_skill_tree(skill_tree: &str) -> (res: Result<SkillGroupKind, CommandError>)
    ensures
        skill_tree_named(skill_tree@) matches Some(k) ==> res == Ok::<SkillGroupKind, CommandError>(k),
        skill_tree_named(skill_tree@) is None ==> (res matches Err(e) && is_error_with(
            e,
            "command-invalid-skill-group"@,
            "group"@,
            skill_tree@,
        )),
{
    if str_equal(skill_tree, "general") {
        Ok(SkillGroupKind::General)
    } else if str_equal(skill_tree, "sword") {
        Ok(SkillGroupKind::Weapon(ToolKind::Sword))
    } else if str_equal(skill_tree, "axe") {
        Ok(SkillGroupKind::Weapon(ToolKind::Axe))
    } else if str_equal(skill_tree, "hammer") {
        Ok(SkillGroupKind::Weapon(ToolKind::Hammer))
    } else if str_equal(skill_tree, "bow") {
        Ok(SkillGroupKind::Weapon(ToolKind::Bow))
    } else if str_equal(skill_tree, "staff") {
        Ok(SkillGroupKind::Weapon(ToolKind::Staff))
    } else if str_equal(skill_tree, "sceptre") {
        Ok(SkillGroupKind::Weapon(ToolKind::Sceptre))
    } else if str_equal(skill_tree, "mining") {
        Ok(SkillGroupKind::Weapon(ToolKind::Pick))
    } else {
        Err(error_with("command-invalid-skill-group", "group", skill_tree))
    }
}

/// Refuses a command run through `/sudo`, that is, on someone else.
pub fn no_sudo(client: u64, target: u64) -> (res: Result<(), CommandError>)
    ensures
        client == target ==> res is Ok,
        client != target ==> (res matches Err(e) && e.key@ == "command-no-sudo"@ && e.arg is None),
{
    if client == target {
        Ok(())
    } else {
        Err(CommandError { key: String::from_str("command-no-sudo"), arg: None })
    }
}

/// Why a client left.
#[derive(Clone, Copy, PartialEq, Eq, Structural, Debug)]
pub enum DisconnectReason {
    Timeout,
    NetworkError,
    NewerLogin,
    Kicked,
    ClientRequested,
}

pub open spec fn reason_text(reason: DisconnectReason) -> Seq<char> {
    match reason {
        DisconnectReason::Timeout => "timeout"@,
        DisconnectReason::NetworkError => "network_error"@,
        DisconnectReason::NewerLogin => "newer_login"@,
        DisconnectReason::Kicked => "kicked"@,
        DisconnectReason::ClientRequested => "client_requested"@,
    }
}

/// The label under which a disconnection is counted.
pub fn get_reason_str(reason: &DisconnectReason) -> (text: &'static str)
    ensures
        text@ == reason_text(*reason),
{
    match reason {
        DisconnectReason::Timeout => "timeout",
        DisconnectReason::NetworkError => "network_error",
        DisconnectReason::NewerLogin => "newer_login",
        DisconnectReason::Kicked => "kicked",
        DisconnectReason::ClientRequested => "client_requested",
    }
}

/// Runs a chat command for a client whose temporary role is `actual`: a
/// command that needs a higher role (no role is lowest) is refused with a
/// no-permission error naming the command's keyword, and its handler does
/// not run; otherwise the handler runs and its result is handed back.
pub fn do_command<R, F: FnOnce() -> R>(
    needed: Option<AdminRole>,
    actual: Option<AdminRole>,
    keyword: &str,
    handler: F,
) -> (res: Result<R, CommandError>)
    requires
        role_rank(needed) <= role_rank(actual) ==> call_requires(handler, ()),
    ensures
        role_rank(needed) > role_rank(actual) ==> (res matches Err(e) && is_error_with(
            e,
            "command-no-permission"@,
            "command_name"@,
            keyword@,
        )),
        role_rank(needed) <= role_rank(actual) ==> (res matches Ok(r) && call_ensures(handler, (), r)),
{
    if !has_command_permission(needed, actual) {
        return Err(error_with("command-no-permission", "command_name", keyword));
    }
    Ok(handler())
}

} // verus!
