use vstd::prelude::*;
use vstd::string::StrSliceExecFns;

verus! {

/// Administrative roles, the lower first.
#[derive(Clone, Copy, PartialEq, Eq, Structural, Debug)]
pub enum AdminRole {
    Moderator,
    Admin,
}

/// The rank of an optional role: no role lowest, then moderator, then
/// administrator.
pub open spec fn role_rank(role: Option<AdminRole>) -> int {
    match role {
        None => 0,
        Some(AdminRole::Moderator) => 1,
        Some(AdminRole::Admin) => 2,
    }
}

/// Ranks an optional role.
pub fn rank_of(role: Option<AdminRole>) -> (rank: u8)
    ensures
        rank == role_rank(role),
{
    match role {
        None => 0,
        Some(AdminRole::Moderator) => 1,
        Some(AdminRole::Admin) => 2,
    }
}

/// Whether an entity with role `actual` may run a command that needs
/// `needed`: its role must be at least as high.
pub fn has_command_permission(needed: Option<AdminRole>, actual: Option<AdminRole>) -> (allowed: bool)
    ensures
        allowed == (role_rank(needed) <= role_rank(actual)),
{
    rank_of(needed) <= rank_of(actual)
}

/// Whether a client stands above a player for an administrative action on
/// it.  Any permanent role (the one in the settings) outranks any
/// temporary role; where the permanent roles match, the temporary roles
/// decide.
pub open spec fn is_above_role(
    client_perm: Option<AdminRole>,
    client_temp: Option<AdminRole>,
    player_perm: Option<AdminRole>,
    player_temp: Option<AdminRole>,
) -> bool {
    role_rank(client_perm) > role_rank(player_perm) || (role_rank(client_perm) == role_rank(player_perm)
        && role_rank(client_temp) > role_rank(player_temp))
}

/// Checks that a client stands above a player; `reason` is the error
/// returned where it does not.
pub fn verify_above_role<E>(
    client_perm: Option<AdminRole>,
    client_temp: Option<AdminRole>,
    player_perm: Option<AdminRole>,
    player_temp: Option<AdminRole>,
    reason: E,
) -> (res: Result<(), E>)
    ensures
        is_above_role(client_perm, client_temp, player_perm, player_temp) ==> res is Ok,
        !is_above_role(client_perm, client_temp, player_perm, player_temp) ==> res == Err::<(), E>(reason),
{
    let cp = rank_of(client_perm);
    let pp = rank_of(player_perm);
    if cp > pp || cp == pp && rank_of(client_temp) > rank_of(player_temp) {
        Ok(())
    } else {
        Err(reason)
    }
}

/// What recording a role for a player does to the list of administrators.
#[derive(Clone, Copy, PartialEq, Eq, Structural, Debug)]
pub enum AdminChange {
    /// The player was no administrator and now has the role.
    Added,
    /// The player already had exactly this role: no edit is reported.
    Unchanged,
    /// The player had another role, given here, which is replaced.
    Changed(AdminRole),
}

/// Classifies the recording of role `new` for a player whose previous
/// entry had role `old`, if any.
pub fn admin_change(old: Option<AdminRole>, new: AdminRole) -> (change: AdminChange)
    ensures
        old is None ==> change == AdminChange::Added,
        old == Some(new) ==> change == AdminChange::Unchanged,
        old matches Some(r) ==> (r != new ==> change == AdminChange::Changed(r)),
{
    match old {
        None => AdminChange::Added,
        Some(r) => {
            if r == new {
                AdminChange::Unchanged
            } else {
                AdminChange::Changed(r)
            }
        },
    }
}

/// An error from editing a settings file: writing it to disk failed (the
/// edit still holds in memory), or the edit broke the file's integrity.
pub enum SettingError<E, I> {
    Io(E),
    Integrity(I),
}

/// Keeps `data` where an edit took effect, also when only writing it to
/// disk failed; drops it where there was no edit or the edit broke
/// integrity.
pub fn handle_edit<T, E, I>(data: T, result: Option<(String, Result<(), SettingError<E, I>>)>) -> (kept: Option<T>)
    ensures
        (match result {
            None => kept is None,
            Some((_, Ok(()))) => kept == Some(data),
            Some((_, Err(SettingError::Io(_)))) => kept == Some(data),
            Some((_, Err(SettingError::Integrity(_)))) => kept is None,
        }),
{
    match result {
        None => None,
        Some((_info, res)) => match res {
            Ok(()) => Some(data),
            Err(SettingError::Io(_)) => Some(data),
            Err(SettingError::Integrity(_)) => None,
        },
    }
}

/// How an edit of a settings file made through a command is reported.
#[derive(Clone, Copy, PartialEq, Eq, Structural, Debug)]
pub enum EditFeedback {
    /// The edit had no effect: the command fails with its own message.
    NoEffect,
    /// The edit took effect: the client is told so and the command succeeds.
    Done,
    /// The edit took effect but the file could not be written: the client
    /// is told both, and the command succeeds.
    WriteFailed,
    /// The edit broke the file's integrity: the command fails.
    IntegrityFailed,
}

/// Classifies the result of a settings edit made through a command.
pub fn edit_setting_feedback<E, I>(result: &Option<(String, Result<(), SettingError<E, I>>)>) -> (feedback: EditFeedback)
    ensures
        (match result {
            None => feedback == EditFeedback::NoEffect,
            Some((_, Ok(()))) => feedback == EditFeedback::Done,
            Some((_, Err(SettingError::Io(_)))) => feedback == EditFeedback::WriteFailed,
            Some((_, Err(SettingError::Integrity(_)))) => feedback == EditFeedback::IntegrityFailed,
        }),
{
    match result {
        None => EditFeedback::NoEffect,
        Some((_, res)) => match res {
            Ok(()) => EditFeedback::Done,
            Err(SettingError::Io(_)) => EditFeedback::WriteFailed,
            Err(SettingError::Integrity(_)) => EditFeedback::IntegrityFailed,
        },
    }
}

/// How all clients are to be disconnected.
#[derive(Clone, Copy, PartialEq, Eq, Structural, Debug)]
pub enum DisconnectType {
    WithPersistence,
    WithoutPersistence,
}

/// Which disconnection of all clients is due: one requested because
/// persistence failed (which must not save) takes precedence over one
/// requested by an administrator.
pub fn get_disconnect_all_clients_requested(
    without_persistence_requested: bool,
    with_persistence_requested: bool,
) -> (disconnect: Option<DisconnectType>)
    ensures
        without_persistence_requested ==> disconnect == Some(DisconnectType::WithoutPersistence),
        !without_persistence_requested && with_persistence_requested ==> disconnect == Some(
            DisconnectType::WithPersistence,
        ),
        !without_persistence_requested && !with_persistence_requested ==> disconnect is None,
{
    if without_persistence_requested {
        return Some(DisconnectType::WithoutPersistence);
    }
    if with_persistence_requested {
        return Some(DisconnectType::WithPersistence);
    }
    None
}

/// The state of an event bus after all handlers ran once.
#[derive(Clone, Copy, PartialEq, Eq, Structural, Debug)]
pub enum HandlerCheck {
    /// No handler took the events.
    NotConsumed,
    /// Exactly one handler did.
    Handled,
    /// Several handlers did; only the first gets the events.
    MultipleHandlers,
}

/// Classifies an event bus by how many handlers received from it.
pub fn check_event_handler(recv_count: u64) -> (check: HandlerCheck)
    ensures
        recv_count == 0 ==> check == HandlerCheck::NotConsumed,
        recv_count == 1 ==> check == HandlerCheck::Handled,
        recv_count > 1 ==> check == HandlerCheck::MultipleHandlers,
{
    if recv_count == 0 {
        HandlerCheck::NotConsumed
    } else if recv_count == 1 {
        HandlerCheck::Handled
    } else {
        HandlerCheck::MultipleHandlers
    }
}


/// A ban list edit that failed: it had no effect, or editing the settings
/// file failed.
pub enum BanOperationError<E, I> {
    NoEffect,
    EditFailed(SettingError<E, I>),
}

/// Classifies the result of a ban list edit made through a command.
pub fn edit_banlist_feedback<E, I>(result: &Result<(), BanOperationError<E, I>>) -> (feedback: EditFeedback)
    ensures
        (match result {
            Ok(()) => feedback == EditFeedback::Done,
            Err(BanOperationError::NoEffect) => feedback == EditFeedback::NoEffect,
            Err(BanOperationError::EditFailed(SettingError::Io(_))) => feedback == EditFeedback::WriteFailed,
            Err(BanOperationError::EditFailed(SettingError::Integrity(_))) => feedback
                == EditFeedback::IntegrityFailed,
        }),
{
    match result {
        Ok(()) => EditFeedback::Done,
        Err(BanOperationError::NoEffect) => EditFeedback::NoEffect,
        Err(BanOperationError::EditFailed(SettingError::Io(_))) => EditFeedback::WriteFailed,
        Err(BanOperationError::EditFailed(SettingError::Integrity(_))) => EditFeedback::IntegrityFailed,
    }
}

/// A character with ASCII capitals made lower case.
pub open spec fn ascii_lower(c: char) -> char {
    if 'A' <= c && c <= 'Z' {
        ((c as u32) + 32) as char
    } else {
        c
    }
}

/// Whether `text`, with ASCII capitals made lower case, is `word`.
pub open spec fn matches_lowered(text: Seq<char>, word: Seq<char>) -> bool {
    text.len() == word.len() && forall|i: int| 0 <= i < text.len() ==> ascii_lower(#[trigger] text[i]) == word[i]
}

/// Compares `text`, ASCII capitals made lower case, with `word`.
fn equals_lowered(text: &str, word: &str) -> (equal: bool)
    ensures
        equal == matches_lowered(text@, word@),
{
    let n = text.unicode_len();
    if n != word.unicode_len() {
        return false;
    }
    let mut i: usize = 0;
    while i < n
        invariant
            i <= n,
            n == text@.len(),
            n == word@.len(),
            forall|j: int| 0 <= j < i ==> ascii_lower(#[trigger] text@[j]) == word@[j],
        decreases n - i,
    {
        let c = text.get_char(i);
        let lowered = if 'A' <= c && c <= 'Z' {
            ((c as u32) + 32) as u8 as char
        } else {
            c
        };
        assert(lowered == ascii_lower(c)) by {
            if 'A' <= c && c <= 'Z' {
                assert(((c as u32) + 32) as u8 as char == ((c as u32) + 32) as char);
            }
        }
        if lowered != word.get_char(i) {
            return false;
        }
        i = i + 1;
    }
    true
}

/// Reads a role argument, whatever its ASCII case.
pub fn parse_admin_role(text: &str) -> (role: Option<AdminRole>)
    ensures
        matches_lowered(text@, "admin"@) ==> role == Some(AdminRole::Admin),
        !matches_lowered(text@, "admin"@) && matches_lowered(text@, "moderator"@) ==> role == Some(
            AdminRole::Moderator,
        ),
        !matches_lowered(text@, "admin"@) && !matches_lowered(text@, "moderator"@) ==> role is None,
{
    if equals_lowered(text, "admin") {
        Some(AdminRole::Admin)
    } else if equals_lowered(text, "moderator") {
        Some(AdminRole::Moderator)
    } else {
        None
    }
}

/// How `/adminify` changes a player's temporary role.
#[derive(Clone, Copy, PartialEq, Eq, Structural, Debug)]
pub enum AdminifyChange {
    /// The player's role, given here, is taken away.
    Removed(AdminRole),
    /// The player gets a lower role than before.
    Downgraded,
    /// The player gets a higher role than before, or a first one.
    Upgraded,
}

/// Why `/adminify` refuses.
#[derive(Clone, Copy, PartialEq, Eq, Structural, Debug)]
pub enum AdminifyError {
    /// The requested role is above the requester's own permanent role.
    HigherThanOwn,
    /// Removing the role of a player that has none.
    AlreadyHasNoRole,
    /// Giving a player the role it already has.
    AlreadyHasRole,
}

pub open spec fn adminify_spec(
    client_real_role: AdminRole,
    current: Option<AdminRole>,
    desired: Option<AdminRole>,
) -> Result<AdminifyChange, AdminifyError> {
    if role_rank(desired) > role_rank(Some(client_real_role)) {
        Err(AdminifyError::HigherThanOwn)
    } else {
        match (current, desired) {
            (None, None) => Err(AdminifyError::AlreadyHasNoRole),
            (Some(old), None) => Ok(AdminifyChange::Removed(old)),
            (Some(old), Some(new)) => if old == new {
                Err(AdminifyError::AlreadyHasRole)
            } else if role_rank(Some(old)) > role_rank(Some(new)) {
                Ok(AdminifyChange::Downgraded)
            } else {
                Ok(AdminifyChange::Upgraded)
            },
            (None, Some(_)) => Ok(AdminifyChange::Upgraded),
        }
    }
}

/// Decides how `/adminify` changes a player's temporary role from
/// `current` to `desired`, given the requester's permanent role: no one
/// grants a role above their own.
pub fn adminify_change(client_real_role: AdminRole, current: Option<AdminRole>, desired: Option<AdminRole>) -> (res: Result<
    AdminifyChange,
    AdminifyError,
>)
    ensures
        res == adminify_spec(client_real_role, current, desired),
{
    if rank_of(desired) > rank_of(Some(client_real_role)) {
        return Err(AdminifyError::HigherThanOwn);
    }
    match (current, desired) {
        (None, None) => Err(AdminifyError::AlreadyHasNoRole),
        (Some(old), None) => Ok(AdminifyChange::Removed(old)),
        (Some(old), Some(new)) => {
            if old == new {
                Err(AdminifyError::AlreadyHasRole)
            } else if rank_of(Some(old)) > rank_of(Some(new)) {
                Ok(AdminifyChange::Downgraded)
            } else {
                Ok(AdminifyChange::Upgraded)
            }
        },
        (None, Some(_)) => Ok(AdminifyChange::Upgraded),
    }
}

/// What `/whitelist` is asked to do.
#[derive(Clone, Copy, PartialEq, Eq, Structural, Debug)]
pub enum WhitelistAction {
    Add,
    Remove,
}

/// Reads the action of `/whitelist`, whatever its ASCII case.
pub fn parse_whitelist_action(text: &str) -> (action: Option<WhitelistAction>)
    ensures
        matches_lowered(text@, "add"@) ==> action == Some(WhitelistAction::Add),
        !matches_lowered(text@, "add"@) && matches_lowered(text@, "remove"@) ==> action == Some(
            WhitelistAction::Remove,
        ),
        !matches_lowered(text@, "add"@) && !matches_lowered(text@, "remove"@) ==> action is None,
{
    if equals_lowered(text, "add") {
        Some(WhitelistAction::Add)
    } else if equals_lowered(text, "remove") {
        Some(WhitelistAction::Remove)
    } else {
        None
    }
}

/// What the requester of a whitelist removal is told.
#[derive(Clone, Copy, PartialEq, Eq, Structural, Debug)]
pub enum WhitelistRemoval {
    /// The player was taken off the whitelist.
    Removed,
    /// The player was put on the whitelist by someone of a higher role.
    PermissionDenied,
    /// The player was not on the whitelist.
    Unlisted,
}

/// The answer to removing a player from the whitelist, given the role of
/// whoever whitelisted it (`None` where it is not whitelisted) and the
/// requester's permanent role: a requester may undo only what someone of
/// its own role or lower did.
pub fn whitelist_removal(record: Option<Option<AdminRole>>, client_role: AdminRole) -> (answer: WhitelistRemoval)
    ensures
        answer == (match record {
            None => WhitelistRemoval::Unlisted,
            Some(by) => if role_rank(by) <= role_rank(Some(client_role)) {
                WhitelistRemoval::Removed
            } else {
                WhitelistRemoval::PermissionDenied
            },
        }),
{
    match record {
        None => WhitelistRemoval::Unlisted,
        Some(by) => {
            if rank_of(by) <= rank_of(Some(client_role)) {
                WhitelistRemoval::Removed
            } else {
                WhitelistRemoval::PermissionDenied
            }
        },
    }
}

} // verus!
