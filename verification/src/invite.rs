use vstd::prelude::*;

verus! {

/// An entity of the game world, as its index and generation packed in one
/// integer.
pub type EntityId = u64;

/// What an invite asks for.
#[derive(Clone, Copy, PartialEq, Eq, Structural, Debug)]
pub enum InviteKind {
    Group,
    Trade,
}

/// The invite an entity holds: who sent it, and for what.
#[derive(Clone, Copy, PartialEq, Eq, Structural, Debug)]
pub struct Invite {
    pub inviter: EntityId,
    pub kind: InviteKind,
}

/// An invite still waiting for an answer, as the inviter keeps it: the
/// invitee, the kind, and when it times out.
pub type PendingEntry<T> = (EntityId, InviteKind, T);

/// The position of the first pending entry for `invitee`, if any.
pub open spec fn first_entry_of<T>(pending: Seq<PendingEntry<T>>, invitee: EntityId) -> Option<int>
    decreases pending.len(),
{
    if pending.len() == 0 {
        None
    } else {
        match first_entry_of(pending.drop_last(), invitee) {
            Some(i) => Some(i),
            None => if pending.last().0 == invitee {
                Some(pending.len() - 1)
            } else {
                None
            },
        }
    }
}

/// The list after the entry at `i` is taken out and the last entry moved
/// into its place.
pub open spec fn swap_removed<T>(pending: Seq<PendingEntry<T>>, i: int) -> Seq<PendingEntry<T>> {
    pending.update(i, pending.last()).drop_last()
}

/// What answering an invite does to it and to the inviter's pending list:
/// the inviter and kind of the invite, if it was still pending, and the
/// pending list that remains (none once it is empty).
pub open spec fn answered_invite<T>(
    invitee: EntityId,
    invite: Option<Invite>,
    pending: Option<Seq<PendingEntry<T>>>,
) -> (Option<(EntityId, InviteKind)>, Option<Seq<PendingEntry<T>>>) {
    match invite {
        None => (None, pending),
        Some(inv) => match pending {
            None => (None, None),
            Some(list) => match first_entry_of(list, invitee) {
                None => (None, Some(list)),
                Some(i) => {
                    let rest = swap_removed(list, i);
                    (Some((inv.inviter, inv.kind)), if rest.len() == 0 {
                        None
                    } else {
                        Some(rest)
                    })
                },
            },
        },
    }
}

/// The entries of a pending list, if there is one.
pub open spec fn pending_view<T>(pending: Option<Vec<PendingEntry<T>>>) -> Option<Seq<PendingEntry<T>>> {
    match pending {
        Some(p) => Some(p@),
        None => None,
    }
}

/// Finds the first pending entry for `invitee`.
fn find_pending_entry<T>(pending: &Vec<PendingEntry<T>>, invitee: EntityId) -> (found: Option<usize>)
    ensures
        match first_entry_of(pending@, invitee) {
            Some(i) => found == Some(i as usize),
            None => found is None,
        },
{
    let mut i: usize = 0;
    while i < pending.len()
        invariant
            i <= pending.len(),
            first_entry_of(pending@.take(i as int), invitee) is None,
        decreases pending.len() - i,
    {
        proof {
            lemma_first_entry_prefix(pending@, invitee, i as int);
        }
        if pending[i].0 == invitee {
            return Some(i);
        }
        i = i + 1;
    }
    assert(pending@.take(pending.len() as int) =~= pending@);
    None
}

/// A found entry lies inside the list and is for the invitee.
proof fn lemma_first_entry_in_range<T>(pending: Seq<PendingEntry<T>>, invitee: EntityId)
    ensures
        first_entry_of(pending, invitee) matches Some(i) ==> 0 <= i < pending.len() && pending[i].0 == invitee,
    decreases pending.len(),
{
    if pending.len() > 0 {
        lemma_first_entry_in_range(pending.drop_last(), invitee);
    }
}

/// Extending a prefix without a match by one entry finds that entry
/// exactly when it is for the invitee.
proof fn lemma_first_entry_prefix<T>(pending: Seq<PendingEntry<T>>, invitee: EntityId, i: int)
    requires
        0 <= i < pending.len(),
        first_entry_of(pending.take(i), invitee) is None,
    ensures
        first_entry_of(pending.take(i + 1), invitee) == if pending[i].0 == invitee {
            Some(i)
        } else {
            None::<int>
        },
        pending[i].0 == invitee ==> first_entry_of(pending, invitee) == Some(i),
{
    assert(pending.take(i + 1).drop_last() =~= pending.take(i));
    if pending[i].0 == invitee {
        lemma_first_entry_extends(pending, invitee, i + 1);
    }
}

/// A match found in a prefix stays the first match of the whole list.
proof fn lemma_first_entry_extends<T>(pending: Seq<PendingEntry<T>>, invitee: EntityId, n: int)
    requires
        0 <= n <= pending.len(),
        first_entry_of(pending.take(n), invitee) is Some,
    ensures
        first_entry_of(pending, invitee) == first_entry_of(pending.take(n), invitee),
    decreases pending.len() - n,
{
    if n < pending.len() {
        assert(pending.take(n + 1).drop_last() =~= pending.take(n));
        lemma_first_entry_extends(pending, invitee, n + 1);
    } else {
        assert(pending.take(n) =~= pending);
    }
}

/// Takes the answered invite of `invitee` out of the inviter's pending
/// list.  `invite` is the invite the invitee held, already removed from it;
/// `pending` is the inviter's pending list, if it has one.  Returns the
/// inviter and kind when the invite was still pending, and the pending list
/// to keep: none where it became empty.
pub fn get_inviter_and_kind<T>(
    invitee: EntityId,
    invite: Option<Invite>,
    pending: Option<Vec<PendingEntry<T>>>,
) -> (res: (Option<(EntityId, InviteKind)>, Option<Vec<PendingEntry<T>>>))
    ensures
        res.0 == answered_invite(invitee, invite, pending_view(pending)).0,
        pending_view(res.1) == answered_invite(invitee, invite, pending_view(pending)).1,
{
    match invite {
        None => (None, pending),
        Some(inv) => match pending {
            None => (None, None),
            Some(mut list) => match find_pending_entry(&list, invitee) {
                None => (None, Some(list)),
                Some(i) => {
                    proof {
                        lemma_first_entry_in_range(list@, invitee);
                    }
                    list.swap_remove(i);
                    if list.len() == 0 {
                        (Some((inv.inviter, inv.kind)), None)
                    } else {
                        (Some((inv.inviter, inv.kind)), Some(list))
                    }
                },
            },
        },
    }
}


/// The group an inviter belongs to, as the group manager knows it.
#[derive(Clone, Copy, PartialEq, Eq, Structural, Debug)]
pub struct GroupInfo {
    pub leader: EntityId,
    pub num_members: u32,
}

/// Why a group invite is refused.
#[derive(Clone, Copy, PartialEq, Eq, Structural, Debug)]
pub enum InviteRefusal {
    /// The invitee is already in the group that the inviter leads.
    AlreadyInGroup,
    /// The group's members and the pending group invites already reach
    /// the size limit.
    GroupSizeLimit,
}

/// The number of pending invites of the given kind.
pub open spec fn pending_of_kind<T>(pending: Seq<PendingEntry<T>>, kind: InviteKind) -> int
    decreases pending.len(),
{
    if pending.len() == 0 {
        0
    } else {
        pending_of_kind(pending.drop_last(), kind) + if pending.last().1 == kind {
            1int
        } else {
            0int
        }
    }
}

/// The inviter leads the group it is in.
pub open spec fn leads_group(inviter: EntityId, inviter_group: Option<u64>, info: Option<GroupInfo>) -> bool {
    &&& inviter_group is Some
    &&& info matches Some(i) && i.leader == inviter
}

/// The decision on a group invite.  `inviter_group` and `invitee_group`
/// are the groups the two are in; `info` describes the inviter's group;
/// `pending` holds the inviter's pending invites, if any.
pub open spec fn group_invite_check<T>(
    inviter: EntityId,
    inviter_group: Option<u64>,
    info: Option<GroupInfo>,
    invitee_group: Option<u64>,
    pending: Option<Seq<PendingEntry<T>>>,
    max_group_size: u32,
) -> Result<(), InviteRefusal> {
    let leads = leads_group(inviter, inviter_group, info);
    let size: int = if leads {
        info->0.num_members as int
    } else {
        1
    };
    let pending_groups: int = match pending {
        Some(p) => pending_of_kind(p, InviteKind::Group),
        None => 0,
    };
    if leads && invitee_group == inviter_group {
        Err(InviteRefusal::AlreadyInGroup)
    } else if size + pending_groups >= max_group_size {
        Err(InviteRefusal::GroupSizeLimit)
    } else {
        Ok(())
    }
}

/// Counts the pending invites of a kind.
fn count_pending_of_kind<T>(pending: &Vec<PendingEntry<T>>, kind: InviteKind) -> (n: u64)
    ensures
        n == pending_of_kind(pending@, kind),
{
    let mut n: u64 = 0;
    let mut i: usize = 0;
    while i < pending.len()
        invariant
            i <= pending.len(),
            n == pending_of_kind(pending@.take(i as int), kind),
            n <= i,
        decreases pending.len() - i,
    {
        if pending[i].1 == kind {
            n = n + 1;
        }
        assert(pending@.take(i + 1).drop_last() =~= pending@.take(i as int));
        i = i + 1;
    }
    assert(pending@.take(pending.len() as int) =~= pending@);
    n
}

/// Whether an inviter may invite someone into its group: not someone
/// already in the group it leads, and not once its members and pending
/// group invites reach `max_group_size`.
pub fn can_invite<T>(
    inviter: EntityId,
    inviter_group: Option<u64>,
    info: Option<GroupInfo>,
    invitee_group: Option<u64>,
    pending: Option<&Vec<PendingEntry<T>>>,
    max_group_size: u32,
) -> (res: Result<(), InviteRefusal>)
    ensures
        res == group_invite_check(
            inviter,
            inviter_group,
            info,
            invitee_group,
            match pending {
                Some(p) => Some(p@),
                None => None,
            },
            max_group_size,
        ),
{
    let leads = match (inviter_group, info) {
        (Some(_), Some(i)) => i.leader == inviter,
        _ => false,
    };
    if leads && invitee_group == inviter_group {
        return Err(InviteRefusal::AlreadyInGroup);
    }
    let size: u128 = match info {
        Some(i) => if leads {
            i.num_members as u128
        } else {
            1
        },
        None => 1,
    };
    let pending_groups: u128 = match pending {
        Some(p) => count_pending_of_kind(p, InviteKind::Group) as u128,
        None => 0,
    };
    if size + pending_groups >= max_group_size as u128 {
        Err(InviteRefusal::GroupSizeLimit)
    } else {
        Ok(())
    }
}

/// What the server knows when an entity asks to invite another.
#[derive(Clone, Copy, PartialEq, Eq, Debug)]
pub struct InviteFacts {
    pub invitee_exists: bool,
    pub inviting_self: bool,
    pub within_trading_range: bool,
    /// The group check, consulted for group invites only.
    pub group_check: Result<(), InviteRefusal>,
    pub inviter_in_trade: bool,
    pub invitee_has_invite: bool,
    pub invitee_is_client: bool,
    pub inviter_has_uid: bool,
    pub invitee_is_agent: bool,
}

/// Where an invite request ends.
#[derive(Clone, Copy, PartialEq, Eq, Structural, Debug)]
pub enum InviteStep {
    TargetMissing,
    SelfInvite,
    OutOfRange,
    Refused(InviteRefusal),
    AlreadyPending,
    SendToClient,
    SendToAgent,
    NotInvitable,
}

/// The decision on an invite request, and whether the inviter's current
/// trade is declined on the way.
#[derive(Clone, Copy, PartialEq, Eq, Structural, Debug)]
pub struct InvitePlan {
    pub step: InviteStep,
    pub cancel_inviter_trade: bool,
}

/// The decision on an invite request, in the order the checks are made.
pub open spec fn invite_plan_spec(kind: InviteKind, f: InviteFacts) -> InvitePlan {
    if !f.invitee_exists {
        InvitePlan { step: InviteStep::TargetMissing, cancel_inviter_trade: false }
    } else if f.inviting_self {
        InvitePlan { step: InviteStep::SelfInvite, cancel_inviter_trade: false }
    } else if kind == InviteKind::Trade && !f.within_trading_range {
        InvitePlan { step: InviteStep::OutOfRange, cancel_inviter_trade: false }
    } else if kind == InviteKind::Group && f.group_check is Err {
        InvitePlan { step: InviteStep::Refused(f.group_check->Err_0), cancel_inviter_trade: false }
    } else {
        let cancel = kind == InviteKind::Trade && f.inviter_in_trade;
        let step = if f.invitee_has_invite {
            InviteStep::AlreadyPending
        } else if f.invitee_is_client && f.inviter_has_uid {
            InviteStep::SendToClient
        } else if f.invitee_is_agent {
            InviteStep::SendToAgent
        } else {
            InviteStep::NotInvitable
        };
        InvitePlan { step, cancel_inviter_trade: cancel }
    }
}

/// Whether the plan sends the invite (to a player or to an agent).
pub open spec fn invite_sent(plan: InvitePlan) -> bool {
    plan.step == InviteStep::SendToClient || plan.step == InviteStep::SendToAgent
}

/// The invites held after a request planned as `plan`: a sent invite is
/// given to the invitee; otherwise nothing changes.
pub open spec fn invites_after(
    invites: Map<EntityId, Invite>,
    invitee: EntityId,
    invite: Invite,
    plan: InvitePlan,
) -> Map<EntityId, Invite> {
    if invite_sent(plan) {
        invites.insert(invitee, invite)
    } else {
        invites
    }
}

/// The inviter's pending list after a request planned as `plan`: a sent
/// invite adds one entry for the invitee, with its kind and deadline.
pub open spec fn pending_after<T>(
    pending: Seq<PendingEntry<T>>,
    invitee: EntityId,
    kind: InviteKind,
    deadline: T,
    plan: InvitePlan,
) -> Seq<PendingEntry<T>> {
    if invite_sent(plan) {
        pending.push((invitee, kind, deadline))
    } else {
        pending
    }
}

/// Decides an invite request: a missing target, an invite to oneself and a
/// trade out of range are dropped; a group invite goes through
/// `can_invite`; a trade invite first declines the inviter's current
/// trade; an invitee with an invite already pending is not invited again;
/// players get the invite as a message, other agents in their inbox.
pub fn plan_invite(kind: InviteKind, facts: InviteFacts) -> (plan: InvitePlan)
    ensures
        plan == invite_plan_spec(kind, facts),
        invite_sent(plan) ==> !facts.invitee_has_invite,
{
    if !facts.invitee_exists {
        return InvitePlan { step: InviteStep::TargetMissing, cancel_inviter_trade: false };
    }
    if facts.inviting_self {
        return InvitePlan { step: InviteStep::SelfInvite, cancel_inviter_trade: false };
    }
    match kind {
        InviteKind::Trade => {
            if !facts.within_trading_range {
                return InvitePlan { step: InviteStep::OutOfRange, cancel_inviter_trade: false };
            }
        },
        InviteKind::Group => {
            if let Err(refusal) = facts.group_check {
                return InvitePlan { step: InviteStep::Refused(refusal), cancel_inviter_trade: false };
            }
        },
    }
    let cancel = match kind {
        InviteKind::Trade => facts.inviter_in_trade,
        InviteKind::Group => false,
    };
    let step = if facts.invitee_has_invite {
        InviteStep::AlreadyPending
    } else if facts.invitee_is_client && facts.inviter_has_uid {
        InviteStep::SendToClient
    } else if facts.invitee_is_agent {
        InviteStep::SendToAgent
    } else {
        InviteStep::NotInvitable
    };
    InvitePlan { step, cancel_inviter_trade: cancel }
}

/// The text the inviter is sent where an invite request stops, if any.
pub open spec fn invite_step_text(step: InviteStep) -> Option<Seq<char>> {
    match step {
        InviteStep::TargetMissing => Some("Invite failed, target does not exist."@),
        InviteStep::Refused(InviteRefusal::AlreadyInGroup) => Some(
            "Invite failed, can't invite someone already in your group"@,
        ),
        InviteStep::Refused(InviteRefusal::GroupSizeLimit) => Some(
            "Invite failed, pending invites plus current group size have reached the group size limit"@,
        ),
        InviteStep::AlreadyPending => Some("This player already has a pending invite."@),
        InviteStep::NotInvitable => Some("Can't invite, not a player or npc"@),
        _ => None,
    }
}

/// The text the inviter's client is sent where an invite request stops:
/// none for an invite to oneself, a trade out of range, or an invite sent
/// (the client is then told the invite is pending).
pub fn invite_step_message(step: InviteStep) -> (text: Option<&'static str>)
    ensures
        (match invite_step_text(step) {
            Some(t) => text matches Some(s) && s@ == t,
            None => text is None,
        }),
{
    match step {
        InviteStep::TargetMissing => Some("Invite failed, target does not exist."),
        InviteStep::Refused(InviteRefusal::AlreadyInGroup) => Some(
            "Invite failed, can't invite someone already in your group",
        ),
        InviteStep::Refused(InviteRefusal::GroupSizeLimit) => Some(
            "Invite failed, pending invites plus current group size have reached the group size limit",
        ),
        InviteStep::AlreadyPending => Some("This player already has a pending invite."),
        InviteStep::NotInvitable => Some("Can't invite, not a player or npc"),
        _ => None,
    }
}

/// What accepting an invite leads to.
#[derive(Clone, Copy, PartialEq, Eq, Structural, Debug)]
pub enum AcceptStep {
    /// The invitee joins the inviter's group.
    JoinGroup,
    /// One of the two has no uid: nothing happens.
    NoUid,
    /// The inviter began another trade since inviting: the trade fails.
    InviterBusy,
    /// A trade between the two begins.
    BeginTrade,
}

pub open spec fn accept_step_spec(kind: InviteKind, both_have_uids: bool, inviter_in_trade: bool) -> AcceptStep {
    match kind {
        InviteKind::Group => AcceptStep::JoinGroup,
        InviteKind::Trade => if !both_have_uids {
            AcceptStep::NoUid
        } else if inviter_in_trade {
            AcceptStep::InviterBusy
        } else {
            AcceptStep::BeginTrade
        },
    }
}

/// Decides what an accepted invite leads to.
pub fn handle_invite_accept(kind: InviteKind, both_have_uids: bool, inviter_in_trade: bool) -> (step: AcceptStep)
    ensures
        step == accept_step_spec(kind, both_have_uids, inviter_in_trade),
{
    match kind {
        InviteKind::Group => AcceptStep::JoinGroup,
        InviteKind::Trade => {
            if !both_have_uids {
                AcceptStep::NoUid
            } else if inviter_in_trade {
                AcceptStep::InviterBusy
            } else {
                AcceptStep::BeginTrade
            }
        },
    }
}

/// Whether answering an invite declines the invitee's current trade: only
/// an accepted trade invite does, and only when the invitee is trading.
pub fn answer_declines_invitee_trade(kind: InviteKind, accepted: bool, invitee_in_trade: bool) -> (declines: bool)
    ensures
        declines == (kind == InviteKind::Trade && accepted && invitee_in_trade),
{
    match kind {
        InviteKind::Trade => accepted && invitee_in_trade,
        InviteKind::Group => false,
    }
}

} // verus!
