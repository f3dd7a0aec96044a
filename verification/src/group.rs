use vstd::prelude::*;
use crate::commands::Alignment;
use crate::invite::EntityId;

verus! {

/// A request to change a group.
#[derive(Clone, Copy, PartialEq, Eq, Structural, Debug)]
pub enum GroupManip {
    /// Leave one's own group.
    Leave,
    /// Remove the entity with this uid from one's group.
    Kick(u64),
    /// Hand the lead of one's group to the entity with this uid.
    AssignLeader(u64),
}

/// What the server knows of the target of a kick or a lead transfer.
#[derive(Clone, Copy, PartialEq, Eq, Structural, Debug)]
pub struct GroupTarget {
    /// The target's entity, where its uid names one.
    pub entity: Option<EntityId>,
    pub alignment: Option<Alignment>,
    pub uid: Option<u64>,
    /// The leader of the target's group, where it is in a known group.
    pub group_leader: Option<EntityId>,
}

/// Where a group request ends.
#[derive(Clone, Copy, PartialEq, Eq, Structural, Debug)]
pub enum GroupManipOutcome {
    /// The requester leaves its group.
    Left,
    KickTargetMissing,
    /// Pets cannot be kicked.
    KickPet,
    KickSelf,
    /// The target is removed from the requester's group.
    Kicked,
    KickNotLeader,
    KickNotInGroup,
    TransferTargetMissing,
    /// The target leads the group now.
    LeaderAssigned,
    TransferNotLeader,
    TransferNotInGroup,
}

/// The target is a pet: owned by an entity other than itself.
pub open spec fn target_is_pet(target: GroupTarget) -> bool {
    target.alignment matches Some(Alignment::Owned(owner)) && (target.uid is None || target.uid->0 != owner)
}

/// The decision on a group request by `actor`, whose uid is `actor_uid`.
pub open spec fn group_manip_outcome(
    actor: EntityId,
    actor_uid: Option<u64>,
    manip: GroupManip,
    target: GroupTarget,
) -> GroupManipOutcome {
    match manip {
        GroupManip::Leave => GroupManipOutcome::Left,
        GroupManip::Kick(uid) => if target.entity is None {
            GroupManipOutcome::KickTargetMissing
        } else if target_is_pet(target) {
            GroupManipOutcome::KickPet
        } else if actor_uid == Some(uid) {
            GroupManipOutcome::KickSelf
        } else {
            match target.group_leader {
                Some(leader) => if leader == actor {
                    GroupManipOutcome::Kicked
                } else {
                    GroupManipOutcome::KickNotLeader
                },
                None => GroupManipOutcome::KickNotInGroup,
            }
        },
        GroupManip::AssignLeader(_) => if target.entity is None {
            GroupManipOutcome::TransferTargetMissing
        } else {
            match target.group_leader {
                Some(leader) => if leader == actor {
                    GroupManipOutcome::LeaderAssigned
                } else {
                    GroupManipOutcome::TransferNotLeader
                },
                None => GroupManipOutcome::TransferNotInGroup,
            }
        },
    }
}

/// Decides a group request: anyone may leave; only the leader of the
/// target's group may kick the target or hand it the lead; a pet cannot
/// be kicked, nor can the requester kick itself.
pub fn plan_group_manip(actor: EntityId, actor_uid: Option<u64>, manip: GroupManip, target: GroupTarget) -> (outcome: GroupManipOutcome)
    ensures
        outcome == group_manip_outcome(actor, actor_uid, manip, target),
{
    match manip {
        GroupManip::Leave => GroupManipOutcome::Left,
        GroupManip::Kick(uid) => {
            if target.entity.is_none() {
                return GroupManipOutcome::KickTargetMissing;
            }
            let is_pet = match target.alignment {
                Some(Alignment::Owned(owner)) => match target.uid {
                    Some(u) => u != owner,
                    None => true,
                },
                _ => false,
            };
            if is_pet {
                return GroupManipOutcome::KickPet;
            }
            let kicks_self = match actor_uid {
                Some(u) => u == uid,
                None => false,
            };
            if kicks_self {
                return GroupManipOutcome::KickSelf;
            }
            match target.group_leader {
                Some(leader) => {
                    if leader == actor {
                        GroupManipOutcome::Kicked
                    } else {
                        GroupManipOutcome::KickNotLeader
                    }
                },
                None => GroupManipOutcome::KickNotInGroup,
            }
        },
        GroupManip::AssignLeader(_) => {
            if target.entity.is_none() {
                return GroupManipOutcome::TransferTargetMissing;
            }
            match target.group_leader {
                Some(leader) => {
                    if leader == actor {
                        GroupManipOutcome::LeaderAssigned
                    } else {
                        GroupManipOutcome::TransferNotLeader
                    }
                },
                None => GroupManipOutcome::TransferNotInGroup,
            }
        },
    }
}

pub open spec fn requester_text(outcome: GroupManipOutcome) -> Option<Seq<char>> {
    match outcome {
        GroupManipOutcome::Left => None,
        GroupManipOutcome::KickTargetMissing => Some("Kick failed, target does not exist."@),
        GroupManipOutcome::KickPet => Some("Kick failed, you can't kick pets."@),
        GroupManipOutcome::KickSelf => Some("Kick failed, you can't kick yourself."@),
        GroupManipOutcome::Kicked => Some("Player kicked."@),
        GroupManipOutcome::KickNotLeader => Some("Kick failed: You are not the leader of the target's group."@),
        GroupManipOutcome::KickNotInGroup => Some("Kick failed: Your target is not in a group."@),
        GroupManipOutcome::TransferTargetMissing => Some("Leadership transfer failed, target does not exist"@),
        GroupManipOutcome::LeaderAssigned => Some("You are no longer the group leader."@),
        GroupManipOutcome::TransferNotLeader => Some(
            "Transfer failed: You are not the leader of the target's group."@,
        ),
        GroupManipOutcome::TransferNotInGroup => Some("Transfer failed: Your target is not in a group."@),
    }
}

/// The message the requester receives.
pub fn requester_message(outcome: GroupManipOutcome) -> (text: Option<&'static str>)
    ensures
        match requester_text(outcome) {
            Some(t) => text matches Some(s) && s@ == t,
            None => text is None,
        },
{
    match outcome {
        GroupManipOutcome::Left => None,
        GroupManipOutcome::KickTargetMissing => Some("Kick failed, target does not exist."),
        GroupManipOutcome::KickPet => Some("Kick failed, you can't kick pets."),
        GroupManipOutcome::KickSelf => Some("Kick failed, you can't kick yourself."),
        GroupManipOutcome::Kicked => Some("Player kicked."),
        GroupManipOutcome::KickNotLeader => Some("Kick failed: You are not the leader of the target's group."),
        GroupManipOutcome::KickNotInGroup => Some("Kick failed: Your target is not in a group."),
        GroupManipOutcome::TransferTargetMissing => Some("Leadership transfer failed, target does not exist"),
        GroupManipOutcome::LeaderAssigned => Some("You are no longer the group leader."),
        GroupManipOutcome::TransferNotLeader => Some(
            "Transfer failed: You are not the leader of the target's group.",
        ),
        GroupManipOutcome::TransferNotInGroup => Some("Transfer failed: Your target is not in a group."),
    }
}

pub open spec fn target_text(outcome: GroupManipOutcome) -> Option<Seq<char>> {
    match outcome {
        GroupManipOutcome::Kicked => Some("You were removed from the group."@),
        GroupManipOutcome::LeaderAssigned => Some("You are the group leader now."@),
        _ => None,
    }
}

/// The message the target receives.
pub fn target_message(outcome: GroupManipOutcome) -> (text: Option<&'static str>)
    ensures
        match target_text(outcome) {
            Some(t) => text matches Some(s) && s@ == t,
            None => text is None,
        },
{
    match outcome {
        GroupManipOutcome::Kicked => Some("You were removed from the group."),
        GroupManipOutcome::LeaderAssigned => Some("You are the group leader now."),
        _ => None,
    }
}

} // verus!
