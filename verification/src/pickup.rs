use vstd::prelude::*;
use crate::invite::EntityId;

verus! {

/// What an inventory took of an item offered to it.
#[derive(Clone, Copy, PartialEq, Eq, Structural, Debug)]
pub enum Stow {
    /// The whole item went in, or was equipped.
    All,
    /// Only this many of the stack went in.
    Part(u32),
    /// Nothing went in.
    Nothing,
}

/// The inventory update the collecting client is sent.
#[derive(Clone, Copy, PartialEq, Eq, Structural, Debug)]
pub enum CollectUpdate {
    /// This many of the item were collected.
    Collected(u32),
    /// The inventory was full.
    InventoryFull,
}

/// What becomes of the item entity that lay in the world.
#[derive(Clone, Copy, PartialEq, Eq, Structural, Debug)]
pub enum LeftInWorld {
    /// Nothing is left: the entity is deleted.
    Deleted,
    /// The part of the stack that was never offered stays.
    Remainder,
    /// What was not taken is put back, merged with the remainder if any.
    PutBack,
}

/// Why a pickup is not attempted.
#[derive(Clone, Copy, PartialEq, Eq, Structural, Debug)]
pub enum PickupRefusal {
    /// The uid names no entity any more.
    ItemEntityGone,
    /// The item is out of reach.
    OutOfRange,
    /// The loot belongs to someone else for now; the client is told so.
    LootOwned,
    /// The item component was already taken.
    ItemGone,
}

/// The checks before an item is picked up, in the order they are made.
/// `loot_owner_allows` is `None` where the item has no loot owner.
pub fn check_pickup(
    item_entity_found: bool,
    within_range: bool,
    loot_owner_allows: Option<bool>,
    item_present: bool,
) -> (checked: Result<(), PickupRefusal>)
    ensures
        checked == (if !item_entity_found {
            Err(PickupRefusal::ItemEntityGone)
        } else if !within_range {
            Err(PickupRefusal::OutOfRange)
        } else if loot_owner_allows == Some(false) {
            Err(PickupRefusal::LootOwned)
        } else if !item_present {
            Err(PickupRefusal::ItemGone)
        } else {
            Ok(())
        }),
{
    if !item_entity_found {
        return Err(PickupRefusal::ItemEntityGone);
    }
    if !within_range {
        return Err(PickupRefusal::OutOfRange);
    }
    if let Some(false) = loot_owner_allows {
        return Err(PickupRefusal::LootOwned);
    }
    if !item_present {
        return Err(PickupRefusal::ItemGone);
    }
    Ok(())
}

/// The update sent for an item of `amount` offered to an inventory.
pub open spec fn stow_update(stow: Stow, amount: u32) -> CollectUpdate {
    match stow {
        Stow::All => CollectUpdate::Collected(amount),
        Stow::Part(n) => CollectUpdate::Collected(n),
        Stow::Nothing => CollectUpdate::InventoryFull,
    }
}

/// The result of picking up an item entity.
#[derive(Clone, Copy, PartialEq, Eq, Structural, Debug)]
pub struct PickupOutcome {
    pub update: CollectUpdate,
    pub left: LeftInWorld,
    /// Whether the group of the picker hears of the loot.
    pub announce: bool,
}

/// What a pickup of `amount` of an item comes to, given what the
/// inventory took, whether part of the stack was held back, and whether
/// the picker is in a group.
pub fn pickup_outcome(stow: Stow, amount: u32, has_remainder: bool, in_group: bool) -> (outcome: PickupOutcome)
    ensures
        outcome.update == stow_update(stow, amount),
        outcome.left == (match stow {
            Stow::All => if has_remainder {
                LeftInWorld::Remainder
            } else {
                LeftInWorld::Deleted
            },
            _ => LeftInWorld::PutBack,
        }),
        outcome.announce == (in_group && stow != Stow::Nothing),
{
    match stow {
        Stow::All => PickupOutcome {
            update: CollectUpdate::Collected(amount),
            left: if has_remainder {
                LeftInWorld::Remainder
            } else {
                LeftInWorld::Deleted
            },
            announce: in_group,
        },
        Stow::Part(n) => PickupOutcome {
            update: CollectUpdate::Collected(n),
            left: LeftInWorld::PutBack,
            announce: in_group,
        },
        Stow::Nothing => PickupOutcome {
            update: CollectUpdate::InventoryFull,
            left: LeftInWorld::PutBack,
            announce: false,
        },
    }
}

/// The amounts announced as collected for the items reclaimed from a
/// block, in order: every item that went in wholly or in part.
pub open spec fn collected_amounts(stows: Seq<(Stow, u32)>) -> Seq<u32>
    decreases stows.len(),
{
    if stows.len() == 0 {
        Seq::empty()
    } else {
        let rest = collected_amounts(stows.drop_last());
        match stows.last().0 {
            Stow::All => rest.push(stows.last().1),
            Stow::Part(n) => rest.push(n),
            Stow::Nothing => rest,
        }
    }
}

/// How many of the reclaimed items did not wholly fit, and are dropped
/// at the block.
pub open spec fn dropped_count(stows: Seq<(Stow, u32)>) -> nat
    decreases stows.len(),
{
    if stows.len() == 0 {
        0
    } else {
        dropped_count(stows.drop_last()) + if stows.last().0 == Stow::All {
            0nat
        } else {
            1nat
        }
    }
}

/// What collecting a block's items comes to.
pub struct CollectReport {
    /// The amount of each item announced as collected, in order.
    pub collected: Vec<u32>,
    /// How many leftover items are dropped at the block.
    pub dropped: usize,
    /// Whether the client is told that the inventory was full.
    pub block_failed: bool,
}

proof fn lemma_dropped_bounded(stows: Seq<(Stow, u32)>)
    ensures
        dropped_count(stows) <= stows.len(),
    decreases stows.len(),
{
    if stows.len() > 0 {
        lemma_dropped_bounded(stows.drop_last());
    }
}

/// Sums up, for each item reclaimed from a block with the amount that it
/// held, what the inventory took of it.
pub fn collect_report(stows: &Vec<(Stow, u32)>) -> (report: CollectReport)
    ensures
        report.collected@ == collected_amounts(stows@),
        report.dropped == dropped_count(stows@),
        report.block_failed == (dropped_count(stows@) > 0),
{
    let mut collected: Vec<u32> = Vec::new();
    let mut dropped: usize = 0;
    let mut i: usize = 0;
    while i < stows.len()
        invariant
            i <= stows.len(),
            collected@ == collected_amounts(stows@.take(i as int)),
            dropped == dropped_count(stows@.take(i as int)),
        decreases stows.len() - i,
    {
        let (stow, amount) = stows[i];
        proof {
            assert(stows@.take(i as int + 1).drop_last() =~= stows@.take(i as int));
            lemma_dropped_bounded(stows@.take(i as int));
        }
        match stow {
            Stow::All => collected.push(amount),
            Stow::Part(n) => {
                collected.push(n);
                dropped = dropped + 1;
            },
            Stow::Nothing => {
                dropped = dropped + 1;
            },
        }
        i = i + 1;
    }
    proof {
        assert(stows@.take(stows@.len() as int) =~= stows@);
    }
    CollectReport { collected, dropped, block_failed: dropped > 0 }
}

/// The members of a group that hear of loot one of them collected: all
/// members with a client but the collector itself.
pub open spec fn loot_recipients_of(picker: EntityId, members: Seq<(EntityId, bool)>) -> Seq<EntityId>
    decreases members.len(),
{
    if members.len() == 0 {
        Seq::empty()
    } else {
        let rest = loot_recipients_of(picker, members.drop_last());
        let (e, has_client) = members.last();
        if e != picker && has_client {
            rest.push(e)
        } else {
            rest
        }
    }
}

/// Who is told of collected loot: nobody where the collector has no uid,
/// else every other member of its group that has a client, in the order
/// of `members`.
pub fn loot_recipients(picker: EntityId, picker_has_uid: bool, members: &Vec<(EntityId, bool)>) -> (recipients: Vec<EntityId>)
    ensures
        recipients@ == (if picker_has_uid {
            loot_recipients_of(picker, members@)
        } else {
            Seq::empty()
        }),
{
    let mut recipients: Vec<EntityId> = Vec::new();
    if !picker_has_uid {
        return recipients;
    }
    let mut i: usize = 0;
    while i < members.len()
        invariant
            i <= members.len(),
            recipients@ == loot_recipients_of(picker, members@.take(i as int)),
        decreases members.len() - i,
    {
        let (e, has_client) = members[i];
        proof {
            assert(members@.take(i as int + 1).drop_last() =~= members@.take(i as int));
        }
        if e != picker && has_client {
            recipients.push(e);
        }
        i = i + 1;
    }
    proof {
        assert(members@.take(members@.len() as int) =~= members@);
    }
    recipients
}

/// How many pets one entity may own at once.
pub const MAX_PETS: usize = 3;

/// An entity near someone who uses a collar.
#[derive(Clone, Copy, PartialEq, Eq, Structural, Debug)]
pub struct TameCandidate {
    pub entity: EntityId,
    /// Whether it is wild and of a tameable body.
    pub tameable: bool,
    /// Whether it is within reach of the collar.
    pub within_reach: bool,
    /// Its distance to the user, in the units by which candidates are
    /// ordered.
    pub distance_key: i32,
}

pub open spec fn eligible(c: TameCandidate) -> bool {
    c.tameable && c.within_reach
}

/// Candidate `i` is the nearest eligible one, and the first of those that
/// are nearest.
pub open spec fn is_first_nearest(cs: Seq<TameCandidate>, i: int) -> bool {
    &&& 0 <= i < cs.len()
    &&& eligible(cs[i])
    &&& forall|j: int| 0 <= j < cs.len() && eligible(#[trigger] cs[j]) ==> cs[i].distance_key <= cs[j].distance_key
    &&& forall|j: int| 0 <= j < i && eligible(#[trigger] cs[j]) ==> cs[j].distance_key > cs[i].distance_key
}

/// The entity a collar tames: none where the user already owns the most
/// pets allowed or has no position, else the nearest eligible candidate
/// (the first of the nearest), if any.  Where none is tamed, the collar
/// goes back into the inventory.
pub fn collar_target(pet_count: usize, user_has_position: bool, candidates: &Vec<TameCandidate>) -> (target: Option<EntityId>)
    ensures
        (match target {
            Some(e) => pet_count < MAX_PETS && user_has_position && exists|i: int|
                is_first_nearest(candidates@, i) && candidates@[i].entity == e,
            None => pet_count >= MAX_PETS || !user_has_position || forall|i: int|
                0 <= i < candidates@.len() ==> !eligible(#[trigger] candidates@[i]),
        }),
{
    if !user_has_position || pet_count >= MAX_PETS {
        return None;
    }
    let mut best: Option<usize> = None;
    let mut i: usize = 0;
    while i < candidates.len()
        invariant
            i <= candidates.len(),
            (match best {
                Some(b) => b < i && is_first_nearest(candidates@.take(i as int), b as int),
                None => forall|j: int| 0 <= j < i ==> !eligible(#[trigger] candidates@[j]),
            }),
        decreases candidates.len() - i,
    {
        let c = candidates[i];
        let ghost prefix = candidates@.take(i as int);
        let ghost next = candidates@.take(i as int + 1);
        proof {
            assert forall|j: int| 0 <= j < i implies #[trigger] next[j] == prefix[j] by {}
            assert(next[i as int] == c);
        }
        if c.tameable && c.within_reach {
            match best {
                Some(b) => {
                    if c.distance_key < candidates[b].distance_key {
                        best = Some(i);
                        proof {
                            assert forall|j: int| 0 <= j < next.len() && eligible(#[trigger] next[j]) implies next[i as int].distance_key
                                <= next[j].distance_key by {
                                if j < i {
                                    assert(prefix[j] == next[j]);
                                }
                            }
                        }
                    } else {
                        proof {
                            assert(next[b as int] == prefix[b as int]);
                            assert forall|j: int| 0 <= j < next.len() && eligible(#[trigger] next[j]) implies next[b as int].distance_key
                                <= next[j].distance_key by {
                                if j < i {
                                    assert(prefix[j] == next[j]);
                                }
                            }
                            assert forall|j: int| 0 <= j < b && eligible(#[trigger] next[j]) implies next[j].distance_key
                                > next[b as int].distance_key by {
                                assert(prefix[j] == next[j]);
                            }
                        }
                    }
                },
                None => {
                    best = Some(i);
                    proof {
                        assert forall|j: int| 0 <= j < next.len() && eligible(#[trigger] next[j]) implies next[i as int].distance_key
                            <= next[j].distance_key by {
                            if j < i {
                                assert(candidates@[j] == next[j]);
                            }
                        }
                        assert forall|j: int| 0 <= j < i && eligible(#[trigger] next[j]) implies next[j].distance_key
                            > next[i as int].distance_key by {
                            assert(candidates@[j] == next[j]);
                        }
                    }
                },
            }
        } else {
            proof {
                if let Some(b) = best {
                    assert(next[b as int] == prefix[b as int]);
                    assert forall|j: int| 0 <= j < next.len() && eligible(#[trigger] next[j]) implies next[b as int].distance_key
                        <= next[j].distance_key by {
                        if j < i {
                            assert(prefix[j] == next[j]);
                        }
                    }
                    assert forall|j: int| 0 <= j < b && eligible(#[trigger] next[j]) implies next[j].distance_key
                        > next[b as int].distance_key by {
                        assert(prefix[j] == next[j]);
                    }
                }
            }
        }
        i = i + 1;
    }
    proof {
        assert(candidates@.take(candidates@.len() as int) =~= candidates@);
    }
    match best {
        Some(b) => Some(candidates[b].entity),
        None => None,
    }
}

} // verus!
