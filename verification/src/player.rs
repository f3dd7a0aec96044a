use vstd::prelude::*;
use crate::battle_mode::{BattleMode, BattleModeBuffer, BattleModeSave};
use crate::commands::Alignment;

verus! {

/// What a client's entity is doing in the world.
#[derive(Clone, Copy, PartialEq, Eq, Structural, Debug)]
pub enum PresenceKind {
    LoadingCharacter,
    Spectator,
    Possessor,
    Character,
}

/// Why a possession does not happen.
#[derive(Clone, Copy, PartialEq, Eq, Structural, Debug)]
pub enum PossessRefusal {
    /// One of the two entities no longer exists.
    EntityGone,
    /// The target is another player.
    TargetIsPlayer,
    /// The possessor has no client to hand over.
    NoClient,
    /// The target is outside the regions the possessor's client follows.
    OutOfSubscribedRegion,
    /// The possessor is loading a character or spectating.
    UnexpectedPresence(PresenceKind),
}

/// What the server knows when one entity asks to possess another.
#[derive(Clone, Copy, PartialEq, Eq, Structural, Debug)]
pub struct PossessFacts {
    pub possessor_alive: bool,
    pub possessee_alive: bool,
    pub possessee_is_player: bool,
    pub possessor_is_client: bool,
    pub possessee_in_subscribed_region: bool,
    pub possessor_presence: Option<PresenceKind>,
}

/// A possession that goes ahead: whether the possessee gets a presence
/// (of kind possessor), and whether the possessor's old entity is deleted
/// afterwards (a character, as if it logged out, so no item is
/// duplicated).
#[derive(Clone, Copy, PartialEq, Eq, Structural, Debug)]
pub struct PossessPlan {
    pub new_presence: bool,
    pub delete_possessor: bool,
}

pub open spec fn possess_decision(f: PossessFacts) -> Result<PossessPlan, PossessRefusal> {
    if !f.possessor_alive || !f.possessee_alive {
        Err(PossessRefusal::EntityGone)
    } else if f.possessee_is_player {
        Err(PossessRefusal::TargetIsPlayer)
    } else if !f.possessor_is_client {
        Err(PossessRefusal::NoClient)
    } else if !f.possessee_in_subscribed_region {
        Err(PossessRefusal::OutOfSubscribedRegion)
    } else {
        match f.possessor_presence {
            None => Ok(PossessPlan { new_presence: false, delete_possessor: false }),
            Some(PresenceKind::LoadingCharacter) => Err(
                PossessRefusal::UnexpectedPresence(PresenceKind::LoadingCharacter),
            ),
            Some(PresenceKind::Spectator) => Err(PossessRefusal::UnexpectedPresence(PresenceKind::Spectator)),
            Some(PresenceKind::Possessor) => Ok(PossessPlan { new_presence: true, delete_possessor: false }),
            Some(PresenceKind::Character) => Ok(PossessPlan { new_presence: true, delete_possessor: true }),
        }
    }
}

/// Checks whether a possession may go ahead, in the order the server
/// checks: both entities exist, the target is no player, the possessor has
/// a client, the target lies in the client's subscribed regions, and the
/// possessor is playing (a character or a possessed entity).
pub fn plan_possess(facts: PossessFacts) -> (res: Result<PossessPlan, PossessRefusal>)
    ensures
        res == possess_decision(facts),
{
    if !facts.possessor_alive || !facts.possessee_alive {
        return Err(PossessRefusal::EntityGone);
    }
    if facts.possessee_is_player {
        return Err(PossessRefusal::TargetIsPlayer);
    }
    if !facts.possessor_is_client {
        return Err(PossessRefusal::NoClient);
    }
    if !facts.possessee_in_subscribed_region {
        return Err(PossessRefusal::OutOfSubscribedRegion);
    }
    match facts.possessor_presence {
        None => Ok(PossessPlan { new_presence: false, delete_possessor: false }),
        Some(PresenceKind::LoadingCharacter) => Err(
            PossessRefusal::UnexpectedPresence(PresenceKind::LoadingCharacter),
        ),
        Some(PresenceKind::Spectator) => Err(PossessRefusal::UnexpectedPresence(PresenceKind::Spectator)),
        Some(PresenceKind::Possessor) => Ok(PossessPlan { new_presence: true, delete_possessor: false }),
        Some(PresenceKind::Character) => Ok(PossessPlan { new_presence: true, delete_possessor: true }),
    }
}

/// Whether an entity may change its inventory: it needs a uid and an
/// inventory, must not be in a trade that forbids changes, and must be
/// alive.
pub fn may_manipulate_inventory(has_uid: bool, in_immutable_trade: bool, has_inventory: bool, is_dead: bool) -> (allowed: bool)
    ensures
        allowed == (has_uid && !in_immutable_trade && has_inventory && !is_dead),
{
    if !has_uid {
        return false;
    }
    if in_immutable_trade {
        return false;
    }
    if !has_inventory {
        return false;
    }
    !is_dead
}

/// Whether an inventory change resets the accept flags of the trade its
/// owner is in: where the change went through (and was not cut short) and
/// the owner is in a trade whose offers may still change, both parties
/// must accept again.
pub fn resets_trade_accept(change_went_through: bool, in_mutable_trade: bool) -> (reset: bool)
    ensures
        reset == (change_went_through && in_mutable_trade),
{
    change_went_through && in_mutable_trade
}

/// Persists a leaving player's entity, given whether it has all the
/// components that persisting reads.  Only a character is persisted: its
/// last battle-mode change (the time's bits), if any, goes into `buffer`
/// under `char_id`, and its character is queued for the logout update
/// (the returned id).  Spectators and possessors are not persisted, and an
/// entity still loading its character is not either.
pub fn persist_entity(
    buffer: &mut BattleModeBuffer,
    has_components: bool,
    presence: PresenceKind,
    char_id: i64,
    battle_mode: BattleMode,
    last_battlemode_change: Option<u64>,
) -> (logout_update: Option<i64>)
    ensures
        (if has_components && presence == PresenceKind::Character {
            &&& logout_update == Some(char_id)
            &&& final(buffer)@ == (match last_battlemode_change {
                Some(change) => old(buffer)@.insert(char_id, (battle_mode, change)),
                None => old(buffer)@,
            })
        } else {
            &&& logout_update is None
            &&& final(buffer)@ == old(buffer)@
        }),
{
    if !has_components {
        return None;
    }
    match presence {
        PresenceKind::Character => {
            if let Some(change) = last_battlemode_change {
                let save: BattleModeSave = (battle_mode, change);
                buffer.push(char_id, save);
            }
            Some(char_id)
        },
        _ => None,
    }
}

/// The positions of the pets persisted with their owner: those owned by
/// `owner` that can be tamed (pets spawned otherwise are left out).
pub open spec fn persisted_pets_of(owner: u64, pets: Seq<(Alignment, bool)>) -> Seq<usize>
    decreases pets.len(),
{
    if pets.len() == 0 {
        Seq::empty()
    } else {
        let rest = persisted_pets_of(owner, pets.drop_last());
        if pets.last().0 == Alignment::Owned(owner) && pets.last().1 {
            rest.push((pets.len() - 1) as usize)
        } else {
            rest
        }
    }
}

/// Picks, among entities given by their alignment and whether their body
/// can be tamed, the pets of `owner` to persist with it, in order.
pub fn persisted_pets(owner: u64, pets: &Vec<(Alignment, bool)>) -> (picked: Vec<usize>)
    ensures
        picked@ == persisted_pets_of(owner, pets@),
{
    let mut picked: Vec<usize> = Vec::new();
    let mut i: usize = 0;
    while i < pets.len()
        invariant
            i <= pets.len(),
            picked@ == persisted_pets_of(owner, pets@.take(i as int)),
        decreases pets.len() - i,
    {
        proof {
            assert(pets@.take(i as int + 1).drop_last() =~= pets@.take(i as int));
        }
        let (alignment, tameable) = pets[i];
        let owned = match alignment {
            Alignment::Owned(o) => o == owner,
            _ => false,
        };
        if owned && tameable {
            picked.push(i);
        }
        i = i + 1;
    }
    proof {
        assert(pets@.take(pets@.len() as int) =~= pets@);
    }
    picked
}

} // verus!
