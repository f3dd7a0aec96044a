use vstd::prelude::*;
use crate::commands::Alignment;
use crate::invite::EntityId;

verus! {

/// What dealt the damage that killed an entity; `B` stands for the kinds
/// of buffs.
#[derive(PartialEq, Eq, Debug)]
pub enum DamageSource<B> {
    Buff(B),
    Melee,
    Projectile,
    Explosion,
    Falling,
    Shockwave,
    Energy,
    Other,
}

/// How an entity was killed, as the death message tells it.
#[derive(PartialEq, Eq, Debug)]
pub enum KillType<B> {
    Buff(B),
    Melee,
    Projectile,
    Explosion,
    Energy,
    Other,
}

/// What the server knows of the entity that dealt the killing blow.
pub enum Attacker {
    /// Its uid names no entity any more.
    Missing,
    /// A player.
    Player,
    /// A non-player with stats, under this name.
    NonPlayer(String),
    /// An entity without stats.
    NoStats,
}

/// Who the death message blames.
#[derive(Debug)]
pub enum KillSource<B> {
    Player(u64, KillType<B>),
    NonPlayer(String, KillType<B>),
    NonExistent(KillType<B>),
    FallDamage,
    Other,
}

/// The kill source for a blow of `kind` by the entity with uid `by`.
fn blame<B>(kind: KillType<B>, by: u64, attacker: Attacker) -> (source: KillSource<B>)
    ensures
        (match attacker {
            Attacker::Player => source == KillSource::Player(by, kind),
            Attacker::NonPlayer(name) => source == KillSource::NonPlayer(name, kind),
            _ => source == KillSource::NonExistent(kind),
        }),
{
    match attacker {
        Attacker::Player => KillSource::Player(by, kind),
        Attacker::NonPlayer(name) => KillSource::NonPlayer(name, kind),
        _ => KillSource::NonExistent(kind),
    }
}

/// The kind of kill that a damage source with a known dealer makes.
pub open spec fn kill_type_of<B>(cause: DamageSource<B>) -> Option<KillType<B>> {
    match cause {
        DamageSource::Melee => Some(KillType::Melee),
        DamageSource::Projectile => Some(KillType::Projectile),
        DamageSource::Explosion => Some(KillType::Explosion),
        DamageSource::Energy => Some(KillType::Energy),
        DamageSource::Buff(b) => Some(KillType::Buff(b)),
        DamageSource::Other => Some(KillType::Other),
        _ => None,
    }
}

/// The source named by a player's death message: the dealer, where the
/// damage had one (a player, a named non-player, or one that no longer
/// exists); a fall; or something else.  A buff blames its dealer if it
/// had one, and no one otherwise.
pub fn kill_source<B: Copy>(cause: Option<DamageSource<B>>, by: Option<u64>, attacker: Attacker) -> (source: KillSource<B>)
    ensures
        (match (cause, by) {
            (Some(DamageSource::Falling), _) => source == KillSource::<B>::FallDamage,
            (Some(DamageSource::Buff(b)), None) => source == KillSource::NonExistent(KillType::Buff(b)),
            (Some(c), Some(u)) => match kill_type_of(c) {
                Some(kind) => match attacker {
                    Attacker::Player => source == KillSource::Player(u, kind),
                    Attacker::NonPlayer(name) => source == KillSource::NonPlayer(name, kind),
                    _ => source == KillSource::NonExistent(kind),
                },
                None => source == KillSource::<B>::Other,
            },
            _ => source == KillSource::<B>::Other,
        }),
{
    match (cause, by) {
        (Some(DamageSource::Melee), Some(u)) => blame(KillType::Melee, u, attacker),
        (Some(DamageSource::Projectile), Some(u)) => blame(KillType::Projectile, u, attacker),
        (Some(DamageSource::Explosion), Some(u)) => blame(KillType::Explosion, u, attacker),
        (Some(DamageSource::Energy), Some(u)) => blame(KillType::Energy, u, attacker),
        (Some(DamageSource::Buff(b)), by) => match by {
            Some(u) => blame(KillType::Buff(b), u, attacker),
            None => KillSource::NonExistent(KillType::Buff(b)),
        },
        (Some(DamageSource::Other), Some(u)) => blame(KillType::Other, u, attacker),
        (Some(DamageSource::Falling), _) => KillSource::FallDamage,
        _ => KillSource::Other,
    }
}

/// A record of damage done to an entity: by an entity alone (its entity,
/// where its uid still names one), or by a member of a group.
#[derive(Clone, Copy, PartialEq, Eq, Structural, Debug)]
pub enum DamageContributor {
    Solo(Option<EntityId>),
    Group(u64),
}

/// Who gets a share of the experience for a kill.
#[derive(Clone, Copy, PartialEq, Eq, Structural, Debug)]
pub enum DamageContrib {
    Solo(EntityId),
    Group(u64),
    /// A lone contributor that is dead or offline: its share is dropped.
    NotFound,
}

/// The damage of each sharer after the first `n` records: a lone
/// contributor keeps its latest record, as does the dropped share, and a
/// group adds up the damage of its members.
pub open spec fn contributions(records: Seq<(DamageContributor, u64)>, n: int) -> Map<DamageContrib, int>
    decreases n,
{
    if n <= 0 {
        Map::empty()
    } else {
        let m = contributions(records, n - 1);
        let (who, damage) = records[n - 1];
        match who {
            DamageContributor::Solo(Some(e)) => m.insert(DamageContrib::Solo(e), damage as int),
            DamageContributor::Solo(None) => m.insert(DamageContrib::NotFound, damage as int),
            DamageContributor::Group(g) => m.insert(
                DamageContrib::Group(g),
                if m.contains_key(DamageContrib::Group(g)) {
                    m[DamageContrib::Group(g)]
                } else {
                    0
                } + damage,
            ),
        }
    }
}

/// The total damage of the first `n` records.
pub open spec fn total_damage(records: Seq<(DamageContributor, u64)>, n: int) -> int
    decreases n,
{
    if n <= 0 {
        0
    } else {
        total_damage(records, n - 1) + records[n - 1].1
    }
}

/// Every sharer's recorded damage is at most the total recorded so far.
proof fn lemma_contribution_bounded(records: Seq<(DamageContributor, u64)>, n: int)
    requires
        0 <= n <= records.len(),
    ensures
        forall|k: DamageContrib| #[trigger] contributions(records, n).contains_key(k) ==> 0 <= contributions(
            records,
            n,
        )[k] <= total_damage(records, n),
        total_damage(records, n) >= 0,
    decreases n,
{
    if n > 0 {
        lemma_contribution_bounded(records, n - 1);
        let m = contributions(records, n - 1);
        let total = total_damage(records, n - 1);
        assert forall|k: DamageContrib| #[trigger] contributions(records, n).contains_key(k) implies 0
            <= contributions(records, n)[k] <= total_damage(records, n) by {
            if m.contains_key(k) {
                assert(0 <= m[k] <= total);
            }
        }
    }
}

/// Finds the entry of a sharer.
fn find_share(shares: &Vec<(DamageContrib, u64)>, key: DamageContrib) -> (found: Option<usize>)
    ensures
        (match found {
            Some(i) => i < shares@.len() && shares@[i as int].0 == key,
            None => forall|i: int| 0 <= i < shares@.len() ==> (#[trigger] shares@[i]).0 != key,
        }),
{
    let mut i: usize = 0;
    while i < shares.len()
        invariant
            i <= shares.len(),
            forall|j: int| 0 <= j < i ==> (#[trigger] shares@[j]).0 != key,
        decreases shares.len() - i,
    {
        if shares[i].0 == key {
            return Some(i);
        }
        i = i + 1;
    }
    None
}

/// Adds up who dealt how much damage to a killed entity, one entry per
/// sharer: a lone contributor counts with its latest record, a group
/// with the sum over its members.
pub fn damage_shares(records: &Vec<(DamageContributor, u64)>) -> (shares: Vec<(DamageContrib, u64)>)
    requires
        total_damage(records@, records@.len() as int) <= u64::MAX,
    ensures
        forall|i: int, j: int| 0 <= i < j < shares@.len() ==> shares@[i].0 != shares@[j].0,
        forall|k: DamageContrib|
            #[trigger] contributions(records@, records@.len() as int).contains_key(k) <==> exists|i: int|
                0 <= i < shares@.len() && shares@[i].0 == k,
        forall|i: int|
            0 <= i < shares@.len() ==> contributions(records@, records@.len() as int)[#[trigger] shares@[i].0]
                == shares@[i].1,
{
    let mut shares: Vec<(DamageContrib, u64)> = Vec::new();
    let mut n: usize = 0;
    while n < records.len()
        invariant
            n <= records.len(),
            total_damage(records@, records@.len() as int) <= u64::MAX,
            forall|i: int, j: int| 0 <= i < j < shares@.len() ==> shares@[i].0 != shares@[j].0,
            forall|k: DamageContrib|
                #[trigger] contributions(records@, n as int).contains_key(k) <==> exists|i: int|
                    0 <= i < shares@.len() && shares@[i].0 == k,
            forall|i: int|
                0 <= i < shares@.len() ==> contributions(records@, n as int)[#[trigger] shares@[i].0]
                    == shares@[i].1,
        decreases records.len() - n,
    {
        let (who, damage) = records[n];
        let ghost before = shares@;
        let key = match who {
            DamageContributor::Solo(Some(e)) => DamageContrib::Solo(e),
            DamageContributor::Solo(None) => DamageContrib::NotFound,
            DamageContributor::Group(g) => DamageContrib::Group(g),
        };
        proof {
            lemma_contribution_bounded(records@, n as int + 1);
            lemma_total_monotone(records@, n as int + 1, records@.len() as int);
        }
        match find_share(&shares, key) {
            Some(i) => {
                let updated: u64 = match who {
                    DamageContributor::Group(_) => {
                        assert(contributions(records@, n as int)[before[i as int].0] == before[i as int].1);
                        assert(contributions(records@, n as int + 1)[key] == shares@[i as int].1 + damage);
                        assert(contributions(records@, n as int + 1).contains_key(key));
                        assert(contributions(records@, n as int + 1)[key] <= total_damage(records@, n as int + 1));
                        shares[i].1 + damage
                    },
                    _ => damage,
                };
                shares.set(i, (key, updated));
                proof {
                    assert forall|k: DamageContrib|
                        #[trigger] contributions(records@, n as int + 1).contains_key(k) implies exists|j: int|
                            0 <= j < shares@.len() && shares@[j].0 == k by {
                        if k != key {
                            let j = choose|j: int| 0 <= j < before.len() && before[j].0 == k;
                            assert(shares@[j].0 == k);
                        } else {
                            assert(shares@[i as int].0 == k);
                        }
                    }
                    assert forall|j: int| 0 <= j < shares@.len() implies contributions(records@, n as int + 1)[
                        #[trigger] shares@[j].0] == shares@[j].1 by {
                        if j != i {
                            assert(shares@[j] == before[j]);
                        }
                    }
                    assert forall|j: int, l: int| 0 <= j < l < shares@.len() implies shares@[j].0 != shares@[l].0 by {
                        if j != i && l != i {
                            assert(shares@[j] == before[j]);
                            assert(shares@[l] == before[l]);
                        } else if j == i {
                            assert(shares@[l] == before[l]);
                        } else {
                            assert(shares@[j] == before[j]);
                        }
                    }
                }
            },
            None => {
                shares.push((key, damage));
                proof {
                    if contributions(records@, n as int).contains_key(key) {
                        let j = choose|j: int| 0 <= j < before.len() && before[j].0 == key;
                        assert(before[j].0 != key);
                    }
                    assert forall|k: DamageContrib|
                        #[trigger] contributions(records@, n as int + 1).contains_key(k) implies exists|j: int|
                            0 <= j < shares@.len() && shares@[j].0 == k by {
                        if k != key {
                            assert(contributions(records@, n as int).contains_key(k));
                            let j = choose|j: int| 0 <= j < before.len() && before[j].0 == k;
                            assert(shares@[j].0 == k);
                        } else {
                            assert(shares@[before.len() as int].0 == k);
                        }
                    }
                    assert forall|k: DamageContrib| (exists|j: int| 0 <= j < shares@.len() && shares@[j].0 == k) implies
                        #[trigger] contributions(records@, n as int + 1).contains_key(k) by {
                        let j = choose|j: int| 0 <= j < shares@.len() && shares@[j].0 == k;
                        if j < before.len() {
                            assert(before[j].0 == k);
                            assert(contributions(records@, n as int).contains_key(k));
                        }
                    }
                    assert forall|j: int| 0 <= j < shares@.len() implies contributions(records@, n as int + 1)[
                        #[trigger] shares@[j].0] == shares@[j].1 by {
                        if j < before.len() {
                            assert(shares@[j] == before[j]);
                            assert(before[j].0 != key);
                        }
                    }
                    assert forall|j: int, l: int| 0 <= j < l < shares@.len() implies shares@[j].0 != shares@[l].0 by {
                        if l < before.len() {
                            assert(shares@[j] == before[j]);
                            assert(shares@[l] == before[l]);
                        } else {
                            assert(shares@[j] == before[j]);
                        }
                    }
                }
            },
        }
        n = n + 1;
    }
    shares
}

/// The total grows with the number of records counted.
proof fn lemma_total_monotone(records: Seq<(DamageContributor, u64)>, a: int, b: int)
    requires
        0 <= a <= b <= records.len(),
    ensures
        total_damage(records, a) <= total_damage(records, b),
    decreases b - a,
{
    if a < b {
        lemma_total_monotone(records, a, b - 1);
    }
}

/// Whether a lone contributor earns experience for the kill: not for
/// killing itself, not for killing another player, and only within range.
pub fn solo_earns_exp(attacker_is_killed: bool, pvp_kill: bool, within_range: bool) -> (earns: bool)
    ensures
        earns == (!attacker_is_killed && !pvp_kill && within_range),
{
    !attacker_is_killed && !pvp_kill && within_range
}

/// Whether a member of a contributing group earns experience: it must be
/// in that group and in range, the kill must not be a player kill, and it
/// must not be a pet (owned by someone other than itself).
pub fn member_earns_exp(
    in_group: bool,
    within_range: bool,
    pvp_kill: bool,
    alignment: Option<Alignment>,
    uid: u64,
) -> (earns: bool)
    ensures
        earns == (in_group && within_range && !pvp_kill && !(alignment matches Some(Alignment::Owned(owner))
            && owner != uid)),
{
    let is_pet = match alignment {
        Some(Alignment::Owned(owner)) => owner != uid,
        _ => false,
    };
    in_group && within_range && !pvp_kill && !is_pet
}

/// Who may pick up loot first.
#[derive(Clone, Copy, PartialEq, Eq, Structural, Debug)]
pub enum LootOwnerKind {
    Player(u64),
    Group(u64),
}

/// Whether a killed entity drops its loot: a client respawns and keeps
/// it; an agent with a uid and a position drops it unless it is someone's
/// pet.
pub fn drops_loot(is_client: bool, is_agent: bool, has_uid: bool, has_pos: bool, alignment: Option<Alignment>) -> (drops: bool)
    ensures
        drops == (!is_client && is_agent && has_uid && has_pos && !(alignment matches Some(Alignment::Owned(_)))),
{
    if is_client {
        return false;
    }
    let owned = match alignment {
        Some(Alignment::Owned(_)) => true,
        _ => false,
    };
    is_agent && has_uid && has_pos && !owned
}

/// What the server knows of an entity when its destroy event comes.
#[derive(Clone, Copy, PartialEq, Eq, Structural, Debug)]
pub struct DestroyFacts {
    /// Whether the entity still exists.
    pub alive: bool,
    pub uid: Option<u64>,
    pub is_player: bool,
    pub has_pos: bool,
    pub has_character_state: bool,
    pub is_client: bool,
    pub is_agent: bool,
    pub alignment: Option<Alignment>,
    pub has_inventory: bool,
    /// Whether its position lies in an area where equipment takes no
    /// durability damage.
    pub in_no_durability_area: bool,
}

/// What destroying an entity does.
#[derive(Clone, Copy, PartialEq, Eq, Structural, Debug)]
pub struct DestroySteps {
    /// Whether a death outcome is reported at its position.
    pub death_outcome: bool,
    /// The uid under which the death message is sent, where one is sent.
    pub death_message: Option<u64>,
    /// Whether it respawns: its velocity is zeroed, its energy refilled and
    /// its character state reset, where it has them.
    pub respawn: bool,
    /// Whether its equipped items take durability damage.
    pub damage_equipment: bool,
    /// Whether its loot drops.
    pub drop_loot: bool,
    /// Whether the entity is deleted.
    pub delete: bool,
}

pub open spec fn destroy_spec(f: DestroyFacts) -> Option<DestroySteps> {
    if !f.alive {
        None
    } else {
        Some(DestroySteps {
            death_outcome: f.has_pos && f.has_character_state,
            death_message: if f.is_player { f.uid } else { None },
            respawn: f.is_client,
            damage_equipment: f.is_client && f.has_inventory && !(f.has_pos && f.in_no_durability_area),
            drop_loot: !f.is_client && f.is_agent && f.uid is Some && f.has_pos
                && !(f.alignment matches Some(Alignment::Owned(_))),
            delete: !f.is_client,
        })
    }
}

/// Decides what a destroy event does: nothing where the entity is already
/// gone; otherwise a death outcome where it has a position and a character
/// state, a death message (blaming `kill_source`) where it is a player with
/// a uid, and then a client respawns (its equipment damaged outside
/// durability-free areas) while any other entity is deleted, dropping its
/// loot where `drops_loot` says so.
pub fn destroy_plan(f: DestroyFacts) -> (steps: Option<DestroySteps>)
    ensures
        steps == destroy_spec(f),
{
    if !f.alive {
        return None;
    }
    let death_message = if f.is_player {
        f.uid
    } else {
        None
    };
    let drop_loot = drops_loot(f.is_client, f.is_agent, f.uid.is_some(), f.has_pos, f.alignment);
    Some(
        DestroySteps {
            death_outcome: f.has_pos && f.has_character_state,
            death_message,
            respawn: f.is_client,
            damage_equipment: f.is_client && f.has_inventory && !(f.has_pos && f.in_no_durability_area),
            drop_loot,
            delete: !f.is_client,
        },
    )
}

/// The owner of the loot won through an award: the group it went to, or
/// else, where the killed entity is humanoid, the player under the killed
/// entity's uid; otherwise the loot is free for all.
pub fn loot_owner(award_group: Option<u64>, killed_is_humanoid: bool, killed_uid: u64) -> (owner: Option<LootOwnerKind>)
    ensures
        owner == (match award_group {
            Some(g) => Some(LootOwnerKind::Group(g)),
            None => if killed_is_humanoid {
                Some(LootOwnerKind::Player(killed_uid))
            } else {
                None
            },
        }),
{
    match award_group {
        Some(g) => Some(LootOwnerKind::Group(g)),
        None => {
            if killed_is_humanoid {
                Some(LootOwnerKind::Player(killed_uid))
            } else {
                None
            }
        },
    }
}

} // verus!
