use vstd::prelude::*;

verus! {

/// The mining properties of a sprite.
#[derive(Clone, Copy, PartialEq, Eq, Structural, Debug)]
pub struct MineSprite {
    /// The damage at which it breaks; `None` where any damage breaks it.
    pub required_damage: Option<u8>,
    /// Every this many points of damage, it drops some of its items.
    pub drop_interval: u8,
}

/// What one blow of a fitting tool does to a minable block.
#[derive(Clone, Copy, PartialEq, Eq, Structural, Debug)]
pub struct MineStep {
    /// The block's damage after the blow, where the block counts damage.
    pub damage: Option<u8>,
    /// Whether the block breaks.
    pub broken: bool,
    /// Whether the blow reached a new drop stage.
    pub stage_changed: bool,
    /// Whether items are reclaimed from the block.
    pub drops: bool,
    /// Whether the damaged block stays (else the block is emptied).
    pub keep_block: bool,
}

pub open spec fn saturating_inc(d: u8) -> u8 {
    if d == u8::MAX {
        u8::MAX
    } else {
        (d + 1) as u8
    }
}

/// The blow on a block that counts `damage` (where it does) and holds
/// `sprite` (where it does): damage goes up by one, saturating; the block
/// breaks where it counts damage, holds a sprite, and the damage reaches
/// what the sprite requires; a drop stage is reached at each multiple of
/// the sprite's interval; items drop at a new stage or on breaking; the
/// damaged block stays unless it broke or counts no damage.
pub open spec fn mine_blow(damage: Option<u8>, sprite: Option<MineSprite>) -> MineStep {
    let new_damage = match damage {
        Some(d) => Some(saturating_inc(d)),
        None => None,
    };
    let broken = match (damage, sprite) {
        (Some(d), Some(s)) => match s.required_damage {
            Some(r) => saturating_inc(d) >= r,
            None => true,
        },
        _ => false,
    };
    let stage_changed = match (damage, sprite) {
        (Some(d), Some(s)) => saturating_inc(d) % s.drop_interval == 0,
        _ => false,
    };
    MineStep {
        damage: new_damage,
        broken,
        stage_changed,
        drops: stage_changed || broken,
        keep_block: damage is Some && !broken,
    }
}

/// What a mining blow does.  Nothing happens (`None`: no block change, no
/// outcome, no sound, no drop) unless the block can still be set this tick
/// and the block is there and its mine tool is the tool of the blow.
/// Otherwise the blow is `mine_blow`, and the server reports one outcome
/// (the block broke where `broken`, else it was damaged) and one mining
/// sound.
pub fn mine_step(
    can_set_block: bool,
    tool_matches: bool,
    damage: Option<u8>,
    sprite: Option<MineSprite>,
) -> (step: Option<MineStep>)
    requires
        can_set_block && tool_matches && damage is Some && sprite is Some ==> sprite->0.drop_interval > 0,
    ensures
        step == (if can_set_block && tool_matches {
            Some(mine_blow(damage, sprite))
        } else {
            None
        }),
{
    if !can_set_block || !tool_matches {
        return None;
    }
    let new_damage: Option<u8> = match damage {
        Some(d) => Some(d.saturating_add(1)),
        None => None,
    };
    let (broken, stage_changed) = match (new_damage, sprite) {
        (Some(d), Some(s)) => {
            let broken = match s.required_damage {
                Some(r) => d >= r,
                None => true,
            };
            (broken, d % s.drop_interval == 0)
        },
        _ => (false, false),
    };
    Some(
        MineStep {
            damage: new_damage,
            broken,
            stage_changed,
            drops: stage_changed || broken,
            keep_block: new_damage.is_some() && !broken,
        },
    )
}

/// The experience that the items of a block are worth: the sum over those
/// that the resource table lists.
pub open spec fn resource_exp(exps: Seq<Option<u32>>) -> int
    decreases exps.len(),
{
    if exps.len() == 0 {
        0
    } else {
        resource_exp(exps.drop_last()) + match exps.last() {
            Some(e) => e as int,
            None => 0,
        }
    }
}

proof fn lemma_resource_exp_monotone(exps: Seq<Option<u32>>, i: int)
    requires
        0 <= i <= exps.len(),
    ensures
        0 <= resource_exp(exps.take(i)) <= resource_exp(exps),
    decreases exps.len() - i,
{
    if i < exps.len() {
        lemma_resource_exp_monotone(exps, i + 1);
        assert(exps.take(i + 1).drop_last() =~= exps.take(i));
    } else {
        assert(exps.take(i) =~= exps);
    }
    lemma_resource_exp_nonneg(exps.take(i));
}

proof fn lemma_resource_exp_nonneg(exps: Seq<Option<u32>>)
    ensures
        resource_exp(exps) >= 0,
    decreases exps.len(),
{
    if exps.len() > 0 {
        lemma_resource_exp_nonneg(exps.drop_last());
    }
}

/// The experience a miner earns for breaking a block: where the block
/// broke, the miner used a tool, has a uid and a skill set, and the items
/// are worth at least one point, their worth, in the weapon tree of the
/// tool; nothing otherwise.
pub fn mining_exp(broken: bool, has_tool: bool, has_uid: bool, has_skill_set: bool, exps: &Vec<Option<u32>>) -> (exp: Option<u32>)
    requires
        broken && has_skill_set ==> resource_exp(exps@) <= u32::MAX,
    ensures
        exp == (if broken && has_tool && has_uid && has_skill_set && resource_exp(exps@) >= 1 {
            Some(resource_exp(exps@) as u32)
        } else {
            None
        }),
{
    if !(broken && has_skill_set) {
        return None;
    }
    let mut sum: u32 = 0;
    let mut i: usize = 0;
    while i < exps.len()
        invariant
            i <= exps.len(),
            resource_exp(exps@) <= u32::MAX,
            sum == resource_exp(exps@.take(i as int)),
        decreases exps.len() - i,
    {
        proof {
            assert(exps@.take(i as int + 1).drop_last() =~= exps@.take(i as int));
            lemma_resource_exp_monotone(exps@, i as int + 1);
        }
        match exps[i] {
            Some(e) => {
                sum = sum + e;
            },
            None => {},
        }
        i = i + 1;
    }
    proof {
        assert(exps@.take(exps@.len() as int) =~= exps@);
    }
    if has_tool && has_uid && sum >= 1 {
        Some(sum)
    } else {
        None
    }
}

} // verus!
