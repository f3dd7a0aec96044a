use vstd::prelude::*;
use rand::seq::IteratorRandom;

verus! {

/// What an item in an inventory slot is, as far as using it goes.
#[derive(Clone, Copy, PartialEq, Eq, Structural, Debug)]
pub enum UsedItem {
    /// It can be equipped; a lantern also lights up.
    Equippable { lantern: bool },
    Consumable,
    Throwable,
    /// A collar, which tames a pet.
    Collar,
    /// A group of recipes to learn.
    RecipeGroup,
    /// Anything else, which cannot be used.
    Other,
}

/// The slot an item is used from.
#[derive(Clone, Copy, PartialEq, Eq, Structural, Debug)]
pub enum UseSlot {
    /// An inventory slot, with the item in it if any.
    Inventory(Option<UsedItem>),
    /// An equipment slot; using it takes the item off.
    Equip { lantern: bool },
    /// An overflow slot, whose items cannot be used.
    Overflow,
}

/// What the server does when an item is used.
#[derive(Clone, Copy, PartialEq, Eq, Structural, Debug)]
pub enum UseAction {
    Nothing,
    /// Equip the item, swapping the light of the entity for the lantern's.
    Equip { swap_lantern: bool },
    /// Take the item and apply its effects.
    ApplyEffects,
    /// Take the item and throw it.
    Throw,
    /// Take the collar and try to tame a pet with it.
    TryTame,
    /// Take the recipe group; the recipes were learned.
    LearnRecipes,
    /// The item is taken and put back where it was.
    PutBack,
    /// Take the item off, putting out the light where it is a lantern.
    Unequip { snuff_lantern: bool },
}

/// The inventory update sent for a use.
#[derive(Clone, Copy, PartialEq, Eq, Structural, Debug)]
pub enum UseUpdate {
    Used,
    Consumed,
}

/// What using the item in `slot` does; `recipes_accepted` says whether
/// the inventory takes in a recipe group (it hands the group back where
/// it does not).
pub fn use_item(slot: UseSlot, recipes_accepted: bool) -> (plan: (UseAction, Option<UseUpdate>))
    ensures
        plan == (match slot {
            UseSlot::Inventory(None) => (UseAction::Nothing, None),
            UseSlot::Inventory(Some(UsedItem::Equippable { lantern })) => (
                UseAction::Equip { swap_lantern: lantern },
                Some(UseUpdate::Used),
            ),
            UseSlot::Inventory(Some(UsedItem::Consumable)) => (UseAction::ApplyEffects, Some(UseUpdate::Consumed)),
            UseSlot::Inventory(Some(UsedItem::Throwable)) => (UseAction::Throw, Some(UseUpdate::Used)),
            UseSlot::Inventory(Some(UsedItem::Collar)) => (UseAction::TryTame, Some(UseUpdate::Used)),
            UseSlot::Inventory(Some(UsedItem::RecipeGroup)) => if recipes_accepted {
                (UseAction::LearnRecipes, Some(UseUpdate::Used))
            } else {
                (UseAction::PutBack, None)
            },
            UseSlot::Inventory(Some(UsedItem::Other)) => (UseAction::PutBack, None),
            UseSlot::Equip { lantern } => (UseAction::Unequip { snuff_lantern: lantern }, Some(UseUpdate::Used)),
            UseSlot::Overflow => (UseAction::Nothing, None),
        }),
{
    match slot {
        UseSlot::Inventory(None) => (UseAction::Nothing, None),
        UseSlot::Inventory(Some(item)) => match item {
            UsedItem::Equippable { lantern } => (UseAction::Equip { swap_lantern: lantern }, Some(UseUpdate::Used)),
            UsedItem::Consumable => (UseAction::ApplyEffects, Some(UseUpdate::Consumed)),
            UsedItem::Throwable => (UseAction::Throw, Some(UseUpdate::Used)),
            UsedItem::Collar => (UseAction::TryTame, Some(UseUpdate::Used)),
            UsedItem::RecipeGroup => {
                if recipes_accepted {
                    (UseAction::LearnRecipes, Some(UseUpdate::Used))
                } else {
                    (UseAction::PutBack, None)
                }
            },
            UsedItem::Other => (UseAction::PutBack, None),
        },
        UseSlot::Equip { lantern } => (UseAction::Unequip { snuff_lantern: lantern }, Some(UseUpdate::Used)),
        UseSlot::Overflow => (UseAction::Nothing, None),
    }
}

/// The effects of a consumable: one of them at random, all of them, or a
/// single one.
pub enum Effects<E> {
    Any(Vec<E>),
    All(Vec<E>),
    One(E),
}

/// `rand::seq::IteratorRandom::choose` over the items, with the thread's
/// generator: `None` exactly where there are no items, else one of them.
/// Which one is left to chance.
#[verifier::external_body]
fn choose_one<E>(items: Vec<E>) -> (chosen: Option<E>)
    ensures
        chosen is None <==> items@.len() == 0,
        chosen matches Some(e) ==> items@.contains(e),
{
    items.into_iter().choose(&mut rand::rng())
}

/// The effects that consuming an item applies, in order: for `Any`, one
/// of them (none where there are none), whichever chance picks.
pub fn effects_to_apply<E>(effects: Effects<E>) -> (applied: Vec<E>)
    ensures
        (match effects {
            Effects::Any(v) => (v@.len() == 0 ==> applied@.len() == 0) && (v@.len() > 0 ==> applied@.len() == 1
                && v@.contains(applied@[0])),
            Effects::All(v) => applied@ == v@,
            Effects::One(e) => applied@ == seq![e],
        }),
{
    match effects {
        Effects::Any(v) => {
            let mut applied: Vec<E> = Vec::new();
            if let Some(e) = choose_one(v) {
                applied.push(e);
            }
            applied
        },
        Effects::All(v) => v,
        Effects::One(e) => {
            let mut applied: Vec<E> = Vec::new();
            applied.push(e);
            applied
        },
    }
}

} // verus!
