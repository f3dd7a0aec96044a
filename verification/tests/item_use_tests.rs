use veloren_server::item_use::{effects_to_apply, use_item, Effects, UseAction, UseSlot, UseUpdate, UsedItem};

#[test]
fn using_items_from_the_inventory() {
    assert_eq!(use_item(UseSlot::Inventory(None), true), (UseAction::Nothing, None));
    assert_eq!(
        use_item(UseSlot::Inventory(Some(UsedItem::Equippable { lantern: true })), false),
        (UseAction::Equip { swap_lantern: true }, Some(UseUpdate::Used))
    );
    assert_eq!(
        use_item(UseSlot::Inventory(Some(UsedItem::Consumable)), false),
        (UseAction::ApplyEffects, Some(UseUpdate::Consumed))
    );
    assert_eq!(use_item(UseSlot::Inventory(Some(UsedItem::Throwable)), false), (UseAction::Throw, Some(UseUpdate::Used)));
    assert_eq!(use_item(UseSlot::Inventory(Some(UsedItem::Collar)), false), (UseAction::TryTame, Some(UseUpdate::Used)));
    assert_eq!(
        use_item(UseSlot::Inventory(Some(UsedItem::RecipeGroup)), true),
        (UseAction::LearnRecipes, Some(UseUpdate::Used))
    );
    assert_eq!(use_item(UseSlot::Inventory(Some(UsedItem::RecipeGroup)), false), (UseAction::PutBack, None));
    assert_eq!(use_item(UseSlot::Inventory(Some(UsedItem::Other)), true), (UseAction::PutBack, None));
}

#[test]
fn using_equipment_and_overflow() {
    assert_eq!(
        use_item(UseSlot::Equip { lantern: true }, false),
        (UseAction::Unequip { snuff_lantern: true }, Some(UseUpdate::Used))
    );
    assert_eq!(use_item(UseSlot::Overflow, true), (UseAction::Nothing, None));
}

#[test]
fn effects_applied() {
    assert_eq!(effects_to_apply(Effects::All(vec![1, 2, 3])), vec![1, 2, 3]);
    assert_eq!(effects_to_apply(Effects::One(7)), vec![7]);
    assert!(effects_to_apply(Effects::<u8>::Any(Vec::new())).is_empty());
    for _ in 0..20 {
        let chosen = effects_to_apply(Effects::Any(vec![4, 5, 6]));
        assert_eq!(chosen.len(), 1);
        assert!([4, 5, 6].contains(&chosen[0]));
    }
}
