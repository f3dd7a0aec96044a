use veloren_server::trade::{check_trade_commit, ItemStack, TradeOffer, TradeResult};

const CAPACITY: usize = 36;
const POTION: u64 = 1;
const FISH: u64 = 2;
const ARMOR: u64 = 3;
const POTION_MAX: u32 = 16;

fn armor() -> Option<ItemStack> {
    Some(ItemStack { item_id: ARMOR, amount: 1, max_amount: 1, stackable: false })
}

fn potions(amount: u32) -> Option<ItemStack> {
    Some(ItemStack { item_id: POTION, amount, max_amount: POTION_MAX, stackable: true })
}

fn fish(amount: u32) -> Option<ItemStack> {
    Some(ItemStack { item_id: FISH, amount, max_amount: 16, stackable: true })
}

/// An inventory of `CAPACITY` slots with `free` empty slots, the rest
/// filled with armor.
fn inventory_with_free(free: usize) -> Vec<Option<ItemStack>> {
    let mut inv = Vec::new();
    for _ in 0..CAPACITY - free {
        inv.push(armor());
    }
    for _ in 0..free {
        inv.push(None);
    }
    inv
}

/// Puts a stack into the first empty slot and returns that slot.
fn push(inv: &mut Vec<Option<ItemStack>>, stack: Option<ItemStack>) -> usize {
    let slot = inv.iter().position(|s| s.is_none()).expect("There should be enough space here");
    inv[slot] = stack;
    slot
}

/// A merchant with `free` empty slots, then ten potions and ten fish.
/// Returns the inventory and the potion and fish slots.
fn merchant(free: usize) -> (Vec<Option<ItemStack>>, usize, usize) {
    let mut inv = inventory_with_free(free);
    let p = push(&mut inv, potions(10));
    let f = push(&mut inv, fish(10));
    (inv, p, f)
}

#[test]
fn commit_trade_with_stackable_item_test() {
    let mut player = inventory_with_free(1);
    push(&mut player, potions(1));
    let (merchant, potion_slot, _) = merchant(20);
    let offers = vec![TradeOffer { slot: potion_slot, quantity: 1 }];
    let res = check_trade_commit(Some(&player), &vec![], Some(&merchant), &offers);
    assert_eq!(res, TradeResult::Completed);
    // Not checked here: that the player then holds 2 potions.  The library
    // decides whether the trade goes through; moving the items is done by
    // the game's inventory code, which this crate does not hold.
}

#[test]
fn commit_trade_with_full_inventory_test() {
    let mut player = inventory_with_free(1);
    push(&mut player, potions(1));
    let (merchant, _, fish_slot) = merchant(20);
    let offers = vec![TradeOffer { slot: fish_slot, quantity: 1 }];
    let res = check_trade_commit(Some(&player), &vec![], Some(&merchant), &offers);
    assert_eq!(res, TradeResult::NotEnoughSpace);
}

#[test]
fn commit_trade_with_empty_inventory_test() {
    let player = inventory_with_free(20);
    let (merchant, _, fish_slot) = merchant(20);
    let offers = vec![TradeOffer { slot: fish_slot, quantity: 1 }];
    let res = check_trade_commit(Some(&player), &vec![], Some(&merchant), &offers);
    assert_eq!(res, TradeResult::Completed);
}

#[test]
fn commit_trade_with_both_full_inventories_test() {
    let (merchant, _, fish_slot) = merchant(2);
    let mut player = inventory_with_free(2);
    let potion_slot = push(&mut player, potions(1));
    let player_offers = vec![TradeOffer { slot: potion_slot, quantity: 1 }];
    let merchant_offers = vec![TradeOffer { slot: fish_slot, quantity: 10 }];
    let res = check_trade_commit(Some(&player), &player_offers, Some(&merchant), &merchant_offers);
    assert_eq!(res, TradeResult::Completed);
}

#[test]
fn commit_trade_with_overflow() {
    let mut player = inventory_with_free(2);
    push(&mut player, potions(POTION_MAX - 2));
    let (merchant, potion_slot, _) = merchant(20);
    let offers = vec![TradeOffer { slot: potion_slot, quantity: 10 }];
    let res = check_trade_commit(Some(&player), &vec![], Some(&merchant), &offers);
    assert_eq!(res, TradeResult::Completed);
    // Not checked here: that the player's potions then lie in one full
    // stack and one stack of 8.  The library decides whether the trade goes
    // through; moving the items is done by the game's inventory code, which
    // this crate does not hold.
}

#[test]
fn commit_trade_with_inventory_overflow_failure() {
    let mut player = inventory_with_free(2);
    push(&mut player, potions(POTION_MAX - 2));
    push(&mut player, potions(POTION_MAX - 2));
    let (merchant, potion_slot, _) = merchant(20);
    let offers = vec![TradeOffer { slot: potion_slot, quantity: 5 }];
    let res = check_trade_commit(Some(&player), &vec![], Some(&merchant), &offers);
    assert_eq!(res, TradeResult::NotEnoughSpace);
}

#[test]
fn commit_trade_with_inventory_overflow_success() {
    let mut player = inventory_with_free(2);
    push(&mut player, potions(POTION_MAX - 2));
    push(&mut player, potions(POTION_MAX - 2));
    let (merchant, potion_slot, _) = merchant(20);
    let offers = vec![TradeOffer { slot: potion_slot, quantity: 4 }];
    let res = check_trade_commit(Some(&player), &vec![], Some(&merchant), &offers);
    assert_eq!(res, TradeResult::Completed);
}

#[test]
fn trade_with_missing_inventory_is_declined() {
    let player = inventory_with_free(5);
    assert_eq!(check_trade_commit(Some(&player), &vec![], None, &vec![]), TradeResult::Declined);
    assert_eq!(check_trade_commit(None, &vec![], Some(&player), &vec![]), TradeResult::Declined);
}

#[test]
fn trade_offering_more_than_held_is_declined() {
    let player = inventory_with_free(5);
    let (merchant, potion_slot, _) = merchant(20);
    let offers = vec![TradeOffer { slot: potion_slot, quantity: 11 }];
    assert_eq!(
        check_trade_commit(Some(&player), &vec![], Some(&merchant), &offers),
        TradeResult::Declined
    );
}

#[test]
fn trade_offering_empty_slot_is_declined() {
    let player = inventory_with_free(5);
    let (merchant, _, _) = merchant(20);
    let offers = vec![TradeOffer { slot: CAPACITY - 1, quantity: 1 }];
    assert_eq!(
        check_trade_commit(Some(&player), &vec![], Some(&merchant), &offers),
        TradeResult::Declined
    );
    let offers = vec![TradeOffer { slot: CAPACITY, quantity: 1 }];
    assert_eq!(
        check_trade_commit(Some(&player), &vec![], Some(&merchant), &offers),
        TradeResult::Declined
    );
}

#[test]
fn trade_splitting_unstackable_is_declined() {
    let mut player = inventory_with_free(5);
    player[0] = Some(ItemStack { item_id: ARMOR, amount: 2, max_amount: 1, stackable: false });
    let offers = vec![TradeOffer { slot: 0, quantity: 1 }];
    assert_eq!(
        check_trade_commit(Some(&player), &offers, Some(&player.clone()), &vec![]),
        TradeResult::Declined
    );
}

#[test]
fn swapping_unstackable_items_in_full_inventories_completes() {
    let a = inventory_with_free(0);
    let b = inventory_with_free(0);
    let offers = vec![TradeOffer { slot: 0, quantity: 1 }];
    assert_eq!(check_trade_commit(Some(&a), &offers, Some(&b), &offers), TradeResult::Completed);
    assert_eq!(check_trade_commit(Some(&a), &offers, Some(&b), &vec![]), TradeResult::NotEnoughSpace);
}

#[test]
fn empty_trade_completes() {
    let a = inventory_with_free(0);
    let b = inventory_with_free(3);
    assert_eq!(check_trade_commit(Some(&a), &vec![], Some(&b), &vec![]), TradeResult::Completed);
}

#[test]
fn surplus_counts_one_slot_more_than_whole_stacks() {
    // The receiver has one free slot and no potions.  The surplus of 15
    // potions needs 15 / 16 + 1 = 1 slot; a surplus of exactly 16 is
    // counted as 16 / 16 + 1 = 2 slots.
    let player = inventory_with_free(1);
    let mut merchant = inventory_with_free(20);
    let slot = push(&mut merchant, potions(15));
    let some = vec![TradeOffer { slot, quantity: 15 }];
    assert_eq!(
        check_trade_commit(Some(&player), &vec![], Some(&merchant), &some),
        TradeResult::Completed
    );
    let slot2 = push(&mut merchant, potions(1));
    let more = vec![TradeOffer { slot, quantity: 15 }, TradeOffer { slot: slot2, quantity: 1 }];
    assert_eq!(
        check_trade_commit(Some(&player), &vec![], Some(&merchant), &more),
        TradeResult::NotEnoughSpace
    );
}

#[test]
fn trade_outcome_does_not_depend_on_party_order() {
    let mut player = inventory_with_free(2);
    let p_slot = push(&mut player, potions(16));
    let (merchant, potion_slot, fish_slot) = merchant(2);
    let player_offers = vec![TradeOffer { slot: p_slot, quantity: 16 }];
    let merchant_offers = vec![
        TradeOffer { slot: potion_slot, quantity: 5 },
        TradeOffer { slot: fish_slot, quantity: 10 },
    ];
    let ab = check_trade_commit(Some(&player), &player_offers, Some(&merchant), &merchant_offers);
    let ba = check_trade_commit(Some(&merchant), &merchant_offers, Some(&player), &player_offers);
    assert_eq!(ab, ba);
    let full = inventory_with_free(0);
    let ab = check_trade_commit(Some(&full), &vec![], Some(&merchant), &merchant_offers);
    let ba = check_trade_commit(Some(&merchant), &merchant_offers, Some(&full), &vec![]);
    assert_eq!(ab, TradeResult::NotEnoughSpace);
    assert_eq!(ab, ba);
}
