use veloren_server::pickup::{
    check_pickup, collar_target, collect_report, loot_recipients, pickup_outcome, CollectUpdate,
    LeftInWorld, PickupRefusal, Stow, TameCandidate, MAX_PETS,
};

#[test]
fn pickup_checks_in_order() {
    assert_eq!(check_pickup(false, false, Some(false), false), Err(PickupRefusal::ItemEntityGone));
    assert_eq!(check_pickup(true, false, Some(false), false), Err(PickupRefusal::OutOfRange));
    assert_eq!(check_pickup(true, true, Some(false), false), Err(PickupRefusal::LootOwned));
    assert_eq!(check_pickup(true, true, Some(true), false), Err(PickupRefusal::ItemGone));
    assert_eq!(check_pickup(true, true, None, true), Ok(()));
    assert_eq!(check_pickup(true, true, Some(true), true), Ok(()));
}

#[test]
fn whole_pickup_deletes_or_keeps_remainder() {
    let o = pickup_outcome(Stow::All, 5, false, true);
    assert_eq!(o.update, CollectUpdate::Collected(5));
    assert_eq!(o.left, LeftInWorld::Deleted);
    assert!(o.announce);
    let o = pickup_outcome(Stow::All, 5, true, false);
    assert_eq!(o.left, LeftInWorld::Remainder);
    assert!(!o.announce);
}

#[test]
fn partial_and_failed_pickup_put_back() {
    let o = pickup_outcome(Stow::Part(2), 5, false, true);
    assert_eq!(o.update, CollectUpdate::Collected(2));
    assert_eq!(o.left, LeftInWorld::PutBack);
    assert!(o.announce);
    let o = pickup_outcome(Stow::Nothing, 5, true, true);
    assert_eq!(o.update, CollectUpdate::InventoryFull);
    assert_eq!(o.left, LeftInWorld::PutBack);
    assert!(!o.announce);
}

#[test]
fn collecting_a_block() {
    let r = collect_report(&vec![(Stow::All, 3), (Stow::Part(1), 4), (Stow::Nothing, 2)]);
    assert_eq!(r.collected, vec![3, 1]);
    assert_eq!(r.dropped, 2);
    assert!(r.block_failed);
    let r = collect_report(&vec![(Stow::All, 3), (Stow::All, 1)]);
    assert_eq!(r.collected, vec![3, 1]);
    assert_eq!(r.dropped, 0);
    assert!(!r.block_failed);
    let r = collect_report(&Vec::new());
    assert!(r.collected.is_empty());
    assert!(!r.block_failed);
}

#[test]
fn loot_is_announced_to_other_members_with_clients() {
    let members = vec![(1, true), (2, true), (3, false), (4, true)];
    assert_eq!(loot_recipients(2, true, &members), vec![1, 4]);
    assert!(loot_recipients(2, false, &members).is_empty());
}

fn cand(entity: u64, tameable: bool, within_reach: bool, distance_key: i32) -> TameCandidate {
    TameCandidate { entity, tameable, within_reach, distance_key }
}

#[test]
fn collar_tames_the_nearest_eligible() {
    let cs = vec![
        cand(1, false, true, 1),
        cand(2, true, true, 50),
        cand(3, true, false, 2),
        cand(4, true, true, 20),
        cand(5, true, true, 20),
    ];
    assert_eq!(collar_target(0, true, &cs), Some(4));
    assert_eq!(collar_target(MAX_PETS - 1, true, &cs), Some(4));
    assert_eq!(collar_target(MAX_PETS, true, &cs), None);
    assert_eq!(collar_target(0, false, &cs), None);
    assert_eq!(collar_target(0, true, &vec![cand(1, false, true, 1)]), None);
}
