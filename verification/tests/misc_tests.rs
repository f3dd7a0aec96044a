use veloren_server::commands::Alignment;
use veloren_server::data_dir::{DataDir, DEFAULT_DATA_DIR_NAME};
use veloren_server::group::{
    plan_group_manip, requester_message, target_message, GroupManip, GroupManipOutcome, GroupTarget,
};
use veloren_server::lod::lod_zone_positions;
use veloren_server::mounting::{mount_entity_link, Mounting};
use veloren_server::battle_mode::{BattleMode, BattleModeBuffer};
use veloren_server::player::{
    may_manipulate_inventory, persist_entity, resets_trade_accept, persisted_pets, plan_possess, PossessFacts,
    PossessPlan, PossessRefusal, PresenceKind,
};
use veloren_server::text_order::{sort_strings, str_le};

fn target() -> GroupTarget {
    GroupTarget { entity: Some(20), alignment: None, uid: Some(200), group_leader: Some(1) }
}

#[test]
fn group_kick_rules() {
    assert_eq!(plan_group_manip(1, Some(100), GroupManip::Leave, target()), GroupManipOutcome::Left);
    assert_eq!(plan_group_manip(1, Some(100), GroupManip::Kick(200), target()), GroupManipOutcome::Kicked);
    let missing = GroupTarget { entity: None, ..target() };
    assert_eq!(
        plan_group_manip(1, Some(100), GroupManip::Kick(200), missing),
        GroupManipOutcome::KickTargetMissing
    );
    let pet = GroupTarget { alignment: Some(Alignment::Owned(100)), ..target() };
    assert_eq!(plan_group_manip(1, Some(100), GroupManip::Kick(200), pet), GroupManipOutcome::KickPet);
    let own = GroupTarget { alignment: Some(Alignment::Owned(200)), ..target() };
    assert_eq!(plan_group_manip(1, Some(100), GroupManip::Kick(200), own), GroupManipOutcome::Kicked);
    assert_eq!(plan_group_manip(1, Some(200), GroupManip::Kick(200), target()), GroupManipOutcome::KickSelf);
    assert_eq!(plan_group_manip(2, Some(100), GroupManip::Kick(200), target()), GroupManipOutcome::KickNotLeader);
    let alone = GroupTarget { group_leader: None, ..target() };
    assert_eq!(plan_group_manip(1, Some(100), GroupManip::Kick(200), alone), GroupManipOutcome::KickNotInGroup);
}

#[test]
fn group_lead_transfer_rules() {
    assert_eq!(
        plan_group_manip(1, Some(100), GroupManip::AssignLeader(200), target()),
        GroupManipOutcome::LeaderAssigned
    );
    assert_eq!(
        plan_group_manip(2, Some(100), GroupManip::AssignLeader(200), target()),
        GroupManipOutcome::TransferNotLeader
    );
    let missing = GroupTarget { entity: None, ..target() };
    assert_eq!(
        plan_group_manip(1, Some(100), GroupManip::AssignLeader(200), missing),
        GroupManipOutcome::TransferTargetMissing
    );
    assert_eq!(requester_message(GroupManipOutcome::Kicked), Some("Player kicked."));
    assert_eq!(target_message(GroupManipOutcome::Kicked), Some("You were removed from the group."));
    assert_eq!(target_message(GroupManipOutcome::LeaderAssigned), Some("You are the group leader now."));
    assert_eq!(requester_message(GroupManipOutcome::Left), None);
}

fn possess() -> PossessFacts {
    PossessFacts {
        possessor_alive: true,
        possessee_alive: true,
        possessee_is_player: false,
        possessor_is_client: true,
        possessee_in_subscribed_region: true,
        possessor_presence: Some(PresenceKind::Character),
    }
}

#[test]
fn possession_rules() {
    assert_eq!(plan_possess(possess()), Ok(PossessPlan { new_presence: true, delete_possessor: true }));
    let f = PossessFacts { possessor_presence: Some(PresenceKind::Possessor), ..possess() };
    assert_eq!(plan_possess(f), Ok(PossessPlan { new_presence: true, delete_possessor: false }));
    let f = PossessFacts { possessor_presence: None, ..possess() };
    assert_eq!(plan_possess(f), Ok(PossessPlan { new_presence: false, delete_possessor: false }));
    let f = PossessFacts { possessor_presence: Some(PresenceKind::Spectator), ..possess() };
    assert_eq!(plan_possess(f), Err(PossessRefusal::UnexpectedPresence(PresenceKind::Spectator)));
    let f = PossessFacts { possessee_is_player: true, ..possess() };
    assert_eq!(plan_possess(f), Err(PossessRefusal::TargetIsPlayer));
    let f = PossessFacts { possessee_alive: false, possessee_is_player: true, ..possess() };
    assert_eq!(plan_possess(f), Err(PossessRefusal::EntityGone));
    let f = PossessFacts { possessor_is_client: false, ..possess() };
    assert_eq!(plan_possess(f), Err(PossessRefusal::NoClient));
    let f = PossessFacts { possessee_in_subscribed_region: false, ..possess() };
    assert_eq!(plan_possess(f), Err(PossessRefusal::OutOfSubscribedRegion));
}

#[test]
fn inventory_manipulation_gate() {
    assert!(may_manipulate_inventory(true, false, true, false));
    assert!(!may_manipulate_inventory(false, false, true, false));
    assert!(!may_manipulate_inventory(true, true, true, false));
    assert!(!may_manipulate_inventory(true, false, false, false));
    assert!(!may_manipulate_inventory(true, false, true, true));
}

#[test]
fn lod_zones_cover_world() {
    let zones = lod_zone_positions((5, 3), 2);
    assert_eq!(zones, vec![(0, 0), (0, 1), (1, 0), (1, 1), (2, 0), (2, 1)]);
    assert_eq!(lod_zone_positions((4, 4), 2).len(), 4);
    assert!(lod_zone_positions((0, 7), 32).is_empty());
    assert_eq!(lod_zone_positions((1024, 1024), 32).len(), 1024);
}

#[test]
fn mounting_needs_pet_relation() {
    let owned_by = |uid| Some(Alignment::Owned(uid));
    assert_eq!(
        mount_entity_link(true, Some(1), Some(2), None, owned_by(1), true, false),
        Some(Mounting { mount: 2, rider: 1 })
    );
    assert_eq!(
        mount_entity_link(true, Some(1), Some(2), owned_by(2), None, true, false),
        Some(Mounting { mount: 2, rider: 1 })
    );
    assert_eq!(mount_entity_link(true, Some(1), Some(2), None, owned_by(3), true, false), None);
    assert_eq!(mount_entity_link(false, Some(1), Some(2), None, owned_by(1), true, false), None);
    assert_eq!(mount_entity_link(true, Some(1), Some(2), None, owned_by(1), false, false), None);
    assert_eq!(mount_entity_link(true, Some(1), Some(2), None, owned_by(1), true, true), None);
    assert_eq!(mount_entity_link(true, None, Some(2), None, owned_by(1), true, false), None);
}

#[test]
fn string_order_and_sort() {
    assert!(str_le("", "a"));
    assert!(str_le("ab", "abc"));
    assert!(!str_le("abc", "ab"));
    assert!(str_le("a", "a"));
    assert!(str_le("Z", "a"));
    let sorted = sort_strings(vec!["pear".to_string(), "apple".to_string(), "fig".to_string(), "apple".to_string()]);
    assert_eq!(sorted, vec!["apple", "apple", "fig", "pear"]);
}

#[test]
fn data_dir_path() {
    assert_eq!(DEFAULT_DATA_DIR_NAME, "server");
    let dir = DataDir { path: "/srv/veloren".to_string() };
    assert_eq!(dir.as_path(), "/srv/veloren");
}

#[test]
fn persisting_a_character_keeps_its_battle_mode() {
    let mut buffer = BattleModeBuffer::new();
    assert_eq!(persist_entity(&mut buffer, true, PresenceKind::Character, 7, BattleMode::PvP, Some(42)), Some(7));
    assert_eq!(buffer.get(&7), Some(&(BattleMode::PvP, 42)));
    assert_eq!(persist_entity(&mut buffer, true, PresenceKind::Character, 8, BattleMode::PvE, None), Some(8));
    assert_eq!(buffer.get(&8), None);
}

#[test]
fn only_characters_are_persisted() {
    let mut buffer = BattleModeBuffer::new();
    assert_eq!(persist_entity(&mut buffer, true, PresenceKind::Spectator, 7, BattleMode::PvP, Some(1)), None);
    assert_eq!(persist_entity(&mut buffer, true, PresenceKind::Possessor, 7, BattleMode::PvP, Some(1)), None);
    assert_eq!(persist_entity(&mut buffer, true, PresenceKind::LoadingCharacter, 7, BattleMode::PvP, Some(1)), None);
    assert_eq!(persist_entity(&mut buffer, false, PresenceKind::Character, 7, BattleMode::PvP, Some(1)), None);
    assert_eq!(buffer.get(&7), None);
}

#[test]
fn tameable_pets_of_the_owner_are_persisted() {
    let pets = vec![
        (Alignment::Owned(5), true),
        (Alignment::Owned(6), true),
        (Alignment::Owned(5), false),
        (Alignment::Wild, true),
        (Alignment::Owned(5), true),
    ];
    assert_eq!(persisted_pets(5, &pets), vec![0, 4]);
}

#[test]
fn inventory_changes_reset_trade_acceptance() {
    assert!(resets_trade_accept(true, true));
    assert!(!resets_trade_accept(false, true));
    assert!(!resets_trade_accept(true, false));
}
