use veloren_server::commands::Alignment;
use veloren_server::death::{
    damage_shares, destroy_plan, drops_loot, kill_source, loot_owner, member_earns_exp, solo_earns_exp,
    Attacker, DamageContrib, DestroyFacts, DestroySteps, DamageContributor, DamageSource, KillSource, KillType, LootOwnerKind,
};

fn is_player(source: &KillSource<u8>, uid: u64, kind: KillType<u8>) -> bool {
    match source {
        KillSource::Player(u, k) => *u == uid && *k == kind,
        _ => false,
    }
}

#[test]
fn melee_by_player_blames_player() {
    let s = kill_source(Some(DamageSource::<u8>::Melee), Some(7), Attacker::Player);
    assert!(is_player(&s, 7, KillType::Melee));
}

#[test]
fn projectile_by_named_npc_blames_npc() {
    let s = kill_source(
        Some(DamageSource::<u8>::Projectile),
        Some(3),
        Attacker::NonPlayer("Wolf".to_string()),
    );
    match s {
        KillSource::NonPlayer(name, KillType::Projectile) => assert_eq!(name, "Wolf"),
        _ => panic!("wrong kill source"),
    }
}

#[test]
fn missing_attacker_is_non_existent() {
    let s = kill_source(Some(DamageSource::<u8>::Energy), Some(3), Attacker::Missing);
    assert!(matches!(s, KillSource::NonExistent(KillType::Energy)));
    let s = kill_source(Some(DamageSource::<u8>::Explosion), Some(3), Attacker::NoStats);
    assert!(matches!(s, KillSource::NonExistent(KillType::Explosion)));
}

#[test]
fn falling_is_fall_damage_whoever_dealt_it() {
    let s = kill_source(Some(DamageSource::<u8>::Falling), None, Attacker::Missing);
    assert!(matches!(s, KillSource::FallDamage));
    let s = kill_source(Some(DamageSource::<u8>::Falling), Some(1), Attacker::Player);
    assert!(matches!(s, KillSource::FallDamage));
}

#[test]
fn buff_without_dealer_is_non_existent() {
    let s = kill_source(Some(DamageSource::Buff(4u8)), None, Attacker::Player);
    assert!(matches!(s, KillSource::NonExistent(KillType::Buff(4))));
    let s = kill_source(Some(DamageSource::Buff(4u8)), Some(9), Attacker::Player);
    assert!(is_player(&s, 9, KillType::Buff(4)));
}

#[test]
fn no_cause_or_no_dealer_is_other() {
    let s = kill_source::<u8>(None, Some(1), Attacker::Player);
    assert!(matches!(s, KillSource::Other));
    let s = kill_source(Some(DamageSource::<u8>::Melee), None, Attacker::Player);
    assert!(matches!(s, KillSource::Other));
    let s = kill_source(Some(DamageSource::<u8>::Shockwave), Some(1), Attacker::Player);
    assert!(matches!(s, KillSource::Other));
}

fn share_of(shares: &[(DamageContrib, u64)], key: DamageContrib) -> Option<u64> {
    shares.iter().find(|(k, _)| *k == key).map(|(_, d)| *d)
}

#[test]
fn group_damage_adds_up_and_solo_keeps_latest() {
    let records = vec![
        (DamageContributor::Group(1), 10),
        (DamageContributor::Solo(Some(5)), 4),
        (DamageContributor::Group(1), 15),
        (DamageContributor::Solo(Some(5)), 6),
        (DamageContributor::Solo(None), 2),
        (DamageContributor::Group(2), 1),
    ];
    let shares = damage_shares(&records);
    assert_eq!(shares.len(), 4);
    assert_eq!(share_of(&shares, DamageContrib::Group(1)), Some(25));
    assert_eq!(share_of(&shares, DamageContrib::Solo(5)), Some(6));
    assert_eq!(share_of(&shares, DamageContrib::NotFound), Some(2));
    assert_eq!(share_of(&shares, DamageContrib::Group(2)), Some(1));
}

#[test]
fn no_records_no_shares() {
    assert!(damage_shares(&Vec::new()).is_empty());
}

#[test]
fn exp_rules() {
    assert!(solo_earns_exp(false, false, true));
    assert!(!solo_earns_exp(true, false, true));
    assert!(!solo_earns_exp(false, true, true));
    assert!(!solo_earns_exp(false, false, false));
    assert!(member_earns_exp(true, true, false, None, 3));
    assert!(member_earns_exp(true, true, false, Some(Alignment::Owned(3)), 3));
    assert!(!member_earns_exp(true, true, false, Some(Alignment::Owned(4)), 3));
    assert!(!member_earns_exp(false, true, false, None, 3));
    assert!(!member_earns_exp(true, true, true, Some(Alignment::Npc), 3));
}

#[test]
fn loot_rules() {
    assert!(drops_loot(false, true, true, true, Some(Alignment::Enemy)));
    assert!(!drops_loot(false, true, true, true, Some(Alignment::Owned(1))));
    assert!(!drops_loot(true, true, true, true, None));
    assert!(!drops_loot(false, false, true, true, None));
    assert!(!drops_loot(false, true, false, true, None));
    assert!(!drops_loot(false, true, true, false, None));
    assert_eq!(loot_owner(Some(8), true, 2), Some(LootOwnerKind::Group(8)));
    assert_eq!(loot_owner(None, true, 2), Some(LootOwnerKind::Player(2)));
    assert_eq!(loot_owner(None, false, 2), None);
}

fn facts() -> DestroyFacts {
    DestroyFacts {
        alive: true,
        uid: Some(9),
        is_player: true,
        has_pos: true,
        has_character_state: true,
        is_client: true,
        is_agent: false,
        alignment: None,
        has_inventory: true,
        in_no_durability_area: false,
    }
}

#[test]
fn destroying_a_gone_entity_does_nothing() {
    assert_eq!(destroy_plan(DestroyFacts { alive: false, ..facts() }), None);
}

#[test]
fn a_dead_player_respawns() {
    assert_eq!(
        destroy_plan(facts()),
        Some(DestroySteps {
            death_outcome: true,
            death_message: Some(9),
            respawn: true,
            damage_equipment: true,
            drop_loot: false,
            delete: false,
        })
    );
    let safe = destroy_plan(DestroyFacts { in_no_durability_area: true, ..facts() }).unwrap();
    assert!(!safe.damage_equipment);
}

#[test]
fn a_dead_npc_is_deleted_and_drops_loot() {
    let npc = DestroyFacts { is_player: false, is_client: false, is_agent: true, ..facts() };
    assert_eq!(
        destroy_plan(npc),
        Some(DestroySteps {
            death_outcome: true,
            death_message: None,
            respawn: false,
            damage_equipment: false,
            drop_loot: true,
            delete: true,
        })
    );
    let pet = destroy_plan(DestroyFacts { alignment: Some(Alignment::Owned(1)), ..npc }).unwrap();
    assert!(pet.delete && !pet.drop_loot);
    let no_uid = destroy_plan(DestroyFacts { uid: None, is_player: true, ..npc }).unwrap();
    assert_eq!(no_uid.death_message, None);
}
