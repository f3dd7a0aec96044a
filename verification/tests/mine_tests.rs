use veloren_server::mine::{mine_step, mining_exp, MineSprite};

const ORE: MineSprite = MineSprite { required_damage: Some(4), drop_interval: 2 };

#[test]
fn blows_count_up_to_breaking() {
    let s = mine_step(true, true, Some(0), Some(ORE)).unwrap();
    assert_eq!(s.damage, Some(1));
    assert!(!s.broken && !s.stage_changed && !s.drops && s.keep_block);
    let s = mine_step(true, true, Some(1), Some(ORE)).unwrap();
    assert_eq!(s.damage, Some(2));
    assert!(!s.broken && s.stage_changed && s.drops && s.keep_block);
    let s = mine_step(true, true, Some(3), Some(ORE)).unwrap();
    assert_eq!(s.damage, Some(4));
    assert!(s.broken && s.stage_changed && s.drops && !s.keep_block);
}

#[test]
fn damage_saturates() {
    let s = mine_step(true, true, Some(255), Some(MineSprite { required_damage: None, drop_interval: 5 })).unwrap();
    assert_eq!(s.damage, Some(255));
    assert!(s.broken && s.stage_changed);
}

#[test]
fn blocks_without_damage_or_sprite() {
    let s = mine_step(true, true, None, Some(ORE)).unwrap();
    assert_eq!(s.damage, None);
    assert!(!s.broken && !s.drops && !s.keep_block);
    let s = mine_step(true, true, Some(7), None).unwrap();
    assert_eq!(s.damage, Some(8));
    assert!(!s.broken && !s.stage_changed && s.keep_block);
}

#[test]
fn exp_for_breaking() {
    let exps = vec![Some(3), None, Some(4)];
    assert_eq!(mining_exp(true, true, true, true, &exps), Some(7));
    assert_eq!(mining_exp(false, true, true, true, &exps), None);
    assert_eq!(mining_exp(true, false, true, true, &exps), None);
    assert_eq!(mining_exp(true, true, false, true, &exps), None);
    assert_eq!(mining_exp(true, true, true, false, &exps), None);
    assert_eq!(mining_exp(true, true, true, true, &vec![None, Some(0)]), None);
}

#[test]
fn nothing_happens_without_a_settable_block_and_fitting_tool() {
    assert_eq!(mine_step(false, true, Some(3), Some(ORE)), None);
    assert_eq!(mine_step(true, false, Some(3), Some(ORE)), None);
}
