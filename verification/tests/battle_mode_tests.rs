use veloren_server::battle_mode::{parse_battle_mode, BattleMode, BattleModeBuffer};

#[test]
fn push_then_get_and_pop() {
    let mut buffer = BattleModeBuffer::default();
    assert!(buffer.get(&7).is_none());
    buffer.push(7, (BattleMode::PvP, 42));
    assert_eq!(buffer.get(&7), Some(&(BattleMode::PvP, 42)));
    buffer.push(7, (BattleMode::PvE, 43));
    assert_eq!(buffer.get(&7), Some(&(BattleMode::PvE, 43)));
    assert_eq!(buffer.pop(&7), Some((BattleMode::PvE, 43)));
    assert_eq!(buffer.pop(&7), None);
    assert!(buffer.get(&7).is_none());
}

#[test]
fn characters_are_kept_apart() {
    let mut buffer = BattleModeBuffer::new();
    buffer.push(1, (BattleMode::PvP, 1));
    buffer.push(-2, (BattleMode::PvE, 2));
    assert_eq!(buffer.pop(&1), Some((BattleMode::PvP, 1)));
    assert_eq!(buffer.get(&-2), Some(&(BattleMode::PvE, 2)));
}

#[test]
fn battle_mode_names() {
    assert_eq!(parse_battle_mode("pvp"), Some(BattleMode::PvP));
    assert_eq!(parse_battle_mode("pve"), Some(BattleMode::PvE));
    assert_eq!(parse_battle_mode("PvP"), None);
    assert_eq!(parse_battle_mode(""), None);
}
