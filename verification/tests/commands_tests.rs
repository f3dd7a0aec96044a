use veloren_server::commands::{
    do_command, get_reason_str, no_sudo, parse_alignment, parse_skill_tree, str_equal, Alignment,
    DisconnectReason, SkillGroupKind, ToolKind,
};
use veloren_server::admin::AdminRole;

#[test]
fn alignments() {
    assert_eq!(parse_alignment(9, "wild").ok(), Some(Alignment::Wild));
    assert_eq!(parse_alignment(9, "enemy").ok(), Some(Alignment::Enemy));
    assert_eq!(parse_alignment(9, "npc").ok(), Some(Alignment::Npc));
    assert_eq!(parse_alignment(9, "pet").ok(), Some(Alignment::Owned(9)));
    match parse_alignment(9, "friend") {
        Err(e) => {
            assert_eq!(e.key, "command-invalid-alignment");
            assert_eq!(e.arg, Some(("alignment".to_string(), "friend".to_string())));
        },
        Ok(_) => panic!("friend is no alignment"),
    }
}

#[test]
fn skill_trees() {
    assert_eq!(parse_skill_tree("general").ok(), Some(SkillGroupKind::General));
    assert_eq!(parse_skill_tree("mining").ok(), Some(SkillGroupKind::Weapon(ToolKind::Pick)));
    assert_eq!(parse_skill_tree("sceptre").ok(), Some(SkillGroupKind::Weapon(ToolKind::Sceptre)));
    let err = parse_skill_tree("Sword").err().unwrap();
    assert_eq!(err.key, "command-invalid-skill-group");
    assert_eq!(err.arg, Some(("group".to_string(), "Sword".to_string())));
}

#[test]
fn sudo_is_refused_on_others() {
    assert!(no_sudo(3, 3).is_ok());
    let err = no_sudo(3, 4).err().unwrap();
    assert_eq!(err.key, "command-no-sudo");
    assert!(err.arg.is_none());
}

#[test]
fn reason_labels() {
    assert_eq!(get_reason_str(&DisconnectReason::Timeout), "timeout");
    assert_eq!(get_reason_str(&DisconnectReason::NetworkError), "network_error");
    assert_eq!(get_reason_str(&DisconnectReason::NewerLogin), "newer_login");
    assert_eq!(get_reason_str(&DisconnectReason::Kicked), "kicked");
    assert_eq!(get_reason_str(&DisconnectReason::ClientRequested), "client_requested");
}

#[test]
fn string_equality() {
    assert!(str_equal("", ""));
    assert!(str_equal("ßa", "ßa"));
    assert!(!str_equal("ab", "abc"));
    assert!(!str_equal("abd", "abc"));
}

#[test]
fn commands_need_the_role() {
    let mut ran = false;
    let res = do_command(Some(AdminRole::Admin), Some(AdminRole::Moderator), "ban", || {
        ran = true;
        7
    });
    assert!(!ran);
    let err = res.err().unwrap();
    assert_eq!(err.key, "command-no-permission");
    assert_eq!(err.arg, Some(("command_name".to_string(), "ban".to_string())));
    let res = do_command(Some(AdminRole::Moderator), Some(AdminRole::Admin), "kick", || Err::<(), u8>(3));
    assert_eq!(res.ok(), Some(Err(3)));
    assert_eq!(do_command(None, None, "help", || 1).ok(), Some(1));
}
