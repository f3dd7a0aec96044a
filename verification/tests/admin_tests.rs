use veloren_server::admin::{
    admin_change, check_event_handler, edit_setting_feedback, get_disconnect_all_clients_requested,
    handle_edit, has_command_permission, parse_whitelist_action, verify_above_role,
    whitelist_removal, AdminChange, AdminRole, DisconnectType, EditFeedback, HandlerCheck,
    SettingError, WhitelistAction, WhitelistRemoval,
};

use AdminRole::{Admin, Moderator};

#[test]
fn command_permission_needs_role_at_least_as_high() {
    assert!(has_command_permission(None, None));
    assert!(has_command_permission(Some(Moderator), Some(Admin)));
    assert!(has_command_permission(Some(Admin), Some(Admin)));
    assert!(!has_command_permission(Some(Admin), Some(Moderator)));
    assert!(!has_command_permission(Some(Moderator), None));
}

#[test]
fn permanent_role_outranks_temporary() {
    assert_eq!(verify_above_role(Some(Moderator), None, None, Some(Admin), "no"), Ok(()));
    assert_eq!(verify_above_role(None, Some(Admin), Some(Moderator), None, "no"), Err("no"));
    assert_eq!(verify_above_role(Some(Admin), Some(Admin), Some(Admin), Some(Moderator), "no"), Ok(()));
    assert_eq!(verify_above_role(Some(Admin), Some(Admin), Some(Admin), Some(Admin), "no"), Err("no"));
}

#[test]
fn admin_changes() {
    assert_eq!(admin_change(None, Admin), AdminChange::Added);
    assert_eq!(admin_change(Some(Admin), Admin), AdminChange::Unchanged);
    assert_eq!(admin_change(Some(Moderator), Admin), AdminChange::Changed(Moderator));
}

#[test]
fn handle_edit_keeps_data_when_edit_took_effect() {
    let ok: Option<(String, Result<(), SettingError<u8, u16>>)> = Some(("done".to_string(), Ok(())));
    assert_eq!(handle_edit(5, ok), Some(5));
    let io = Some(("done".to_string(), Err(SettingError::<u8, u16>::Io(1))));
    assert_eq!(handle_edit(5, io), Some(5));
    let integrity = Some(("done".to_string(), Err(SettingError::<u8, u16>::Integrity(1))));
    assert_eq!(handle_edit(5, integrity), None);
    assert_eq!(handle_edit::<i32, u8, u16>(5, None), None);
}

#[test]
fn edit_feedback_kinds() {
    let none: Option<(String, Result<(), SettingError<u8, u16>>)> = None;
    assert_eq!(edit_setting_feedback(&none), EditFeedback::NoEffect);
    assert_eq!(edit_setting_feedback(&Some(("i".to_string(), Ok::<(), SettingError<u8, u16>>(())))), EditFeedback::Done);
    assert_eq!(
        edit_setting_feedback(&Some(("i".to_string(), Err(SettingError::<u8, u16>::Io(0))))),
        EditFeedback::WriteFailed
    );
    assert_eq!(
        edit_setting_feedback(&Some(("i".to_string(), Err(SettingError::<u8, u16>::Integrity(0))))),
        EditFeedback::IntegrityFailed
    );
}

#[test]
fn disconnect_without_persistence_takes_precedence() {
    assert_eq!(get_disconnect_all_clients_requested(true, true), Some(DisconnectType::WithoutPersistence));
    assert_eq!(get_disconnect_all_clients_requested(false, true), Some(DisconnectType::WithPersistence));
    assert_eq!(get_disconnect_all_clients_requested(false, false), None);
}

#[test]
fn event_handler_counts() {
    assert_eq!(check_event_handler(0), HandlerCheck::NotConsumed);
    assert_eq!(check_event_handler(1), HandlerCheck::Handled);
    assert_eq!(check_event_handler(3), HandlerCheck::MultipleHandlers);
}

use veloren_server::admin::{
    adminify_change, edit_banlist_feedback, parse_admin_role, AdminifyChange, AdminifyError,
    BanOperationError,
};

#[test]
fn admin_role_names_ignore_ascii_case() {
    assert_eq!(parse_admin_role("admin"), Some(Admin));
    assert_eq!(parse_admin_role("ADMIN"), Some(Admin));
    assert_eq!(parse_admin_role("Moderator"), Some(Moderator));
    assert_eq!(parse_admin_role("mod"), None);
    assert_eq!(parse_admin_role("ädmin"), None);
}

#[test]
fn adminify_rules() {
    assert_eq!(adminify_change(Moderator, None, Some(Admin)), Err(AdminifyError::HigherThanOwn));
    assert_eq!(adminify_change(Admin, None, None), Err(AdminifyError::AlreadyHasNoRole));
    assert_eq!(adminify_change(Admin, Some(Moderator), None), Ok(AdminifyChange::Removed(Moderator)));
    assert_eq!(adminify_change(Admin, Some(Admin), Some(Admin)), Err(AdminifyError::AlreadyHasRole));
    assert_eq!(adminify_change(Admin, Some(Admin), Some(Moderator)), Ok(AdminifyChange::Downgraded));
    assert_eq!(adminify_change(Admin, Some(Moderator), Some(Admin)), Ok(AdminifyChange::Upgraded));
    assert_eq!(adminify_change(Moderator, None, Some(Moderator)), Ok(AdminifyChange::Upgraded));
}

#[test]
fn banlist_feedback() {
    assert_eq!(edit_banlist_feedback::<u8, u8>(&Ok(())), EditFeedback::Done);
    assert_eq!(edit_banlist_feedback::<u8, u8>(&Err(BanOperationError::NoEffect)), EditFeedback::NoEffect);
    assert_eq!(
        edit_banlist_feedback::<u8, u8>(&Err(BanOperationError::EditFailed(SettingError::Io(1)))),
        EditFeedback::WriteFailed
    );
    assert_eq!(
        edit_banlist_feedback::<u8, u8>(&Err(BanOperationError::EditFailed(SettingError::Integrity(1)))),
        EditFeedback::IntegrityFailed
    );
}

#[test]
fn whitelist_actions_in_any_case() {
    assert_eq!(parse_whitelist_action("add"), Some(WhitelistAction::Add));
    assert_eq!(parse_whitelist_action("ADD"), Some(WhitelistAction::Add));
    assert_eq!(parse_whitelist_action("Remove"), Some(WhitelistAction::Remove));
    assert_eq!(parse_whitelist_action("delete"), None);
    assert_eq!(parse_whitelist_action("addd"), None);
}

#[test]
fn whitelist_removal_respects_roles() {
    assert_eq!(whitelist_removal(None, Admin), WhitelistRemoval::Unlisted);
    assert_eq!(whitelist_removal(Some(Some(Admin)), Moderator), WhitelistRemoval::PermissionDenied);
    assert_eq!(whitelist_removal(Some(Some(Moderator)), Moderator), WhitelistRemoval::Removed);
    assert_eq!(whitelist_removal(Some(None), Moderator), WhitelistRemoval::Removed);
    assert_eq!(whitelist_removal(Some(Some(Admin)), Admin), WhitelistRemoval::Removed);
}
