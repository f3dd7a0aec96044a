use veloren_server::invite::{
    answer_declines_invitee_trade, can_invite, get_inviter_and_kind, handle_invite_accept,
    invite_step_message, plan_invite, AcceptStep, GroupInfo, Invite, InviteFacts, InviteKind, InvitePlan,
    InviteRefusal, InviteStep,
};

#[test]
fn answering_takes_entry_by_swap_remove() {
    let invite = Invite { inviter: 1, kind: InviteKind::Trade };
    let pending = vec![(10, InviteKind::Group, 'a'), (11, InviteKind::Trade, 'b'), (12, InviteKind::Group, 'c')];
    let (res, rest) = get_inviter_and_kind(10, Some(invite), Some(pending));
    assert_eq!(res, Some((1, InviteKind::Trade)));
    assert_eq!(rest, Some(vec![(12, InviteKind::Group, 'c'), (11, InviteKind::Trade, 'b')]));
}

#[test]
fn answering_last_entry_drops_list() {
    let invite = Invite { inviter: 1, kind: InviteKind::Group };
    let (res, rest) = get_inviter_and_kind(10, Some(invite), Some(vec![(10, InviteKind::Group, ())]));
    assert_eq!(res, Some((1, InviteKind::Group)));
    assert_eq!(rest, None);
}

#[test]
fn answering_without_pending_entry() {
    let invite = Invite { inviter: 1, kind: InviteKind::Group };
    let pending = vec![(11, InviteKind::Group, ())];
    let (res, rest) = get_inviter_and_kind(10, Some(invite), Some(pending.clone()));
    assert_eq!(res, None);
    assert_eq!(rest, Some(pending));
    let (res, rest) = get_inviter_and_kind::<()>(10, Some(invite), None);
    assert_eq!((res, rest), (None, None));
    let (res, rest) = get_inviter_and_kind(10, None, Some(vec![(10, InviteKind::Group, ())]));
    assert_eq!(res, None);
    assert_eq!(rest, Some(vec![(10, InviteKind::Group, ())]));
}

#[test]
fn can_invite_refuses_member_of_own_group() {
    let info = GroupInfo { leader: 1, num_members: 2 };
    let res = can_invite::<()>(1, Some(5), Some(info), Some(5), None, 6);
    assert_eq!(res, Err(InviteRefusal::AlreadyInGroup));
    // Not the leader: the same group does not refuse the invite.
    let info = GroupInfo { leader: 2, num_members: 2 };
    assert_eq!(can_invite::<()>(1, Some(5), Some(info), Some(5), None, 6), Ok(()));
}

#[test]
fn can_invite_counts_members_and_pending_group_invites() {
    let info = GroupInfo { leader: 1, num_members: 4 };
    let pending = vec![(20, InviteKind::Group, ()), (21, InviteKind::Trade, ())];
    assert_eq!(can_invite(1, Some(5), Some(info), None, Some(&pending), 6), Ok(()));
    let pending = vec![(20, InviteKind::Group, ()), (21, InviteKind::Group, ())];
    assert_eq!(
        can_invite(1, Some(5), Some(info), None, Some(&pending), 6),
        Err(InviteRefusal::GroupSizeLimit)
    );
    // Without a group the inviter counts as one member.
    assert_eq!(can_invite::<()>(1, None, None, None, None, 2), Ok(()));
    assert_eq!(can_invite::<()>(1, None, None, None, None, 1), Err(InviteRefusal::GroupSizeLimit));
}

fn facts() -> InviteFacts {
    InviteFacts {
        invitee_exists: true,
        inviting_self: false,
        within_trading_range: true,
        group_check: Ok(()),
        inviter_in_trade: true,
        invitee_has_invite: false,
        invitee_is_client: true,
        inviter_has_uid: true,
        invitee_is_agent: false,
    }
}

#[test]
fn invite_plan_checks_in_order() {
    let f = InviteFacts { invitee_exists: false, ..facts() };
    assert_eq!(plan_invite(InviteKind::Trade, f).step, InviteStep::TargetMissing);
    let f = InviteFacts { inviting_self: true, ..facts() };
    assert_eq!(plan_invite(InviteKind::Trade, f).step, InviteStep::SelfInvite);
    let f = InviteFacts { within_trading_range: false, ..facts() };
    assert_eq!(plan_invite(InviteKind::Trade, f).step, InviteStep::OutOfRange);
    assert_eq!(plan_invite(InviteKind::Group, f).step, InviteStep::SendToClient);
    let f = InviteFacts { group_check: Err(InviteRefusal::GroupSizeLimit), ..facts() };
    assert_eq!(
        plan_invite(InviteKind::Group, f).step,
        InviteStep::Refused(InviteRefusal::GroupSizeLimit)
    );
}

#[test]
fn trade_invite_cancels_current_trade() {
    assert_eq!(plan_invite(InviteKind::Trade, facts()), InvitePlan {
        step: InviteStep::SendToClient,
        cancel_inviter_trade: true
    });
    assert!(!plan_invite(InviteKind::Group, facts()).cancel_inviter_trade);
    let f = InviteFacts { invitee_has_invite: true, ..facts() };
    assert_eq!(plan_invite(InviteKind::Trade, f), InvitePlan {
        step: InviteStep::AlreadyPending,
        cancel_inviter_trade: true
    });
}

#[test]
fn invite_delivery_targets() {
    let f = InviteFacts { invitee_is_client: false, invitee_is_agent: true, ..facts() };
    assert_eq!(plan_invite(InviteKind::Trade, f).step, InviteStep::SendToAgent);
    let f = InviteFacts { inviter_has_uid: false, invitee_is_agent: true, ..facts() };
    assert_eq!(plan_invite(InviteKind::Trade, f).step, InviteStep::SendToAgent);
    let f = InviteFacts { invitee_is_client: false, ..facts() };
    assert_eq!(plan_invite(InviteKind::Trade, f).step, InviteStep::NotInvitable);
}

#[test]
fn accepting_invites() {
    assert_eq!(handle_invite_accept(InviteKind::Group, false, true), AcceptStep::JoinGroup);
    assert_eq!(handle_invite_accept(InviteKind::Trade, false, false), AcceptStep::NoUid);
    assert_eq!(handle_invite_accept(InviteKind::Trade, true, true), AcceptStep::InviterBusy);
    assert_eq!(handle_invite_accept(InviteKind::Trade, true, false), AcceptStep::BeginTrade);
    assert!(answer_declines_invitee_trade(InviteKind::Trade, true, true));
    assert!(!answer_declines_invitee_trade(InviteKind::Trade, false, true));
    assert!(!answer_declines_invitee_trade(InviteKind::Group, true, true));
    assert!(!answer_declines_invitee_trade(InviteKind::Trade, true, false));
}

#[test]
fn invite_step_texts() {
    assert_eq!(invite_step_message(InviteStep::TargetMissing), Some("Invite failed, target does not exist."));
    assert_eq!(
        invite_step_message(InviteStep::Refused(InviteRefusal::AlreadyInGroup)),
        Some("Invite failed, can't invite someone already in your group")
    );
    assert_eq!(
        invite_step_message(InviteStep::Refused(InviteRefusal::GroupSizeLimit)),
        Some("Invite failed, pending invites plus current group size have reached the group size limit")
    );
    assert_eq!(invite_step_message(InviteStep::AlreadyPending), Some("This player already has a pending invite."));
    assert_eq!(invite_step_message(InviteStep::NotInvitable), Some("Can't invite, not a player or npc"));
    assert_eq!(invite_step_message(InviteStep::SendToClient), None);
    assert_eq!(invite_step_message(InviteStep::SelfInvite), None);
}
