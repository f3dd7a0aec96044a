use vstd::prelude::*;
use crate::admin::{is_above_role, role_rank, AdminRole};
use crate::collect::{door_of_spec, DoorSprite, LockSprite};
use crate::mine::{mine_blow, MineSprite};
use crate::battle_mode::{buffer_after_pop, buffer_after_push, buffer_lookup, BattleModeSave};
use crate::invite::{
    answered_invite, first_entry_of, group_invite_check, invite_plan_spec, invite_sent, invites_after,
    leads_group, pending_after, pending_of_kind, EntityId, GroupInfo, Invite, InviteFacts, InviteKind,
    InviteRefusal, PendingEntry,
};
use crate::location::{
    is_valid_location_name, location_lookup, locations_after_insert, locations_after_remove, StoredPos,
};
use crate::trade::{
    add_groups, extra_slots, free_space, freed_capacity, full_stack_count, group_delta, has_group,
    offer_valid, offered_stack, offers_valid, populated_slots, receiving_capacity, slot_delta,
    sold_amount, trade_outcome, unstackable_count, unusable_capacity, ItemStack, StackGroup, TradeOffer,
    TradeResult,
};

verus! {

/// A location stored with `Locations::insert` under a fresh valid name is
/// found by `Locations::get` under that name at the position it was
/// given, and every other name finds what it found before; an insert that
/// is refused (an invalid or used name) changes nothing.
pub proof fn law_location_insert_then_get(
    before: Map<Seq<char>, StoredPos>,
    name: Seq<char>,
    pos: StoredPos,
    other: Seq<char>,
)
    ensures
        is_valid_location_name(name) && !before.contains_key(name) ==> location_lookup(
            locations_after_insert(before, name, pos),
            name,
        ) == Some(pos),
        other != name ==> location_lookup(locations_after_insert(before, name, pos), other) == location_lookup(
            before,
            other,
        ),
        !is_valid_location_name(name) || before.contains_key(name) ==> locations_after_insert(
            before,
            name,
            pos,
        ) == before,
{
}

/// After `Locations::remove`, `Locations::get` finds nothing under the
/// name, every other name finds what it found before, and removing the
/// name again changes nothing.
pub proof fn law_location_remove_then_get(before: Map<Seq<char>, StoredPos>, name: Seq<char>, other: Seq<char>)
    ensures
        location_lookup(locations_after_remove(before, name), name) is None,
        other != name ==> location_lookup(locations_after_remove(before, name), other) == location_lookup(
            before,
            other,
        ),
        locations_after_remove(locations_after_remove(before, name), name) == locations_after_remove(
            before,
            name,
        ),
{
    assert(before.remove(name).remove(name) =~= before.remove(name));
}

/// A save pushed into a `BattleModeBuffer` is what `get` then finds and
/// what `pop` then takes out; after that pop, `get` finds nothing and the
/// buffer is as if the character had only been popped.
pub proof fn law_battle_mode_push_get_pop(before: Map<i64, BattleModeSave>, char_id: i64, save: BattleModeSave)
    ensures
        buffer_lookup(buffer_after_push(before, char_id, save), char_id) == Some(save),
        buffer_lookup(buffer_after_pop(buffer_after_push(before, char_id, save), char_id), char_id) is None,
        buffer_after_pop(buffer_after_push(before, char_id, save), char_id) == buffer_after_pop(before, char_id),
{
    assert(before.insert(char_id, save).remove(char_id) =~= before.remove(char_id));
}

/// No two entities each stand above the other, and none stands above
/// itself.
pub proof fn law_above_role_strict(
    a_perm: Option<AdminRole>,
    a_temp: Option<AdminRole>,
    b_perm: Option<AdminRole>,
    b_temp: Option<AdminRole>,
)
    ensures
        !(is_above_role(a_perm, a_temp, b_perm, b_temp) && is_above_role(b_perm, b_temp, a_perm, a_temp)),
        !is_above_role(a_perm, a_temp, a_perm, a_temp),
{
}

/// Answering a pending invite takes exactly one entry out of the inviter's
/// pending list: what remains is one shorter (or gone, when it was the
/// last entry).
pub proof fn law_answer_removes_one_entry<T>(invitee: EntityId, invite: Invite, pending: Seq<PendingEntry<T>>)
    requires
        first_entry_of(pending, invitee) is Some,
    ensures
        answered_invite(invitee, Some(invite), Some(pending)).0 == Some((invite.inviter, invite.kind)),
        match answered_invite(invitee, Some(invite), Some(pending)).1 {
            Some(rest) => rest.len() == pending.len() - 1,
            None => pending.len() == 1,
        },
{
    lemma_first_entry_inside(pending, invitee);
}

/// A found entry lies inside the list.
proof fn lemma_first_entry_inside<T>(pending: Seq<PendingEntry<T>>, invitee: EntityId)
    ensures
        first_entry_of(pending, invitee) matches Some(i) ==> 0 <= i < pending.len(),
    decreases pending.len(),
{
    if pending.len() > 0 {
        lemma_first_entry_inside(pending.drop_last(), invitee);
    }
}

/// An invite that is no longer pending is answered with nothing, and the
/// inviter's pending list stays as it was.
pub proof fn law_answer_without_entry<T>(invitee: EntityId, invite: Invite, pending: Seq<PendingEntry<T>>)
    requires
        first_entry_of(pending, invitee) is None,
    ensures
        answered_invite(invitee, Some(invite), Some(pending)) == (
            None::<(EntityId, InviteKind)>,
            Some(pending),
        ),
{
}

/// An invite request never gives a second invite to an invitee that
/// holds one: where the request is sent, the invitee held none, now holds
/// exactly the new invite (every other holder keeps its own), and the
/// inviter's pending list gains exactly the one entry for it; where it is
/// not sent, neither changes.
pub proof fn law_invite_never_replaces<T>(
    invites: Map<EntityId, Invite>,
    pending: Seq<PendingEntry<T>>,
    inviter: EntityId,
    invitee: EntityId,
    kind: InviteKind,
    facts: InviteFacts,
    deadline: T,
)
    requires
        facts.invitee_has_invite == invites.contains_key(invitee),
    ensures
        invites.contains_key(invitee) ==> invites_after(
            invites,
            invitee,
            Invite { inviter, kind },
            invite_plan_spec(kind, facts),
        ) == invites,
        invite_sent(invite_plan_spec(kind, facts)) ==> {
            let after = invites_after(invites, invitee, Invite { inviter, kind }, invite_plan_spec(kind, facts));
            &&& !invites.contains_key(invitee)
            &&& after[invitee] == Invite { inviter, kind }
            &&& after.remove(invitee) == invites
            &&& pending_after(pending, invitee, kind, deadline, invite_plan_spec(kind, facts)) == pending.push(
                (invitee, kind, deadline),
            )
        },
        !invite_sent(invite_plan_spec(kind, facts)) ==> {
            &&& invites_after(invites, invitee, Invite { inviter, kind }, invite_plan_spec(kind, facts)) == invites
            &&& pending_after(pending, invitee, kind, deadline, invite_plan_spec(kind, facts)) == pending
        },
{
    if invite_sent(invite_plan_spec(kind, facts)) {
        assert(invites.insert(invitee, Invite { inviter, kind }).remove(invitee) =~= invites);
    }
}

/// An inventory never holds more occupied slots than it has slots.
proof fn lemma_populated_at_most_len(inv: Seq<Option<ItemStack>>)
    ensures
        0 <= populated_slots(inv) <= inv.len(),
    decreases inv.len(),
{
    if inv.len() > 0 {
        lemma_populated_at_most_len(inv.drop_last());
    }
}

/// A trade in which neither party offers anything always completes.
pub proof fn law_empty_trade_completes(inv0: Seq<Option<ItemStack>>, inv1: Seq<Option<ItemStack>>)
    ensures
        trade_outcome(inv0, Seq::empty(), inv1, Seq::empty()) == TradeResult::Completed,
{
    lemma_populated_at_most_len(inv0);
    lemma_populated_at_most_len(inv1);
    let groups = add_groups(add_groups(Seq::empty(), inv0, Seq::empty()), inv1, Seq::empty());
    assert(groups.len() == 0);
    assert(slot_delta(groups, inv0, Seq::empty(), inv1, Seq::empty()) == 0);
    assert(slot_delta(groups, inv1, Seq::empty(), inv0, Seq::empty()) == 0);
}

/// A trade in which some offer is not covered by its inventory is
/// declined, whatever else it holds.
pub proof fn law_uncovered_offer_declines(
    inv0: Seq<Option<ItemStack>>,
    offers0: Seq<TradeOffer>,
    inv1: Seq<Option<ItemStack>>,
    offers1: Seq<TradeOffer>,
)
    requires
        !offers_valid(inv0, offers0) || !offers_valid(inv1, offers1),
    ensures
        trade_outcome(inv0, offers0, inv1, offers1) == TradeResult::Declined,
{
}

/// Stackable stacks of one item hold the same most, wherever they lie:
/// the stack size belongs to the item's definition.
pub open spec fn stack_sizes_agree(inv: Seq<Option<ItemStack>>) -> bool {
    forall|i: int, j: int|
        0 <= i < inv.len() && 0 <= j < inv.len() && (#[trigger] inv[i]) is Some && (#[trigger] inv[j]) is Some
            && inv[i]->0.stackable && inv[j]->0.stackable && inv[i]->0.item_id == inv[j]->0.item_id
            ==> inv[i]->0.max_amount == inv[j]->0.max_amount
}

/// The stackable item definitions, with their stack sizes, that valid
/// offers move.
spec fn offered_groups(inv: Seq<Option<ItemStack>>, offers: Seq<TradeOffer>) -> Set<StackGroup>
    decreases offers.len(),
{
    if offers.len() == 0 {
        Set::empty()
    } else {
        let rest = offered_groups(inv, offers.drop_last());
        let s = offered_stack(inv, offers.last());
        if s.stackable && s.amount >= offers.last().quantity {
            rest.insert((s.item_id, s.max_amount))
        } else {
            rest
        }
    }
}

/// No item definition occurs twice.
spec fn ids_distinct(groups: Seq<StackGroup>) -> bool {
    forall|i: int, j: int| 0 <= i < j < groups.len() ==> (#[trigger] groups[i]).0 != (#[trigger] groups[j]).0
}

/// Groups of one item definition have one stack size.
spec fn sizes_agree(groups: Set<StackGroup>) -> bool {
    forall|p: StackGroup, q: StackGroup| #[trigger] groups.contains(p) && #[trigger] groups.contains(q) && p.0 == q.0
        ==> p.1 == q.1
}

/// What `add_groups` adds is the offered groups, without repeats.
proof fn lemma_add_groups_set(acc: Seq<StackGroup>, inv: Seq<Option<ItemStack>>, offers: Seq<TradeOffer>)
    requires
        ids_distinct(acc),
        sizes_agree(acc.to_set().union(offered_groups(inv, offers))),
    ensures
        ids_distinct(add_groups(acc, inv, offers)),
        add_groups(acc, inv, offers).to_set() == acc.to_set().union(offered_groups(inv, offers)),
    decreases offers.len(),
{
    if offers.len() > 0 {
        let rest = offers.drop_last();
        assert(offered_groups(inv, rest).subset_of(offered_groups(inv, offers)));
        assert(acc.to_set().union(offered_groups(inv, rest)).subset_of(
            acc.to_set().union(offered_groups(inv, offers)),
        ));
        lemma_add_groups_set(acc, inv, rest);
        let g = add_groups(acc, inv, rest);
        let s = offered_stack(inv, offers.last());
        let p = (s.item_id, s.max_amount);
        if s.stackable && s.amount >= offers.last().quantity {
            if has_group(g, s.item_id) {
                let k = choose|k: int| 0 <= k < g.len() && (#[trigger] g[k]).0 == s.item_id;
                assert(g.to_set().contains(g[k]));
                assert(offered_groups(inv, offers).contains(p));
                let whole = acc.to_set().union(offered_groups(inv, offers));
                assert(whole.contains(g[k]) && whole.contains(p));
                assert(g[k] == p);
                assert(g.to_set() == acc.to_set().union(offered_groups(inv, offers)));
            } else {
                let r = g.push(p);
                assert forall|i: int, j: int| 0 <= i < j < r.len() implies (#[trigger] r[i]).0 != (#[trigger] r[j]).0 by {
                    if j == g.len() {
                        assert(r[i] == g[i]);
                    } else {
                        assert(r[i] == g[i] && r[j] == g[j]);
                    }
                }
                assert(r.to_set() =~= g.to_set().insert(p)) by {
                    assert forall|x: StackGroup| r.to_set().contains(x) implies g.to_set().insert(p).contains(x) by {
                        let i = choose|i: int| 0 <= i < r.len() && r[i] == x;
                        if i < g.len() {
                            assert(r[i] == g[i]);
                        }
                    }
                    assert forall|x: StackGroup| g.to_set().insert(p).contains(x) implies r.to_set().contains(x) by {
                        if x == p {
                            assert(r[g.len() as int] == p);
                        } else {
                            let i = choose|i: int| 0 <= i < g.len() && g[i] == x;
                            assert(r[i] == x);
                        }
                    }
                }
                assert(r.to_set() =~= acc.to_set().union(offered_groups(inv, offers)));
            }
        } else {
            assert(offered_groups(inv, offers) == offered_groups(inv, rest));
        }
    }
}

/// The terms of the slot change sum up over the groups in any order.
proof fn lemma_group_delta_remove(
    groups: Seq<StackGroup>,
    k: int,
    inv_w: Seq<Option<ItemStack>>,
    offers_w: Seq<TradeOffer>,
    inv_o: Seq<Option<ItemStack>>,
    offers_o: Seq<TradeOffer>,
)
    requires
        0 <= k < groups.len(),
    ensures
        group_delta(groups, inv_w, offers_w, inv_o, offers_o) == group_delta(
            groups.remove(k),
            inv_w,
            offers_w,
            inv_o,
            offers_o,
        ) - full_stack_count(inv_w, offers_w, groups[k].0) + extra_slots(
            sold_amount(inv_o, offers_o, groups[k].0),
            receiving_capacity(inv_w, offers_w, groups[k].0, groups[k].1),
            groups[k].1,
        ),
    decreases groups.len(),
{
    if k == groups.len() - 1 {
        assert(groups.remove(k) =~= groups.drop_last());
    } else {
        lemma_group_delta_remove(groups.drop_last(), k, inv_w, offers_w, inv_o, offers_o);
        assert(groups.drop_last().remove(k) =~= groups.remove(k).drop_last());
        assert(groups.remove(k).last() == groups.last());
        assert(groups.drop_last()[k] == groups[k]);
    }
}

proof fn lemma_group_delta_same_set(
    a: Seq<StackGroup>,
    b: Seq<StackGroup>,
    inv_w: Seq<Option<ItemStack>>,
    offers_w: Seq<TradeOffer>,
    inv_o: Seq<Option<ItemStack>>,
    offers_o: Seq<TradeOffer>,
)
    requires
        ids_distinct(a),
        ids_distinct(b),
        a.to_set() == b.to_set(),
    ensures
        group_delta(a, inv_w, offers_w, inv_o, offers_o) == group_delta(b, inv_w, offers_w, inv_o, offers_o),
    decreases a.len(),
{
    if a.len() == 0 {
        if b.len() > 0 {
            assert(b.to_set().contains(b[0]));
        }
    } else {
        let x = a.last();
        assert(a.to_set().contains(x));
        let k = choose|k: int| 0 <= k < b.len() && b[k] == x;
        let a2 = a.drop_last();
        let b2 = b.remove(k);
        assert forall|i: int, j: int| 0 <= i < j < b2.len() implies (#[trigger] b2[i]).0 != (#[trigger] b2[j]).0 by {
            let bi = if i < k { i } else { i + 1 };
            let bj = if j < k { j } else { j + 1 };
            assert(b2[i] == b[bi] && b2[j] == b[bj]);
        }
        assert(a2.to_set() =~= b2.to_set()) by {
            assert forall|y: StackGroup| a2.to_set().contains(y) implies b2.to_set().contains(y) by {
                let i = choose|i: int| 0 <= i < a2.len() && a2[i] == y;
                assert(a.to_set().contains(y));
                let j = choose|j: int| 0 <= j < b.len() && b[j] == y;
                assert(a[i] == y && i != a.len() - 1);
                assert(y.0 != x.0);
                assert(j != k);
                if j < k {
                    assert(b2[j] == y);
                } else {
                    assert(b2[j - 1] == y);
                }
            }
            assert forall|y: StackGroup| b2.to_set().contains(y) implies a2.to_set().contains(y) by {
                let j = choose|j: int| 0 <= j < b2.len() && b2[j] == y;
                let bj = if j < k { j } else { j + 1 };
                assert(b[bj] == y);
                assert(b.to_set().contains(y));
                let i = choose|i: int| 0 <= i < a.len() && a[i] == y;
                assert(y.0 != x.0);
                assert(i != a.len() - 1);
                assert(a2[i] == y);
            }
        }
        lemma_group_delta_same_set(a2, b2, inv_w, offers_w, inv_o, offers_o);
        lemma_group_delta_remove(b, k, inv_w, offers_w, inv_o, offers_o);
    }
}

/// The groups that valid offers move are stacks of the inventory.
proof fn lemma_offered_groups_in_inventory(inv: Seq<Option<ItemStack>>, offers: Seq<TradeOffer>, p: StackGroup)
    requires
        offers_valid(inv, offers),
        offered_groups(inv, offers).contains(p),
    ensures
        exists|i: int|
            0 <= i < inv.len() && (#[trigger] inv[i]) is Some && inv[i]->0.stackable && inv[i]->0.item_id == p.0
                && inv[i]->0.max_amount == p.1,
    decreases offers.len(),
{
    let rest = offers.drop_last();
    assert(offers_valid(inv, rest)) by {
        assert forall|i: int| 0 <= i < rest.len() implies crate::trade::offer_valid(inv, #[trigger] rest[i]) by {
            assert(rest[i] == offers[i]);
        }
    }
    if offered_groups(inv, rest).contains(p) {
        lemma_offered_groups_in_inventory(inv, rest, p);
    } else {
        let o = offers.last();
        assert(crate::trade::offer_valid(inv, offers[offers.len() - 1]));
        assert(inv[o.slot as int] is Some);
    }
}

/// Which party is named first does not change how a trade ends, so long
/// as stacks of one item share one stack size (as the item's definition
/// fixes it).
pub proof fn law_trade_symmetric(
    inv0: Seq<Option<ItemStack>>,
    offers0: Seq<TradeOffer>,
    inv1: Seq<Option<ItemStack>>,
    offers1: Seq<TradeOffer>,
)
    requires
        stack_sizes_agree(inv0 + inv1),
    ensures
        trade_outcome(inv0, offers0, inv1, offers1) == trade_outcome(inv1, offers1, inv0, offers0),
{
    if offers_valid(inv0, offers0) && offers_valid(inv1, offers1) {
        let s0 = offered_groups(inv0, offers0);
        let s1 = offered_groups(inv1, offers1);
        let all = inv0 + inv1;
        assert(sizes_agree(s0.union(s1))) by {
            assert forall|p: StackGroup, q: StackGroup|
                #[trigger] s0.union(s1).contains(p) && #[trigger] s0.union(s1).contains(q) && p.0 == q.0 implies p.1
                == q.1 by {
                let ip: int = if s0.contains(p) {
                    lemma_offered_groups_in_inventory(inv0, offers0, p);
                    let i = choose|i: int|
                        0 <= i < inv0.len() && (#[trigger] inv0[i]) is Some && inv0[i]->0.stackable
                            && inv0[i]->0.item_id == p.0 && inv0[i]->0.max_amount == p.1;
                    assert(all[i] == inv0[i]);
                    i
                } else {
                    lemma_offered_groups_in_inventory(inv1, offers1, p);
                    let i = choose|i: int|
                        0 <= i < inv1.len() && (#[trigger] inv1[i]) is Some && inv1[i]->0.stackable
                            && inv1[i]->0.item_id == p.0 && inv1[i]->0.max_amount == p.1;
                    assert(all[inv0.len() + i] == inv1[i]);
                    inv0.len() + i
                };
                let iq: int = if s0.contains(q) {
                    lemma_offered_groups_in_inventory(inv0, offers0, q);
                    let i = choose|i: int|
                        0 <= i < inv0.len() && (#[trigger] inv0[i]) is Some && inv0[i]->0.stackable
                            && inv0[i]->0.item_id == q.0 && inv0[i]->0.max_amount == q.1;
                    assert(all[i] == inv0[i]);
                    i
                } else {
                    lemma_offered_groups_in_inventory(inv1, offers1, q);
                    let i = choose|i: int|
                        0 <= i < inv1.len() && (#[trigger] inv1[i]) is Some && inv1[i]->0.stackable
                            && inv1[i]->0.item_id == q.0 && inv1[i]->0.max_amount == q.1;
                    assert(all[inv0.len() + i] == inv1[i]);
                    inv0.len() + i
                };
                assert(all[ip] is Some && all[iq] is Some);
            }
        }
        let empty = Seq::<StackGroup>::empty();
        assert(empty.to_set() =~= Set::<StackGroup>::empty());
        assert(s0.subset_of(s0.union(s1)) && s1.subset_of(s0.union(s1)));
        assert(sizes_agree(empty.to_set().union(s0)));
        assert(sizes_agree(empty.to_set().union(s1)));
        lemma_add_groups_set(empty, inv0, offers0);
        lemma_add_groups_set(empty, inv1, offers1);
        let g0 = add_groups(empty, inv0, offers0);
        let g1 = add_groups(empty, inv1, offers1);
        assert(g0.to_set().union(s1) =~= s0.union(s1));
        assert(g1.to_set().union(s0) =~= s0.union(s1));
        lemma_add_groups_set(g0, inv1, offers1);
        lemma_add_groups_set(g1, inv0, offers0);
        let ga = add_groups(g0, inv1, offers1);
        let gb = add_groups(g1, inv0, offers0);
        assert(ga.to_set() =~= gb.to_set());
        lemma_group_delta_same_set(ga, gb, inv0, offers0, inv1, offers1);
        lemma_group_delta_same_set(ga, gb, inv1, offers1, inv0, offers0);
    }
}

/// An offer hands over the whole of a stackable stack of `id`.
pub open spec fn hands_over_whole_stack(inv: Seq<Option<ItemStack>>, id: u64) -> spec_fn(TradeOffer) -> bool {
    |o: TradeOffer|
        inv[o.slot as int]->0.stackable && inv[o.slot as int]->0.item_id == id && inv[o.slot as int]->0.amount
            == o.quantity
}

/// The whole stacks a trade removes from a party are exactly its offers
/// that hand over the whole of a stackable stack of the item: each such
/// stack frees its slot.
pub proof fn law_whole_stacks_counted(inv: Seq<Option<ItemStack>>, offers: Seq<TradeOffer>, id: u64)
    ensures
        full_stack_count(inv, offers, id) == offers.filter(hands_over_whole_stack(inv, id)).len(),
    decreases offers.len(),
{
    reveal(Seq::filter);
    if offers.len() > 0 {
        law_whole_stacks_counted(inv, offers.drop_last(), id);
    }
}

/// No stack of `id` in the inventory holds more than `max`.
pub open spec fn stacks_fit(inv: Seq<Option<ItemStack>>, id: u64, max: u32) -> bool {
    forall|i: int|
        0 <= i < inv.len() && (#[trigger] inv[i]) is Some && inv[i]->0.item_id == id ==> inv[i]->0.amount <= max
}

proof fn lemma_free_space_bounds(inv: Seq<Option<ItemStack>>, id: u64, max: u32, i: int)
    requires
        stacks_fit(inv, id, max),
    ensures
        free_space(inv, id, max) >= 0,
        0 <= i < inv.len() && inv[i] is Some && inv[i]->0.item_id == id ==> free_space(inv, id, max) >= max
            - inv[i]->0.amount,
    decreases inv.len(),
{
    if inv.len() > 0 {
        let rest = inv.drop_last();
        assert(stacks_fit(rest, id, max)) by {
            assert forall|j: int| 0 <= j < rest.len() && (#[trigger] rest[j]) is Some && rest[j]->0.item_id == id implies rest[j]->0.amount
                <= max by {
                assert(rest[j] == inv[j]);
            }
        }
        if 0 <= i < inv.len() - 1 {
            lemma_free_space_bounds(rest, id, max, i);
            assert(rest[i] == inv[i]);
        } else {
            lemma_free_space_bounds(rest, id, max, -1);
        }
        let last = inv.last();
        if last is Some && last->0.item_id == id {
            assert(inv[inv.len() - 1] == last);
        }
    }
}

/// Handing over a whole stack frees its slot: where one party gives the
/// whole of a stackable stack (not a full one) and the other gives one
/// unstackable item, the trade goes through, however full the two
/// inventories are, so long as no stack of the item holds more than its
/// stack size.
pub proof fn law_whole_stack_for_item_completes(
    inv_a: Seq<Option<ItemStack>>,
    offer_a: TradeOffer,
    inv_b: Seq<Option<ItemStack>>,
    offer_b: TradeOffer,
)
    requires
        offer_valid(inv_a, offer_a),
        offer_valid(inv_b, offer_b),
        offered_stack(inv_a, offer_a).stackable,
        offered_stack(inv_a, offer_a).amount == offer_a.quantity,
        offered_stack(inv_a, offer_a).amount < offered_stack(inv_a, offer_a).max_amount,
        !offered_stack(inv_b, offer_b).stackable,
        stacks_fit(inv_a, offered_stack(inv_a, offer_a).item_id, offered_stack(inv_a, offer_a).max_amount),
        stacks_fit(inv_b, offered_stack(inv_a, offer_a).item_id, offered_stack(inv_a, offer_a).max_amount),
    ensures
        trade_outcome(inv_a, seq![offer_a], inv_b, seq![offer_b]) == TradeResult::Completed,
{
    let s = offered_stack(inv_a, offer_a);
    let id = s.item_id;
    let max = s.max_amount;
    let oa = seq![offer_a];
    let ob = seq![offer_b];
    let empty = Seq::<StackGroup>::empty();
    assert(oa.drop_last() =~= Seq::<TradeOffer>::empty());
    assert(ob.drop_last() =~= Seq::<TradeOffer>::empty());
    assert(oa.last() == offer_a);
    assert(ob.last() == offer_b);
    assert(offers_valid(inv_a, oa)) by {
        assert forall|i: int| 0 <= i < oa.len() implies offer_valid(inv_a, #[trigger] oa[i]) by {
            assert(oa[i] == offer_a);
        }
    }
    assert(offers_valid(inv_b, ob)) by {
        assert forall|i: int| 0 <= i < ob.len() implies offer_valid(inv_b, #[trigger] ob[i]) by {
            assert(ob[i] == offer_b);
        }
    }
    assert(!has_group(empty, id));
    assert(add_groups(empty, inv_a, Seq::<TradeOffer>::empty()) == empty);
    let g0 = add_groups(empty, inv_a, oa);
    assert(g0 == empty.push((id, max)));
    assert(add_groups(g0, inv_b, Seq::<TradeOffer>::empty()) == g0);
    let groups = add_groups(g0, inv_b, ob);
    assert(groups == g0);
    assert(groups.drop_last() =~= empty);
    assert(groups.last() == (id, max));
    let none = Seq::<TradeOffer>::empty();
    assert(full_stack_count(inv_a, none, id) == 0);
    assert(full_stack_count(inv_b, none, id) == 0);
    assert(full_stack_count(inv_a, oa, id) == full_stack_count(inv_a, oa.drop_last(), id) + 1);
    assert(full_stack_count(inv_a, oa, id) == 1);
    assert(full_stack_count(inv_b, ob, id) == full_stack_count(inv_b, ob.drop_last(), id) + 0);
    assert(full_stack_count(inv_b, ob, id) == 0);
    assert(sold_amount(inv_a, none, id) == 0);
    assert(sold_amount(inv_b, none, id) == 0);
    assert(sold_amount(inv_b, ob, id) == sold_amount(inv_b, ob.drop_last(), id) + 0);
    assert(sold_amount(inv_b, ob, id) == 0);
    assert(sold_amount(inv_a, oa, id) == sold_amount(inv_a, oa.drop_last(), id) + offer_a.quantity);
    assert(sold_amount(inv_a, oa, id) == s.amount);
    assert(unusable_capacity(inv_a, none, id, max) == 0);
    assert(unusable_capacity(inv_b, none, id, max) == 0);
    assert(unusable_capacity(inv_a, oa, id, max) == unusable_capacity(inv_a, oa.drop_last(), id, max) + (max
        - s.amount));
    assert(unusable_capacity(inv_a, oa, id, max) == max - s.amount);
    assert(unusable_capacity(inv_b, ob, id, max) == unusable_capacity(inv_b, ob.drop_last(), id, max) + 0);
    assert(unusable_capacity(inv_b, ob, id, max) == 0);
    assert(freed_capacity(inv_a, none, id) == 0);
    assert(freed_capacity(inv_b, none, id) == 0);
    assert(freed_capacity(inv_a, oa, id) == freed_capacity(inv_a, oa.drop_last(), id) + 0);
    assert(freed_capacity(inv_a, oa, id) == 0);
    assert(freed_capacity(inv_b, ob, id) == freed_capacity(inv_b, ob.drop_last(), id) + 0);
    assert(freed_capacity(inv_b, ob, id) == 0);
    assert(unstackable_count(inv_a, none) == 0);
    assert(unstackable_count(inv_b, none) == 0);
    assert(unstackable_count(inv_a, oa) == unstackable_count(inv_a, oa.drop_last()) + 0);
    assert(unstackable_count(inv_a, oa) == 0);
    assert(unstackable_count(inv_b, ob) == unstackable_count(inv_b, ob.drop_last()) + 1);
    assert(unstackable_count(inv_b, ob) == 1);
    lemma_free_space_bounds(inv_a, id, max, offer_a.slot as int);
    lemma_free_space_bounds(inv_b, id, max, -1);
    let cap_a = receiving_capacity(inv_a, oa, id, max);
    let cap_b = receiving_capacity(inv_b, ob, id, max);
    assert(cap_a >= 0);
    assert(cap_b >= 0);
    assert(extra_slots(0, cap_a, max) == 0);
    assert(extra_slots(s.amount as int, cap_b, max) <= 1) by {
        if cap_b < s.amount {
            let d = s.amount - cap_b;
            assert(0 < d < max);
            assert(d / (max as int) == 0) by (nonlinear_arith)
                requires
                    0 < d < max,
            ;
        }
    }
    assert(group_delta(empty, inv_a, oa, inv_b, ob) == 0);
    assert(group_delta(empty, inv_b, ob, inv_a, oa) == 0);
    assert(group_delta(groups, inv_a, oa, inv_b, ob) == -1 + extra_slots(0, cap_a, max));
    assert(group_delta(groups, inv_b, ob, inv_a, oa) == 0 + extra_slots(s.amount as int, cap_b, max));
    assert(slot_delta(groups, inv_a, oa, inv_b, ob) == 0);
    assert(slot_delta(groups, inv_b, ob, inv_a, oa) <= 0);
    lemma_populated_at_most_len(inv_a);
    lemma_populated_at_most_len(inv_b);
}

/// Where the permanent roles of client and player rank the same (both
/// none included), the temporary roles decide: the client stands above
/// the player exactly when its temporary role ranks higher.
pub proof fn law_temporary_role_decides_between_equals(
    client_perm: Option<AdminRole>,
    client_temp: Option<AdminRole>,
    player_perm: Option<AdminRole>,
    player_temp: Option<AdminRole>,
)
    requires
        role_rank(client_perm) == role_rank(player_perm),
    ensures
        is_above_role(client_perm, client_temp, player_perm, player_temp) <==> role_rank(client_temp) > role_rank(
            player_temp,
        ),
{
}

/// A higher permanent role stands above any player whatever the temporary
/// roles, and a lower one never does.
pub proof fn law_permanent_role_dominates(
    client_perm: Option<AdminRole>,
    client_temp: Option<AdminRole>,
    player_perm: Option<AdminRole>,
    player_temp: Option<AdminRole>,
)
    ensures
        role_rank(client_perm) > role_rank(player_perm) ==> is_above_role(client_perm, client_temp, player_perm, player_temp),
        role_rank(client_perm) < role_rank(player_perm) ==> !is_above_role(client_perm, client_temp, player_perm, player_temp),
{
}

/// A block that breaks always gives up its items, whatever its drop
/// interval, and is emptied.
pub proof fn law_broken_block_drops(damage: Option<u8>, sprite: Option<MineSprite>)
    ensures
        mine_blow(damage, sprite).broken ==> mine_blow(damage, sprite).drops,
        mine_blow(damage, sprite).broken ==> !mine_blow(damage, sprite).keep_block,
        mine_blow(damage, sprite).stage_changed ==> mine_blow(damage, sprite).drops,
{
}

/// Each lock opens its own kind of door, and no two locks open the same
/// kind.
pub proof fn law_each_lock_opens_its_own_door(a: LockSprite, b: LockSprite)
    ensures
        door_of_spec(a) == door_of_spec(b) ==> a == b,
        door_of_spec(LockSprite::Keyhole) == DoorSprite::KeyDoor,
        door_of_spec(LockSprite::BoneKeyhole) == DoorSprite::BoneKeyDoor,
        door_of_spec(LockSprite::HaniwaKeyhole) == DoorSprite::HaniwaKeyDoor,
        door_of_spec(LockSprite::SahaginKeyhole) == DoorSprite::SahaginKeyDoor,
        door_of_spec(LockSprite::GlassKeyhole) == DoorSprite::GlassBarrier,
        door_of_spec(LockSprite::KeyholeBars) == DoorSprite::DoorBars,
        door_of_spec(LockSprite::TerracottaKeyhole) == DoorSprite::TerracottaKeyDoor,
{
}

/// Is a pending invite a group invite.
pub open spec fn is_group_invite<T>() -> spec_fn(PendingEntry<T>) -> bool {
    |e: PendingEntry<T>| e.1 == InviteKind::Group
}

proof fn lemma_pending_groups_filter<T>(pending: Seq<PendingEntry<T>>)
    ensures
        pending_of_kind(pending, InviteKind::Group) == pending.filter(is_group_invite::<T>()).len(),
    decreases pending.len(),
{
    reveal(Seq::filter);
    if pending.len() > 0 {
        lemma_pending_groups_filter(pending.drop_last());
    }
}

/// The group size limit counts every pending group invite of the
/// inviter, whether it leads a group or not: an invite is refused for the
/// limit exactly when the inviter's group (its members where it leads the
/// group, itself alone otherwise) together with its pending group invites
/// reaches the limit, unless the invitee is already in the group the
/// inviter leads.
pub proof fn law_group_limit_counts_pending<T>(
    inviter: EntityId,
    inviter_group: Option<u64>,
    info: Option<GroupInfo>,
    invitee_group: Option<u64>,
    pending: Seq<PendingEntry<T>>,
    max_group_size: u32,
)
    ensures
        !leads_group(inviter, inviter_group, info) ==> group_invite_check(
            inviter,
            inviter_group,
            info,
            invitee_group,
            Some(pending),
            max_group_size,
        ) == (if 1 + pending.filter(is_group_invite::<T>()).len() >= max_group_size {
            Err::<(), InviteRefusal>(InviteRefusal::GroupSizeLimit)
        } else {
            Ok(())
        }),
        leads_group(inviter, inviter_group, info) && invitee_group != inviter_group ==> group_invite_check(
            inviter,
            inviter_group,
            info,
            invitee_group,
            Some(pending),
            max_group_size,
        ) == (if info->0.num_members + pending.filter(is_group_invite::<T>()).len() >= max_group_size {
            Err::<(), InviteRefusal>(InviteRefusal::GroupSizeLimit)
        } else {
            Ok(())
        }),
{
    lemma_pending_groups_filter(pending);
}

/// One more pending invite never lifts a refusal for the group size
/// limit.
pub proof fn law_more_pending_never_lifts_limit<T>(
    inviter: EntityId,
    inviter_group: Option<u64>,
    info: Option<GroupInfo>,
    invitee_group: Option<u64>,
    pending: Seq<PendingEntry<T>>,
    entry: PendingEntry<T>,
    max_group_size: u32,
)
    requires
        group_invite_check(inviter, inviter_group, info, invitee_group, Some(pending), max_group_size) == Err::<
            (),
            InviteRefusal,
        >(InviteRefusal::GroupSizeLimit),
    ensures
        group_invite_check(inviter, inviter_group, info, invitee_group, Some(pending.push(entry)), max_group_size)
            == Err::<(), InviteRefusal>(InviteRefusal::GroupSizeLimit),
{
    lemma_pending_groups_filter(pending);
    lemma_pending_groups_filter(pending.push(entry));
    assert(pending.push(entry).drop_last() =~= pending);
}

} // verus!
