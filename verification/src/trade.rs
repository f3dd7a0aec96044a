use vstd::prelude::*;

verus! {

/// A stack of items in one inventory slot.  `item_id` tells item
/// definitions apart; `max_amount` is the most that one stack of this item
/// may hold.
#[derive(Clone, Copy, PartialEq, Eq, Structural, Debug)]
pub struct ItemStack {
    pub item_id: u64,
    pub amount: u32,
    pub max_amount: u32,
    pub stackable: bool,
}

/// One entry of a trade offer: how many items a party gives from one of
/// its inventory slots.
#[derive(Clone, Copy, PartialEq, Eq, Structural, Debug)]
pub struct TradeOffer {
    pub slot: usize,
    pub quantity: u32,
}

/// How a trade that both parties accepted ends.
#[derive(Clone, Copy, PartialEq, Eq, Structural, Debug)]
pub enum TradeResult {
    Completed,
    Declined,
    NotEnoughSpace,
}

/// A stackable item definition that the trade moves, with the stack size
/// of its first offered stack.
pub type StackGroup = (u64, u32);

/// An offer names an occupied slot holding at least the offered amount, and
/// only a stackable item may be split.
pub open spec fn offer_valid(inv: Seq<Option<ItemStack>>, offer: TradeOffer) -> bool {
    &&& offer.slot < inv.len()
    &&& inv[offer.slot as int] is Some
    &&& inv[offer.slot as int]->0.amount >= offer.quantity
    &&& inv[offer.slot as int]->0.amount > offer.quantity ==> inv[offer.slot as int]->0.stackable
}

pub open spec fn offers_valid(inv: Seq<Option<ItemStack>>, offers: Seq<TradeOffer>) -> bool {
    forall|i: int| 0 <= i < offers.len() ==> offer_valid(inv, #[trigger] offers[i])
}

/// The stack that an offer takes from.
pub open spec fn offered_stack(inv: Seq<Option<ItemStack>>, offer: TradeOffer) -> ItemStack {
    inv[offer.slot as int]->0
}

/// The offer hands over a whole stack of `id`.
pub open spec fn is_full_stack_of(inv: Seq<Option<ItemStack>>, offer: TradeOffer, id: u64) -> bool {
    let s = offered_stack(inv, offer);
    s.stackable && s.item_id == id && s.amount == offer.quantity
}

/// The offer hands over part of a stack of `id`.
pub open spec fn is_partial_stack_of(inv: Seq<Option<ItemStack>>, offer: TradeOffer, id: u64) -> bool {
    let s = offered_stack(inv, offer);
    s.stackable && s.item_id == id && s.amount > offer.quantity
}

/// How many offers move an unstackable item (each one a whole slot).
pub open spec fn unstackable_count(inv: Seq<Option<ItemStack>>, offers: Seq<TradeOffer>) -> int
    decreases offers.len(),
{
    if offers.len() == 0 {
        0
    } else {
        unstackable_count(inv, offers.drop_last()) + if !offered_stack(inv, offers.last()).stackable {
            1int
        } else {
            0int
        }
    }
}

/// How many whole stacks of `id` the offers hand over.
pub open spec fn full_stack_count(inv: Seq<Option<ItemStack>>, offers: Seq<TradeOffer>, id: u64) -> int
    decreases offers.len(),
{
    if offers.len() == 0 {
        0
    } else {
        full_stack_count(inv, offers.drop_last(), id) + if is_full_stack_of(inv, offers.last(), id) {
            1int
        } else {
            0int
        }
    }
}

/// How many items of `id` the offers hand over.
pub open spec fn sold_amount(inv: Seq<Option<ItemStack>>, offers: Seq<TradeOffer>, id: u64) -> int
    decreases offers.len(),
{
    if offers.len() == 0 {
        0
    } else {
        sold_amount(inv, offers.drop_last(), id) + if is_full_stack_of(inv, offers.last(), id)
            || is_partial_stack_of(inv, offers.last(), id) {
            offers.last().quantity as int
        } else {
            0int
        }
    }
}

/// The room left in the whole stacks of `id` that the offers hand over:
/// once given away, those stacks can no longer take items in.
pub open spec fn unusable_capacity(
    inv: Seq<Option<ItemStack>>,
    offers: Seq<TradeOffer>,
    id: u64,
    max: u32,
) -> int
    decreases offers.len(),
{
    if offers.len() == 0 {
        0
    } else {
        unusable_capacity(inv, offers.drop_last(), id, max) + if is_full_stack_of(inv, offers.last(), id) {
            max - offered_stack(inv, offers.last()).amount
        } else {
            0int
        }
    }
}

/// The room that partial stacks of `id` gain by handing items over.
pub open spec fn freed_capacity(inv: Seq<Option<ItemStack>>, offers: Seq<TradeOffer>, id: u64) -> int
    decreases offers.len(),
{
    if offers.len() == 0 {
        0
    } else {
        freed_capacity(inv, offers.drop_last(), id) + if is_partial_stack_of(inv, offers.last(), id) {
            offers.last().quantity as int
        } else {
            0int
        }
    }
}

/// The room left in all stacks of `id` in an inventory.
pub open spec fn free_space(inv: Seq<Option<ItemStack>>, id: u64, max: u32) -> int
    decreases inv.len(),
{
    if inv.len() == 0 {
        0
    } else {
        free_space(inv.drop_last(), id, max) + match inv.last() {
            Some(s) => if s.item_id == id {
                max - s.amount
            } else {
                0int
            },
            None => 0int,
        }
    }
}

/// The number of occupied slots.
pub open spec fn populated_slots(inv: Seq<Option<ItemStack>>) -> int
    decreases inv.len(),
{
    if inv.len() == 0 {
        0
    } else {
        populated_slots(inv.drop_last()) + if inv.last() is Some {
            1int
        } else {
            0int
        }
    }
}

pub open spec fn has_group(groups: Seq<StackGroup>, id: u64) -> bool {
    exists|i: int| 0 <= i < groups.len() && (#[trigger] groups[i]).0 == id
}

/// Extends `acc` with each stackable item definition that the offers move
/// and that it does not hold yet, in the order the offers name them.
pub open spec fn add_groups(
    acc: Seq<StackGroup>,
    inv: Seq<Option<ItemStack>>,
    offers: Seq<TradeOffer>,
) -> Seq<StackGroup>
    decreases offers.len(),
{
    if offers.len() == 0 {
        acc
    } else {
        let g = add_groups(acc, inv, offers.drop_last());
        let s = offered_stack(inv, offers.last());
        if s.stackable && s.amount >= offers.last().quantity && !has_group(g, s.item_id) {
            g.push((s.item_id, s.max_amount))
        } else {
            g
        }
    }
}

/// The stackable item definitions that a trade moves.
pub open spec fn trade_groups(
    inv0: Seq<Option<ItemStack>>,
    offers0: Seq<TradeOffer>,
    inv1: Seq<Option<ItemStack>>,
    offers1: Seq<TradeOffer>,
) -> Seq<StackGroup> {
    add_groups(add_groups(Seq::empty(), inv0, offers0), inv1, offers1)
}

/// The room a receiving party has for items of a group: the room in its
/// stacks, less what it can no longer use, plus what it frees.
pub open spec fn receiving_capacity(
    inv: Seq<Option<ItemStack>>,
    offers: Seq<TradeOffer>,
    id: u64,
    max: u32,
) -> int {
    free_space(inv, id, max) - unusable_capacity(inv, offers, id, max) + freed_capacity(inv, offers, id)
}

/// Slots needed for the items that do not fit into existing stacks.
pub open spec fn extra_slots(sold: int, capacity: int, max: u32) -> int {
    if capacity < sold {
        (sold - capacity) / (max as int) + 1
    } else {
        0
    }
}

/// The change in occupied slots of a party `w`, trading with party `o`,
/// due to the stackable groups.
pub open spec fn group_delta(
    groups: Seq<StackGroup>,
    inv_w: Seq<Option<ItemStack>>,
    offers_w: Seq<TradeOffer>,
    inv_o: Seq<Option<ItemStack>>,
    offers_o: Seq<TradeOffer>,
) -> int
    decreases groups.len(),
{
    if groups.len() == 0 {
        0
    } else {
        let (id, max) = groups.last();
        group_delta(groups.drop_last(), inv_w, offers_w, inv_o, offers_o) - full_stack_count(
            inv_w,
            offers_w,
            id,
        ) + extra_slots(
            sold_amount(inv_o, offers_o, id),
            receiving_capacity(inv_w, offers_w, id, max),
            max,
        )
    }
}

/// The change in occupied slots of party `w` when it trades with party `o`.
pub open spec fn slot_delta(
    groups: Seq<StackGroup>,
    inv_w: Seq<Option<ItemStack>>,
    offers_w: Seq<TradeOffer>,
    inv_o: Seq<Option<ItemStack>>,
    offers_o: Seq<TradeOffer>,
) -> int {
    unstackable_count(inv_o, offers_o) - unstackable_count(inv_w, offers_w) + group_delta(
        groups,
        inv_w,
        offers_w,
        inv_o,
        offers_o,
    )
}

/// The outcome of a trade between two inventories.
pub open spec fn trade_outcome(
    inv0: Seq<Option<ItemStack>>,
    offers0: Seq<TradeOffer>,
    inv1: Seq<Option<ItemStack>>,
    offers1: Seq<TradeOffer>,
) -> TradeResult {
    let groups = trade_groups(inv0, offers0, inv1, offers1);
    if !(offers_valid(inv0, offers0) && offers_valid(inv1, offers1)) {
        TradeResult::Declined
    } else if populated_slots(inv0) + slot_delta(groups, inv0, offers0, inv1, offers1) > inv0.len()
        || populated_slots(inv1) + slot_delta(groups, inv1, offers1, inv0, offers0) > inv1.len() {
        TradeResult::NotEnoughSpace
    } else {
        TradeResult::Completed
    }
}

/// Inventories and offers small enough for the slot arithmetic, with every
/// stackable item able to hold at least one item per stack.
pub open spec fn trade_sizes_ok(inv: Seq<Option<ItemStack>>, offers: Seq<TradeOffer>) -> bool {
    &&& inv.len() <= u32::MAX
    &&& offers.len() <= u32::MAX
    &&& forall|i: int| 0 <= i < inv.len() && (#[trigger] inv[i]) is Some && inv[i]->0.stackable
        ==> inv[i]->0.max_amount >= 1
}


/// Checks every offer against the inventory it draws from.
fn all_offers_valid(inv: &Vec<Option<ItemStack>>, offers: &Vec<TradeOffer>) -> (ok: bool)
    ensures
        ok == offers_valid(inv@, offers@),
{
    let mut i: usize = 0;
    while i < offers.len()
        invariant
            i <= offers.len(),
            forall|j: int| 0 <= j < i ==> offer_valid(inv@, #[trigger] offers@[j]),
        decreases offers.len() - i,
    {
        let offer = offers[i];
        if offer.slot >= inv.len() {
            return false;
        }
        match inv[offer.slot] {
            None => {
                return false;
            },
            Some(item) => {
                if item.amount < offer.quantity {
                    return false;
                }
                if item.amount > offer.quantity && !item.stackable {
                    return false;
                }
            },
        }
        i = i + 1;
    }
    true
}

/// Counts the offers that move an unstackable item.
fn count_unstackable(inv: &Vec<Option<ItemStack>>, offers: &Vec<TradeOffer>) -> (n: u64)
    requires
        offers_valid(inv@, offers@),
        offers@.len() <= u32::MAX,
    ensures
        n == unstackable_count(inv@, offers@),
        n <= offers@.len(),
{
    let mut n: u64 = 0;
    let mut i: usize = 0;
    while i < offers.len()
        invariant
            i <= offers.len(),
            offers@.len() <= u32::MAX,
            offers_valid(inv@, offers@),
            n == unstackable_count(inv@, offers@.take(i as int)),
            n <= i,
        decreases offers.len() - i,
    {
        assert(offer_valid(inv@, offers@[i as int]));
        let item = inv[offers[i].slot].unwrap();
        if !item.stackable {
            n = n + 1;
        }
        assert(offers@.take(i + 1).drop_last() =~= offers@.take(i as int));
        i = i + 1;
    }
    assert(offers@.take(offers.len() as int) =~= offers@);
    n
}

/// Counts the occupied slots.
fn count_populated(inv: &Vec<Option<ItemStack>>) -> (n: u64)
    requires
        inv@.len() <= u32::MAX,
    ensures
        n == populated_slots(inv@),
        n <= inv@.len(),
{
    let mut n: u64 = 0;
    let mut i: usize = 0;
    while i < inv.len()
        invariant
            i <= inv.len(),
            inv@.len() <= u32::MAX,
            n == populated_slots(inv@.take(i as int)),
            n <= i,
        decreases inv.len() - i,
    {
        if inv[i].is_some() {
            n = n + 1;
        }
        assert(inv@.take(i + 1).drop_last() =~= inv@.take(i as int));
        i = i + 1;
    }
    assert(inv@.take(inv.len() as int) =~= inv@);
    n
}


/// Whether a group for `id` is already listed.
fn find_group(groups: &Vec<StackGroup>, id: u64) -> (found: bool)
    ensures
        found == has_group(groups@, id),
{
    let mut i: usize = 0;
    while i < groups.len()
        invariant
            i <= groups.len(),
            forall|j: int| 0 <= j < i ==> (#[trigger] groups@[j]).0 != id,
        decreases groups.len() - i,
    {
        if groups[i].0 == id {
            return true;
        }
        i = i + 1;
    }
    false
}

/// Lists, after those already in `groups`, the stackable item definitions
/// that the offers move.
fn collect_groups(groups: &mut Vec<StackGroup>, inv: &Vec<Option<ItemStack>>, offers: &Vec<TradeOffer>)
    requires
        offers_valid(inv@, offers@),
    ensures
        final(groups)@ == add_groups(old(groups)@, inv@, offers@),
        final(groups)@.len() <= old(groups)@.len() + offers@.len(),
{
    let ghost start = groups@;
    let mut i: usize = 0;
    while i < offers.len()
        invariant
            i <= offers.len(),
            offers_valid(inv@, offers@),
            groups@ == add_groups(start, inv@, offers@.take(i as int)),
            groups@.len() <= start.len() + i,
        decreases offers.len() - i,
    {
        assert(offer_valid(inv@, offers@[i as int]));
        let offer = offers[i];
        let item = inv[offer.slot].unwrap();
        assert(offers@.take(i + 1).drop_last() =~= offers@.take(i as int));
        if item.stackable && item.amount >= offer.quantity && !find_group(groups, item.item_id) {
            groups.push((item.item_id, item.max_amount));
        }
        i = i + 1;
    }
    assert(offers@.take(offers.len() as int) =~= offers@);
}

/// The per-group totals of one party's offers: whole stacks handed over,
/// items handed over, room made unusable and room freed.
fn group_totals(inv: &Vec<Option<ItemStack>>, offers: &Vec<TradeOffer>, id: u64, max: u32) -> (totals: (
    u64,
    u128,
    i128,
    u128,
))
    requires
        offers_valid(inv@, offers@),
        offers@.len() <= u32::MAX,
    ensures
        totals.0 == full_stack_count(inv@, offers@, id),
        totals.1 == sold_amount(inv@, offers@, id),
        totals.2 == unusable_capacity(inv@, offers@, id, max),
        totals.3 == freed_capacity(inv@, offers@, id),
        totals.0 <= offers@.len(),
        totals.1 <= offers@.len() * 0xffff_ffff,
        -(offers@.len() * 0xffff_ffff) <= totals.2 <= offers@.len() * 0xffff_ffff,
        totals.3 <= offers@.len() * 0xffff_ffff,
{
    let mut full: u64 = 0;
    let mut sold: u128 = 0;
    let mut unusable: i128 = 0;
    let mut freed: u128 = 0;
    let mut i: usize = 0;
    while i < offers.len()
        invariant
            i <= offers.len(),
            offers@.len() <= u32::MAX,
            offers_valid(inv@, offers@),
            full == full_stack_count(inv@, offers@.take(i as int), id),
            sold == sold_amount(inv@, offers@.take(i as int), id),
            unusable == unusable_capacity(inv@, offers@.take(i as int), id, max),
            freed == freed_capacity(inv@, offers@.take(i as int), id),
            full <= i,
            sold <= i * 0xffff_ffff,
            -(i * 0xffff_ffff) <= unusable <= i * 0xffff_ffff,
            freed <= i * 0xffff_ffff,
        decreases offers.len() - i,
    {
        assert(offer_valid(inv@, offers@[i as int]));
        let offer = offers[i];
        let item = inv[offer.slot].unwrap();
        if item.stackable && item.item_id == id {
            if item.amount == offer.quantity {
                full = full + 1;
                sold = sold + offer.quantity as u128;
                unusable = unusable + (max as i128 - item.amount as i128);
            } else if item.amount > offer.quantity {
                sold = sold + offer.quantity as u128;
                freed = freed + offer.quantity as u128;
            }
        }
        assert(offers@.take(i + 1).drop_last() =~= offers@.take(i as int));
        i = i + 1;
    }
    assert(offers@.take(offers.len() as int) =~= offers@);
    (full, sold, unusable, freed)
}

/// The room left in all stacks of `id` in an inventory.
fn group_free_space(inv: &Vec<Option<ItemStack>>, id: u64, max: u32) -> (room: i128)
    requires
        inv@.len() <= u32::MAX,
    ensures
        room == free_space(inv@, id, max),
        -(inv@.len() * 0xffff_ffff) <= room <= inv@.len() * 0xffff_ffff,
{
    let mut room: i128 = 0;
    let mut i: usize = 0;
    while i < inv.len()
        invariant
            i <= inv.len(),
            inv@.len() <= u32::MAX,
            room == free_space(inv@.take(i as int), id, max),
            -(i * 0xffff_ffff) <= room <= i * 0xffff_ffff,
        decreases inv.len() - i,
    {
        match inv[i] {
            Some(item) => {
                if item.item_id == id {
                    room = room + (max as i128 - item.amount as i128);
                }
            },
            None => {},
        }
        assert(inv@.take(i + 1).drop_last() =~= inv@.take(i as int));
        i = i + 1;
    }
    assert(inv@.take(inv.len() as int) =~= inv@);
    room
}


/// Every group holds a stack size of at least one when the stacks it comes
/// from do.
proof fn lemma_group_sizes_positive(acc: Seq<StackGroup>, inv: Seq<Option<ItemStack>>, offers: Seq<TradeOffer>)
    requires
        forall|i: int| 0 <= i < acc.len() ==> (#[trigger] acc[i]).1 >= 1,
        offers_valid(inv, offers),
        trade_sizes_ok(inv, offers),
    ensures
        forall|i: int| 0 <= i < add_groups(acc, inv, offers).len() ==> (#[trigger] add_groups(acc, inv, offers)[i]).1 >= 1,
    decreases offers.len(),
{
    if offers.len() > 0 {
        let rest = offers.drop_last();
        assert forall|i: int| 0 <= i < rest.len() implies offer_valid(inv, #[trigger] rest[i]) by {
            assert(rest[i] == offers[i]);
        }
        lemma_group_sizes_positive(acc, inv, rest);
        let last = offers.last();
        assert(offer_valid(inv, offers[offers.len() - 1]));
        assert(inv[last.slot as int] is Some);
        let s = offered_stack(inv, last);
        assert(s.stackable ==> s.max_amount >= 1);
        let g = add_groups(acc, inv, rest);
        let out = add_groups(acc, inv, offers);
        assert forall|i: int| 0 <= i < out.len() implies (#[trigger] out[i]).1 >= 1 by {
            if i < g.len() {
                assert(out[i] == g[i]);
            }
        }
    }
}

/// The slots needed for items that do not fit into existing stacks.
fn count_extra_slots(sold: i128, capacity: i128, max: u32) -> (n: i128)
    requires
        max >= 1,
        0 <= sold <= 0x1_0000_0000_0000_0000,
        -0x4_0000_0000_0000_0000 <= capacity <= 0x4_0000_0000_0000_0000,
    ensures
        n == extra_slots(sold as int, capacity as int, max),
        0 <= n <= 0x8_0000_0000_0000_0000,
{
    if capacity < sold {
        let surplus: i128 = sold - capacity;
        assert((surplus as int) / (max as int) <= surplus as int) by (nonlinear_arith)
            requires
                surplus >= 0,
                max >= 1,
        ;
        surplus / (max as i128) + 1
    } else {
        0
    }
}

/// Decides how a trade that both parties accepted ends, before any item
/// moves: a missing inventory or an offer that its inventory cannot cover
/// declines the trade; a party whose occupied slots would exceed its
/// capacity ends it for want of space; otherwise the items can change
/// hands.  Whole stacks of stackable items free their slots, and stackable
/// items first fill the receiver's partial stacks, then take new slots.
pub fn check_trade_commit(
    inv0: Option<&Vec<Option<ItemStack>>>,
    offers0: &Vec<TradeOffer>,
    inv1: Option<&Vec<Option<ItemStack>>>,
    offers1: &Vec<TradeOffer>,
) -> (result: TradeResult)
    requires
        inv0 matches Some(a) ==> trade_sizes_ok(a@, offers0@),
        inv1 matches Some(b) ==> trade_sizes_ok(b@, offers1@),
    ensures
        (match (inv0, inv1) {
            (Some(a), Some(b)) => result == trade_outcome(a@, offers0@, b@, offers1@),
            _ => result == TradeResult::Declined,
        }),
{
    let a = match inv0 {
        Some(a) => a,
        None => {
            return TradeResult::Declined;
        },
    };
    let b = match inv1 {
        Some(b) => b,
        None => {
            return TradeResult::Declined;
        },
    };
    if !all_offers_valid(a, offers0) || !all_offers_valid(b, offers1) {
        return TradeResult::Declined;
    }
    let mut groups: Vec<StackGroup> = Vec::new();
    collect_groups(&mut groups, a, offers0);
    collect_groups(&mut groups, b, offers1);
    proof {
        assert(groups@ == trade_groups(a@, offers0@, b@, offers1@));
        lemma_group_sizes_positive(Seq::empty(), a@, offers0@);
        lemma_group_sizes_positive(add_groups(Seq::empty(), a@, offers0@), b@, offers1@);
    }
    let u0: i128 = count_unstackable(a, offers0) as i128;
    let u1: i128 = count_unstackable(b, offers1) as i128;
    let mut d0: i128 = u1 - u0;
    let mut d1: i128 = u0 - u1;
    let mut k: usize = 0;
    while k < groups.len()
        invariant
            k <= groups.len(),
            groups@.len() <= 0x2_0000_0000,
            forall|i: int| 0 <= i < groups@.len() ==> (#[trigger] groups@[i]).1 >= 1,
            trade_sizes_ok(a@, offers0@),
            trade_sizes_ok(b@, offers1@),
            offers_valid(a@, offers0@),
            offers_valid(b@, offers1@),
            -0x1_0000_0000 <= u0 <= 0x1_0000_0000,
            -0x1_0000_0000 <= u1 <= 0x1_0000_0000,
            d0 == u1 - u0 + group_delta(groups@.take(k as int), a@, offers0@, b@, offers1@),
            d1 == u0 - u1 + group_delta(groups@.take(k as int), b@, offers1@, a@, offers0@),
            -(0x2_0000_0000 + k * 0x10_0000_0000_0000_0000) <= d0 <= 0x2_0000_0000 + k * 0x10_0000_0000_0000_0000,
            -(0x2_0000_0000 + k * 0x10_0000_0000_0000_0000) <= d1 <= 0x2_0000_0000 + k * 0x10_0000_0000_0000_0000,
        decreases groups.len() - k,
    {
        let (id, max) = groups[k];
        assert(groups@[k as int].1 >= 1);
        let t0 = group_totals(a, offers0, id, max);
        let t1 = group_totals(b, offers1, id, max);
        let f0 = group_free_space(a, id, max);
        let f1 = group_free_space(b, id, max);
        let cap0: i128 = f0 - t0.2 + t0.3 as i128;
        let cap1: i128 = f1 - t1.2 + t1.3 as i128;
        let into0 = count_extra_slots(t1.1 as i128, cap0, max);
        let into1 = count_extra_slots(t0.1 as i128, cap1, max);
        d0 = d0 - t0.0 as i128 + into0;
        d1 = d1 - t1.0 as i128 + into1;
        proof {
            assert(groups@.take(k + 1).drop_last() =~= groups@.take(k as int));
            assert(groups@.take(k + 1).last() == groups@[k as int]);
        }
        k = k + 1;
    }
    assert(groups@.take(groups.len() as int) =~= groups@);
    let p0: i128 = count_populated(a) as i128;
    let p1: i128 = count_populated(b) as i128;
    if p0 + d0 > a.len() as i128 || p1 + d1 > b.len() as i128 {
        TradeResult::NotEnoughSpace
    } else {
        TradeResult::Completed
    }
}

} // verus!
