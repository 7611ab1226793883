//! Buying and selling one unit at a time, whether the market screen buys or
//! sells, and the pause between trades.
use vstd::prelude::*;
use crate::models::item::{Item, ItemView, add_fits, first_named, law_add_respects_capacity,
    law_remove_releases_weight, quantity_fits_u32, remove_succeeds, total_weight, with_added, with_removed};
use crate::models::player::{Player, with_credits};
use crate::text::{decimal, u64_to_decimal};

verus! {

/// The trading state. Durations are in milliseconds.
#[derive(Debug)]
pub struct TradingSystem {
    pub buy_mode: bool,
    pub transaction_cooldown: u64,
    pub last_transaction: u64,
}

/// The reply when trading away from a station.
pub open spec fn not_docked_text() -> Seq<char> {
    "You must be docked at a station to trade"@
}

/// The reply to a selection past the end of the list.
pub open spec fn invalid_item_text() -> Seq<char> {
    "Invalid item selection"@
}

/// The reply when one unit costs more than the player has.
pub open spec fn cannot_afford_text(name: Seq<char>, price: u32) -> Seq<char> {
    "Cannot afford "@ + name + " (need "@ + decimal(price as nat) + " cr)"@
}

/// The reply when one unit does not fit in the hold.
pub open spec fn no_space_text(name: Seq<char>) -> Seq<char> {
    "Not enough cargo space for "@ + name
}

/// The reply to a purchase.
pub open spec fn purchased_text(name: Seq<char>, price: u32) -> Seq<char> {
    "Purchased 1 "@ + name + " for "@ + decimal(price as nat) + " cr"@
}

/// The reply to a sale.
pub open spec fn sold_text(name: Seq<char>, price: u32) -> Seq<char> {
    "Sold 1 "@ + name + " for "@ + decimal(price as nat) + " cr"@
}

/// The outcome of buying one unit of the `index`-th market entry.
pub open spec fn bought(before: Player, market: Seq<(ItemView, u32)>, index: int, after: Player, reply: Seq<char>) -> bool {
    if !before.is_docked {
        after == before && reply == not_docked_text()
    } else if index >= market.len() {
        after == before && reply == invalid_item_text()
    } else {
        let item = market[index].0;
        if before.credits < item.value {
            after == before && reply == cannot_afford_text(item.name, item.value)
        } else if before.inventory.capacity - total_weight(before.inventory@) < item.weight {
            after == before && reply == no_space_text(item.name)
        } else {
            &&& after.credits == before.credits - item.value
            &&& after.inventory@ == with_added(before.inventory@, item, 1)
            &&& after.inventory.capacity == before.inventory.capacity
            &&& after == Player { credits: after.credits, inventory: after.inventory, ..before }
            &&& reply == purchased_text(item.name, item.value)
        }
    }
}

/// The outcome of selling one unit of the `index`-th entry of the hold for
/// `price` credits: the unit is taken from the first entry of the same name.
pub open spec fn sold(before: Player, index: int, price: u32, after: Player, reply: Seq<char>) -> bool {
    let s = before.inventory@;
    if !before.is_docked {
        after == before && reply == not_docked_text()
    } else if index >= s.len() {
        after == before && reply == invalid_item_text()
    } else {
        let item = s[index].0;
        if remove_succeeds(s, item.name, 1) {
            &&& after.credits == before.credits + price
            &&& after.inventory@ == with_removed(s, item.name, 1)
            &&& after.inventory.capacity == before.inventory.capacity
            &&& after == Player { credits: after.credits, inventory: after.inventory, ..before }
            &&& reply == sold_text(s[first_named(s, item.name)].0.name, price)
        } else {
            after == before && reply == "Error selling item"@
        }
    }
}

impl TradingSystem {
    /// Buying, with half a second between trades.
    pub fn new() -> (t: TradingSystem)
        ensures
            t.buy_mode,
            t.transaction_cooldown == 500,
            t.last_transaction == 0,
    {
        TradingSystem { buy_mode: true, transaction_cooldown: 500, last_transaction: 0 }
    }

    /// Switches between buying (`true`) and selling (`false`).
    pub fn set_buy_mode(&mut self, buy: bool)
        ensures
            final(self).buy_mode == buy,
            final(self).transaction_cooldown == old(self).transaction_cooldown,
            final(self).last_transaction == old(self).last_transaction,
    {
        self.buy_mode = buy;
    }

    /// Whether the market screen buys.
    pub fn is_buy_mode(&self) -> (r: bool)
        ensures
            r == self.buy_mode,
    {
        self.buy_mode
    }

    /// Lets `delta` milliseconds pass; says whether the market prices are
    /// due for an update, which they are once more than a minute has
    /// passed since the last one (the count then starts again).
    pub fn update(&mut self, delta: u64) -> (due: bool)
        requires
            old(self).last_transaction + delta <= u64::MAX,
        ensures
            due == (old(self).last_transaction + delta > 60_000),
            final(self).last_transaction == (if due { 0 } else { (old(self).last_transaction + delta) as u64 }),
            final(self).buy_mode == old(self).buy_mode,
            final(self).transaction_cooldown == old(self).transaction_cooldown,
    {
        self.last_transaction = self.last_transaction + delta;
        if self.last_transaction > 60_000 {
            self.last_transaction = 0;
            true
        } else {
            false
        }
    }

    /// Buys one unit of the `item_index`-th entry of the market of the
    /// system the player is in, if docked, affordable and it fits.
    pub fn buy_item(&mut self, player: &mut Player, market: &Vec<(Item, u32)>, item_index: usize) -> (r: Option<String>)
        requires
            old(player).wf(),
            old(player).is_docked && item_index < market.len() && old(player).credits >= market@[item_index as int].0.value
                && old(player).inventory.capacity - total_weight(old(player).inventory@) >= market@[item_index as int].0.weight
                ==> quantity_fits_u32(old(player).inventory@, market@[item_index as int].0@, 1),
        ensures
            *final(self) == *old(self),
            final(player).wf(),
            r matches Some(text) && bought(
                *old(player),
                market@.map_values(|e: (Item, u32)| (e.0@, e.1)),
                item_index as int,
                *final(player),
                text@,
            ),
    {
        let ghost m = market@.map_values(|e: (Item, u32)| (e.0@, e.1));
        if !player.is_docked {
            return Some(String::from_str("You must be docked at a station to trade"));
        }
        if item_index >= market.len() {
            return Some(String::from_str("Invalid item selection"));
        }
        let item = &market[item_index].0;
        assert(m[item_index as int].0 == item@);
        let price = item.value;
        if player.credits < price {
            let mut t = String::from_str("Cannot afford ");
            t.append(item.name.as_str());
            t.append(" (need ");
            let d = u64_to_decimal(price as u64);
            t.append(d.as_str());
            t.append(" cr)");
            return Some(t);
        }
        if player.inventory.remaining_capacity() < item.weight {
            let mut t = String::from_str("Not enough cargo space for ");
            t.append(item.name.as_str());
            return Some(t);
        }
        let ghost before = *player;
        proof {
            assert(add_fits(before.inventory@, before.inventory.capacity, item@, 1));
            law_add_respects_capacity(before.inventory@, before.inventory.capacity, item@, 1);
        }
        player.remove_credits(price);
        let added = player.inventory.add_item(item.duplicate(), 1);
        assert(added);
        let mut t = String::from_str("Purchased 1 ");
        t.append(item.name.as_str());
        t.append(" for ");
        let d = u64_to_decimal(price as u64);
        t.append(d.as_str());
        t.append(" cr");
        Some(t)
    }

    /// Sells one unit of the `item_index`-th entry of the hold for `price`
    /// credits, if docked. The station pays nine tenths of the item's value,
    /// reckoned in `f32` by the caller.
    pub fn sell_item(&mut self, player: &mut Player, item_index: usize, price: u32) -> (r: Option<String>)
        requires
            old(player).wf(),
            old(player).is_docked && item_index < old(player).inventory@.len() && remove_succeeds(
                old(player).inventory@,
                old(player).inventory@[item_index as int].0.name,
                1,
            ) ==> old(player).credits + price <= u32::MAX,
        ensures
            *final(self) == *old(self),
            final(player).wf(),
            r matches Some(text) && sold(*old(player), item_index as int, price, *final(player), text@),
    {
        if !player.is_docked {
            return Some(String::from_str("You must be docked at a station to trade"));
        }
        if item_index >= player.inventory.items.len() {
            return Some(String::from_str("Invalid item selection"));
        }
        let name = player.inventory.items[item_index].0.name.clone();
        assert(name@ == player.inventory@[item_index as int].0.name);
        let ghost before = *player;
        proof {
            law_remove_releases_weight(before.inventory@, name@, 1);
            if remove_succeeds(before.inventory@, name@, 1) {
                let w = before.inventory@[first_named(before.inventory@, name@)].0.weight;
                assert(w * 1 >= 0) by (nonlinear_arith);
            }
        }
        match player.inventory.remove_item(name.as_str(), 1) {
            Some(removed) => {
                player.add_credits(price);
                let mut t = String::from_str("Sold 1 ");
                t.append(removed.name.as_str());
                t.append(" for ");
                let d = u64_to_decimal(price as u64);
                t.append(d.as_str());
                t.append(" cr");
                Some(t)
            },
            None => {
                Some(String::from_str("Error selling item"))
            },
        }
    }
}

} // verus!

verus! {

/// Buying a unit of an item the hold does not hold yet and selling it
/// straight back leaves the hold as it was and costs the player the
/// station's margin: the price paid less the price the sale fetched.
pub proof fn law_buy_then_sell_back(
    p: Player,
    market: Seq<(ItemView, u32)>,
    idx: int,
    p1: Player,
    r1: Seq<char>,
    p2: Player,
    r2: Seq<char>,
    price: u32,
)
    requires
        p.wf(),
        p.is_docked,
        0 <= idx < market.len(),
        p.credits >= market[idx].0.value,
        p.inventory.capacity - total_weight(p.inventory@) >= market[idx].0.weight,
        first_named(p.inventory@, market[idx].0.name) < 0,
        bought(p, market, idx, p1, r1),
        sold(p1, p.inventory@.len() as int, price, p2, r2),
    ensures
        p2.inventory@ == p.inventory@,
        p2.credits == p.credits - market[idx].0.value + price,
{
    let item = market[idx].0;
    crate::models::item::law_add_then_remove_restores(p.inventory@, item, 1);
    crate::models::item::lemma_first_named_absent_index(p.inventory@, item);
    assert(p1.inventory@ == p.inventory@.push((item, 1u32)));
    assert(p1.inventory@[p.inventory@.len() as int].0 == item);
}

} // verus!
