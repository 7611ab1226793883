//! The player: credits, ship, cargo hold and where they are.
use vstd::prelude::*;
use crate::models::item::{Inventory, ItemView, total_weight};
use crate::models::ship::{fresh_ship, Ship, ShipType};
use crate::platform::new_uuid_string;

verus! {

/// A player. The star system they are in is kept by its id.
#[derive(Debug)]
pub struct Player {
    pub id: String,
    pub name: String,
    pub credits: u32,
    pub ship: Ship,
    pub inventory: Inventory,
    pub current_system_id: String,
    pub is_docked: bool,
}

impl Player {
    /// The hold holds no item twice and is within its capacity, and the
    /// ship's levels are within their maxima.
    pub open spec fn wf(&self) -> bool {
        &&& self.inventory.wf()
        &&& total_weight(self.inventory@) <= self.inventory.capacity
        &&& self.ship.wf()
    }

    /// A new player in the Sol system, docked, with 5000 credits, a scout
    /// called "Rustbucket" and an empty hold as large as its cargo space.
    pub fn new(name: &str) -> (p: Player)
        ensures
            p.wf(),
            p.name@ == name@,
            p.credits == 5000,
            fresh_ship(p.ship, ShipType::Scout, "Rustbucket"@, (None, None, None, None, None)),
            p.inventory@ == Seq::<(ItemView, u32)>::empty(),
            p.inventory.capacity == p.ship.cargo_capacity,
            p.current_system_id@ == "sol"@,
            p.is_docked,
    {
        let id = new_uuid_string();
        let ship = Ship::new("Rustbucket", ShipType::Scout, None, None, None, None, None);
        let inventory = Inventory::new(ship.cargo_capacity);
        Player {
            id,
            name: String::from_str(name),
            credits: 5000,
            ship,
            inventory,
            current_system_id: String::from_str("sol"),
            is_docked: true,
        }
    }

    /// Adds credits.
    pub fn add_credits(&mut self, amount: u32)
        requires
            old(self).credits + amount <= u32::MAX,
        ensures
            *final(self) == with_credits(*old(self), (old(self).credits + amount) as u32),
    {
        self.credits = self.credits + amount;
    }

    /// Takes credits if the player has that many; says whether it did.
    pub fn remove_credits(&mut self, amount: u32) -> (taken: bool)
        ensures
            taken == (amount <= old(self).credits),
            taken ==> *final(self) == with_credits(*old(self), (old(self).credits - amount) as u32),
            !taken ==> *final(self) == *old(self),
    {
        if amount <= self.credits {
            self.credits = self.credits - amount;
            true
        } else {
            false
        }
    }
}

/// The player after a credit change.
pub open spec fn with_credits(p: Player, credits: u32) -> Player {
    Player { credits, ..p }
}

/// Adding credits and then taking the same amount succeeds and leaves the
/// player as before.
pub proof fn law_add_then_remove_credits(p: Player, amount: u32)
    requires
        p.credits + amount <= u32::MAX,
    ensures
        ({
            let q = with_credits(p, (p.credits + amount) as u32);
            &&& amount <= q.credits
            &&& with_credits(q, (q.credits - amount) as u32) == p
        }),
{
}

} // verus!
