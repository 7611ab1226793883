//! Ship classes.
use vstd::prelude::*;
use crate::models::item::ResourceType;
use crate::text::{decimal, u64_to_decimal};

verus! {

/// The classes of ship a player can fly.
#[derive(Debug, Clone, Copy, PartialEq, Eq, Structural)]
pub enum ShipType {
    Scout,
    Freighter,
    Miner,
    Fighter,
}

/// The display name of a ship class.
pub open spec fn ship_type_name(t: ShipType) -> Seq<char> {
    match t {
        ShipType::Scout => "Scout"@,
        ShipType::Freighter => "Freighter"@,
        ShipType::Miner => "Miner"@,
        ShipType::Fighter => "Fighter"@,
    }
}

impl ShipType {
    /// The display name of this ship class.
    pub fn to_string(&self) -> (s: String)
        ensures
            s@ == ship_type_name(*self),
    {
        let s = match self {
            ShipType::Scout => "Scout",
            ShipType::Freighter => "Freighter",
            ShipType::Miner => "Miner",
            ShipType::Fighter => "Fighter",
        };
        String::from_str(s)
    }
}

/// A ship. The fuel used per light year is kept in tenths of a unit (the
/// classes use 0.8, 1.5, 1.2 and 1.0); the distance-based fuel figures that
/// need it are floating point and not part of this library.
#[derive(Debug, Clone)]
pub struct Ship {
    pub name: String,
    pub ship_type: ShipType,
    pub hull: u32,
    pub max_hull: u32,
    pub shield: u32,
    pub max_shield: u32,
    pub cargo_capacity: u32,
    pub speed: u32,
    pub jump_range: u32,
    pub weapon_power: u32,
    pub mining_power: u32,
    pub mineral_bay_capacity: u32,
    pub gas_bay_capacity: u32,
    pub ice_bay_capacity: u32,
    pub exotic_bay_capacity: u32,
    pub fuel_capacity: u32,
    pub current_fuel: u32,
    pub fuel_consumption_tenths: u32,
}

/// Hull, cargo, speed, jump range, weapon and mining power of a class.
pub open spec fn class_stats(t: ShipType) -> (u32, u32, u32, u32, u32, u32) {
    match t {
        ShipType::Scout => (100, 20, 100, 10, 5, 2),
        ShipType::Freighter => (200, 100, 60, 6, 2, 1),
        ShipType::Miner => (150, 50, 70, 7, 3, 10),
        ShipType::Fighter => (120, 15, 90, 8, 10, 1),
    }
}

/// Mineral, gas, ice and exotic bay capacities of a class.
pub open spec fn class_bays(t: ShipType) -> (u32, u32, u32, u32) {
    match t {
        ShipType::Miner => (30, 10, 10, 5),
        ShipType::Freighter => (10, 10, 10, 5),
        _ => (5, 5, 5, 2),
    }
}

/// Fuel capacity and consumption (in tenths per light year) of a class.
pub open spec fn class_fuel(t: ShipType) -> (u32, u32) {
    match t {
        ShipType::Scout => (800, 8),
        ShipType::Freighter => (1500, 15),
        ShipType::Miner => (1000, 12),
        ShipType::Fighter => (600, 10),
    }
}

/// The value given, or the default when none is.
pub open spec fn or_default(o: Option<u32>, d: u32) -> u32 {
    match o {
        Some(v) => v,
        None => d,
    }
}

/// Whether `s` is a new ship of class `t` named `name`, with the class's
/// figures except the overrides given.
pub open spec fn fresh_ship(s: Ship, t: ShipType, name: Seq<char>, o: (Option<u32>, Option<u32>, Option<u32>, Option<u32>, Option<u32>)) -> bool {
    &&& s.wf()
    &&& s.name@ == name
    &&& s.ship_type == t
    &&& s.hull == class_stats(t).0 && s.max_hull == s.hull
    &&& s.shield == class_stats(t).0 / 2 && s.max_shield == s.shield
    &&& s.cargo_capacity == or_default(o.0, class_stats(t).1)
    &&& s.speed == or_default(o.1, class_stats(t).2)
    &&& s.jump_range == or_default(o.2, class_stats(t).3)
    &&& s.weapon_power == or_default(o.3, class_stats(t).4)
    &&& s.mining_power == or_default(o.4, class_stats(t).5)
    &&& (s.mineral_bay_capacity, s.gas_bay_capacity, s.ice_bay_capacity, s.exotic_bay_capacity) == class_bays(t)
    &&& (s.fuel_capacity, s.fuel_consumption_tenths) == class_fuel(t)
    &&& s.current_fuel == s.fuel_capacity
}

/// The specialised bay capacities as text.
pub open spec fn bays_text(s: Ship) -> Seq<char> {
    "Mining Bays: Mineral: 0/"@ + decimal(s.mineral_bay_capacity as nat) + " | Gas: 0/"@ + decimal(
        s.gas_bay_capacity as nat,
    ) + " | Ice: 0/"@ + decimal(s.ice_bay_capacity as nat) + " | Exotic: 0/"@ + decimal(s.exotic_bay_capacity as nat)
}

/// Everything but hull and shield is as before.
pub open spec fn same_but_defences(a: Ship, b: Ship) -> bool {
    b == Ship { hull: b.hull, shield: b.shield, ..a }
}

/// The ship after `amount` damage, and whether that destroyed it: the
/// shield absorbs what it can, the hull takes the rest.
pub open spec fn damaged(before: Ship, amount: u32, after: Ship, destroyed: bool) -> bool {
    &&& same_but_defences(before, after)
    &&& before.shield >= amount ==> !destroyed && after.shield == before.shield - amount && after.hull == before.hull
    &&& before.shield < amount ==> after.shield == 0 && (if before.hull <= amount - before.shield {
        destroyed && after.hull == 0
    } else {
        !destroyed && after.hull == before.hull - (amount - before.shield)
    })
}

impl Ship {
    /// Levels never exceed their maxima.
    pub open spec fn wf(&self) -> bool {
        &&& self.hull <= self.max_hull
        &&& self.shield <= self.max_shield
        &&& self.current_fuel <= self.fuel_capacity
    }

    /// A new ship of class `ship_type`: the class's figures unless
    /// overridden, shields at half the hull, and a full tank.
    pub fn new(
        name: &str,
        ship_type: ShipType,
        cargo_override: Option<u32>,
        speed_override: Option<u32>,
        jump_range_override: Option<u32>,
        weapon_power_override: Option<u32>,
        mining_power_override: Option<u32>,
    ) -> (s: Ship)
        ensures
            s.wf(),
            s.name@ == name@,
            s.ship_type == ship_type,
            s.hull == class_stats(ship_type).0 && s.max_hull == s.hull,
            s.shield == class_stats(ship_type).0 / 2 && s.max_shield == s.shield,
            s.cargo_capacity == or_default(cargo_override, class_stats(ship_type).1),
            s.speed == or_default(speed_override, class_stats(ship_type).2),
            s.jump_range == or_default(jump_range_override, class_stats(ship_type).3),
            s.weapon_power == or_default(weapon_power_override, class_stats(ship_type).4),
            s.mining_power == or_default(mining_power_override, class_stats(ship_type).5),
            (s.mineral_bay_capacity, s.gas_bay_capacity, s.ice_bay_capacity, s.exotic_bay_capacity) == class_bays(
                ship_type,
            ),
            (s.fuel_capacity, s.fuel_consumption_tenths) == class_fuel(ship_type),
            s.current_fuel == s.fuel_capacity,
    {
        let (hull, cargo, speed, jump_range, weapon_power, mining_power): (u32, u32, u32, u32, u32, u32) =
            match ship_type {
            ShipType::Scout => (100, 20, 100, 10, 5, 2),
            ShipType::Freighter => (200, 100, 60, 6, 2, 1),
            ShipType::Miner => (150, 50, 70, 7, 3, 10),
            ShipType::Fighter => (120, 15, 90, 8, 10, 1),
        };
        let (mineral_bay, gas_bay, ice_bay, exotic_bay): (u32, u32, u32, u32) = match ship_type {
            ShipType::Miner => (30, 10, 10, 5),
            ShipType::Freighter => (10, 10, 10, 5),
            _ => (5, 5, 5, 2),
        };
        let (fuel_capacity, fuel_consumption_tenths): (u32, u32) = match ship_type {
            ShipType::Scout => (800, 8),
            ShipType::Freighter => (1500, 15),
            ShipType::Miner => (1000, 12),
            ShipType::Fighter => (600, 10),
        };
        Ship {
            name: String::from_str(name),
            ship_type,
            hull,
            max_hull: hull,
            shield: hull / 2,
            max_shield: hull / 2,
            cargo_capacity: match cargo_override {
                Some(v) => v,
                None => cargo,
            },
            speed: match speed_override {
                Some(v) => v,
                None => speed,
            },
            jump_range: match jump_range_override {
                Some(v) => v,
                None => jump_range,
            },
            weapon_power: match weapon_power_override {
                Some(v) => v,
                None => weapon_power,
            },
            mining_power: match mining_power_override {
                Some(v) => v,
                None => mining_power,
            },
            mineral_bay_capacity: mineral_bay,
            gas_bay_capacity: gas_bay,
            ice_bay_capacity: ice_bay,
            exotic_bay_capacity: exotic_bay,
            fuel_capacity,
            current_fuel: fuel_capacity,
            fuel_consumption_tenths,
        }
    }

    /// A ship of class `ship_type` with the class's figures.
    pub fn default(name: &str, ship_type: ShipType) -> (s: Ship)
        ensures
            s.wf(),
            s.name@ == name@,
            s.ship_type == ship_type,
            s.cargo_capacity == class_stats(ship_type).1,
            s.hull == class_stats(ship_type).0,
            s.current_fuel == s.fuel_capacity,
            (s.fuel_capacity, s.fuel_consumption_tenths) == class_fuel(ship_type),
    {
        Ship::new(name, ship_type, None, None, None, None, None)
    }

    /// Repairs the hull by `amount`, up to its maximum.
    pub fn repair(&mut self, amount: u32)
        requires
            old(self).hull + amount <= u32::MAX,
        ensures
            final(self).hull == if old(self).hull + amount < old(self).max_hull {
                (old(self).hull + amount) as u32
            } else {
                old(self).max_hull
            },
            same_but_defences(*old(self), *final(self)),
            final(self).shield == old(self).shield,
    {
        let h = self.hull + amount;
        self.hull = if h < self.max_hull { h } else { self.max_hull };
    }

    /// Recharges the shield by `amount`, up to its maximum.
    pub fn recharge_shield(&mut self, amount: u32)
        requires
            old(self).shield + amount <= u32::MAX,
        ensures
            final(self).shield == if old(self).shield + amount < old(self).max_shield {
                (old(self).shield + amount) as u32
            } else {
                old(self).max_shield
            },
            same_but_defences(*old(self), *final(self)),
            final(self).hull == old(self).hull,
    {
        let s = self.shield + amount;
        self.shield = if s < self.max_shield { s } else { self.max_shield };
    }

    /// Takes `amount` damage: the shield absorbs what it can, the hull the
    /// rest. Returns whether the ship was destroyed (hull down to 0).
    pub fn take_damage(&mut self, amount: u32) -> (destroyed: bool)
        ensures
            damaged(*old(self), amount, *final(self), destroyed),
    {
        if self.shield >= amount {
            self.shield = self.shield - amount;
            return false;
        }
        let remaining = amount - self.shield;
        self.shield = 0;
        if self.hull <= remaining {
            self.hull = 0;
            return true;
        }
        self.hull = self.hull - remaining;
        false
    }

    /// The cargo space offered for new goods: the whole cargo capacity.
    pub fn get_cargo_space_available(&self) -> (r: u32)
        ensures
            r == self.cargo_capacity,
    {
        self.cargo_capacity
    }

    /// The four specialised bays together.
    pub fn get_total_specialized_cargo(&self) -> (r: u32)
        requires
            self.mineral_bay_capacity + self.gas_bay_capacity + self.ice_bay_capacity + self.exotic_bay_capacity
                <= u32::MAX,
        ensures
            r == self.mineral_bay_capacity + self.gas_bay_capacity + self.ice_bay_capacity + self.exotic_bay_capacity,
    {
        self.mineral_bay_capacity + self.gas_bay_capacity + self.ice_bay_capacity + self.exotic_bay_capacity
    }

    /// The bay for a kind of resource (0 for kinds kept in the main hold).
    pub fn get_capacity_for_resource(&self, resource_type: &ResourceType) -> (r: u32)
        ensures
            r == match *resource_type {
                ResourceType::Mineral => self.mineral_bay_capacity,
                ResourceType::Gas => self.gas_bay_capacity,
                ResourceType::Ice => self.ice_bay_capacity,
                ResourceType::Exotic => self.exotic_bay_capacity,
                _ => 0,
            },
    {
        match resource_type {
            ResourceType::Mineral => self.mineral_bay_capacity,
            ResourceType::Gas => self.gas_bay_capacity,
            ResourceType::Ice => self.ice_bay_capacity,
            ResourceType::Exotic => self.exotic_bay_capacity,
            _ => 0,
        }
    }

    /// The specialised bays as text.
    pub fn get_specialized_cargo_info(&self) -> (s: String)
        ensures
            s@ == bays_text(*self),
    {
        let mut s = String::from_str("Mining Bays: Mineral: 0/");
        s.append(u64_to_decimal(self.mineral_bay_capacity as u64).as_str());
        s.append(" | Gas: 0/");
        s.append(u64_to_decimal(self.gas_bay_capacity as u64).as_str());
        s.append(" | Ice: 0/");
        s.append(u64_to_decimal(self.ice_bay_capacity as u64).as_str());
        s.append(" | Exotic: 0/");
        s.append(u64_to_decimal(self.exotic_bay_capacity as u64).as_str());
        s
    }

    /// Adds up to `amount` fuel, never past capacity; returns what was added.
    pub fn refuel(&mut self, amount: u32) -> (added: u32)
        requires
            old(self).current_fuel + amount <= u32::MAX,
            old(self).current_fuel <= old(self).fuel_capacity,
        ensures
            *final(self) == (Ship { current_fuel: final(self).current_fuel, ..*old(self) }),
            final(self).current_fuel == if old(self).current_fuel + amount < old(self).fuel_capacity {
                (old(self).current_fuel + amount) as u32
            } else {
                old(self).fuel_capacity
            },
            added == final(self).current_fuel - old(self).current_fuel,
    {
        let before = self.current_fuel;
        let f = self.current_fuel + amount;
        self.current_fuel = if f < self.fuel_capacity { f } else { self.fuel_capacity };
        self.current_fuel - before
    }
}

/// Damage never raises the hull or the shield, what the shield could not
/// absorb comes off the hull, and an intact ship is destroyed exactly when
/// the damage reaches its hull and shield together.
pub proof fn law_damage_only_lowers(before: Ship, after: Ship, amount: u32, destroyed: bool)
    requires
        before.hull > 0,
        damaged(before, amount, after, destroyed),
    ensures
        after.hull <= before.hull,
        after.shield <= before.shield,
        destroyed <==> after.hull == 0 && before.hull + before.shield <= amount,
        !destroyed ==> after.hull + after.shield == before.hull + before.shield - amount,
{
}

} // verus!
