//! Travel between star systems and docking. Distances between systems are
//! floating-point figures: the caller works out from them whether a system
//! is in range, the fuel a jump takes and how long it lasts, and hands the
//! figures over.
use vstd::prelude::*;
use crate::models::player::Player;
use crate::models::ship::Ship;

verus! {

/// The travel state: whether a jump is under way, to which system, and how
/// many milliseconds of it remain.
#[derive(Debug)]
pub struct NavigationSystem {
    pub travel_in_progress: bool,
    pub destination: Option<String>,
    pub travel_time_remaining: u64,
}

/// The fuel a jump of `distance_ceil` light years (the distance rounded up)
/// takes: one unit per light year, and at least one.
pub open spec fn fuel_for(distance_ceil: u32) -> u32 {
    if distance_ceil == 0 { 1 } else { distance_ceil }
}

/// The travel state and player after setting off for `destination`: when
/// the fuel suffices it is spent and the jump lasts `travel_time`
/// milliseconds; otherwise nothing changes.
pub open spec fn started(n: NavigationSystem, p: Player, destination: String, fuel_required: u32, travel_time: u64) -> (
    NavigationSystem,
    Player,
) {
    if p.ship.current_fuel >= fuel_required {
        (
            NavigationSystem {
                travel_in_progress: true,
                destination: Some(destination),
                travel_time_remaining: travel_time,
            },
            Player { ship: Ship { current_fuel: (p.ship.current_fuel - fuel_required) as u32, ..p.ship }, ..p },
        )
    } else {
        (n, p)
    }
}

/// The travel state and player after `delta` milliseconds: a jump whose
/// remaining time is used up ends with the player in the destination.
pub open spec fn advanced(n: NavigationSystem, p: Player, delta: u64) -> (NavigationSystem, Player) {
    if !n.travel_in_progress {
        (n, p)
    } else if n.travel_time_remaining <= delta {
        (
            NavigationSystem { travel_in_progress: false, destination: None, travel_time_remaining: 0 },
            match n.destination {
                Some(d) => Player { current_system_id: d, ..p },
                None => p,
            },
        )
    } else {
        (NavigationSystem { travel_time_remaining: (n.travel_time_remaining - delta) as u64, ..n }, p)
    }
}

impl NavigationSystem {
    /// Not travelling.
    pub fn new() -> (n: NavigationSystem)
        ensures
            !n.travel_in_progress,
            n.destination is None,
            n.travel_time_remaining == 0,
    {
        NavigationSystem { travel_in_progress: false, destination: None, travel_time_remaining: 0 }
    }

    /// The fuel a jump takes, from its distance rounded up to whole light
    /// years.
    pub fn calculate_fuel_required(&self, distance_ceil: u32) -> (f: u32)
        ensures
            f == fuel_for(distance_ceil),
    {
        if distance_ceil == 0 {
            1
        } else {
            distance_ceil
        }
    }

    /// Whether the player can set off on a jump: not already travelling,
    /// undocked, the destination in range, and fuel enough.
    pub fn can_travel_to(&self, player: &Player, in_range: bool, fuel_required: u32) -> (r: bool)
        ensures
            r == (!self.travel_in_progress && !player.is_docked && in_range && player.ship.current_fuel
                >= fuel_required),
    {
        if self.travel_in_progress {
            return false;
        }
        if player.is_docked {
            return false;
        }
        if !in_range {
            return false;
        }
        player.ship.current_fuel >= fuel_required
    }

    /// Sets off for `destination` when the fuel suffices: the fuel is spent
    /// and the jump lasts `travel_time` milliseconds. Otherwise nothing
    /// happens.
    pub fn travel_to(&mut self, player: &mut Player, destination: String, fuel_required: u32, travel_time: u64)
        ensures
            (*final(self), *final(player)) == started(*old(self), *old(player), destination, fuel_required, travel_time),
    {
        if player.ship.current_fuel >= fuel_required {
            player.ship.current_fuel = player.ship.current_fuel - fuel_required;
            self.travel_in_progress = true;
            self.destination = Some(destination);
            self.travel_time_remaining = travel_time;
        }
    }

    /// Lets `delta` milliseconds pass: a jump whose remaining time is used
    /// up ends, and the player is then in the destination system.
    pub fn update(&mut self, player: &mut Player, delta: u64)
        ensures
            (*final(self), *final(player)) == advanced(*old(self), *old(player), delta),
    {
        if self.travel_in_progress {
            if self.travel_time_remaining <= delta {
                let d = self.destination.take();
                match d {
                    Some(system) => {
                        player.current_system_id = system;
                    },
                    None => {},
                }
                self.travel_in_progress = false;
                self.travel_time_remaining = 0;
            } else {
                self.travel_time_remaining = self.travel_time_remaining - delta;
            }
        }
    }

    /// Whether the player can dock: undocked, in a system with a station.
    pub fn can_dock(&self, player: &Player, system_has_station: bool) -> (r: bool)
        ensures
            r == (!player.is_docked && system_has_station),
    {
        !player.is_docked && system_has_station
    }

    /// Docks the player.
    pub fn dock(&mut self, player: &mut Player)
        ensures
            *final(player) == (Player { is_docked: true, ..*old(player) }),
            *final(self) == *old(self),
    {
        player.is_docked = true;
    }

    /// Undocks the player.
    pub fn undock(&mut self, player: &mut Player)
        ensures
            *final(player) == (Player { is_docked: false, ..*old(player) }),
            *final(self) == *old(self),
    {
        player.is_docked = false;
    }

    /// Whether the player is docked.
    pub fn is_docked(&self, player: &Player) -> (r: bool)
        ensures
            r == player.is_docked,
    {
        player.is_docked
    }

    /// Whether a jump is under way.
    pub fn is_traveling(&self) -> (r: bool)
        ensures
            r == self.travel_in_progress,
    {
        self.travel_in_progress
    }

    /// Milliseconds of the jump that remain.
    pub fn get_remaining_travel_time(&self) -> (r: u64)
        ensures
            r == self.travel_time_remaining,
    {
        self.travel_time_remaining
    }
}

/// A jump set off on with fuel enough ends, once its time has passed,
/// with the player in the destination system, the fuel spent, and no jump
/// under way.
pub proof fn law_jump_arrives(
    n: NavigationSystem,
    p: Player,
    destination: String,
    fuel_required: u32,
    travel_time: u64,
    delta: u64,
)
    requires
        p.ship.current_fuel >= fuel_required,
        travel_time <= delta,
    ensures
        ({
            let (n1, p1) = started(n, p, destination, fuel_required, travel_time);
            let (n2, p2) = advanced(n1, p1, delta);
            &&& p2.current_system_id == destination
            &&& p2.ship.current_fuel == p.ship.current_fuel - fuel_required
            &&& !n2.travel_in_progress
        }),
{
}

} // verus!
