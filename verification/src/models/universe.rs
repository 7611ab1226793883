//! Places in the universe: resource fields, stations and celestial bodies.
use vstd::prelude::*;
use crate::text::strings_view;

verus! {

/// Kinds of resource fields that can be mined.
#[derive(Debug, Clone, Copy, PartialEq, Eq, Structural)]
pub enum ResourceFieldType {
    AsteroidField,
    IceField,
    GasField,
    MoonResidue,
    StarCorona,
    BlackHoleAccretion,
}

/// The display name of a resource field.
pub open spec fn field_name(f: ResourceFieldType) -> Seq<char> {
    match f {
        ResourceFieldType::AsteroidField => "Asteroid Field"@,
        ResourceFieldType::IceField => "Ice Field"@,
        ResourceFieldType::GasField => "Gas Field"@,
        ResourceFieldType::MoonResidue => "Moon Residue"@,
        ResourceFieldType::StarCorona => "Star Corona"@,
        ResourceFieldType::BlackHoleAccretion => "Black Hole Accretion Disk"@,
    }
}

/// The resources found in a field, each with its abundance.
pub open spec fn field_resources(f: ResourceFieldType) -> Seq<(Seq<char>, u32)> {
    match f {
        ResourceFieldType::AsteroidField => seq![("Iron"@, 70u32), ("Nickel"@, 50u32), ("Cobalt"@, 30u32), ("Rare Metals"@, 15u32)],
        ResourceFieldType::IceField => seq![("Water"@, 80u32), ("Methane"@, 60u32), ("Ammonia"@, 40u32), ("Carbon Dioxide"@, 50u32)],
        ResourceFieldType::GasField => seq![("Hydrogen"@, 75u32), ("Helium"@, 65u32), ("Nitrogen"@, 55u32), ("Exotic Gas"@, 20u32)],
        ResourceFieldType::MoonResidue => seq![("Titanium"@, 60u32), ("Regolith"@, 70u32), ("Silicates"@, 55u32), ("Rare Earth Elements"@, 25u32)],
        ResourceFieldType::StarCorona => seq![("Plasma"@, 80u32), ("Stellar Matter"@, 60u32), ("Fusion Particles"@, 40u32), ("Solar Wind"@, 70u32)],
        ResourceFieldType::BlackHoleAccretion => seq![("Dark Matter"@, 40u32), ("Exotic Particles"@, 35u32), ("Gravitonium"@, 20u32), ("Cosmic Dust"@, 60u32)],
    }
}

/// The mining level needed to mine a field.
pub open spec fn field_mining_level(f: ResourceFieldType) -> u8 {
    match f {
        ResourceFieldType::AsteroidField => 1,
        ResourceFieldType::IceField => 1,
        ResourceFieldType::GasField => 2,
        ResourceFieldType::MoonResidue => 2,
        ResourceFieldType::StarCorona => 4,
        ResourceFieldType::BlackHoleAccretion => 5,
    }
}

/// How dangerous a field is to mine.
pub open spec fn field_danger(f: ResourceFieldType) -> u8 {
    match f {
        ResourceFieldType::AsteroidField => 1,
        ResourceFieldType::IceField => 1,
        ResourceFieldType::GasField => 2,
        ResourceFieldType::MoonResidue => 2,
        ResourceFieldType::StarCorona => 4,
        ResourceFieldType::BlackHoleAccretion => 5,
    }
}

/// The view of a list of named amounts.
pub open spec fn amounts_view(v: Seq<(String, u32)>) -> Seq<(Seq<char>, u32)> {
    v.map_values(|e: (String, u32)| (e.0@, e.1))
}

fn four_amounts(a: (&str, u32), b: (&str, u32), c: (&str, u32), d: (&str, u32)) -> (v: Vec<(String, u32)>)
    ensures
        amounts_view(v@) == seq![(a.0@, a.1), (b.0@, b.1), (c.0@, c.1), (d.0@, d.1)],
{
    let mut v: Vec<(String, u32)> = Vec::new();
    v.push((String::from_str(a.0), a.1));
    v.push((String::from_str(b.0), b.1));
    v.push((String::from_str(c.0), c.1));
    v.push((String::from_str(d.0), d.1));
    assert(amounts_view(v@) =~= seq![(a.0@, a.1), (b.0@, b.1), (c.0@, c.1), (d.0@, d.1)]);
    v
}

impl ResourceFieldType {
    /// The display name of this field.
    pub fn to_string(&self) -> (s: String)
        ensures
            s@ == field_name(*self),
    {
        let s = match self {
            ResourceFieldType::AsteroidField => "Asteroid Field",
            ResourceFieldType::IceField => "Ice Field",
            ResourceFieldType::GasField => "Gas Field",
            ResourceFieldType::MoonResidue => "Moon Residue",
            ResourceFieldType::StarCorona => "Star Corona",
            ResourceFieldType::BlackHoleAccretion => "Black Hole Accretion Disk",
        };
        String::from_str(s)
    }

    /// The resources found in this field, each with its abundance.
    pub fn primary_resources(&self) -> (v: Vec<(String, u32)>)
        ensures
            amounts_view(v@) == field_resources(*self),
    {
        match self {
            ResourceFieldType::AsteroidField => four_amounts(("Iron", 70), ("Nickel", 50), ("Cobalt", 30), ("Rare Metals", 15)),
            ResourceFieldType::IceField => four_amounts(("Water", 80), ("Methane", 60), ("Ammonia", 40), ("Carbon Dioxide", 50)),
            ResourceFieldType::GasField => four_amounts(("Hydrogen", 75), ("Helium", 65), ("Nitrogen", 55), ("Exotic Gas", 20)),
            ResourceFieldType::MoonResidue => four_amounts(("Titanium", 60), ("Regolith", 70), ("Silicates", 55), ("Rare Earth Elements", 25)),
            ResourceFieldType::StarCorona => four_amounts(("Plasma", 80), ("Stellar Matter", 60), ("Fusion Particles", 40), ("Solar Wind", 70)),
            ResourceFieldType::BlackHoleAccretion => four_amounts(("Dark Matter", 40), ("Exotic Particles", 35), ("Gravitonium", 20), ("Cosmic Dust", 60)),
        }
    }

    /// The mining level needed to mine this field.
    pub fn required_mining_level(&self) -> (l: u8)
        ensures
            l == field_mining_level(*self),
    {
        match self {
            ResourceFieldType::AsteroidField => 1,
            ResourceFieldType::IceField => 1,
            ResourceFieldType::GasField => 2,
            ResourceFieldType::MoonResidue => 2,
            ResourceFieldType::StarCorona => 4,
            ResourceFieldType::BlackHoleAccretion => 5,
        }
    }

    /// How dangerous this field is to mine.
    pub fn danger_level(&self) -> (l: u8)
        ensures
            l == field_danger(*self),
    {
        match self {
            ResourceFieldType::AsteroidField => 1,
            ResourceFieldType::IceField => 1,
            ResourceFieldType::GasField => 2,
            ResourceFieldType::MoonResidue => 2,
            ResourceFieldType::StarCorona => 4,
            ResourceFieldType::BlackHoleAccretion => 5,
        }
    }
}

/// Kinds of space stations.
#[derive(Debug, Clone, Copy, PartialEq, Eq, Structural)]
pub enum StationType {
    Trading,
    Military,
    Mining,
    Research,
    Industrial,
    Habitation,
}

/// The display name of a station type.
pub open spec fn station_name(s: StationType) -> Seq<char> {
    match s {
        StationType::Trading => "Trading Hub"@,
        StationType::Military => "Military Outpost"@,
        StationType::Mining => "Mining Facility"@,
        StationType::Research => "Research Station"@,
        StationType::Industrial => "Industrial Complex"@,
        StationType::Habitation => "Habitat Ring"@,
    }
}

/// The services a station type offers.
pub open spec fn station_services(s: StationType) -> Seq<Seq<char>> {
    match s {
        StationType::Trading => seq!["Market"@, "Trade Missions"@, "Passenger Transport"@],
        StationType::Military => seq!["Bounty Office"@, "Combat Training"@, "Weapons Shop"@],
        StationType::Mining => seq!["Ore Refining"@, "Mining Equipment"@, "Resource Market"@],
        StationType::Research => seq!["Blueprint Research"@, "Technology Exchange"@, "Science Missions"@],
        StationType::Industrial => seq!["Manufacturing"@, "Ship Construction"@, "Equipment Crafting"@],
        StationType::Habitation => seq!["Supplies"@, "Medical Services"@, "Crew Recruitment"@],
    }
}

fn three_texts(a: &str, b: &str, c: &str) -> (v: Vec<String>)
    ensures
        strings_view(v@) == seq![a@, b@, c@],
{
    let mut v: Vec<String> = Vec::new();
    v.push(String::from_str(a));
    v.push(String::from_str(b));
    v.push(String::from_str(c));
    assert(strings_view(v@) =~= seq![a@, b@, c@]);
    v
}

impl StationType {
    /// The display name of this station type.
    pub fn to_string(&self) -> (s: String)
        ensures
            s@ == station_name(*self),
    {
        let s = match self {
            StationType::Trading => "Trading Hub",
            StationType::Military => "Military Outpost",
            StationType::Mining => "Mining Facility",
            StationType::Research => "Research Station",
            StationType::Industrial => "Industrial Complex",
            StationType::Habitation => "Habitat Ring",
        };
        String::from_str(s)
    }

    /// The services this station type offers.
    pub fn services(&self) -> (v: Vec<String>)
        ensures
            strings_view(v@) == station_services(*self),
    {
        match self {
            StationType::Trading => three_texts("Market", "Trade Missions", "Passenger Transport"),
            StationType::Military => three_texts("Bounty Office", "Combat Training", "Weapons Shop"),
            StationType::Mining => three_texts("Ore Refining", "Mining Equipment", "Resource Market"),
            StationType::Research => three_texts("Blueprint Research", "Technology Exchange", "Science Missions"),
            StationType::Industrial => three_texts("Manufacturing", "Ship Construction", "Equipment Crafting"),
            StationType::Habitation => three_texts("Supplies", "Medical Services", "Crew Recruitment"),
        }
    }
}

/// Kinds of celestial bodies.
#[derive(Debug, Clone, Copy, PartialEq, Eq, Structural)]
pub enum CelestialBodyType {
    Star,
    Planet,
    Moon,
    Asteroid,
    BlackHole,
    JumpGate,
}

} // verus!
