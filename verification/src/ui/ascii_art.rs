//! ASCII pictures of ships and stations.
use vstd::prelude::*;
use crate::models::ship::ShipType;

verus! {

/// The picture of a ship class.
pub open spec fn ship_art(t: ShipType) -> Seq<char> {
    match t {
        ShipType::Scout => "\n      .--.\n     /____\\\n     |    |\n   __|____|__\n  /____/\\____\\\n       ||\n       ||\n       ||\n    \"mwwwwmwmw\"m\n        "@,
        ShipType::Freighter => "\n        __\n        \\ \\_____\n     ###[==_____>\n        /_/\n        "@,
        ShipType::Miner => "\n         ___\n        / _ \\\n      .=\\_()/=.\n     /___||___\\\n        //\\\\\n       //  \\\\\n      ||    ||\n      ||    ||\n     //      \\\\\n    "@,
        ShipType::Fighter => "\n         __\n        /  \\\n       /    \\\n      /      \\\n     |--------|\n     \\___/\\___/\n        ||\n      __||__\n     /______\\\n        "@,
    }
}

/// The picture of a station.
pub open spec fn station_art() -> Seq<char> {
    "\n       /\\\n      /  \\\n     |    |\n    /|    |\\\n   / |----| \\\n  /__|____|__\\\n |____________|\n |            |\n |   []  []   |\n |   []  []   |\n |____________|\n    "@
}

/// The picture of a ship class.
pub fn get_ship_art(ship_type: &ShipType) -> (s: String)
    ensures
        s@ == ship_art(*ship_type),
{
    let s = match ship_type {
        ShipType::Scout => "\n      .--.\n     /____\\\n     |    |\n   __|____|__\n  /____/\\____\\\n       ||\n       ||\n       ||\n    \"mwwwwmwmw\"m\n        ",
        ShipType::Freighter => "\n        __\n        \\ \\_____\n     ###[==_____>\n        /_/\n        ",
        ShipType::Miner => "\n         ___\n        / _ \\\n      .=\\_()/=.\n     /___||___\\\n        //\\\\\n       //  \\\\\n      ||    ||\n      ||    ||\n     //      \\\\\n    ",
        ShipType::Fighter => "\n         __\n        /  \\\n       /    \\\n      /      \\\n     |--------|\n     \\___/\\___/\n        ||\n      __||__\n     /______\\\n        ",
    };
    String::from_str(s)
}

/// The picture of a station.
pub fn get_station_art() -> (s: String)
    ensures
        s@ == station_art(),
{
    String::from_str("\n       /\\\n      /  \\\n     |    |\n    /|    |\\\n   / |----| \\\n  /__|____|__\\\n |____________|\n |            |\n |   []  []   |\n |   []  []   |\n |____________|\n    ")
}

} // verus!
