//! Mining a unit of a system's resources, which resource a miner has
//! picked, and the resources of each system.
use vstd::prelude::*;
use crate::keyed::{entries_view, find_key, index_of_key, lemma_index_of_key};
use crate::models::universe::amounts_view;
use crate::models::item::{Item, ItemType, ItemView, ResourceType, law_add_respects_capacity, quantity_fits_u32,
    total_weight, with_added};
use crate::models::player::Player;

verus! {

/// The mining state: the resource picked, if any.
#[derive(Debug)]
pub struct MiningSystem {
    pub selected_resource: Option<String>,
}

/// The resources listed for a system (none for an unknown system); the
/// first entry with the system's id counts.
pub open spec fn resources_of(systems: Seq<(String, Vec<(String, u32)>)>, system_id: Seq<char>) -> Seq<(Seq<char>, u32)> {
    let i = index_of_key(entries_view(systems), system_id);
    if i >= 0 {
        amounts_view(systems[i].1@)
    } else {
        Seq::empty()
    }
}

/// The unit a mining run yields of a resource with the given abundance:
/// the more abundant, the cheaper.
pub open spec fn mined_item(name: Seq<char>, abundance: u32) -> ItemView {
    ItemView { name, value: (50 + abundance / 2) as u32, weight: 1, item_type: ItemType::Resource(ResourceType::Mineral) }
}

/// The chance, out of 100, that a ship with the given mining power mines a
/// resource of the given abundance (at most `u32::MAX`).
pub open spec fn mining_chance(mining_power: u32, abundance: u32) -> u32 {
    let c = mining_power * abundance / 100;
    if c > u32::MAX { u32::MAX } else { c as u32 }
}

/// The outcome of a mining run on the `index`-th resource of the player's
/// system, with `roll` the random draw out of 100.
pub open spec fn mined(before: Player, resources: Seq<(Seq<char>, u32)>, index: int, roll: u32, after: Player, reply: Seq<char>) -> bool {
    if index >= resources.len() {
        after == before && reply == "Invalid resource selection"@
    } else if before.inventory.capacity - total_weight(before.inventory@) < 1 {
        after == before && reply == "Not enough cargo space for mining"@
    } else {
        let (name, abundance) = resources[index];
        if roll < mining_chance(before.ship.mining_power, abundance) {
            &&& after.inventory@ == with_added(before.inventory@, mined_item(name, abundance), 1)
            &&& after.inventory.capacity == before.inventory.capacity
            &&& after == Player { inventory: after.inventory, ..before }
            &&& reply == "Successfully mined 1 "@ + name
        } else {
            after == before && reply == "Failed to mine "@ + name
        }
    }
}

impl MiningSystem {
    /// Nothing picked yet.
    pub fn new() -> (m: MiningSystem)
        ensures
            m.selected_resource is None,
    {
        MiningSystem { selected_resource: None }
    }

    /// The resources (name and abundance) of the system `system_id`, out of
    /// the universe's systems given as (id, resources) entries.
    pub fn get_resources_for_system(&self, systems: &Vec<(String, Vec<(String, u32)>)>, system_id: String) -> (r: Vec<
        (String, u32),
    >)
        ensures
            amounts_view(r@) == resources_of(systems@, system_id@),
    {
        proof {
            lemma_index_of_key(entries_view(systems@), system_id@);
        }
        match find_key(systems, system_id.as_str()) {
            Some(i) => {
                let src = &systems[i].1;
                let mut r: Vec<(String, u32)> = Vec::new();
                let mut j: usize = 0;
                while j < src.len()
                    invariant
                        j <= src@.len(),
                        amounts_view(r@) == amounts_view(src@).take(j as int),
                    decreases src@.len() - j,
                {
                    let ghost before = r@;
                    r.push((src[j].0.clone(), src[j].1));
                    assert(amounts_view(r@) =~= amounts_view(before).push(amounts_view(src@)[j as int]));
                    assert(amounts_view(r@) =~= amounts_view(src@).take(j + 1));
                    j = j + 1;
                }
                assert(amounts_view(src@).take(src@.len() as int) =~= amounts_view(src@));
                r
            },
            None => {
                let r: Vec<(String, u32)> = Vec::new();
                assert(amounts_view(r@) =~= Seq::<(Seq<char>, u32)>::empty());
                r
            },
        }
    }

    /// Picks the resource to mine.
    pub fn select_resource(&mut self, resource_name: String)
        ensures
            final(self).selected_resource matches Some(s) && s@ == resource_name@,
    {
        self.selected_resource = Some(resource_name);
    }

    /// Tries to mine one unit of the `resource_index`-th resource of the
    /// system the player is in, out of the universe's systems given as (id,
    /// resources) entries. `roll` is the random draw out of 100: the run
    /// succeeds when it falls below the chance.
    pub fn mine_resource(
        &mut self,
        player: &mut Player,
        systems: &Vec<(String, Vec<(String, u32)>)>,
        resource_index: usize,
        roll: u32,
    ) -> (r: Option<String>)
        requires
            old(player).wf(),
            resource_index < resources_of(systems@, old(player).current_system_id@).len() && old(player).inventory.capacity
                - total_weight(old(player).inventory@) >= 1 && roll < mining_chance(
                old(player).ship.mining_power,
                resources_of(systems@, old(player).current_system_id@)[resource_index as int].1,
            ) ==> quantity_fits_u32(
                old(player).inventory@,
                mined_item(
                    resources_of(systems@, old(player).current_system_id@)[resource_index as int].0,
                    resources_of(systems@, old(player).current_system_id@)[resource_index as int].1,
                ),
                1,
            ),
        ensures
            *final(self) == *old(self),
            final(player).wf(),
            r matches Some(text) && mined(
                *old(player),
                resources_of(systems@, old(player).current_system_id@),
                resource_index as int,
                roll,
                *final(player),
                text@,
            ),
    {
        let resources = self.get_resources_for_system(systems, player.current_system_id.clone());
        if resource_index >= resources.len() {
            return Some(String::from_str("Invalid resource selection"));
        }
        if player.inventory.remaining_capacity() < 1 {
            return Some(String::from_str("Not enough cargo space for mining"));
        }
        let name = &resources[resource_index].0;
        let abundance = resources[resource_index].1;
        assert(amounts_view(resources@)[resource_index as int] == (name@, abundance));
        let power = player.ship.mining_power;
        assert(power as u64 * abundance as u64 <= u64::MAX) by (nonlinear_arith)
            requires
                power <= u32::MAX,
                abundance <= u32::MAX,
        ;
        let product: u64 = power as u64 * abundance as u64;
        let c: u64 = product / 100;
        let chance: u32 = if c > u32::MAX as u64 { u32::MAX } else { c as u32 };
        if roll < chance {
            let item = Item::new(name.as_str(), 50 + abundance / 2, 1, ItemType::Resource(ResourceType::Mineral));
            proof {
                law_add_respects_capacity(player.inventory@, player.inventory.capacity, item@, 1);
            }
            let added = player.inventory.add_item(item, 1);
            assert(added);
            let mut t = String::from_str("Successfully mined 1 ");
            t.append(name.as_str());
            Some(t)
        } else {
            let mut t = String::from_str("Failed to mine ");
            t.append(name.as_str());
            Some(t)
        }
    }
}

} // verus!
