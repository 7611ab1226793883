//! Blueprint vocabulary: categories, kinds and ingredients.
use vstd::prelude::*;
use crate::models::item::ItemType;
use crate::platform::{new_uuid_string, unix_now_millis};
use crate::text::str_eq;

verus! {

/// What a blueprint produces.
#[derive(Debug, Clone, Copy, PartialEq, Eq, Structural)]
pub enum BlueprintCategory {
    ShipPart,
    Weapon,
    Mining,
    Consumable,
    Special,
}

/// The display name of a blueprint category.
pub open spec fn category_name(c: BlueprintCategory) -> Seq<char> {
    match c {
        BlueprintCategory::ShipPart => "Ship Part"@,
        BlueprintCategory::Weapon => "Weapon"@,
        BlueprintCategory::Mining => "Mining Equipment"@,
        BlueprintCategory::Consumable => "Consumable"@,
        BlueprintCategory::Special => "Special Item"@,
    }
}

impl BlueprintCategory {
    /// The display name of this category.
    pub fn to_string(&self) -> (s: String)
        ensures
            s@ == category_name(*self),
    {
        let s = match self {
            BlueprintCategory::ShipPart => "Ship Part",
            BlueprintCategory::Weapon => "Weapon",
            BlueprintCategory::Mining => "Mining Equipment",
            BlueprintCategory::Consumable => "Consumable",
            BlueprintCategory::Special => "Special Item",
        };
        String::from_str(s)
    }
}

/// Originals can be researched and used without limit; copies have
/// limited uses.
#[derive(Debug, Clone, Copy, PartialEq, Eq, Structural)]
pub enum BlueprintType {
    Original,
    Copy,
}

/// One ingredient of a blueprint.
#[derive(Debug, Clone)]
pub struct BlueprintIngredient {
    pub item_name: String,
    pub item_type: ItemType,
    pub quantity: u32,
}

/// The view of an ingredient.
pub struct IngredientView {
    pub item_name: Seq<char>,
    pub item_type: ItemType,
    pub quantity: u32,
}

impl View for BlueprintIngredient {
    type V = IngredientView;

    open spec fn view(&self) -> IngredientView {
        IngredientView { item_name: self.item_name@, item_type: self.item_type, quantity: self.quantity }
    }
}

/// The views of a list of ingredients.
pub open spec fn ingredients_view(v: Seq<BlueprintIngredient>) -> Seq<IngredientView> {
    v.map_values(|i: BlueprintIngredient| i@)
}

fn copy_ingredients(v: &Vec<BlueprintIngredient>) -> (r: Vec<BlueprintIngredient>)
    ensures
        ingredients_view(r@) == ingredients_view(v@),
{
    let mut r: Vec<BlueprintIngredient> = Vec::new();
    let mut i: usize = 0;
    while i < v.len()
        invariant
            i <= v@.len(),
            ingredients_view(r@) == ingredients_view(v@).take(i as int),
        decreases v@.len() - i,
    {
        let ghost before = r@;
        let x = &v[i];
        r.push(BlueprintIngredient { item_name: x.item_name.clone(), item_type: x.item_type, quantity: x.quantity });
        assert(ingredients_view(r@) =~= ingredients_view(before).push(x@));
        assert(ingredients_view(r@) =~= ingredients_view(v@).take(i + 1));
        i = i + 1;
    }
    assert(ingredients_view(v@).take(v@.len() as int) =~= ingredients_view(v@));
    r
}

/// A blueprint: what it makes, from what, and how far its research has
/// come. The research start time is in milliseconds since the Unix epoch.
#[derive(Debug, Clone)]
pub struct Blueprint {
    pub id: String,
    pub name: String,
    pub description: String,
    pub category: BlueprintCategory,
    pub bp_type: BlueprintType,
    pub ingredients: Vec<BlueprintIngredient>,
    pub output_item: String,
    pub output_item_type: ItemType,
    pub output_quantity: u32,
    pub research_progress: u32,
    pub research_required: u32,
    pub research_started: bool,
    pub research_start_time: Option<u64>,
    pub research_complete: bool,
    pub quality_level: u8,
    pub complexity: u32,
    pub mass: u32,
    pub remaining_uses: Option<u32>,
}

pub struct BlueprintView {
    pub id: Seq<char>,
    pub name: Seq<char>,
    pub description: Seq<char>,
    pub category: BlueprintCategory,
    pub bp_type: BlueprintType,
    pub ingredients: Seq<IngredientView>,
    pub output_item: Seq<char>,
    pub output_item_type: ItemType,
    pub output_quantity: u32,
    pub research_progress: u32,
    pub research_required: u32,
    pub research_started: bool,
    pub research_start_time: Option<u64>,
    pub research_complete: bool,
    pub quality_level: u8,
    pub complexity: u32,
    pub mass: u32,
    pub remaining_uses: Option<u32>,
}

impl View for Blueprint {
    type V = BlueprintView;

    open spec fn view(&self) -> BlueprintView {
        BlueprintView {
            id: self.id@,
            name: self.name@,
            description: self.description@,
            category: self.category,
            bp_type: self.bp_type,
            ingredients: ingredients_view(self.ingredients@),
            output_item: self.output_item@,
            output_item_type: self.output_item_type,
            output_quantity: self.output_quantity,
            research_progress: self.research_progress,
            research_required: self.research_required,
            research_started: self.research_started,
            research_start_time: self.research_start_time,
            research_complete: self.research_complete,
            quality_level: self.quality_level,
            complexity: self.complexity,
            mass: self.mass,
            remaining_uses: self.remaining_uses,
        }
    }
}

/// How many uses a copy made at a quality level gets.
pub open spec fn copy_uses(quality: u8) -> u32 {
    if quality == 2 {
        3
    } else if quality == 3 {
        5
    } else if quality == 4 {
        10
    } else if quality == 5 {
        20
    } else {
        1
    }
}

/// A copy of blueprint `b` with id `id`: fully researched, with a limited
/// number of uses set by the original's quality.
pub open spec fn copy_of(b: BlueprintView, id: Seq<char>) -> BlueprintView {
    BlueprintView {
        id,
        name: b.name + " (Copy)"@,
        bp_type: BlueprintType::Copy,
        research_progress: b.research_required,
        research_started: false,
        research_start_time: None,
        research_complete: true,
        remaining_uses: Some(copy_uses(b.quality_level)),
        ..b
    }
}

/// A blueprint whose research started at time `now`.
pub open spec fn research_begun(b: BlueprintView, now: u64) -> BlueprintView {
    BlueprintView { research_started: true, research_start_time: Some(now), ..b }
}

/// A blueprint after one use, and whether it could be used.
pub open spec fn after_use(b: BlueprintView) -> (BlueprintView, bool) {
    match b.bp_type {
        BlueprintType::Original => (b, true),
        BlueprintType::Copy => match b.remaining_uses {
            Some(u) => if u > 0 {
                (BlueprintView { remaining_uses: Some((u - 1) as u32), ..b }, true)
            } else {
                (b, false)
            },
            None => (b, false),
        },
    }
}

/// A blueprint after an attempt to raise its quality, and whether it rose:
/// a fully researched blueprint below quality 5 goes up one level and its
/// research starts over, needing `next_required` points.
pub open spec fn improved(b: BlueprintView, next_required: u32) -> (BlueprintView, bool) {
    if b.quality_level >= 5 || !b.research_complete {
        (b, false)
    } else {
        (
            BlueprintView {
                quality_level: (b.quality_level + 1) as u8,
                research_progress: 0,
                research_started: false,
                research_complete: false,
                research_start_time: None,
                research_required: next_required,
                ..b
            },
            true,
        )
    }
}

impl Blueprint {
    /// A new, unresearched blueprint of quality 1 with a fresh random id;
    /// its research takes 100 points per unit of complexity.
    pub fn new(
        name: &str,
        description: &str,
        category: BlueprintCategory,
        bp_type: BlueprintType,
        ingredients: Vec<BlueprintIngredient>,
        output_item: &str,
        output_item_type: ItemType,
        output_quantity: u32,
        complexity: u32,
        mass: u32,
        remaining_uses: Option<u32>,
    ) -> (b: Blueprint)
        requires
            complexity * 100 <= u32::MAX,
        ensures
            b@ == (BlueprintView {
                id: b@.id,
                name: name@,
                description: description@,
                category,
                bp_type,
                ingredients: ingredients_view(ingredients@),
                output_item: output_item@,
                output_item_type,
                output_quantity,
                research_progress: 0,
                research_required: (complexity * 100) as u32,
                research_started: false,
                research_start_time: None,
                research_complete: false,
                quality_level: 1,
                complexity,
                mass,
                remaining_uses,
            }),
    {
        Blueprint {
            id: new_uuid_string(),
            name: String::from_str(name),
            description: String::from_str(description),
            category,
            bp_type,
            ingredients,
            output_item: String::from_str(output_item),
            output_item_type,
            output_quantity,
            research_progress: 0,
            research_required: complexity * 100,
            research_started: false,
            research_start_time: None,
            research_complete: false,
            quality_level: 1,
            complexity,
            mass,
            remaining_uses,
        }
    }

    /// Starts research at time `now` unless it is complete, already running,
    /// or this is a copy. Returns whether it started.
    pub fn start_research_at(&mut self, now: u64) -> (started: bool)
        ensures
            started == (!old(self).research_complete && !old(self).research_started && old(self).bp_type
                != BlueprintType::Copy),
            started ==> final(self)@ == research_begun(old(self)@, now),
            !started ==> final(self)@ == old(self)@,
    {
        if self.research_complete || self.research_started || self.bp_type == BlueprintType::Copy {
            return false;
        }
        self.research_started = true;
        self.research_start_time = Some(now);
        true
    }

    /// Starts research now; see `start_research_at`.
    pub fn start_research(&mut self) -> (started: bool)
        ensures
            started == (!old(self).research_complete && !old(self).research_started && old(self).bp_type
                != BlueprintType::Copy),
            started ==> exists|now: u64| final(self)@ == #[trigger] research_begun(old(self)@, now),
            !started ==> final(self)@ == old(self)@,
    {
        let now = unix_now_millis();
        let started = self.start_research_at(now);
        assert(started ==> final(self)@ == research_begun(old(self)@, now));
        started
    }

    /// A limited copy of this researched original (none for a copy or an
    /// original whose research is not complete).
    pub fn create_copy(&self) -> (r: Option<Blueprint>)
        ensures
            r is None <==> (self.bp_type == BlueprintType::Copy || !self.research_complete),
            r matches Some(c) ==> c@ == copy_of(self@, c@.id),
    {
        if self.bp_type == BlueprintType::Copy || !self.research_complete {
            return None;
        }
        let uses: u32 = if self.quality_level == 2 {
            3
        } else if self.quality_level == 3 {
            5
        } else if self.quality_level == 4 {
            10
        } else if self.quality_level == 5 {
            20
        } else {
            1
        };
        let mut name = self.name.clone();
        name.append(" (Copy)");
        Some(
            Blueprint {
                id: new_uuid_string(),
                name,
                description: self.description.clone(),
                category: self.category,
                bp_type: BlueprintType::Copy,
                ingredients: copy_ingredients(&self.ingredients),
                output_item: self.output_item.clone(),
                output_item_type: self.output_item_type,
                output_quantity: self.output_quantity,
                research_progress: self.research_required,
                research_required: self.research_required,
                research_started: false,
                research_start_time: None,
                research_complete: true,
                quality_level: self.quality_level,
                complexity: self.complexity,
                mass: self.mass,
                remaining_uses: Some(uses),
            },
        )
    }

    /// Raises the quality level by one when research is complete and the
    /// level is below 5; says whether it did. The research for the next
    /// level is `next_required`: half as much again as now, reckoned in
    /// `f32` by the caller.
    pub fn improve_quality(&mut self, next_required: u32) -> (raised: bool)
        ensures
            (final(self)@, raised) == improved(old(self)@, next_required),
    {
        if self.quality_level >= 5 || !self.research_complete {
            return false;
        }
        self.quality_level = self.quality_level + 1;
        self.research_progress = 0;
        self.research_started = false;
        self.research_complete = false;
        self.research_start_time = None;
        self.research_required = next_required;
        true
    }

    /// Uses the blueprint once: originals always can; copies while uses
    /// remain, spending one.
    pub fn use_blueprint(&mut self) -> (ok: bool)
        ensures
            (final(self)@, ok) == after_use(old(self)@),
    {
        match self.bp_type {
            BlueprintType::Original => true,
            BlueprintType::Copy => match self.remaining_uses {
                Some(uses) => {
                    if uses > 0 {
                        self.remaining_uses = Some(uses - 1);
                        true
                    } else {
                        false
                    }
                },
                None => false,
            },
        }
    }
}

/// A copy made from an original can be used exactly as many times as its
/// quality allows.
pub proof fn law_copy_uses_run_out(b: BlueprintView, id: Seq<char>)
    requires
        b.bp_type == BlueprintType::Original,
        b.research_complete,
    ensures
        copy_of(b, id).remaining_uses == Some(copy_uses(b.quality_level)),
        copy_uses(b.quality_level) >= 1,
        after_use(BlueprintView { remaining_uses: Some(0u32), ..copy_of(b, id) }).1 == false,
        after_use(copy_of(b, id)).1,
        after_use(copy_of(b, id)).0.remaining_uses == Some((copy_uses(b.quality_level) - 1) as u32),
{
}

/// Quality never goes past 5, and a rise is by exactly one level.
pub proof fn law_quality_capped(b: BlueprintView, next_required: u32)
    requires
        b.quality_level <= 5,
    ensures
        improved(b, next_required).0.quality_level <= 5,
        improved(b, next_required).1 ==> improved(b, next_required).0.quality_level == b.quality_level + 1,
{
}

/// The blueprints a player owns.
#[derive(Debug, Clone)]
pub struct BlueprintLibrary {
    pub blueprints: Vec<Blueprint>,
}

/// The views of a list of blueprints.
pub open spec fn blueprints_view(v: Seq<Blueprint>) -> Seq<BlueprintView> {
    v.map_values(|b: Blueprint| b@)
}

/// Position of the first blueprint with id `id`, or -1.
pub open spec fn blueprint_position(s: Seq<BlueprintView>, id: Seq<char>) -> int
    decreases s.len(),
{
    if s.len() == 0 {
        -1
    } else {
        let p = blueprint_position(s.drop_last(), id);
        if p >= 0 {
            p
        } else if s.last().id == id {
            s.len() - 1
        } else {
            -1
        }
    }
}

proof fn lemma_blueprint_position(s: Seq<BlueprintView>, id: Seq<char>)
    ensures
        -1 <= blueprint_position(s, id) < s.len(),
        blueprint_position(s, id) >= 0 ==> s[blueprint_position(s, id)].id == id,
    decreases s.len(),
{
    if s.len() > 0 {
        lemma_blueprint_position(s.drop_last(), id);
    }
}

impl BlueprintLibrary {
    /// An empty library.
    pub fn new() -> (l: BlueprintLibrary)
        ensures
            l.blueprints@.len() == 0,
    {
        BlueprintLibrary { blueprints: Vec::new() }
    }

    /// Adds a blueprint at the end.
    pub fn add_blueprint(&mut self, blueprint: Blueprint)
        ensures
            blueprints_view(final(self).blueprints@) == blueprints_view(old(self).blueprints@).push(blueprint@),
    {
        let ghost before = self.blueprints@;
        let ghost bv = blueprint@;
        self.blueprints.push(blueprint);
        assert(blueprints_view(self.blueprints@) =~= blueprints_view(before).push(bv));
    }

    fn position(&self, id: &str) -> (r: Option<usize>)
        ensures
            match r {
                Some(i) => i < self.blueprints@.len() && i as int == blueprint_position(
                    blueprints_view(self.blueprints@),
                    id@,
                ),
                None => blueprint_position(blueprints_view(self.blueprints@), id@) < 0,
            },
    {
        let ghost s = blueprints_view(self.blueprints@);
        let mut i: usize = 0;
        while i < self.blueprints.len()
            invariant
                i <= self.blueprints@.len(),
                s == blueprints_view(self.blueprints@),
                blueprint_position(s.take(i as int), id@) < 0,
            decreases self.blueprints@.len() - i,
        {
            proof {
                assert(s.take(i + 1).drop_last() =~= s.take(i as int));
            }
            if str_eq(self.blueprints[i].id.as_str(), id) {
                proof {
                    lemma_position_prefix(s, id@, i as int);
                }
                return Some(i);
            }
            i = i + 1;
        }
        proof {
            assert(s.take(self.blueprints@.len() as int) =~= s);
        }
        None
    }

    /// The blueprint with id `id`, if any (the first one).
    pub fn get_blueprint(&self, id: &str) -> (r: Option<&Blueprint>)
        ensures
            match r {
                Some(b) => blueprint_position(blueprints_view(self.blueprints@), id@) >= 0 && b@ == blueprints_view(
                    self.blueprints@,
                )[blueprint_position(blueprints_view(self.blueprints@), id@)],
                None => blueprint_position(blueprints_view(self.blueprints@), id@) < 0,
            },
    {
        match self.position(id) {
            Some(i) => Some(&self.blueprints[i]),
            None => None,
        }
    }

    /// Removes the blueprint with id `id` (the first one); returns whether
    /// there was one.
    pub fn remove_blueprint(&mut self, id: &str) -> (removed: bool)
        ensures
            removed == (blueprint_position(blueprints_view(old(self).blueprints@), id@) >= 0),
            removed ==> blueprints_view(final(self).blueprints@) == blueprints_view(old(self).blueprints@).remove(
                blueprint_position(blueprints_view(old(self).blueprints@), id@),
            ),
            !removed ==> final(self).blueprints@ == old(self).blueprints@,
    {
        let ghost s = blueprints_view(self.blueprints@);
        proof {
            lemma_blueprint_position(s, id@);
        }
        match self.position(id) {
            Some(i) => {
                let _gone = self.blueprints.remove(i);
                assert(blueprints_view(self.blueprints@) =~= s.remove(i as int));
                true
            },
            None => false,
        }
    }
}

proof fn lemma_position_prefix(s: Seq<BlueprintView>, id: Seq<char>, i: int)
    requires
        0 <= i < s.len(),
        s[i].id == id,
        blueprint_position(s.take(i), id) < 0,
    ensures
        blueprint_position(s, id) == i,
    decreases s.len(),
{
    if i < s.len() - 1 {
        assert(s.drop_last().take(i) =~= s.take(i));
        lemma_position_prefix(s.drop_last(), id, i);
    } else {
        assert(s.drop_last() =~= s.take(i));
    }
}

} // verus!

verus! {

/// A copy of a better original allows more uses: over the quality levels 1
/// to 5, a copy of a level-1 original is good for one use, every level up
/// raises the uses, and from level 3 on each level doubles them.
pub proof fn law_copy_uses_grow_with_quality(b1: BlueprintView, b2: BlueprintView, id1: Seq<char>, id2: Seq<char>)
    requires
        1 <= b1.quality_level < b2.quality_level <= 5,
    ensures
        copy_of(b1, id1).remaining_uses matches Some(u1) && copy_of(b2, id2).remaining_uses matches Some(u2) && u1 < u2,
        b1.quality_level == 1 ==> copy_of(b1, id1).remaining_uses == Some(1u32),
        b1.quality_level >= 3 && b2.quality_level == b1.quality_level + 1 ==> copy_of(b2, id2).remaining_uses
            == Some((2 * copy_of(b1, id1).remaining_uses.unwrap()) as u32),
        b1.quality_level <= 2 && b2.quality_level == b1.quality_level + 1 ==> copy_of(b2, id2).remaining_uses
            == Some((copy_of(b1, id1).remaining_uses.unwrap() + 2) as u32),
{
}

} // verus!
