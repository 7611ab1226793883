//! Crafting vocabulary: recipes, result qualities and blueprint rarities.
use vstd::prelude::*;
use crate::keyed::{as_map, entries_view, find_key, keys_unique, lemma_index_of_key, put, upsert};
use crate::models::universe::amounts_view;
use crate::platform::new_uuid_string;
use crate::text::{decimal, opt_string_view, str_eq, strings_contain, strings_view, u64_to_decimal};
use crate::models::item::{quantity_named, with_removed, Inventory, Item, ItemType, ItemView};
use crate::models::skills::{skill_index, skill_name, Skill, SkillCategory, SkillSet};

verus! {

/// A recipe: what goes in, what comes out, and who may craft it.
/// Skill requirements are kept as (skill name, minimum level) entries.
#[derive(Debug, Clone)]
pub struct CraftingRecipe {
    pub id: String,
    pub name: String,
    pub description: String,
    pub input_items: Vec<(String, u32)>,
    pub output_item: Item,
    pub output_quantity: u32,
    pub crafting_time: u32,
    pub skill_requirements: Vec<(String, u32)>,
    pub facility_requirements: Vec<String>,
    pub faction_requirements: Option<String>,
    pub difficulty: u32,
    pub discovery_requirements: Option<String>,
}

/// How well a crafted item turned out.
#[derive(Debug, Clone, Copy, PartialEq, Eq, Structural)]
pub enum CraftingQuality {
    Poor,
    Standard,
    Fine,
    Superior,
    Exceptional,
    Masterwork,
}

/// How rare a blueprint is.
#[derive(Debug, Clone, Copy, PartialEq, Eq, Structural)]
pub enum BlueprintRarity {
    Common,
    Uncommon,
    Rare,
    VeryRare,
    Exceptional,
    Legendary,
}

/// The map from skill name to level, each skill of `skills` entered in
/// order (a later entry for the same skill replaces an earlier one).
pub open spec fn skill_levels(skills: Seq<(SkillCategory, u8)>) -> Map<Seq<char>, u32>
    decreases skills.len(),
{
    if skills.len() == 0 {
        Map::empty()
    } else {
        skill_levels(skills.drop_last()).insert(skill_name(skills.last().0), skills.last().1 as u32)
    }
}

/// The category and level of each skill.
pub open spec fn skill_pairs(skills: Seq<Skill>) -> Seq<(SkillCategory, u8)> {
    skills.map_values(|s: Skill| (s.category, s.level))
}

/// The skill table entered skill by skill: each skill's name with its
/// level, a later skill of the same category replacing the earlier level
/// in place.
pub open spec fn skill_table(pairs: Seq<(SkillCategory, u8)>) -> Seq<(Seq<char>, u32)>
    decreases pairs.len(),
{
    if pairs.len() == 0 {
        Seq::empty()
    } else {
        put(skill_table(pairs.drop_last()), skill_name(pairs.last().0), pairs.last().1 as u32)
    }
}

/// The levels of a character's skills, by skill name.
pub fn convert_skillset_to_map(skills: &SkillSet) -> (r: Vec<(String, u32)>)
    ensures
        keys_unique(entries_view(r@)),
        as_map(entries_view(r@)) == skill_levels(skill_pairs(skills.skills@)),
        entries_view(r@) == skill_table(skill_pairs(skills.skills@)),
{
    let ghost pairs = skill_pairs(skills.skills@);
    let mut r: Vec<(String, u32)> = Vec::new();
    assert(as_map(entries_view(r@)) =~= Map::<Seq<char>, u32>::empty());
    let mut i: usize = 0;
    while i < skills.skills.len()
        invariant
            i <= skills.skills@.len(),
            pairs == skill_pairs(skills.skills@),
            keys_unique(entries_view(r@)),
            as_map(entries_view(r@)) == skill_levels(pairs.take(i as int)),
            entries_view(r@) == skill_table(pairs.take(i as int)),
        decreases skills.skills@.len() - i,
    {
        let category = skills.skills[i].category;
        let level = skills.skills[i].level;
        proof {
            assert(pairs.take(i + 1).drop_last() =~= pairs.take(i as int));
            assert(pairs.take(i + 1).last() == (category, level));
        }
        upsert(&mut r, category.to_string(), level as u32);
        i = i + 1;
    }
    assert(pairs.take(skills.skills@.len() as int) =~= pairs);
    r
}

/// The view of a recipe.
pub struct RecipeView {
    pub id: Seq<char>,
    pub name: Seq<char>,
    pub description: Seq<char>,
    pub input_items: Seq<(Seq<char>, u32)>,
    pub output_item: ItemView,
    pub output_quantity: u32,
    pub crafting_time: u32,
    pub skill_requirements: Seq<(Seq<char>, u32)>,
    pub facility_requirements: Seq<Seq<char>>,
    pub faction_requirements: Option<Seq<char>>,
    pub difficulty: u32,
    pub discovery_requirements: Option<Seq<char>>,
}

impl View for CraftingRecipe {
    type V = RecipeView;

    open spec fn view(&self) -> RecipeView {
        RecipeView {
            id: self.id@,
            name: self.name@,
            description: self.description@,
            input_items: amounts_view(self.input_items@),
            output_item: self.output_item@,
            output_quantity: self.output_quantity,
            crafting_time: self.crafting_time,
            skill_requirements: amounts_view(self.skill_requirements@),
            facility_requirements: strings_view(self.facility_requirements@),
            faction_requirements: opt_string_view(self.faction_requirements),
            difficulty: self.difficulty,
            discovery_requirements: opt_string_view(self.discovery_requirements),
        }
    }
}

/// A crafting job under way. Each skill level above a recipe's requirement
/// adds one step of five percent to the quality bonus.
#[derive(Debug, Clone)]
pub struct CraftingJob {
    pub id: String,
    pub player_id: String,
    pub recipe_id: String,
    pub start_time: u64,
    pub end_time: u64,
    pub quality_bonus_steps: u64,
    pub is_completed: bool,
    pub input_items: Vec<(String, u32)>,
}

pub struct JobView {
    pub id: Seq<char>,
    pub player_id: Seq<char>,
    pub recipe_id: Seq<char>,
    pub start_time: u64,
    pub end_time: u64,
    pub quality_bonus_steps: u64,
    pub is_completed: bool,
    pub input_items: Seq<(Seq<char>, u32)>,
}

impl View for CraftingJob {
    type V = JobView;

    open spec fn view(&self) -> JobView {
        JobView {
            id: self.id@,
            player_id: self.player_id@,
            recipe_id: self.recipe_id@,
            start_time: self.start_time,
            end_time: self.end_time,
            quality_bonus_steps: self.quality_bonus_steps,
            is_completed: self.is_completed,
            input_items: amounts_view(self.input_items@),
        }
    }
}

/// A blueprint of the crafting system: a recipe a player can discover and learn.
#[derive(Debug, Clone)]
pub struct Blueprint {
    pub id: String,
    pub name: String,
    pub description: String,
    pub recipe_id: String,
    pub discovered: bool,
    pub learned: bool,
    pub discovery_location: Option<String>,
    pub rarity: BlueprintRarity,
}

/// Recipes, jobs, what each player knows, and the blueprints of the game.
#[derive(Debug)]
pub struct CraftingSystem {
    pub recipes: Vec<(String, CraftingRecipe)>,
    pub active_jobs: Vec<(String, CraftingJob)>,
    pub player_known_recipes: Vec<(String, Vec<String>)>,
    pub blueprints: Vec<Blueprint>,
    pub selected_blueprint_index: Option<usize>,
}

/// Whether the ids `known` include `r`.
pub open spec fn lists(known: Seq<String>, r: Seq<char>) -> bool {
    strings_view(known).contains(r)
}

/// The recipes behind a list of ids, in order, skipping unknown ids.
pub open spec fn recipes_for(ids: Seq<Seq<char>>, recipes: Map<Seq<char>, RecipeView>) -> Seq<RecipeView>
    decreases ids.len(),
{
    if ids.len() == 0 {
        Seq::empty()
    } else {
        let r = recipes_for(ids.drop_last(), recipes);
        if recipes.dom().contains(ids.last()) {
            r.push(recipes[ids.last()])
        } else {
            r
        }
    }
}

impl CraftingSystem {
    /// Recipes, jobs and players are each stored once.
    pub open spec fn wf(&self) -> bool {
        &&& keys_unique(entries_view(self.recipes@))
        &&& keys_unique(entries_view(self.active_jobs@))
        &&& keys_unique(entries_view(self.player_known_recipes@))
    }

    /// Recipes by id.
    pub open spec fn recipe_map(&self) -> Map<Seq<char>, RecipeView> {
        as_map(entries_view(self.recipes@))
    }

    /// Jobs by id.
    pub open spec fn job_map(&self) -> Map<Seq<char>, JobView> {
        as_map(entries_view(self.active_jobs@))
    }

    /// The recipe ids each player knows.
    pub open spec fn known_map(&self) -> Map<Seq<char>, Seq<String>> {
        as_map(entries_view(self.player_known_recipes@))
    }

    /// Whether player `p` knows recipe `r`.
    pub open spec fn knows(&self, p: Seq<char>, r: Seq<char>) -> bool {
        self.known_map().dom().contains(p) && lists(self.known_map()[p], r)
    }

    /// Nothing registered yet.
    pub fn new() -> (c: CraftingSystem)
        ensures
            c.wf(),
            c.recipe_map() == Map::<Seq<char>, RecipeView>::empty(),
            c.job_map() == Map::<Seq<char>, JobView>::empty(),
            c.known_map() == Map::<Seq<char>, Seq<String>>::empty(),
            c.blueprints@.len() == 0,
            c.selected_blueprint_index is None,
    {
        let c = CraftingSystem {
            recipes: Vec::new(),
            active_jobs: Vec::new(),
            player_known_recipes: Vec::new(),
            blueprints: Vec::new(),
            selected_blueprint_index: None,
        };
        assert(c.recipe_map() =~= Map::<Seq<char>, RecipeView>::empty());
        assert(c.job_map() =~= Map::<Seq<char>, JobView>::empty());
        assert(c.known_map() =~= Map::<Seq<char>, Seq<String>>::empty());
        c
    }

    /// Registers a recipe under its id (replacing one with the same id).
    pub fn register_recipe(&mut self, recipe: CraftingRecipe) -> (id: String)
        requires
            old(self).wf(),
        ensures
            final(self).wf(),
            id@ == recipe@.id,
            final(self).recipe_map() == old(self).recipe_map().insert(recipe@.id, recipe@),
            final(self).active_jobs@ == old(self).active_jobs@,
            final(self).player_known_recipes@ == old(self).player_known_recipes@,
            final(self).blueprints@ == old(self).blueprints@,
    {
        let id = recipe.id.clone();
        let key = recipe.id.clone();
        upsert(&mut self.recipes, key, recipe);
        id
    }

    /// A recipe with a fresh random id, difficulty 1 and no requirements.
    pub fn create_recipe(
        name: &str,
        description: &str,
        inputs: Vec<(String, u32)>,
        output: Item,
        output_quantity: u32,
        crafting_time: u32,
    ) -> (r: CraftingRecipe)
        ensures
            r@ == (RecipeView {
                id: r@.id,
                name: name@,
                description: description@,
                input_items: amounts_view(inputs@),
                output_item: output@,
                output_quantity,
                crafting_time,
                skill_requirements: Seq::empty(),
                facility_requirements: Seq::empty(),
                faction_requirements: None,
                difficulty: 1,
                discovery_requirements: None,
            }),
    {
        let r = CraftingRecipe {
            id: new_uuid_string(),
            name: String::from_str(name),
            description: String::from_str(description),
            input_items: inputs,
            output_item: output,
            output_quantity,
            crafting_time,
            skill_requirements: Vec::new(),
            facility_requirements: Vec::new(),
            faction_requirements: None,
            difficulty: 1,
            discovery_requirements: None,
        };
        assert(r@.skill_requirements =~= Seq::<(Seq<char>, u32)>::empty());
        assert(r@.facility_requirements =~= Seq::<Seq<char>>::empty());
        r
    }

    /// Requires `level` in `skill` for recipe `recipe_id`; false when there
    /// is no such recipe.
    pub fn add_skill_requirement(&mut self, recipe_id: &str, skill: &str, level: u32) -> (r: bool)
        requires
            old(self).wf(),
            old(self).recipe_map().dom().contains(recipe_id@) ==> keys_unique(
                old(self).recipe_map()[recipe_id@].skill_requirements,
            ),
        ensures
            final(self).wf(),
            r == old(self).recipe_map().dom().contains(recipe_id@),
            !r ==> final(self).recipe_map() == old(self).recipe_map(),
            r ==> final(self).recipe_map().dom() == old(self).recipe_map().dom(),
            r ==> keys_unique(final(self).recipe_map()[recipe_id@].skill_requirements),
            r ==> as_map(final(self).recipe_map()[recipe_id@].skill_requirements) == as_map(
                old(self).recipe_map()[recipe_id@].skill_requirements,
            ).insert(skill@, level),
            r ==> final(self).recipe_map()[recipe_id@].skill_requirements == put(
                old(self).recipe_map()[recipe_id@].skill_requirements,
                skill@,
                level,
            ),
            r ==> final(self).recipe_map()[recipe_id@] == (RecipeView {
                skill_requirements: final(self).recipe_map()[recipe_id@].skill_requirements,
                ..old(self).recipe_map()[recipe_id@]
            }),
            r ==> forall|k: Seq<char>| k != recipe_id@ && #[trigger] old(self).recipe_map().dom().contains(k)
                ==> final(self).recipe_map()[k] == old(self).recipe_map()[k],
            final(self).active_jobs@ == old(self).active_jobs@,
            final(self).player_known_recipes@ == old(self).player_known_recipes@,
            final(self).blueprints@ == old(self).blueprints@,
    {
        let ghost s = entries_view(self.recipes@);
        proof {
            lemma_index_of_key(s, recipe_id@);
        }
        match find_key(&self.recipes, recipe_id) {
            Some(i) => {
                let (k, mut recipe) = self.recipes.remove(i);
                proof {
                    assert(recipe@ == s[i as int].1);
                    assert(amounts_view(recipe.skill_requirements@) == recipe@.skill_requirements);
                    crate::keyed::lemma_index_same_keys(
                        amounts_view(recipe.skill_requirements@),
                        entries_view(recipe.skill_requirements@),
                        skill@,
                    );
                    assert(entries_view(recipe.skill_requirements@) =~= amounts_view(recipe.skill_requirements@));
                }
                let ghost old_recipe = recipe@;
                upsert(&mut recipe.skill_requirements, String::from_str(skill), level);
                proof {
                    assert(entries_view(recipe.skill_requirements@) =~= amounts_view(recipe.skill_requirements@));
                }
                let ghost nv = recipe@;
                self.recipes.insert(i, (k, recipe));
                proof {
                    crate::keyed::lemma_update_value(s, i as int, nv);
                    assert(entries_view(self.recipes@) =~= s.update(i as int, (s[i as int].0, nv)));
                }
                true
            },
            None => false,
        }
    }

    /// Requires facility `facility` for recipe `recipe_id`; false when there
    /// is no such recipe.
    pub fn add_facility_requirement(&mut self, recipe_id: &str, facility: &str) -> (r: bool)
        requires
            old(self).wf(),
        ensures
            final(self).wf(),
            r == old(self).recipe_map().dom().contains(recipe_id@),
            !r ==> final(self).recipe_map() == old(self).recipe_map(),
            r ==> final(self).recipe_map() == old(self).recipe_map().insert(
                recipe_id@,
                RecipeView {
                    facility_requirements: old(self).recipe_map()[recipe_id@].facility_requirements.push(facility@),
                    ..old(self).recipe_map()[recipe_id@]
                },
            ),
            final(self).active_jobs@ == old(self).active_jobs@,
            final(self).player_known_recipes@ == old(self).player_known_recipes@,
            final(self).blueprints@ == old(self).blueprints@,
    {
        let ghost s = entries_view(self.recipes@);
        proof {
            lemma_index_of_key(s, recipe_id@);
        }
        match find_key(&self.recipes, recipe_id) {
            Some(i) => {
                let (k, mut recipe) = self.recipes.remove(i);
                let ghost old_facilities = recipe@.facility_requirements;
                recipe.facility_requirements.push(String::from_str(facility));
                assert(recipe@.facility_requirements =~= old_facilities.push(facility@));
                let ghost nv = recipe@;
                self.recipes.insert(i, (k, recipe));
                proof {
                    crate::keyed::lemma_update_value(s, i as int, nv);
                    assert(entries_view(self.recipes@) =~= s.update(i as int, (s[i as int].0, nv)));
                }
                true
            },
            None => false,
        }
    }

    /// Whether player `player_id` knows recipe `recipe_id`.
    pub fn player_knows_recipe(&self, player_id: &str, recipe_id: &str) -> (r: bool)
        requires
            self.wf(),
        ensures
            r == self.knows(player_id@, recipe_id@),
    {
        let ghost s = entries_view(self.player_known_recipes@);
        proof {
            lemma_index_of_key(s, player_id@);
        }
        match find_key(&self.player_known_recipes, player_id) {
            Some(i) => strings_contain(&self.player_known_recipes[i].1, recipe_id),
            None => false,
        }
    }

    /// Teaches recipe `recipe_id` to player `player_id` (once); false when
    /// there is no such recipe.
    pub fn learn_recipe(&mut self, player_id: &str, recipe_id: &str) -> (r: bool)
        requires
            old(self).wf(),
        ensures
            final(self).wf(),
            r == old(self).recipe_map().dom().contains(recipe_id@),
            !r ==> final(self).known_map() == old(self).known_map(),
            r ==> final(self).knows(player_id@, recipe_id@),
            r ==> final(self).known_map().dom() == old(self).known_map().dom().insert(player_id@),
            r ==> forall|p: Seq<char>| p != player_id@ && #[trigger] old(self).known_map().dom().contains(p)
                ==> final(self).known_map()[p] == old(self).known_map()[p],
            r ==> forall|q: Seq<char>| #[trigger] final(self).knows(player_id@, q) <==> (q == recipe_id@ || old(
                self,
            ).knows(player_id@, q)),
            final(self).recipes@ == old(self).recipes@,
            final(self).active_jobs@ == old(self).active_jobs@,
            final(self).blueprints@ == old(self).blueprints@,
    {
        let ghost rs = entries_view(self.recipes@);
        proof {
            lemma_index_of_key(rs, recipe_id@);
        }
        if find_key(&self.recipes, recipe_id).is_none() {
            return false;
        }
        let ghost s = entries_view(self.player_known_recipes@);
        proof {
            lemma_index_of_key(s, player_id@);
        }
        let mut list: Vec<String> = match find_key(&self.player_known_recipes, player_id) {
            Some(i) => crate::text::copy_strings(&self.player_known_recipes[i].1),
            None => Vec::new(),
        };
        let ghost before = strings_view(list@);
        if !strings_contain(&list, recipe_id) {
            list.push(String::from_str(recipe_id));
            assert(strings_view(list@) =~= before.push(recipe_id@));
            assert(strings_view(list@)[before.len() as int] == recipe_id@);
        }
        let ghost lv = list@;
        upsert(&mut self.player_known_recipes, String::from_str(player_id), list);
        proof {
            assert(self.known_map()[player_id@] == lv);
            assert forall|q: Seq<char>| #[trigger] self.knows(player_id@, q) <==> (q == recipe_id@ || old(self).knows(
                player_id@,
                q,
            )) by {
                if old(self).known_map().dom().contains(player_id@) {
                    assert(strings_view(old(self).known_map()[player_id@]) == before);
                } else {
                    assert(before =~= Seq::<Seq<char>>::empty());
                }
                if strings_view(lv) != before {
                    assert(strings_view(lv) == before.push(recipe_id@));
                    if before.contains(q) {
                        let w = choose|w: int| 0 <= w < before.len() && before[w] == q;
                        assert(strings_view(lv)[w] == q);
                    }
                    if strings_view(lv).contains(q) && q != recipe_id@ {
                        let w = choose|w: int| 0 <= w < strings_view(lv).len() && strings_view(lv)[w] == q;
                        assert(before[w] == q);
                    }
                }
            }
        }
        true
    }

    /// The recipes player `player_id` knows, in the order learned.
    pub fn get_player_recipes(&self, player_id: &str) -> (r: Vec<&CraftingRecipe>)
        requires
            self.wf(),
        ensures
            r@.map_values(|x: &CraftingRecipe| x@) == (if self.known_map().dom().contains(player_id@) {
                recipes_for(strings_view(self.known_map()[player_id@]), self.recipe_map())
            } else {
                Seq::empty()
            }),
    {
        let ghost s = entries_view(self.player_known_recipes@);
        let ghost rs = entries_view(self.recipes@);
        proof {
            lemma_index_of_key(s, player_id@);
        }
        let mut r: Vec<&CraftingRecipe> = Vec::new();
        let i = match find_key(&self.player_known_recipes, player_id) {
            Some(i) => i,
            None => {
                assert(r@.map_values(|x: &CraftingRecipe| x@) =~= Seq::<RecipeView>::empty());
                return r;
            },
        };
        let ids = &self.player_known_recipes[i].1;
        let ghost idv = strings_view(ids@);
        let mut j: usize = 0;
        while j < ids.len()
            invariant
                j <= ids@.len(),
                idv == strings_view(ids@),
                rs == entries_view(self.recipes@),
                r@.map_values(|x: &CraftingRecipe| x@) == recipes_for(idv.take(j as int), as_map(rs)),
            decreases ids@.len() - j,
        {
            proof {
                assert(idv.take(j + 1).drop_last() =~= idv.take(j as int));
                assert(idv.take(j + 1).last() == ids@[j as int]@);
                lemma_index_of_key(rs, ids@[j as int]@);
            }
            match find_key(&self.recipes, ids[j].as_str()) {
                Some(k) => {
                    let ghost before = r@;
                    r.push(&self.recipes[k].1);
                    assert(r@.map_values(|x: &CraftingRecipe| x@) =~= before.map_values(|x: &CraftingRecipe| x@).push(
                        self.recipes@[k as int].1@,
                    ));
                },
                None => {},
            }
            j = j + 1;
        }
        assert(idv.take(ids@.len() as int) =~= idv);
        r
    }
}

/// A player's level in a skill (0 when the skill is not listed).
pub open spec fn level_in(skills: Seq<(Seq<char>, u32)>, name: Seq<char>) -> u32 {
    if as_map(skills).dom().contains(name) {
        as_map(skills)[name]
    } else {
        0
    }
}

/// Position of the first requirement the skills do not meet, or -1.
pub open spec fn first_unmet(reqs: Seq<(Seq<char>, u32)>, skills: Seq<(Seq<char>, u32)>) -> int
    decreases reqs.len(),
{
    if reqs.len() == 0 {
        -1
    } else {
        let p = first_unmet(reqs.drop_last(), skills);
        if p >= 0 {
            p
        } else if level_in(skills, reqs.last().0) < reqs.last().1 {
            reqs.len() - 1
        } else {
            -1
        }
    }
}

/// Position of the first required facility not in `available`, or -1.
pub open spec fn first_missing(required: Seq<Seq<char>>, available: Seq<Seq<char>>) -> int
    decreases required.len(),
{
    if required.len() == 0 {
        -1
    } else {
        let p = first_missing(required.drop_last(), available);
        if p >= 0 {
            p
        } else if !available.contains(required.last()) {
            required.len() - 1
        } else {
            -1
        }
    }
}

/// The quality bonus in five-percent steps: the skill levels above each
/// requirement, added up.
pub open spec fn bonus_steps(reqs: Seq<(Seq<char>, u32)>, skills: Seq<(Seq<char>, u32)>) -> nat
    decreases reqs.len(),
{
    if reqs.len() == 0 {
        0
    } else {
        let have = level_in(skills, reqs.last().0);
        bonus_steps(reqs.drop_last(), skills) + if have > reqs.last().1 {
            (have - reqs.last().1) as nat
        } else {
            0nat
        }
    }
}

proof fn lemma_first_unmet(reqs: Seq<(Seq<char>, u32)>, skills: Seq<(Seq<char>, u32)>)
    ensures
        -1 <= first_unmet(reqs, skills) < reqs.len(),
        first_unmet(reqs, skills) >= 0 ==> level_in(skills, reqs[first_unmet(reqs, skills)].0)
            < reqs[first_unmet(reqs, skills)].1,
        first_unmet(reqs, skills) < 0 ==> forall|i: int| 0 <= i < reqs.len() ==> level_in(skills, #[trigger] reqs[i].0)
            >= reqs[i].1,
    decreases reqs.len(),
{
    if reqs.len() > 0 {
        lemma_first_unmet(reqs.drop_last(), skills);
        assert forall|i: int| 0 <= i < reqs.len() - 1 implies reqs.drop_last()[i] == reqs[i] by {}
    }
}

proof fn lemma_bonus_grows(reqs: Seq<(Seq<char>, u32)>, skills: Seq<(Seq<char>, u32)>, i: int)
    requires
        0 <= i <= reqs.len(),
    ensures
        bonus_steps(reqs.take(i), skills) <= bonus_steps(reqs, skills),
    decreases reqs.len(),
{
    if i < reqs.len() {
        lemma_bonus_grows(reqs.drop_last(), skills, i);
        assert(reqs.drop_last().take(i) =~= reqs.take(i));
    } else {
        assert(reqs.take(i) =~= reqs);
    }
}

fn skill_level(skills: &Vec<(String, u32)>, name: &str) -> (l: u32)
    ensures
        l == level_in(amounts_view(skills@), name@),
{
    let ghost s = amounts_view(skills@);
    proof {
        lemma_index_of_key(s, name@);
        crate::keyed::lemma_index_same_keys(s, entries_view(skills@), name@);
        assert(entries_view(skills@) =~= s);
    }
    match find_key(skills, name) {
        Some(i) => skills[i].1,
        None => 0,
    }
}

fn text_list_contains(v: &[String], s: &str) -> (r: bool)
    ensures
        r == strings_view(v@).contains(s@),
{
    let mut i: usize = 0;
    while i < v.len()
        invariant
            i <= v@.len(),
            forall|j: int| 0 <= j < i ==> strings_view(v@)[j] != s@,
        decreases v@.len() - i,
    {
        if str_eq(v[i].as_str(), s) {
            assert(strings_view(v@)[i as int] == s@);
            return true;
        }
        i = i + 1;
    }
    proof {
        if strings_view(v@).contains(s@) {
            let w = choose|w: int| 0 <= w < strings_view(v@).len() && strings_view(v@)[w] == s@;
            assert(strings_view(v@)[w] == s@);
        }
    }
    false
}

/// The job a start at time `now` creates for recipe `r`.
pub open spec fn new_job(id: Seq<char>, player: Seq<char>, recipe_id: Seq<char>, r: RecipeView, now: u64, steps: nat) -> JobView {
    JobView {
        id,
        player_id: player,
        recipe_id,
        start_time: now,
        end_time: (now + r.crafting_time) as u64,
        quality_bonus_steps: steps as u64,
        is_completed: false,
        input_items: r.input_items,
    }
}

/// Why a job for recipe `recipe_id` cannot start, if it cannot.
pub open spec fn start_refusal(
    c: CraftingSystem,
    player: Seq<char>,
    recipe_id: Seq<char>,
    skills: Seq<(Seq<char>, u32)>,
    facilities: Seq<Seq<char>>,
) -> Option<Seq<char>> {
    if !c.recipe_map().dom().contains(recipe_id) {
        Some("Recipe not found"@)
    } else if !c.knows(player, recipe_id) {
        Some("You don't know this recipe"@)
    } else {
        let r = c.recipe_map()[recipe_id];
        let u = first_unmet(r.skill_requirements, skills);
        let m = first_missing(r.facility_requirements, facilities);
        if u >= 0 {
            Some(
                "You need "@ + r.skill_requirements[u].0 + " level "@ + decimal(r.skill_requirements[u].1 as nat)
                    + " (you have "@ + decimal(level_in(skills, r.skill_requirements[u].0) as nat) + ")"@,
            )
        } else if m >= 0 {
            Some("You need access to a "@ + r.facility_requirements[m])
        } else {
            None
        }
    }
}

/// The jobs that are due at time `now` and not yet marked complete, as
/// (job id, player id), in order.
pub open spec fn due_jobs(s: Seq<(Seq<char>, JobView)>, now: u64) -> Seq<(Seq<char>, Seq<char>)>
    decreases s.len(),
{
    if s.len() == 0 {
        Seq::empty()
    } else {
        let r = due_jobs(s.drop_last(), now);
        if !s.last().1.is_completed && now >= s.last().1.end_time {
            r.push((s.last().0, s.last().1.player_id))
        } else {
            r
        }
    }
}

/// A job as it stands after a check at time `now`.
pub open spec fn job_checked(j: JobView, now: u64) -> JobView {
    if j.is_completed {
        j
    } else {
        JobView { is_completed: now >= j.end_time, ..j }
    }
}

impl CraftingSystem {
    /// Starts a job for recipe `recipe_id` at time `now` when the player
    /// knows it, has the skills and has the facilities; returns the job id
    /// and when it ends.
    pub fn start_crafting_job(
        &mut self,
        player_id: &str,
        recipe_id: &str,
        current_time: u64,
        player_skills: &Vec<(String, u32)>,
        available_facilities: &[String],
    ) -> (r: Result<(String, u64), String>)
        requires
            old(self).wf(),
            old(self).recipe_map().dom().contains(recipe_id@) ==> current_time + old(self).recipe_map()[recipe_id@].crafting_time
                <= u64::MAX && bonus_steps(old(self).recipe_map()[recipe_id@].skill_requirements, amounts_view(player_skills@))
                <= u64::MAX,
        ensures
            final(self).wf(),
            final(self).recipes@ == old(self).recipes@,
            final(self).player_known_recipes@ == old(self).player_known_recipes@,
            final(self).blueprints@ == old(self).blueprints@,
            match start_refusal(*old(self), player_id@, recipe_id@, amounts_view(player_skills@), strings_view(available_facilities@)) {
                Some(m) => r matches Err(e) && e@ == m && final(self).active_jobs@ == old(self).active_jobs@,
                None => r matches Ok((id, end)) && {
                    let rv = old(self).recipe_map()[recipe_id@];
                    &&& end == current_time + rv.crafting_time
                    &&& final(self).job_map() == old(self).job_map().insert(
                        id@,
                        new_job(id@, player_id@, recipe_id@, rv, current_time, bonus_steps(rv.skill_requirements, amounts_view(player_skills@))),
                    )
                },
            },
    {
        let ghost rs = entries_view(self.recipes@);
        let ghost sk = amounts_view(player_skills@);
        proof {
            lemma_index_of_key(rs, recipe_id@);
        }
        let k = match find_key(&self.recipes, recipe_id) {
            Some(k) => k,
            None => {
                return Err(String::from_str("Recipe not found"));
            },
        };
        if !self.player_knows_recipe(player_id, recipe_id) {
            return Err(String::from_str("You don't know this recipe"));
        }
        let recipe = &self.recipes[k].1;
        let ghost rv = recipe@;
        assert(rv == self.recipe_map()[recipe_id@]);
        let reqs = &recipe.skill_requirements;
        let ghost reqv = amounts_view(reqs@);
        proof {
            lemma_first_unmet(reqv, sk);
        }
        let mut steps: u64 = 0;
        let mut i: usize = 0;
        while i < reqs.len()
            invariant
                self.wf(),
                self.recipes@ == old(self).recipes@,
                self.active_jobs@ == old(self).active_jobs@,
                self.player_known_recipes@ == old(self).player_known_recipes@,
                self.blueprints@ == old(self).blueprints@,
                old(self).recipe_map().dom().contains(recipe_id@),
                old(self).knows(player_id@, recipe_id@),
                rv == old(self).recipe_map()[recipe_id@],
                reqv == rv.skill_requirements,
                i <= reqs@.len(),
                reqv == amounts_view(reqs@),
                sk == amounts_view(player_skills@),
                first_unmet(reqv.take(i as int), sk) < 0,
                steps == bonus_steps(reqv.take(i as int), sk),
                bonus_steps(reqv, sk) <= u64::MAX,
            decreases reqs@.len() - i,
        {
            proof {
                assert(reqv.take(i + 1).drop_last() =~= reqv.take(i as int));
                assert(reqv.take(i + 1).last() == reqv[i as int]);
                lemma_bonus_grows(reqv, sk, i + 1);
            }
            let have = skill_level(player_skills, reqs[i].0.as_str());
            let need = reqs[i].1;
            if have < need {
                proof {
                    lemma_first_unmet(reqv, sk);
                    lemma_unmet_prefix(reqv, sk, i as int);
                }
                let mut m = String::from_str("You need ");
                m.append(reqs[i].0.as_str());
                m.append(" level ");
                m.append(u64_to_decimal(need as u64).as_str());
                m.append(" (you have ");
                m.append(u64_to_decimal(have as u64).as_str());
                m.append(")");
                return Err(m);
            }
            if have > need {
                steps = steps + (have - need) as u64;
            }
            i = i + 1;
        }
        proof {
            assert(reqv.take(reqs@.len() as int) =~= reqv);
        }
        let fac = &recipe.facility_requirements;
        let ghost fv = strings_view(fac@);
        let mut j: usize = 0;
        while j < fac.len()
            invariant
                self.wf(),
                self.recipes@ == old(self).recipes@,
                self.active_jobs@ == old(self).active_jobs@,
                self.player_known_recipes@ == old(self).player_known_recipes@,
                self.blueprints@ == old(self).blueprints@,
                old(self).recipe_map().dom().contains(recipe_id@),
                old(self).knows(player_id@, recipe_id@),
                rv == old(self).recipe_map()[recipe_id@],
                reqv == rv.skill_requirements,
                fv == rv.facility_requirements,
                first_unmet(reqv, sk) < 0,
                sk == amounts_view(player_skills@),
                j <= fac@.len(),
                fv == strings_view(fac@),
                first_missing(fv.take(j as int), strings_view(available_facilities@)) < 0,
            decreases fac@.len() - j,
        {
            proof {
                assert(fv.take(j + 1).drop_last() =~= fv.take(j as int));
                assert(fv.take(j + 1).last() == fv[j as int]);
            }
            if !text_list_contains(available_facilities, fac[j].as_str()) {
                proof {
                    lemma_missing_prefix(fv, strings_view(available_facilities@), j as int);
                }
                let mut m = String::from_str("You need access to a ");
                m.append(fac[j].as_str());
                return Err(m);
            }
            j = j + 1;
        }
        proof {
            assert(fv.take(fac@.len() as int) =~= fv);
        }
        let job_id = new_uuid_string();
        let end_time = current_time + recipe.crafting_time as u64;
        let job = CraftingJob {
            id: job_id.clone(),
            player_id: String::from_str(player_id),
            recipe_id: String::from_str(recipe_id),
            start_time: current_time,
            end_time,
            quality_bonus_steps: steps,
            is_completed: false,
            input_items: copy_amounts(&recipe.input_items),
        };
        let key = job_id.clone();
        upsert(&mut self.active_jobs, key, job);
        Ok((job_id, end_time))
    }

    /// Whether job `job_id` is complete at time `current_time` (marking it
    /// so when it is); `None` for an unknown job.
    pub fn check_job_status(&mut self, job_id: &str, current_time: u64) -> (r: Option<bool>)
        requires
            old(self).wf(),
        ensures
            final(self).wf(),
            final(self).recipes@ == old(self).recipes@,
            final(self).player_known_recipes@ == old(self).player_known_recipes@,
            final(self).blueprints@ == old(self).blueprints@,
            !old(self).job_map().dom().contains(job_id@) ==> r is None && final(self).job_map() == old(self).job_map(),
            old(self).job_map().dom().contains(job_id@) ==> {
                let j = job_checked(old(self).job_map()[job_id@], current_time);
                &&& r == Some(j.is_completed)
                &&& final(self).job_map() == old(self).job_map().insert(job_id@, j)
            },
    {
        let ghost s = entries_view(self.active_jobs@);
        proof {
            lemma_index_of_key(s, job_id@);
        }
        match find_key(&self.active_jobs, job_id) {
            Some(i) => {
                if self.active_jobs[i].1.is_completed {
                    proof {
                        assert(old(self).job_map().insert(job_id@, s[i as int].1) =~= old(self).job_map());
                    }
                    return Some(true);
                }
                let (k, mut job) = self.active_jobs.remove(i);
                let done = current_time >= job.end_time;
                job.is_completed = done;
                let ghost nv = job@;
                self.active_jobs.insert(i, (k, job));
                proof {
                    crate::keyed::lemma_update_value(s, i as int, nv);
                    assert(entries_view(self.active_jobs@) =~= s.update(i as int, (s[i as int].0, nv)));
                }
                Some(done)
            },
            None => None,
        }
    }

    /// Marks every job due at time `current_time` as complete and lists
    /// them as (job id, player id).
    pub fn update_jobs(&mut self, current_time: u64) -> (r: Vec<(String, String)>)
        requires
            old(self).wf(),
        ensures
            final(self).wf(),
            final(self).recipes@ == old(self).recipes@,
            final(self).player_known_recipes@ == old(self).player_known_recipes@,
            final(self).blueprints@ == old(self).blueprints@,
            r@.map_values(|e: (String, String)| (e.0@, e.1@)) == due_jobs(entries_view(old(self).active_jobs@), current_time),
            final(self).job_map().dom() == old(self).job_map().dom(),
            forall|k: Seq<char>| #[trigger] final(self).job_map().dom().contains(k) ==> final(self).job_map()[k]
                == job_checked(old(self).job_map()[k], current_time),
    {
        let ghost s = entries_view(self.active_jobs@);
        let mut r: Vec<(String, String)> = Vec::new();
        let mut i: usize = 0;
        while i < self.active_jobs.len()
            invariant
                i <= self.active_jobs@.len(),
                s == entries_view(old(self).active_jobs@),
                s.len() == self.active_jobs@.len(),
                forall|w: int| 0 <= w < s.len() ==> (#[trigger] entries_view(self.active_jobs@)[w]).0 == s[w].0,
                forall|w: int| 0 <= w < i ==> (#[trigger] entries_view(self.active_jobs@)[w]).1 == job_checked(s[w].1, current_time),
                forall|w: int| i <= w < s.len() ==> #[trigger] entries_view(self.active_jobs@)[w] == s[w],
                r@.map_values(|e: (String, String)| (e.0@, e.1@)) == due_jobs(s.take(i as int), current_time),
                self.recipes@ == old(self).recipes@,
                self.player_known_recipes@ == old(self).player_known_recipes@,
                self.blueprints@ == old(self).blueprints@,
            decreases self.active_jobs@.len() - i,
        {
            let ghost cur = entries_view(self.active_jobs@);
            proof {
                assert(s.take(i + 1).drop_last() =~= s.take(i as int));
                assert(s.take(i + 1).last() == s[i as int]);
                assert(cur[i as int] == s[i as int]);
            }
            let due = !self.active_jobs[i].1.is_completed && current_time >= self.active_jobs[i].1.end_time;
            if due {
                let (k, mut job) = self.active_jobs.remove(i);
                job.is_completed = true;
                let ghost before = r@;
                r.push((k.clone(), job.player_id.clone()));
                assert(r@.map_values(|e: (String, String)| (e.0@, e.1@)) =~= before.map_values(|e: (String, String)| (
                    e.0@,
                    e.1@,
                )).push((s[i as int].0, s[i as int].1.player_id)));
                let ghost nv = job@;
                self.active_jobs.insert(i, (k, job));
                assert(entries_view(self.active_jobs@) =~= cur.update(i as int, (cur[i as int].0, nv)));
            }
            i = i + 1;
        }
        proof {
            assert(s.take(s.len() as int) =~= s);
            let fin = entries_view(self.active_jobs@);
            assert forall|w: int, v: int| 0 <= w < v < fin.len() implies fin[w].0 != fin[v].0 by {
                assert(fin[w].0 == s[w].0);
                assert(fin[v].0 == s[v].0);
            }
            assert forall|k: Seq<char>| #[trigger] as_map(fin).dom().contains(k) == as_map(s).dom().contains(k)
                && (as_map(fin).dom().contains(k) ==> as_map(fin)[k] == job_checked(as_map(s)[k], current_time)) by {
                crate::keyed::lemma_index_same_keys(fin, s, k);
                lemma_index_of_key(s, k);
            }
            assert(as_map(fin).dom() =~= as_map(s).dom());
        }
        r
    }
}

proof fn lemma_unmet_prefix(reqs: Seq<(Seq<char>, u32)>, skills: Seq<(Seq<char>, u32)>, i: int)
    requires
        0 <= i < reqs.len(),
        first_unmet(reqs.take(i), skills) < 0,
        level_in(skills, reqs[i].0) < reqs[i].1,
    ensures
        first_unmet(reqs, skills) == i,
    decreases reqs.len(),
{
    if i < reqs.len() - 1 {
        assert(reqs.drop_last().take(i) =~= reqs.take(i));
        lemma_unmet_prefix(reqs.drop_last(), skills, i);
    } else {
        assert(reqs.drop_last() =~= reqs.take(i));
    }
}

proof fn lemma_missing_prefix(required: Seq<Seq<char>>, available: Seq<Seq<char>>, i: int)
    requires
        0 <= i < required.len(),
        first_missing(required.take(i), available) < 0,
        !available.contains(required[i]),
    ensures
        first_missing(required, available) == i,
    decreases required.len(),
{
    if i < required.len() - 1 {
        assert(required.drop_last().take(i) =~= required.take(i));
        lemma_missing_prefix(required.drop_last(), available, i);
    } else {
        assert(required.drop_last() =~= required.take(i));
    }
}

fn copy_amounts(v: &Vec<(String, u32)>) -> (r: Vec<(String, u32)>)
    ensures
        amounts_view(r@) == amounts_view(v@),
{
    let mut r: Vec<(String, u32)> = Vec::new();
    let mut i: usize = 0;
    while i < v.len()
        invariant
            i <= v@.len(),
            amounts_view(r@) == amounts_view(v@).take(i as int),
        decreases v@.len() - i,
    {
        let ghost before = r@;
        r.push((v[i].0.clone(), v[i].1));
        assert(amounts_view(r@) =~= amounts_view(before).push(amounts_view(v@)[i as int]));
        assert(amounts_view(r@) =~= amounts_view(v@).take(i + 1));
        i = i + 1;
    }
    assert(amounts_view(v@).take(v@.len() as int) =~= amounts_view(v@));
    r
}

/// The view of a crafting-system blueprint.
pub struct CraftBlueprintView {
    pub id: Seq<char>,
    pub name: Seq<char>,
    pub description: Seq<char>,
    pub recipe_id: Seq<char>,
    pub discovered: bool,
    pub learned: bool,
    pub discovery_location: Option<Seq<char>>,
    pub rarity: BlueprintRarity,
}

impl View for Blueprint {
    type V = CraftBlueprintView;

    open spec fn view(&self) -> CraftBlueprintView {
        CraftBlueprintView {
            id: self.id@,
            name: self.name@,
            description: self.description@,
            recipe_id: self.recipe_id@,
            discovered: self.discovered,
            learned: self.learned,
            discovery_location: opt_string_view(self.discovery_location),
            rarity: self.rarity,
        }
    }
}

/// The views of a list of blueprints.
pub open spec fn craft_blueprints_view(v: Seq<Blueprint>) -> Seq<CraftBlueprintView> {
    v.map_values(|b: Blueprint| b@)
}

/// Position of the first blueprint with id `id`, or -1.
pub open spec fn blueprint_index(s: Seq<CraftBlueprintView>, id: Seq<char>) -> int
    decreases s.len(),
{
    if s.len() == 0 {
        -1
    } else {
        let p = blueprint_index(s.drop_last(), id);
        if p >= 0 {
            p
        } else if s.last().id == id {
            s.len() - 1
        } else {
            -1
        }
    }
}

proof fn lemma_blueprint_index_prefix(s: Seq<CraftBlueprintView>, id: Seq<char>, i: int)
    requires
        0 <= i < s.len(),
        s[i].id == id,
        blueprint_index(s.take(i), id) < 0,
    ensures
        blueprint_index(s, id) == i,
    decreases s.len(),
{
    if i < s.len() - 1 {
        assert(s.drop_last().take(i) =~= s.take(i));
        lemma_blueprint_index_prefix(s.drop_last(), id, i);
    } else {
        assert(s.drop_last() =~= s.take(i));
    }
}

/// The recipes of `s` that satisfy `p`, in order.
pub open spec fn recipes_where(s: Seq<RecipeView>, p: spec_fn(RecipeView) -> bool) -> Seq<RecipeView>
    decreases s.len(),
{
    if s.len() == 0 {
        Seq::empty()
    } else {
        let r = recipes_where(s.drop_last(), p);
        if p(s.last()) {
            r.push(s.last())
        } else {
            r
        }
    }
}

/// Position of the first input the hold lacks enough of, or -1.
pub open spec fn first_lacking(inputs: Seq<(Seq<char>, u32)>, held: Seq<(ItemView, u32)>) -> int
    decreases inputs.len(),
{
    if inputs.len() == 0 {
        -1
    } else {
        let p = first_lacking(inputs.drop_last(), held);
        if p >= 0 {
            p
        } else if quantity_named(held, inputs.last().0) < inputs.last().1 {
            inputs.len() - 1
        } else {
            -1
        }
    }
}

/// Whether a recipe can be used with the given skills (and makes the item
/// type asked for, when one is).
pub open spec fn available_to(r: RecipeView, item_type: Option<ItemType>, skills: Seq<(Seq<char>, u32)>) -> bool {
    &&& (item_type matches Some(t) ==> r.output_item.item_type == t)
    &&& first_unmet(r.skill_requirements, skills) < 0
}

/// Whether a recipe can be crafted now: skills, facilities and materials.
pub open spec fn craftable_with(
    r: RecipeView,
    skills: Seq<(Seq<char>, u32)>,
    held: Seq<(ItemView, u32)>,
    facilities: Seq<Seq<char>>,
) -> bool {
    &&& first_unmet(r.skill_requirements, skills) < 0
    &&& first_missing(r.facility_requirements, facilities) < 0
    &&& first_lacking(r.input_items, held) < 0
}

/// The recipes a player knows.
pub open spec fn known_recipes(c: CraftingSystem, player: Seq<char>) -> Seq<RecipeView> {
    if c.known_map().dom().contains(player) {
        recipes_for(strings_view(c.known_map()[player]), c.recipe_map())
    } else {
        Seq::empty()
    }
}

/// The item type asked for, if any.
pub open spec fn type_wanted(t: Option<&ItemType>) -> Option<ItemType> {
    match t {
        Some(x) => Some(*x),
        None => None,
    }
}

/// The recipe views of a list of recipe references.
pub open spec fn recipe_refs_view(v: Seq<&CraftingRecipe>) -> Seq<RecipeView> {
    v.map_values(|x: &CraftingRecipe| x@)
}

fn all_skills_met(reqs: &Vec<(String, u32)>, skills: &Vec<(String, u32)>) -> (r: bool)
    ensures
        r == (first_unmet(amounts_view(reqs@), amounts_view(skills@)) < 0),
{
    let ghost rv = amounts_view(reqs@);
    let ghost sk = amounts_view(skills@);
    let mut i: usize = 0;
    while i < reqs.len()
        invariant
            i <= reqs@.len(),
            rv == amounts_view(reqs@),
            sk == amounts_view(skills@),
            first_unmet(rv.take(i as int), sk) < 0,
        decreases reqs@.len() - i,
    {
        proof {
            assert(rv.take(i + 1).drop_last() =~= rv.take(i as int));
            assert(rv.take(i + 1).last() == rv[i as int]);
        }
        if skill_level(skills, reqs[i].0.as_str()) < reqs[i].1 {
            proof {
                lemma_unmet_prefix(rv, sk, i as int);
            }
            return false;
        }
        i = i + 1;
    }
    assert(rv.take(reqs@.len() as int) =~= rv);
    true
}

fn all_facilities_present(required: &Vec<String>, available: &[String]) -> (r: bool)
    ensures
        r == (first_missing(strings_view(required@), strings_view(available@)) < 0),
{
    let ghost fv = strings_view(required@);
    let mut j: usize = 0;
    while j < required.len()
        invariant
            j <= required@.len(),
            fv == strings_view(required@),
            first_missing(fv.take(j as int), strings_view(available@)) < 0,
        decreases required@.len() - j,
    {
        proof {
            assert(fv.take(j + 1).drop_last() =~= fv.take(j as int));
            assert(fv.take(j + 1).last() == fv[j as int]);
        }
        if !text_list_contains(available, required[j].as_str()) {
            proof {
                lemma_missing_prefix(fv, strings_view(available@), j as int);
            }
            return false;
        }
        j = j + 1;
    }
    assert(fv.take(required@.len() as int) =~= fv);
    true
}

proof fn lemma_lacking_prefix(inputs: Seq<(Seq<char>, u32)>, held: Seq<(ItemView, u32)>, i: int)
    requires
        0 <= i < inputs.len(),
        first_lacking(inputs.take(i), held) < 0,
        quantity_named(held, inputs[i].0) < inputs[i].1,
    ensures
        first_lacking(inputs, held) == i,
    decreases inputs.len(),
{
    if i < inputs.len() - 1 {
        assert(inputs.drop_last().take(i) =~= inputs.take(i));
        lemma_lacking_prefix(inputs.drop_last(), held, i);
    } else {
        assert(inputs.drop_last() =~= inputs.take(i));
    }
}

fn all_inputs_held(inputs: &Vec<(String, u32)>, inventory: &Inventory) -> (r: bool)
    ensures
        r == (first_lacking(amounts_view(inputs@), inventory@) < 0),
{
    let ghost iv = amounts_view(inputs@);
    let mut j: usize = 0;
    while j < inputs.len()
        invariant
            j <= inputs@.len(),
            iv == amounts_view(inputs@),
            first_lacking(iv.take(j as int), inventory@) < 0,
        decreases inputs@.len() - j,
    {
        proof {
            assert(iv.take(j + 1).drop_last() =~= iv.take(j as int));
            assert(iv.take(j + 1).last() == iv[j as int]);
        }
        if inventory.get_item_quantity(inputs[j].0.as_str()) < inputs[j].1 {
            proof {
                lemma_lacking_prefix(iv, inventory@, j as int);
            }
            return false;
        }
        j = j + 1;
    }
    assert(iv.take(inputs@.len() as int) =~= iv);
    true
}

impl CraftingSystem {
    /// The recipes the player knows that make `item_type` (when given) and
    /// whose skill requirements the player meets, in the order learned.
    pub fn find_available_recipes(
        &self,
        player_id: &str,
        item_type: Option<&ItemType>,
        player_skills: &Vec<(String, u32)>,
    ) -> (r: Vec<&CraftingRecipe>)
        requires
            self.wf(),
        ensures
            recipe_refs_view(r@) == recipes_where(
                known_recipes(*self, player_id@),
                |x: RecipeView| available_to(x, type_wanted(item_type), amounts_view(player_skills@)),
            ),
    {
        let known = self.get_player_recipes(player_id);
        let ghost kv = recipe_refs_view(known@);
        assert(kv == known_recipes(*self, player_id@));
        let ghost p = |x: RecipeView| available_to(x, type_wanted(item_type), amounts_view(player_skills@));
        let mut r: Vec<&CraftingRecipe> = Vec::new();
        let mut i: usize = 0;
        while i < known.len()
            invariant
                i <= known@.len(),
                kv == recipe_refs_view(known@),
                p == (|x: RecipeView| available_to(x, type_wanted(item_type), amounts_view(player_skills@))),
                recipe_refs_view(r@) == recipes_where(kv.take(i as int), p),
            decreases known@.len() - i,
        {
            let recipe = known[i];
            proof {
                assert(kv.take(i + 1).drop_last() =~= kv.take(i as int));
                assert(kv.take(i + 1).last() == recipe@);
            }
            let type_ok = match item_type {
                Some(t) => recipe.output_item.item_type == *t,
                None => true,
            };
            if type_ok && all_skills_met(&recipe.skill_requirements, player_skills) {
                let ghost before = r@;
                r.push(recipe);
                assert(recipe_refs_view(r@) =~= recipe_refs_view(before).push(recipe@));
            }
            i = i + 1;
        }
        assert(kv.take(known@.len() as int) =~= kv);
        r
    }

    /// The recipes the player knows and can craft now: skills, facilities
    /// and materials all at hand, in the order learned.
    pub fn find_craftable_recipes(
        &self,
        player_id: &str,
        player_inventory: &Inventory,
        player_skills: &Vec<(String, u32)>,
        available_facilities: &[String],
    ) -> (r: Vec<&CraftingRecipe>)
        requires
            self.wf(),
        ensures
            recipe_refs_view(r@) == recipes_where(
                known_recipes(*self, player_id@),
                |x: RecipeView| craftable_with(
                    x,
                    amounts_view(player_skills@),
                    player_inventory@,
                    strings_view(available_facilities@),
                ),
            ),
    {
        let known = self.get_player_recipes(player_id);
        let ghost kv = recipe_refs_view(known@);
        assert(kv == known_recipes(*self, player_id@));
        let ghost p = |x: RecipeView| craftable_with(
            x,
            amounts_view(player_skills@),
            player_inventory@,
            strings_view(available_facilities@),
        );
        let mut r: Vec<&CraftingRecipe> = Vec::new();
        let mut i: usize = 0;
        while i < known.len()
            invariant
                i <= known@.len(),
                kv == recipe_refs_view(known@),
                p == (|x: RecipeView| craftable_with(
                    x,
                    amounts_view(player_skills@),
                    player_inventory@,
                    strings_view(available_facilities@),
                )),
                recipe_refs_view(r@) == recipes_where(kv.take(i as int), p),
            decreases known@.len() - i,
        {
            let recipe = known[i];
            proof {
                assert(kv.take(i + 1).drop_last() =~= kv.take(i as int));
                assert(kv.take(i + 1).last() == recipe@);
            }
            if all_skills_met(&recipe.skill_requirements, player_skills) && all_facilities_present(
                &recipe.facility_requirements,
                available_facilities,
            ) && all_inputs_held(&recipe.input_items, player_inventory) {
                let ghost before = r@;
                r.push(recipe);
                assert(recipe_refs_view(r@) =~= recipe_refs_view(before).push(recipe@));
            }
            i = i + 1;
        }
        assert(kv.take(known@.len() as int) =~= kv);
        r
    }

    /// Adds a blueprint for recipe `recipe_id` with a fresh random id.
    pub fn create_blueprint(
        &mut self,
        recipe_id: &str,
        name: &str,
        description: &str,
        discovered: bool,
        learned: bool,
        discovery_location: Option<&str>,
        rarity: BlueprintRarity,
    ) -> (r: Result<String, String>)
        requires
            old(self).wf(),
        ensures
            final(self).wf(),
            final(self).recipes@ == old(self).recipes@,
            final(self).active_jobs@ == old(self).active_jobs@,
            final(self).player_known_recipes@ == old(self).player_known_recipes@,
            final(self).selected_blueprint_index == old(self).selected_blueprint_index,
            !old(self).recipe_map().dom().contains(recipe_id@) ==> (r matches Err(e) && e@ == "Recipe does not exist"@
                && final(self).blueprints@ == old(self).blueprints@),
            old(self).recipe_map().dom().contains(recipe_id@) ==> (r matches Ok(id) && craft_blueprints_view(
                final(self).blueprints@,
            ) == craft_blueprints_view(old(self).blueprints@).push(
                CraftBlueprintView {
                    id: id@,
                    name: name@,
                    description: description@,
                    recipe_id: recipe_id@,
                    discovered,
                    learned,
                    discovery_location: match discovery_location {
                        Some(l) => Some(l@),
                        None => None,
                    },
                    rarity,
                },
            )),
    {
        let ghost rs = entries_view(self.recipes@);
        proof {
            lemma_index_of_key(rs, recipe_id@);
        }
        if find_key(&self.recipes, recipe_id).is_none() {
            return Err(String::from_str("Recipe does not exist"));
        }
        let bp = Blueprint {
            id: new_uuid_string(),
            name: String::from_str(name),
            description: String::from_str(description),
            recipe_id: String::from_str(recipe_id),
            discovered,
            learned,
            discovery_location: match discovery_location {
                Some(l) => Some(String::from_str(l)),
                None => None,
            },
            rarity,
        };
        let id = bp.id.clone();
        let ghost before = self.blueprints@;
        let ghost bv = bp@;
        self.blueprints.push(bp);
        assert(craft_blueprints_view(self.blueprints@) =~= craft_blueprints_view(before).push(bv));
        Ok(id)
    }

    /// The blueprints that have been discovered, in order.
    pub fn get_available_blueprints(&self) -> (r: Vec<&Blueprint>)
        ensures
            r@.map_values(|b: &Blueprint| b@) == blueprints_where(
                craft_blueprints_view(self.blueprints@),
                |b: CraftBlueprintView| b.discovered,
            ),
    {
        let ghost s = craft_blueprints_view(self.blueprints@);
        let ghost p = |b: CraftBlueprintView| b.discovered;
        let mut r: Vec<&Blueprint> = Vec::new();
        let mut i: usize = 0;
        while i < self.blueprints.len()
            invariant
                i <= self.blueprints@.len(),
                s == craft_blueprints_view(self.blueprints@),
                p == (|b: CraftBlueprintView| b.discovered),
                r@.map_values(|b: &Blueprint| b@) == blueprints_where(s.take(i as int), p),
            decreases self.blueprints@.len() - i,
        {
            proof {
                assert(s.take(i + 1).drop_last() =~= s.take(i as int));
                assert(s.take(i + 1).last() == self.blueprints@[i as int]@);
            }
            if self.blueprints[i].discovered {
                let ghost before = r@;
                r.push(&self.blueprints[i]);
                assert(r@.map_values(|b: &Blueprint| b@) =~= before.map_values(|b: &Blueprint| b@).push(
                    self.blueprints@[i as int]@,
                ));
            }
            i = i + 1;
        }
        assert(s.take(self.blueprints@.len() as int) =~= s);
        r
    }

    /// The selected blueprint's position, if one is selected.
    pub fn get_selected_blueprint_index(&self) -> (r: Option<usize>)
        ensures
            r == self.selected_blueprint_index,
    {
        self.selected_blueprint_index
    }

    /// Selects a blueprint by position (or none); a position past the end
    /// is ignored.
    pub fn set_selected_blueprint_index(&mut self, index: Option<usize>)
        ensures
            (match index {
                Some(i) => i >= old(self).blueprints@.len(),
                None => false,
            }) ==> final(self).selected_blueprint_index == old(self).selected_blueprint_index,
            (match index {
                Some(i) => i < old(self).blueprints@.len(),
                None => true,
            }) ==> final(self).selected_blueprint_index == index,
            final(self).recipes@ == old(self).recipes@,
            final(self).active_jobs@ == old(self).active_jobs@,
            final(self).player_known_recipes@ == old(self).player_known_recipes@,
            final(self).blueprints@ == old(self).blueprints@,
    {
        if let Some(i) = index {
            if i >= self.blueprints.len() {
                return;
            }
        }
        self.selected_blueprint_index = index;
    }

    /// The selected blueprint, if the selection points at one.
    pub fn get_selected_blueprint(&self) -> (r: Option<&Blueprint>)
        ensures
            match self.selected_blueprint_index {
                Some(i) => if i < self.blueprints@.len() {
                    r matches Some(b) && b@ == self.blueprints@[i as int]@
                } else {
                    r is None
                },
                None => r is None,
            },
    {
        match self.selected_blueprint_index {
            Some(i) => {
                if i < self.blueprints.len() {
                    Some(&self.blueprints[i])
                } else {
                    None
                }
            },
            None => None,
        }
    }

    fn blueprint_at(&self, blueprint_id: &str) -> (r: Option<usize>)
        ensures
            match r {
                Some(i) => i < self.blueprints@.len() && i as int == blueprint_index(
                    craft_blueprints_view(self.blueprints@),
                    blueprint_id@,
                ),
                None => blueprint_index(craft_blueprints_view(self.blueprints@), blueprint_id@) < 0,
            },
    {
        let ghost s = craft_blueprints_view(self.blueprints@);
        let mut i: usize = 0;
        while i < self.blueprints.len()
            invariant
                i <= self.blueprints@.len(),
                s == craft_blueprints_view(self.blueprints@),
                blueprint_index(s.take(i as int), blueprint_id@) < 0,
            decreases self.blueprints@.len() - i,
        {
            proof {
                assert(s.take(i + 1).drop_last() =~= s.take(i as int));
            }
            if str_eq(self.blueprints[i].id.as_str(), blueprint_id) {
                proof {
                    lemma_blueprint_index_prefix(s, blueprint_id@, i as int);
                }
                return Some(i);
            }
            i = i + 1;
        }
        assert(s.take(self.blueprints@.len() as int) =~= s);
        None
    }

    /// Marks the blueprint with id `blueprint_id` (the first one) as
    /// discovered; false when there is none.
    pub fn discover_blueprint(&mut self, blueprint_id: &str) -> (r: bool)
        requires
            old(self).wf(),
        ensures
            final(self).wf(),
            r == (blueprint_index(craft_blueprints_view(old(self).blueprints@), blueprint_id@) >= 0),
            !r ==> final(self).blueprints@ == old(self).blueprints@,
            r ==> {
                let i = blueprint_index(craft_blueprints_view(old(self).blueprints@), blueprint_id@);
                craft_blueprints_view(final(self).blueprints@) == craft_blueprints_view(old(self).blueprints@).update(
                    i,
                    CraftBlueprintView { discovered: true, ..craft_blueprints_view(old(self).blueprints@)[i] },
                )
            },
            final(self).recipes@ == old(self).recipes@,
            final(self).active_jobs@ == old(self).active_jobs@,
            final(self).player_known_recipes@ == old(self).player_known_recipes@,
            final(self).selected_blueprint_index == old(self).selected_blueprint_index,
    {
        let ghost s = craft_blueprints_view(self.blueprints@);
        match self.blueprint_at(blueprint_id) {
            Some(i) => {
                let mut bp = self.blueprints.remove(i);
                bp.discovered = true;
                let ghost nv = bp@;
                self.blueprints.insert(i, bp);
                assert(craft_blueprints_view(self.blueprints@) =~= s.update(i as int, nv));
                true
            },
            None => false,
        }
    }

    /// Marks the blueprint with id `blueprint_id` (the first one) as learned
    /// and teaches its recipe to the player; false when there is no such
    /// blueprint or its recipe is unknown to the system.
    pub fn learn_blueprint(&mut self, blueprint_id: &str, player_id: &str) -> (r: bool)
        requires
            old(self).wf(),
        ensures
            final(self).wf(),
            final(self).recipes@ == old(self).recipes@,
            final(self).active_jobs@ == old(self).active_jobs@,
            blueprint_index(craft_blueprints_view(old(self).blueprints@), blueprint_id@) < 0 ==> !r
                && final(self).blueprints@ == old(self).blueprints@ && final(self).known_map() == old(self).known_map(),
            blueprint_index(craft_blueprints_view(old(self).blueprints@), blueprint_id@) >= 0 ==> {
                let i = blueprint_index(craft_blueprints_view(old(self).blueprints@), blueprint_id@);
                let b = craft_blueprints_view(old(self).blueprints@)[i];
                &&& craft_blueprints_view(final(self).blueprints@) == craft_blueprints_view(old(self).blueprints@).update(
                    i,
                    CraftBlueprintView { learned: true, ..b },
                )
                &&& r == old(self).recipe_map().dom().contains(b.recipe_id)
                &&& !r ==> final(self).known_map() == old(self).known_map()
                &&& r ==> final(self).knows(player_id@, b.recipe_id)
                &&& r ==> forall|q: Seq<char>| #[trigger] final(self).knows(player_id@, q) <==> (q == b.recipe_id || old(
                    self,
                ).knows(player_id@, q))
            },
    {
        let ghost s = craft_blueprints_view(self.blueprints@);
        let i = match self.blueprint_at(blueprint_id) {
            Some(i) => i,
            None => {
                return false;
            },
        };
        let mut bp = self.blueprints.remove(i);
        bp.learned = true;
        let recipe_id = bp.recipe_id.clone();
        let ghost nv = bp@;
        self.blueprints.insert(i, bp);
        assert(craft_blueprints_view(self.blueprints@) =~= s.update(i as int, nv));
        self.learn_recipe(player_id, recipe_id.as_str())
    }

    /// Takes a finished job (its owner's, and done by time `current_time`)
    /// off the list and hands it back with the item and quantity its
    /// recipe makes; the quality of the result is decided by chance, by the
    /// caller.
    pub fn collect_completed_job(&mut self, job_id: &str, player_id: &str, current_time: u64) -> (r: Result<
        (CraftingJob, Item, u32),
        String,
    >)
        requires
            old(self).wf(),
        ensures
            final(self).wf(),
            final(self).recipes@ == old(self).recipes@,
            final(self).player_known_recipes@ == old(self).player_known_recipes@,
            final(self).blueprints@ == old(self).blueprints@,
            match collect_refusal(*old(self), job_id@, player_id@, current_time) {
                Some(m) => r matches Err(e) && e@ == m && final(self).active_jobs@ == old(self).active_jobs@,
                None => r matches Ok((job, item, qty)) && {
                    let j = old(self).job_map()[job_id@];
                    let rv = old(self).recipe_map()[j.recipe_id];
                    &&& job@ == j
                    &&& item@ == rv.output_item
                    &&& qty == rv.output_quantity
                    &&& final(self).job_map() == old(self).job_map().remove(job_id@)
                },
            },
    {
        let ghost s = entries_view(self.active_jobs@);
        proof {
            lemma_index_of_key(s, job_id@);
        }
        let i = match find_key(&self.active_jobs, job_id) {
            Some(i) => i,
            None => {
                return Err(String::from_str("Job not found"));
            },
        };
        if !str_eq(self.active_jobs[i].1.player_id.as_str(), player_id) {
            return Err(String::from_str("This job doesn't belong to you"));
        }
        let end = self.active_jobs[i].1.end_time;
        if !self.active_jobs[i].1.is_completed && current_time < end {
            let mut m = String::from_str("Job not completed yet. Ready in ");
            m.append(u64_to_decimal(end - current_time).as_str());
            m.append(" seconds");
            return Err(m);
        }
        let ghost rs = entries_view(self.recipes@);
        proof {
            lemma_index_of_key(rs, self.active_jobs@[i as int].1@.recipe_id);
        }
        let k = match find_key(&self.recipes, self.active_jobs[i].1.recipe_id.as_str()) {
            Some(k) => k,
            None => {
                return Err(String::from_str("Recipe data missing"));
            },
        };
        let item = self.recipes[k].1.output_item.duplicate();
        let qty = self.recipes[k].1.output_quantity;
        let (_key, job) = self.active_jobs.remove(i);
        proof {
            crate::keyed::lemma_remove_entry(s, i as int);
            assert(entries_view(self.active_jobs@) =~= s.remove(i as int));
        }
        Ok((job, item, qty))
    }
}

/// Why job `job_id` cannot be collected by `player` at time `now`, if it cannot.
pub open spec fn collect_refusal(c: CraftingSystem, job_id: Seq<char>, player: Seq<char>, now: u64) -> Option<Seq<char>> {
    if !c.job_map().dom().contains(job_id) {
        Some("Job not found"@)
    } else {
        let j = c.job_map()[job_id];
        if j.player_id != player {
            Some("This job doesn't belong to you"@)
        } else if !j.is_completed && now < j.end_time {
            Some("Job not completed yet. Ready in "@ + decimal((j.end_time - now) as nat) + " seconds"@)
        } else if !c.recipe_map().dom().contains(j.recipe_id) {
            Some("Recipe data missing"@)
        } else {
            None
        }
    }
}

/// The blueprints of `s` that satisfy `p`, in order.
pub open spec fn blueprints_where(s: Seq<CraftBlueprintView>, p: spec_fn(CraftBlueprintView) -> bool) -> Seq<
    CraftBlueprintView,
>
    decreases s.len(),
{
    if s.len() == 0 {
        Seq::empty()
    } else {
        let r = blueprints_where(s.drop_last(), p);
        if p(s.last()) {
            r.push(s.last())
        } else {
            r
        }
    }
}

/// The skill category a requirement names, if any.
pub open spec fn category_named(name: Seq<char>) -> Option<SkillCategory> {
    if name == "Mining"@ {
        Some(SkillCategory::Mining)
    } else if name == "Trading"@ {
        Some(SkillCategory::Trading)
    } else if name == "Combat"@ {
        Some(SkillCategory::Combat)
    } else if name == "Navigation"@ {
        Some(SkillCategory::Navigation)
    } else if name == "Research"@ {
        Some(SkillCategory::Research)
    } else if name == "Engineering"@ {
        Some(SkillCategory::Engineering)
    } else {
        None
    }
}

/// The level of the skill a requirement names, in a skill set: that of
/// the first skill of the category, or 0.
pub open spec fn level_named(skills: Seq<Skill>, name: Seq<char>) -> u32 {
    match category_named(name) {
        Some(c) => {
            let i = skill_index(skills, c);
            if i >= 0 {
                skills[i].level as u32
            } else {
                0
            }
        },
        None => 0,
    }
}

/// Position of the first (name, amount) entry for which `have` falls
/// short, or -1.
pub open spec fn first_failing(entries: Seq<(Seq<char>, u32)>, have: spec_fn(Seq<char>) -> u32) -> int
    decreases entries.len(),
{
    if entries.len() == 0 {
        -1
    } else {
        let p = first_failing(entries.drop_last(), have);
        if p >= 0 {
            p
        } else if have(entries.last().0) < entries.last().1 {
            entries.len() - 1
        } else {
            -1
        }
    }
}

/// The hold after taking each input in turn.
pub open spec fn consumed(inv: Seq<(ItemView, u32)>, inputs: Seq<(Seq<char>, u32)>) -> Seq<(ItemView, u32)>
    decreases inputs.len(),
{
    if inputs.len() == 0 {
        inv
    } else {
        with_removed(consumed(inv, inputs.drop_last()), inputs.last().0, inputs.last().1)
    }
}

/// The facilities a player crafts with.
pub open spec fn basic_facilities() -> Seq<Seq<char>> {
    seq!["Basic Crafting"@]
}

/// Why crafting the `idx`-th blueprint fails for `player`, holding `inv`
/// with skills `skills`, if it does.
pub open spec fn craft_refusal(c: CraftingSystem, player: Seq<char>, inv: Seq<(ItemView, u32)>, skills: Seq<Skill>, idx: int) -> Option<
    Seq<char>,
> {
    if idx >= c.blueprints@.len() {
        Some("Invalid blueprint index"@)
    } else {
        let b = c.blueprints@[idx]@;
        if !b.discovered {
            Some("You haven't discovered this blueprint yet"@)
        } else if !b.learned {
            Some("You haven't learned how to craft this item yet"@)
        } else if !c.recipe_map().dom().contains(b.recipe_id) {
            Some("Recipe not found for this blueprint"@)
        } else if !c.knows(player, b.recipe_id) {
            Some("You don't know this recipe"@)
        } else {
            let r = c.recipe_map()[b.recipe_id];
            let k = first_failing(r.input_items, |n: Seq<char>| quantity_named(inv, n));
            let u = first_failing(r.skill_requirements, |n: Seq<char>| level_named(skills, n));
            if k >= 0 {
                Some(
                    "Not enough "@ + r.input_items[k].0 + ". Need "@ + decimal(r.input_items[k].1 as nat) + ", have "@
                        + decimal(quantity_named(inv, r.input_items[k].0) as nat),
                )
            } else if u >= 0 {
                Some(
                    "You need "@ + r.skill_requirements[u].0 + " level "@ + decimal(r.skill_requirements[u].1 as nat)
                        + " (you have "@ + decimal(level_named(skills, r.skill_requirements[u].0) as nat) + ")"@,
                )
            } else {
                start_refusal(c, player, b.recipe_id, skill_table(skill_pairs(skills)), basic_facilities())
            }
        }
    }
}

proof fn lemma_first_failing(entries: Seq<(Seq<char>, u32)>, have: spec_fn(Seq<char>) -> u32)
    ensures
        -1 <= first_failing(entries, have) < entries.len(),
    decreases entries.len(),
{
    if entries.len() > 0 {
        lemma_first_failing(entries.drop_last(), have);
    }
}

proof fn lemma_failing_prefix(entries: Seq<(Seq<char>, u32)>, have: spec_fn(Seq<char>) -> u32, i: int)
    requires
        0 <= i <= entries.len(),
        first_failing(entries.take(i), have) < 0,
        i < entries.len() ==> have(entries[i].0) < entries[i].1,
    ensures
        i < entries.len() ==> first_failing(entries, have) == i,
        i == entries.len() ==> first_failing(entries, have) < 0,
    decreases entries.len(),
{
    if i == entries.len() {
        assert(entries.take(i) =~= entries);
    } else if i < entries.len() - 1 {
        assert(entries.drop_last().take(i) =~= entries.take(i));
        lemma_failing_prefix(entries.drop_last(), have, i);
    } else {
        assert(entries.drop_last() =~= entries.take(i));
    }
}

fn category_of(name: &str) -> (c: Option<SkillCategory>)
    ensures
        c == category_named(name@),
{
    if str_eq(name, "Mining") {
        Some(SkillCategory::Mining)
    } else if str_eq(name, "Trading") {
        Some(SkillCategory::Trading)
    } else if str_eq(name, "Combat") {
        Some(SkillCategory::Combat)
    } else if str_eq(name, "Navigation") {
        Some(SkillCategory::Navigation)
    } else if str_eq(name, "Research") {
        Some(SkillCategory::Research)
    } else if str_eq(name, "Engineering") {
        Some(SkillCategory::Engineering)
    } else {
        None
    }
}

fn named_level(skills: &SkillSet, name: &str) -> (l: u32)
    ensures
        l == level_named(skills.skills@, name@),
{
    match category_of(name) {
        Some(c) => match skills.get_skill(&c) {
            Some(s) => s.level as u32,
            None => 0,
        },
        None => 0,
    }
}

impl CraftingSystem {
    /// Crafts from the `idx`-th blueprint at time `current_time` for player
    /// `player_id`, holding `inventory` and with skills `skills`: checks
    /// the blueprint, the recipe, the materials and the skills, starts the
    /// job with the basic crafting facility, and takes the materials from
    /// the hold. Returns the job id, or why crafting failed (nothing
    /// changes then).
    pub fn craft_item(
        &mut self,
        player_id: &str,
        inventory: &mut Inventory,
        skills: &SkillSet,
        blueprint_idx: usize,
        current_time: u64,
    ) -> (r: Result<String, String>)
        requires
            old(self).wf(),
            old(inventory).wf(),
            blueprint_idx < old(self).blueprints@.len() && old(self).recipe_map().dom().contains(
                old(self).blueprints@[blueprint_idx as int]@.recipe_id,
            ) ==> ({
                let rv = old(self).recipe_map()[old(self).blueprints@[blueprint_idx as int]@.recipe_id];
                current_time + rv.crafting_time <= u64::MAX && bonus_steps(
                    rv.skill_requirements,
                    skill_table(skill_pairs(skills.skills@)),
                ) <= u64::MAX
            }),
        ensures
            final(self).wf(),
            final(self).recipes@ == old(self).recipes@,
            final(self).player_known_recipes@ == old(self).player_known_recipes@,
            final(self).blueprints@ == old(self).blueprints@,
            match craft_refusal(*old(self), player_id@, old(inventory)@, skills.skills@, blueprint_idx as int) {
                Some(m) => {
                    &&& r matches Err(e) && e@ == m
                    &&& final(self).active_jobs@ == old(self).active_jobs@
                    &&& *final(inventory) == *old(inventory)
                },
                None => r matches Ok(id) && {
                    let rid = old(self).blueprints@[blueprint_idx as int]@.recipe_id;
                    let rv = old(self).recipe_map()[rid];
                    &&& final(self).job_map() == old(self).job_map().insert(
                        id@,
                        new_job(
                            id@,
                            player_id@,
                            rid,
                            rv,
                            current_time,
                            bonus_steps(rv.skill_requirements, skill_table(skill_pairs(skills.skills@))),
                        ),
                    )
                    &&& final(inventory)@ == consumed(old(inventory)@, rv.input_items)
                    &&& final(inventory).capacity == old(inventory).capacity
                    &&& final(inventory).wf()
                },
            },
    {
        if blueprint_idx >= self.blueprints.len() {
            return Err(String::from_str("Invalid blueprint index"));
        }
        let bp = &self.blueprints[blueprint_idx];
        if !bp.discovered {
            return Err(String::from_str("You haven't discovered this blueprint yet"));
        }
        if !bp.learned {
            return Err(String::from_str("You haven't learned how to craft this item yet"));
        }
        let recipe_id = bp.recipe_id.clone();
        let ghost rid = recipe_id@;
        proof {
            lemma_index_of_key(entries_view(self.recipes@), rid);
        }
        let k = match find_key(&self.recipes, recipe_id.as_str()) {
            Some(k) => k,
            None => {
                return Err(String::from_str("Recipe not found for this blueprint"));
            },
        };
        if !self.player_knows_recipe(player_id, recipe_id.as_str()) {
            return Err(String::from_str("You don't know this recipe"));
        }
        let inputs = copy_amounts(&self.recipes[k].1.input_items);
        let reqs = copy_amounts(&self.recipes[k].1.skill_requirements);
        let ghost rv = self.recipe_map()[rid];
        assert(amounts_view(inputs@) == rv.input_items);
        assert(amounts_view(reqs@) == rv.skill_requirements);
        let ghost inv0 = inventory@;
        let ghost have_items = |n: Seq<char>| quantity_named(inv0, n);
        let ghost have_levels = |n: Seq<char>| level_named(skills.skills@, n);
        let mut i: usize = 0;
        while i < inputs.len()
            invariant
                *self == *old(self),
                *inventory == *old(inventory),
                old(self).wf(),
                blueprint_idx < old(self).blueprints@.len(),
                old(self).blueprints@[blueprint_idx as int]@.discovered,
                old(self).blueprints@[blueprint_idx as int]@.learned,
                rid == old(self).blueprints@[blueprint_idx as int]@.recipe_id,
                old(self).recipe_map().dom().contains(rid),
                old(self).knows(player_id@, rid),
                rv == old(self).recipe_map()[rid],
                i <= inputs@.len(),
                inventory@ == inv0,
                amounts_view(inputs@) == rv.input_items,
                have_items == (|n: Seq<char>| quantity_named(inv0, n)),
                first_failing(rv.input_items.take(i as int), have_items) < 0,
            decreases inputs@.len() - i,
        {
            let need = inputs[i].1;
            let have = inventory.get_item_quantity(inputs[i].0.as_str());
            assert(rv.input_items[i as int] == (inputs@[i as int].0@, need));
            if have < need {
                proof {
                    lemma_failing_prefix(rv.input_items, have_items, i as int);
                }
                let mut m = String::from_str("Not enough ");
                m.append(inputs[i].0.as_str());
                m.append(". Need ");
                m.append(u64_to_decimal(need as u64).as_str());
                m.append(", have ");
                m.append(u64_to_decimal(have as u64).as_str());
                return Err(m);
            }
            proof {
                assert(rv.input_items.take(i + 1).drop_last() =~= rv.input_items.take(i as int));
            }
            i = i + 1;
        }
        proof {
            lemma_failing_prefix(rv.input_items, have_items, i as int);
        }
        let mut j: usize = 0;
        while j < reqs.len()
            invariant
                *self == *old(self),
                *inventory == *old(inventory),
                old(self).wf(),
                blueprint_idx < old(self).blueprints@.len(),
                old(self).blueprints@[blueprint_idx as int]@.discovered,
                old(self).blueprints@[blueprint_idx as int]@.learned,
                rid == old(self).blueprints@[blueprint_idx as int]@.recipe_id,
                old(self).recipe_map().dom().contains(rid),
                old(self).knows(player_id@, rid),
                rv == old(self).recipe_map()[rid],
                inv0 == old(inventory)@,
                first_failing(rv.input_items, have_items) < 0,
                have_items == (|n: Seq<char>| quantity_named(inv0, n)),
                j <= reqs@.len(),
                amounts_view(reqs@) == rv.skill_requirements,
                have_levels == (|n: Seq<char>| level_named(skills.skills@, n)),
                first_failing(rv.skill_requirements.take(j as int), have_levels) < 0,
            decreases reqs@.len() - j,
        {
            let need = reqs[j].1;
            let have = named_level(skills, reqs[j].0.as_str());
            assert(rv.skill_requirements[j as int] == (reqs@[j as int].0@, need));
            if have < need {
                proof {
                    lemma_failing_prefix(rv.skill_requirements, have_levels, j as int);
                }
                let mut m = String::from_str("You need ");
                m.append(reqs[j].0.as_str());
                m.append(" level ");
                m.append(u64_to_decimal(need as u64).as_str());
                m.append(" (you have ");
                m.append(u64_to_decimal(have as u64).as_str());
                m.append(")");
                return Err(m);
            }
            proof {
                assert(rv.skill_requirements.take(j + 1).drop_last() =~= rv.skill_requirements.take(j as int));
            }
            j = j + 1;
        }
        proof {
            lemma_failing_prefix(rv.skill_requirements, have_levels, j as int);
        }
        let facilities: Vec<String> = vec![String::from_str("Basic Crafting")];
        assert(strings_view(facilities@) =~= basic_facilities());
        let skill_map = convert_skillset_to_map(skills);
        assert(amounts_view(skill_map@) =~= entries_view(skill_map@));
        let started = self.start_crafting_job(player_id, recipe_id.as_str(), current_time, &skill_map, facilities.as_slice());
        let (job_id, _end) = match started {
            Ok(p) => p,
            Err(e) => {
                return Err(e);
            },
        };
        let mut t: usize = 0;
        while t < inputs.len()
            invariant
                t <= inputs@.len(),
                amounts_view(inputs@) == rv.input_items,
                inventory@ == consumed(inv0, rv.input_items.take(t as int)),
                inventory.capacity == old(inventory).capacity,
                inventory.wf(),
            decreases inputs@.len() - t,
        {
            proof {
                assert(rv.input_items.take(t + 1).drop_last() =~= rv.input_items.take(t as int));
                assert(rv.input_items.take(t + 1).last() == (inputs@[t as int].0@, inputs@[t as int].1));
            }
            let _ = inventory.remove_item(inputs[t].0.as_str(), inputs[t].1);
            t = t + 1;
        }
        proof {
            assert(rv.input_items.take(t as int) =~= rv.input_items);
        }
        Ok(job_id)
    }
}

/// The basic alloy recipe, under id `id`.
pub open spec fn alloy_recipe(id: Seq<char>) -> RecipeView {
    RecipeView {
        id,
        name: "Basic Mineral Alloy"@,
        description: "Refine raw minerals into a useful alloy"@,
        input_items: seq![("Iron Ore"@, 2u32), ("Copper Ore"@, 1u32)],
        output_item: ItemView { name: "Mineral Alloy"@, value: 150, weight: 1, item_type: ItemType::Component },
        output_quantity: 1,
        crafting_time: 300,
        skill_requirements: Seq::empty(),
        facility_requirements: Seq::empty(),
        faction_requirements: None,
        difficulty: 1,
        discovery_requirements: None,
    }
}

/// The power cell recipe, under id `id`.
pub open spec fn power_cell_recipe(id: Seq<char>) -> RecipeView {
    RecipeView {
        id,
        name: "Standard Power Cell"@,
        description: "Craft a basic power cell for various devices"@,
        input_items: seq![("Mineral Alloy"@, 1u32), ("Energy Crystal"@, 2u32), ("Conducting Wire"@, 3u32)],
        output_item: ItemView { name: "Power Cell"@, value: 500, weight: 2, item_type: ItemType::Component },
        output_quantity: 1,
        crafting_time: 600,
        skill_requirements: seq![("Electronics"@, 2u32)],
        facility_requirements: seq!["Electronics Lab"@],
        faction_requirements: None,
        difficulty: 1,
        discovery_requirements: None,
    }
}

/// The shield generator recipe, under id `id`.
pub open spec fn shield_recipe(id: Seq<char>) -> RecipeView {
    RecipeView {
        id,
        name: "Basic Shield Generator"@,
        description: "A defensive module that generates an energy shield around your ship"@,
        input_items: seq![
            ("Power Cell"@, 3u32),
            ("Shield Emitter"@, 1u32),
            ("Mineral Alloy"@, 5u32),
            ("Energy Capacitor"@, 2u32),
        ],
        output_item: ItemView {
            name: "Basic Shield Generator"@,
            value: 2000,
            weight: 10,
            item_type: ItemType::ShipModule,
        },
        output_quantity: 1,
        crafting_time: 1800,
        skill_requirements: seq![("Engineering"@, 3u32), ("Electronics"@, 2u32)],
        facility_requirements: seq!["Shipyard"@],
        faction_requirements: None,
        difficulty: 1,
        discovery_requirements: None,
    }
}

/// The recipes after adding the three basic ones under ids `a`, `b`, `c`.
pub open spec fn with_basic_recipes(m: Map<Seq<char>, RecipeView>, a: Seq<char>, b: Seq<char>, c: Seq<char>) -> Map<
    Seq<char>,
    RecipeView,
> {
    m.insert(a, alloy_recipe(a)).insert(b, power_cell_recipe(b)).insert(c, shield_recipe(c))
}

/// The rarity of a blueprint for a recipe of the given difficulty.
pub open spec fn rarity_for(difficulty: u32) -> BlueprintRarity {
    if difficulty <= 20 {
        BlueprintRarity::Common
    } else if difficulty <= 40 {
        BlueprintRarity::Uncommon
    } else if difficulty <= 60 {
        BlueprintRarity::Rare
    } else if difficulty <= 80 {
        BlueprintRarity::VeryRare
    } else if difficulty <= 90 {
        BlueprintRarity::Exceptional
    } else {
        BlueprintRarity::Legendary
    }
}

/// Whether `b` is the blueprint made for the recipe entry `e`: discovered,
/// not learned, with no location, and a rarity by the recipe's difficulty.
pub open spec fn blueprint_for(b: CraftBlueprintView, e: (Seq<char>, RecipeView)) -> bool {
    &&& b.name == e.1.name
    &&& b.description == e.1.description
    &&& b.recipe_id == e.0
    &&& b.discovered
    &&& !b.learned
    &&& b.discovery_location is None
    &&& b.rarity == rarity_for(e.1.difficulty)
}

fn rarity_of(difficulty: u32) -> (r: BlueprintRarity)
    ensures
        r == rarity_for(difficulty),
{
    if difficulty <= 20 {
        BlueprintRarity::Common
    } else if difficulty <= 40 {
        BlueprintRarity::Uncommon
    } else if difficulty <= 60 {
        BlueprintRarity::Rare
    } else if difficulty <= 80 {
        BlueprintRarity::VeryRare
    } else if difficulty <= 90 {
        BlueprintRarity::Exceptional
    } else {
        BlueprintRarity::Legendary
    }
}

impl CraftingSystem {
    /// Adds the three basic recipes (mineral alloy, power cell, shield
    /// generator) under fresh ids, with their facility and skill
    /// requirements.
    pub fn setup_basic_recipes(&mut self)
        requires
            old(self).wf(),
        ensures
            final(self).wf(),
            exists|a: Seq<char>, b: Seq<char>, c: Seq<char>|
                final(self).recipe_map() == #[trigger] with_basic_recipes(old(self).recipe_map(), a, b, c),
            final(self).active_jobs@ == old(self).active_jobs@,
            final(self).player_known_recipes@ == old(self).player_known_recipes@,
            final(self).blueprints@ == old(self).blueprints@,
    {
        let alloy = Item::new("Mineral Alloy", 150, 1, ItemType::Component);
        let inputs = vec![(String::from_str("Iron Ore"), 2u32), (String::from_str("Copper Ore"), 1u32)];
        assert(amounts_view(inputs@) =~= seq![("Iron Ore"@, 2u32), ("Copper Ore"@, 1u32)]);
        let recipe = CraftingSystem::create_recipe(
            "Basic Mineral Alloy",
            "Refine raw minerals into a useful alloy",
            inputs,
            alloy,
            1,
            300,
        );
        let a = self.register_recipe(recipe);
        assert(self.recipe_map()[a@] == alloy_recipe(a@));
        let ghost m1 = self.recipe_map();

        let cell = Item::new("Power Cell", 500, 2, ItemType::Component);
        let inputs = vec![
            (String::from_str("Mineral Alloy"), 1u32),
            (String::from_str("Energy Crystal"), 2u32),
            (String::from_str("Conducting Wire"), 3u32),
        ];
        assert(amounts_view(inputs@) =~= seq![
            ("Mineral Alloy"@, 1u32),
            ("Energy Crystal"@, 2u32),
            ("Conducting Wire"@, 3u32),
        ]);
        let recipe = CraftingSystem::create_recipe(
            "Standard Power Cell",
            "Craft a basic power cell for various devices",
            inputs,
            cell,
            1,
            600,
        );
        let b = self.register_recipe(recipe);
        self.add_facility_requirement(b.as_str(), "Electronics Lab");
        assert(keys_unique(self.recipe_map()[b@].skill_requirements));
        self.add_skill_requirement(b.as_str(), "Electronics", 2);
        proof {
            lemma_index_of_key(Seq::<(Seq<char>, u32)>::empty(), "Electronics"@);
        }
        assert(self.recipe_map()[b@].skill_requirements =~= seq![("Electronics"@, 2u32)]);
        assert(self.recipe_map()[b@].facility_requirements =~= seq!["Electronics Lab"@]);
        assert(self.recipe_map()[b@] == power_cell_recipe(b@));
        assert(self.recipe_map() =~= m1.insert(b@, power_cell_recipe(b@)));
        let ghost m2 = self.recipe_map();

        let shield = Item::new("Basic Shield Generator", 2000, 10, ItemType::ShipModule);
        let inputs = vec![
            (String::from_str("Power Cell"), 3u32),
            (String::from_str("Shield Emitter"), 1u32),
            (String::from_str("Mineral Alloy"), 5u32),
            (String::from_str("Energy Capacitor"), 2u32),
        ];
        assert(amounts_view(inputs@) =~= seq![
            ("Power Cell"@, 3u32),
            ("Shield Emitter"@, 1u32),
            ("Mineral Alloy"@, 5u32),
            ("Energy Capacitor"@, 2u32),
        ]);
        let recipe = CraftingSystem::create_recipe(
            "Basic Shield Generator",
            "A defensive module that generates an energy shield around your ship",
            inputs,
            shield,
            1,
            1800,
        );
        let c = self.register_recipe(recipe);
        self.add_facility_requirement(c.as_str(), "Shipyard");
        self.add_skill_requirement(c.as_str(), "Engineering", 3);
        proof {
            lemma_index_of_key(Seq::<(Seq<char>, u32)>::empty(), "Engineering"@);
            reveal_strlit("Engineering");
            reveal_strlit("Electronics");
            assert("Engineering"@[2] != "Electronics"@[2]);
            lemma_index_of_key(seq![("Engineering"@, 3u32)], "Electronics"@);
        }
        self.add_skill_requirement(c.as_str(), "Electronics", 2);
        assert(self.recipe_map()[c@].skill_requirements =~= seq![("Engineering"@, 3u32), ("Electronics"@, 2u32)]);
        assert(self.recipe_map()[c@].facility_requirements =~= seq!["Shipyard"@]);
        assert(self.recipe_map()[c@] == shield_recipe(c@));
        assert(self.recipe_map() =~= m2.insert(c@, shield_recipe(c@)));
        assert(self.recipe_map() == with_basic_recipes(old(self).recipe_map(), a@, b@, c@));
    }
}

impl CraftingSystem {
    /// Adds a discovered, unlearned blueprint for every recipe, in the order
    /// the recipes are stored, with a rarity by the recipe's difficulty;
    /// when there are no recipes yet, the basic ones are added first.
    pub fn setup_basic_blueprints(&mut self)
        requires
            old(self).wf(),
        ensures
            final(self).wf(),
            old(self).recipes@.len() == 0 ==> exists|a: Seq<char>, b: Seq<char>, c: Seq<char>|
                final(self).recipe_map() == #[trigger] with_basic_recipes(old(self).recipe_map(), a, b, c),
            old(self).recipes@.len() != 0 ==> final(self).recipes@ == old(self).recipes@,
            final(self).active_jobs@ == old(self).active_jobs@,
            final(self).player_known_recipes@ == old(self).player_known_recipes@,
            final(self).blueprints@.len() == old(self).blueprints@.len() + final(self).recipes@.len(),
            forall|i: int| 0 <= i < old(self).blueprints@.len() ==> #[trigger] final(self).blueprints@[i]@ == old(
                self,
            ).blueprints@[i]@,
            forall|j: int|
                0 <= j < final(self).recipes@.len() ==> blueprint_for(
                    #[trigger] final(self).blueprints@[old(self).blueprints@.len() + j]@,
                    entries_view(final(self).recipes@)[j],
                ),
            forall|j: int|
                old(self).blueprints@.len() <= j < final(self).blueprints@.len() ==> final(self).recipe_map().dom().contains(
                    #[trigger] final(self).blueprints@[j]@.recipe_id,
                ),
    {
        if self.recipes.len() == 0 {
            self.setup_basic_recipes();
        }
        let ghost recipes = self.recipes@;
        let ghost entries = entries_view(recipes);
        let ghost start = self.blueprints@;
        let mut data: Vec<(String, String, String, u32)> = Vec::new();
        let mut i: usize = 0;
        while i < self.recipes.len()
            invariant
                i <= self.recipes@.len(),
                self.recipes@ == recipes,
                entries == entries_view(recipes),
                data@.len() == i,
                forall|k: int|
                    0 <= k < i ==> {
                        &&& (#[trigger] data@[k]).0@ == entries[k].0
                        &&& data@[k].1@ == entries[k].1.name
                        &&& data@[k].2@ == entries[k].1.description
                        &&& data@[k].3 == entries[k].1.difficulty
                    },
            decreases self.recipes@.len() - i,
        {
            let r = &self.recipes[i];
            data.push((r.0.clone(), r.1.name.clone(), r.1.description.clone(), r.1.difficulty));
            i = i + 1;
        }
        let mut j: usize = 0;
        while j < data.len()
            invariant
                j <= data@.len(),
                data@.len() == entries.len(),
                self.wf(),
                self.recipes@ == recipes,
                entries == entries_view(recipes),
                self.active_jobs@ == old(self).active_jobs@,
                self.player_known_recipes@ == old(self).player_known_recipes@,
                self.blueprints@.len() == start.len() + j,
                forall|k: int|
                    0 <= k < data@.len() ==> {
                        &&& (#[trigger] data@[k]).0@ == entries[k].0
                        &&& data@[k].1@ == entries[k].1.name
                        &&& data@[k].2@ == entries[k].1.description
                        &&& data@[k].3 == entries[k].1.difficulty
                    },
                forall|k: int| 0 <= k < start.len() ==> #[trigger] self.blueprints@[k]@ == start[k]@,
                forall|k: int| 0 <= k < j ==> blueprint_for(#[trigger] self.blueprints@[start.len() + k]@, entries[k]),
            decreases data@.len() - j,
        {
            proof {
                crate::keyed::lemma_unique_index(entries, entries[j as int].0, j as int);
            }
            let rarity = rarity_of(data[j].3);
            let ghost before = self.blueprints@;
            let _ = self.create_blueprint(
                data[j].0.as_str(),
                data[j].1.as_str(),
                data[j].2.as_str(),
                true,
                false,
                None,
                rarity,
            );
            proof {
                assert(craft_blueprints_view(self.blueprints@).len() == craft_blueprints_view(before).len() + 1);
                assert forall|k: int| 0 <= k < before.len() implies #[trigger] self.blueprints@[k]@ == before[k]@ by {
                    assert(craft_blueprints_view(self.blueprints@)[k] == craft_blueprints_view(before)[k]);
                }
                assert(craft_blueprints_view(self.blueprints@)[before.len() as int] == self.blueprints@[before.len() as int]@);
            }
            j = j + 1;
        }
        proof {
            assert forall|k: int|
                start.len() <= k < self.blueprints@.len() implies self.recipe_map().dom().contains(
                    #[trigger] self.blueprints@[k]@.recipe_id,
                ) by {
                let jj = k - start.len();
                assert(blueprint_for(self.blueprints@[start.len() + jj]@, entries[jj]));
                crate::keyed::lemma_unique_index(entries, entries[jj].0, jj);
            }
        }
    }
}

/// A crafting table: a facility where crafting can be done. The quality
/// and speed modifiers are kept in hundredths (100 is normal).
#[derive(Debug, Clone)]
pub struct CraftingTable {
    pub id: String,
    pub name: String,
    pub location_id: String,
    pub facility_types: Vec<String>,
    pub available_tools: Vec<String>,
    pub quality_modifier_hundredths: u32,
    pub speed_modifier_hundredths: u32,
    pub owner_id: Option<String>,
    pub public_access: bool,
    pub usage_fee: Option<u32>,
}

impl CraftingTable {
    /// A public table with no owner, no tools, no fee and normal modifiers,
    /// under a fresh random id.
    pub fn new(name: &str, location_id: &str, facility_types: Vec<String>) -> (t: CraftingTable)
        ensures
            t.name@ == name@,
            t.location_id@ == location_id@,
            t.facility_types == facility_types,
            t.available_tools@.len() == 0,
            t.quality_modifier_hundredths == 100,
            t.speed_modifier_hundredths == 100,
            t.owner_id is None,
            t.public_access,
            t.usage_fee is None,
    {
        CraftingTable {
            id: new_uuid_string(),
            name: String::from_str(name),
            location_id: String::from_str(location_id),
            facility_types,
            available_tools: Vec::new(),
            quality_modifier_hundredths: 100,
            speed_modifier_hundredths: 100,
            owner_id: None,
            public_access: true,
            usage_fee: None,
        }
    }

    /// Raises the quality modifier by `amount` hundredths.
    pub fn upgrade_quality(&mut self, amount: u32)
        requires
            old(self).quality_modifier_hundredths + amount <= u32::MAX,
        ensures
            *final(self) == (CraftingTable {
                quality_modifier_hundredths: (old(self).quality_modifier_hundredths + amount) as u32,
                ..*old(self)
            }),
    {
        self.quality_modifier_hundredths = self.quality_modifier_hundredths + amount;
    }

    /// Raises the speed modifier by `amount` hundredths.
    pub fn upgrade_speed(&mut self, amount: u32)
        requires
            old(self).speed_modifier_hundredths + amount <= u32::MAX,
        ensures
            *final(self) == (CraftingTable {
                speed_modifier_hundredths: (old(self).speed_modifier_hundredths + amount) as u32,
                ..*old(self)
            }),
    {
        self.speed_modifier_hundredths = self.speed_modifier_hundredths + amount;
    }

    /// Adds a tool, unless the table has it already.
    pub fn add_tool(&mut self, tool: &str)
        ensures
            strings_view(old(self).available_tools@).contains(tool@) ==> *final(self) == *old(self),
            !strings_view(old(self).available_tools@).contains(tool@) ==> strings_view(final(self).available_tools@)
                == strings_view(old(self).available_tools@).push(tool@),
            *final(self) == (CraftingTable { available_tools: final(self).available_tools, ..*old(self) }),
    {
        if !strings_contain(&self.available_tools, tool) {
            let ghost before = self.available_tools@;
            self.available_tools.push(String::from_str(tool));
            assert(strings_view(self.available_tools@) =~= strings_view(before).push(tool@));
        }
    }

    /// Makes `player_id` the owner, with the access and fee given.
    pub fn set_owner(&mut self, player_id: &str, public_access: bool, usage_fee: Option<u32>)
        ensures
            final(self).owner_id matches Some(o) && o@ == player_id@,
            *final(self) == (CraftingTable { owner_id: final(self).owner_id, public_access, usage_fee, ..*old(self) }),
    {
        self.owner_id = Some(String::from_str(player_id));
        self.public_access = public_access;
        self.usage_fee = usage_fee;
    }

    /// What `player_id` pays to use the table: the owner nothing; others
    /// the fee, if any, of a public table; a private table refuses them.
    pub fn can_use(&self, player_id: &str) -> (r: Result<u32, String>)
        ensures
            match self.owner_id {
                None => r == Ok::<u32, String>(0),
                Some(o) => if o@ == player_id@ {
                    r == Ok::<u32, String>(0)
                } else if !self.public_access {
                    r matches Err(e) && e@ == "This crafting table is private"@
                } else {
                    r == Ok::<u32, String>(
                        match self.usage_fee {
                            Some(f) => f,
                            None => 0,
                        },
                    )
                },
            },
    {
        match &self.owner_id {
            Some(o) => {
                if str_eq(o.as_str(), player_id) {
                    return Ok(0);
                }
                if !self.public_access {
                    return Err(String::from_str("This crafting table is private"));
                }
                match self.usage_fee {
                    Some(f) => Ok(f),
                    None => Ok(0),
                }
            },
            None => Ok(0),
        }
    }
}

} // verus!

verus! {

/// The excess of a skill level over a required level (0 when not above it).
pub open spec fn excess(have: u32, need: u32) -> nat {
    if have > need { (have - need) as nat } else { 0 }
}

/// The quality bonus of a job adds up over the recipe's requirements: none
/// without requirements, and one more requirement that the player exceeds
/// by `k` levels raises the bonus by exactly `k`; split the requirements in
/// two lists anyhow and the bonuses of the parts add up to the whole.
pub proof fn law_bonus_is_additive(
    reqs: Seq<(Seq<char>, u32)>,
    more: Seq<(Seq<char>, u32)>,
    skills: Seq<(Seq<char>, u32)>,
    name: Seq<char>,
    need: u32,
)
    ensures
        bonus_steps(Seq::empty(), skills) == 0,
        bonus_steps(reqs.push((name, need)), skills) == bonus_steps(reqs, skills) + excess(level_in(skills, name), need),
        bonus_steps(reqs + more, skills) == bonus_steps(reqs, skills) + bonus_steps(more, skills),
    decreases more.len(),
{
    assert(reqs.push((name, need)).drop_last() =~= reqs);
    if more.len() == 0 {
        assert(reqs + more =~= reqs);
    } else {
        law_bonus_is_additive(reqs, more.drop_last(), skills, name, need);
        assert((reqs + more).drop_last() =~= reqs + more.drop_last());
        assert((reqs + more).last() == more.last());
    }
}

/// A job started at time `now` carries the quality bonus of its recipe's
/// requirements: for a single requirement, exactly the player's levels
/// above it.
pub proof fn law_job_bonus_of_one_requirement(
    id: Seq<char>,
    player: Seq<char>,
    recipe_id: Seq<char>,
    r: RecipeView,
    now: u64,
    skills: Seq<(Seq<char>, u32)>,
)
    requires
        r.skill_requirements.len() == 1,
    ensures
        new_job(id, player, recipe_id, r, now, bonus_steps(r.skill_requirements, skills)).quality_bonus_steps
            == excess(level_in(skills, r.skill_requirements[0].0), r.skill_requirements[0].1),
{
    let reqs = r.skill_requirements;
    assert(reqs.drop_last() =~= Seq::<(Seq<char>, u32)>::empty());
    assert(reqs.last() == reqs[0]);
    assert(bonus_steps(reqs.drop_last(), skills) == 0);
    assert(bonus_steps(reqs, skills) == excess(level_in(skills, reqs[0].0), reqs[0].1));
    assert(excess(level_in(skills, reqs[0].0), reqs[0].1) <= u32::MAX);
}

} // verus!

verus! {

proof fn lemma_first_missing_none(required: Seq<Seq<char>>, available: Seq<Seq<char>>)
    ensures
        first_missing(required, available) < 0 <==> forall|k: int| 0 <= k < required.len() ==> available.contains(
            #[trigger] required[k],
        ),
    decreases required.len(),
{
    if required.len() > 0 {
        let p = required.drop_last();
        lemma_first_missing_none(p, available);
        assert forall|k: int| 0 <= k < p.len() implies p[k] == required[k] by {}
        if first_missing(p, available) >= 0 {
            let k = choose|k: int| 0 <= k < p.len() && !available.contains(#[trigger] p[k]);
            assert(required[k] == p[k]);
        }
        if !available.contains(required.last()) {
            assert(required[required.len() - 1] == required.last());
        }
    }
}

proof fn lemma_first_lacking_none(inputs: Seq<(Seq<char>, u32)>, held: Seq<(ItemView, u32)>)
    ensures
        first_lacking(inputs, held) < 0 <==> forall|k: int| 0 <= k < inputs.len() ==> quantity_named(
            held,
            (#[trigger] inputs[k]).0,
        ) >= inputs[k].1,
    decreases inputs.len(),
{
    if inputs.len() > 0 {
        let p = inputs.drop_last();
        lemma_first_lacking_none(p, held);
        assert forall|k: int| 0 <= k < p.len() implies p[k] == inputs[k] by {}
        if first_lacking(p, held) >= 0 {
            let k = choose|k: int| 0 <= k < p.len() && !(quantity_named(held, (#[trigger] p[k]).0) >= p[k].1);
            assert(inputs[k] == p[k]);
        }
        if quantity_named(held, inputs.last().0) < inputs.last().1 {
            assert(inputs[inputs.len() - 1] == inputs.last());
        }
    }
}

proof fn lemma_first_unmet_none(reqs: Seq<(Seq<char>, u32)>, skills: Seq<(Seq<char>, u32)>)
    ensures
        first_unmet(reqs, skills) < 0 <==> forall|k: int| 0 <= k < reqs.len() ==> level_in(skills, (#[trigger] reqs[k]).0)
            >= reqs[k].1,
{
    lemma_first_unmet(reqs, skills);
    if first_unmet(reqs, skills) >= 0 {
        let k = first_unmet(reqs, skills);
        assert(level_in(skills, reqs[k].0) < reqs[k].1);
    }
}

proof fn lemma_recipes_where(s: Seq<RecipeView>, p: spec_fn(RecipeView) -> bool)
    ensures
        forall|i: int| 0 <= i < recipes_where(s, p).len() ==> p(#[trigger] recipes_where(s, p)[i]) && s.contains(
            recipes_where(s, p)[i],
        ),
        forall|j: int| 0 <= j < s.len() && p(#[trigger] s[j]) ==> recipes_where(s, p).contains(s[j]),
    decreases s.len(),
{
    if s.len() > 0 {
        let q = s.drop_last();
        lemma_recipes_where(q, p);
        let r = recipes_where(q, p);
        assert forall|i: int| 0 <= i < recipes_where(s, p).len() implies p(#[trigger] recipes_where(s, p)[i])
            && s.contains(recipes_where(s, p)[i]) by {
            if i < r.len() {
                assert(recipes_where(s, p)[i] == r[i]);
                let w = choose|w: int| 0 <= w < q.len() && q[w] == r[i];
                assert(s[w] == q[w]);
            } else {
                assert(s[s.len() - 1] == s.last());
            }
        }
        assert forall|j: int| 0 <= j < s.len() && p(#[trigger] s[j]) implies recipes_where(s, p).contains(s[j]) by {
            if j < s.len() - 1 {
                assert(q[j] == s[j]);
                let w = choose|w: int| 0 <= w < r.len() && r[w] == q[j];
                assert(recipes_where(s, p)[w] == r[w]);
            } else {
                assert(recipes_where(s, p)[recipes_where(s, p).len() - 1] == s.last());
            }
        }
    }
}

/// The recipes found craftable are exactly the known ones for which every
/// required skill level is reached, every required facility is among those
/// available and every input is in the hold in the quantity needed.
pub proof fn law_craftable_means_all_at_hand(
    known: Seq<RecipeView>,
    skills: Seq<(Seq<char>, u32)>,
    held: Seq<(ItemView, u32)>,
    facilities: Seq<Seq<char>>,
    i: int,
    j: int,
)
    ensures
        0 <= i < recipes_where(known, |x: RecipeView| craftable_with(x, skills, held, facilities)).len() ==> {
            let r = recipes_where(known, |x: RecipeView| craftable_with(x, skills, held, facilities))[i];
            &&& known.contains(r)
            &&& forall|k: int| 0 <= k < r.facility_requirements.len() ==> facilities.contains(
                #[trigger] r.facility_requirements[k],
            )
            &&& forall|k: int| 0 <= k < r.skill_requirements.len() ==> level_in(
                skills,
                (#[trigger] r.skill_requirements[k]).0,
            ) >= r.skill_requirements[k].1
            &&& forall|k: int| 0 <= k < r.input_items.len() ==> quantity_named(held, (#[trigger] r.input_items[k]).0)
                >= r.input_items[k].1
        },
        0 <= j < known.len() && (forall|k: int| 0 <= k < known[j].facility_requirements.len() ==> facilities.contains(
            #[trigger] known[j].facility_requirements[k],
        )) && (forall|k: int| 0 <= k < known[j].skill_requirements.len() ==> level_in(
            skills,
            (#[trigger] known[j].skill_requirements[k]).0,
        ) >= known[j].skill_requirements[k].1) && (forall|k: int| 0 <= k < known[j].input_items.len() ==> quantity_named(
            held,
            (#[trigger] known[j].input_items[k]).0,
        ) >= known[j].input_items[k].1) ==> recipes_where(
            known,
            |x: RecipeView| craftable_with(x, skills, held, facilities),
        ).contains(known[j]),
{
    let p = |x: RecipeView| craftable_with(x, skills, held, facilities);
    lemma_recipes_where(known, p);
    if 0 <= i < recipes_where(known, p).len() {
        let r = recipes_where(known, p)[i];
        assert(p(r));
        lemma_first_missing_none(r.facility_requirements, facilities);
        lemma_first_unmet_none(r.skill_requirements, skills);
        lemma_first_lacking_none(r.input_items, held);
    }
    if 0 <= j < known.len() {
        lemma_first_missing_none(known[j].facility_requirements, facilities);
        lemma_first_unmet_none(known[j].skill_requirements, skills);
        lemma_first_lacking_none(known[j].input_items, held);
    }
}

} // verus!
