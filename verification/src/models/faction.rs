//! Factions and their storylines.
use vstd::prelude::*;
use crate::models::skills::SkillCategory;
use crate::models::ship::{fresh_ship, Ship, ShipType};

verus! {

/// The factions a character can belong to.
#[derive(Debug, Clone, Copy, PartialEq, Eq, Structural)]
pub enum FactionType {
    Traders,
    Miners,
    Military,
    Scientists,
}

/// The display name of a faction.
pub open spec fn faction_name(f: FactionType) -> Seq<char> {
    match f {
        FactionType::Traders => "United Trade Federation"@,
        FactionType::Miners => "Mining Consortium"@,
        FactionType::Military => "Galactic Security Force"@,
        FactionType::Scientists => "Scientific Academy"@,
    }
}

/// The description of a faction.
pub open spec fn faction_description(f: FactionType) -> Seq<char> {
    match f {
        FactionType::Traders => "The United Trade Federation specializes in commerce and profit. Starting bonuses include better prices at markets and a cargo-focused ship."@,
        FactionType::Miners => "The Mining Consortium focuses on resource extraction. Starting bonuses include improved mining efficiency and a specialized mining vessel."@,
        FactionType::Military => "The Galactic Security Force maintains order in the systems. Starting bonuses include combat bonuses and a well-armed patrol ship."@,
        FactionType::Scientists => "The Scientific Academy pursues knowledge and discovery. Starting bonuses include research speed bonuses and an exploration vessel with advanced scanners."@,
    }
}

impl FactionType {
    pub fn to_string(&self) -> (s: String)
        ensures
            s@ == faction_name(*self),
    {
        match self {
            FactionType::Traders => String::from_str("United Trade Federation"),
            FactionType::Miners => String::from_str("Mining Consortium"),
            FactionType::Military => String::from_str("Galactic Security Force"),
            FactionType::Scientists => String::from_str("Scientific Academy"),
        }
    }

    pub fn description(&self) -> (s: String)
        ensures
            s@ == faction_description(*self),
    {
        match self {
            FactionType::Traders => String::from_str("The United Trade Federation specializes in commerce and profit. Starting bonuses include better prices at markets and a cargo-focused ship."),
            FactionType::Miners => String::from_str("The Mining Consortium focuses on resource extraction. Starting bonuses include improved mining efficiency and a specialized mining vessel."),
            FactionType::Military => String::from_str("The Galactic Security Force maintains order in the systems. Starting bonuses include combat bonuses and a well-armed patrol ship."),
            FactionType::Scientists => String::from_str("The Scientific Academy pursues knowledge and discovery. Starting bonuses include research speed bonuses and an exploration vessel with advanced scanners."),
        }
    }
}

/// The class, name suffix and overrides (cargo, speed, jump range, weapon
/// and mining power) of a faction's starting ship.
pub open spec fn starting_ship_plan(f: FactionType) -> (ShipType, Seq<char>, (Option<u32>, Option<u32>, Option<u32>, Option<u32>, Option<u32>)) {
    match f {
        FactionType::Traders => (ShipType::Freighter, " Merchant Vessel"@, (Some(150u32), None, None, None, None)),
        FactionType::Miners => (ShipType::Miner, " Mining Vessel"@, (None, None, None, None, Some(15u32))),
        FactionType::Military => (ShipType::Fighter, " Patrol Ship"@, (None, Some(100u32), None, Some(15u32), None)),
        FactionType::Scientists => (ShipType::Scout, " Explorer"@, (None, None, Some(12u32), None, None)),
    }
}

impl FactionType {
    /// The ship a character of this faction starts with, named after the
    /// faction.
    pub fn starting_ship(&self) -> (s: Ship)
        ensures
            fresh_ship(
                s,
                starting_ship_plan(*self).0,
                faction_name(*self) + starting_ship_plan(*self).1,
                starting_ship_plan(*self).2,
            ),
    {
        let mut name = self.to_string();
        match self {
            FactionType::Traders => {
                name.append(" Merchant Vessel");
                Ship::new(name.as_str(), ShipType::Freighter, Some(150), None, None, None, None)
            },
            FactionType::Miners => {
                name.append(" Mining Vessel");
                Ship::new(name.as_str(), ShipType::Miner, None, None, None, None, Some(15))
            },
            FactionType::Military => {
                name.append(" Patrol Ship");
                Ship::new(name.as_str(), ShipType::Fighter, None, Some(100), None, Some(15), None)
            },
            FactionType::Scientists => {
                name.append(" Explorer");
                Ship::new(name.as_str(), ShipType::Scout, None, None, Some(12), None, None)
            },
        }
    }
}

/// A storyline: a sequence of steps a character works through.
#[derive(Debug, Clone)]
pub struct Storyline {
    pub id: String,
    pub faction: FactionType,
    pub name: String,
    pub description: String,
    pub background: String,
    pub progress: usize,
    pub total_steps: usize,
    pub completed: bool,
    pub starting_skills: Vec<(SkillCategory, u32)>,
}

pub struct StorylineView {
    pub id: Seq<char>,
    pub faction: FactionType,
    pub name: Seq<char>,
    pub description: Seq<char>,
    pub background: Seq<char>,
    pub progress: nat,
    pub total_steps: nat,
    pub completed: bool,
    pub starting_skills: Seq<(SkillCategory, u32)>,
}

impl View for Storyline {
    type V = StorylineView;

    open spec fn view(&self) -> StorylineView {
        StorylineView {
            id: self.id@,
            faction: self.faction,
            name: self.name@,
            description: self.description@,
            background: self.background@,
            progress: self.progress as nat,
            total_steps: self.total_steps as nat,
            completed: self.completed,
            starting_skills: self.starting_skills@,
        }
    }
}

/// A storyline that has not been started yet.
pub open spec fn fresh_storyline(
    id: Seq<char>,
    faction: FactionType,
    name: Seq<char>,
    description: Seq<char>,
    background: Seq<char>,
    total_steps: nat,
    starting_skills: Seq<(SkillCategory, u32)>,
) -> StorylineView {
    StorylineView {
        id,
        faction,
        name,
        description,
        background,
        progress: 0,
        total_steps,
        completed: false,
        starting_skills,
    }
}

/// The state of a storyline after one `advance` call, with whether it moved.
pub open spec fn advanced(s: StorylineView) -> (StorylineView, bool) {
    if s.completed {
        (s, false)
    } else {
        let p = s.progress + 1;
        (StorylineView { progress: p, completed: p >= s.total_steps, ..s }, true)
    }
}

/// Progress never passes the last step, and a storyline is completed
/// exactly when every step is done (for storylines with at least one step).
pub open spec fn storyline_consistent(s: StorylineView) -> bool {
    s.total_steps >= 1 ==> (s.progress <= s.total_steps && (s.completed <==> s.progress >= s.total_steps))
}

impl Storyline {
    pub fn new(id: &str, faction: FactionType, name: &str, description: &str, total_steps: usize) -> (s: Storyline)
        ensures
            s@ == fresh_storyline(id@, faction, name@, description@, Seq::empty(), total_steps as nat, Seq::empty()),
    {
        let s = Storyline {
            id: String::from_str(id),
            faction,
            name: String::from_str(name),
            description: String::from_str(description),
            background: String::new(),
            progress: 0,
            total_steps,
            completed: false,
            starting_skills: Vec::new(),
        };
        assert(s.starting_skills@ =~= Seq::<(SkillCategory, u32)>::empty());
        s
    }

    pub fn new_with_background(
        id: &str,
        faction: FactionType,
        name: &str,
        description: &str,
        background: &str,
        total_steps: usize,
        starting_skills: Vec<(SkillCategory, u32)>,
    ) -> (s: Storyline)
        ensures
            s@ == fresh_storyline(id@, faction, name@, description@, background@, total_steps as nat, starting_skills@),
    {
        Storyline {
            id: String::from_str(id),
            faction,
            name: String::from_str(name),
            description: String::from_str(description),
            background: String::from_str(background),
            progress: 0,
            total_steps,
            completed: false,
            starting_skills,
        }
    }

    /// Moves one step forward; a completed storyline does not move.
    pub fn advance(&mut self) -> (moved: bool)
        requires
            !old(self).completed ==> old(self).progress < usize::MAX,
        ensures
            (final(self)@, moved) == advanced(old(self)@),
    {
        if self.completed {
            return false;
        }
        self.progress += 1;
        if self.progress >= self.total_steps {
            self.completed = true;
        }
        true
    }
}

/// A fresh storyline is consistent, `advance` keeps it consistent, progress
/// never decreases, and once completed a storyline no longer moves.
pub proof fn law_advance_keeps_consistency(s: StorylineView)
    requires
        storyline_consistent(s),
    ensures
        storyline_consistent(advanced(s).0),
        advanced(s).0.progress >= s.progress,
        s.completed ==> advanced(s) == (s, false),
        storyline_consistent(
            fresh_storyline(s.id, s.faction, s.name, s.description, s.background, s.total_steps, s.starting_skills),
        ),
{
}

fn three_skills(a: (SkillCategory, u32), b: (SkillCategory, u32), c: (SkillCategory, u32)) -> (v: Vec<(SkillCategory, u32)>)
    ensures
        v@ == seq![a, b, c],
{
    let mut v = Vec::new();
    v.push(a);
    v.push(b);
    v.push(c);
    assert(v@ =~= seq![a, b, c]);
    v
}

/// The storylines offered to each faction.
pub open spec fn faction_storylines(f: FactionType) -> Seq<StorylineView> {
    match f {
        FactionType::Traders => seq![
            fresh_storyline(
                "traders_dominance"@,
                FactionType::Traders,
                "Market Dominance"@,
                "Establish a trading empire that controls the galactic economy."@,
                "Born into a merchant family, you've spent your life learning the intricacies of galactic markets. As a shrewd negotiator, your reputation for fair but profitable deals has spread across several systems. Now, with your own vessel, you aim to expand your influence and become a market power across the galaxy."@,
                10,
                seq![(SkillCategory::Trading, 3u32), (SkillCategory::Navigation, 2u32), (SkillCategory::Engineering, 1u32)],
            ),
            fresh_storyline(
                "traders_discovery"@,
                FactionType::Traders,
                "Profit Frontiers"@,
                "Discover new trade routes and exotic goods to maximize profits."@,
                "You made your name as an explorer who identified valuable trade opportunities in unmapped systems. Your earlier expeditions yielded enough profit to acquire your own ship, and now you seek to find undiscovered resources and establish new trade routes that will revolutionize the galactic economy."@,
                8,
                seq![(SkillCategory::Trading, 2u32), (SkillCategory::Navigation, 3u32), (SkillCategory::Research, 1u32)],
            ),
            fresh_storyline(
                "traders_influence"@,
                FactionType::Traders,
                "Political Influence"@,
                "Use your wealth to gain political power and influence galactic policy."@,
                "A former advisor to planetary governors, you've witnessed how commerce shapes politics across the stars. With connections throughout diplomatic circles and a knack for brokering mutually beneficial agreements, you've acquired your first ship to begin building a commercial empire with political aspirations."@,
                12,
                seq![(SkillCategory::Trading, 3u32), (SkillCategory::Combat, 1u32), (SkillCategory::Engineering, 2u32)],
            ),
        ],
        FactionType::Miners => seq![
            fresh_storyline(
                "miners_motherlode"@,
                FactionType::Miners,
                "The Motherlode"@,
                "Discover the legendary Motherlode asteroid with untold riches."@,
                "Growing up in an asteroid mining colony, you learned to read mineral compositions like others read books. Your exceptional talent for finding valuable deposits earned you respect among veteran miners. You've invested everything in your own mining vessel to seek the fabled Motherlode asteroid that could make you a legend."@,
                9,
                seq![(SkillCategory::Mining, 3u32), (SkillCategory::Engineering, 2u32), (SkillCategory::Navigation, 1u32)],
            ),
            fresh_storyline(
                "miners_technology"@,
                FactionType::Miners,
                "Resource Revolution"@,
                "Develop revolutionary mining technology to transform the industry."@,
                "As a mining engineer with innovative ideas, you've developed prototypes that could revolutionize resource extraction. After corporate interests tried to steal your designs, you've struck out on your own with a mining vessel to prove your technology in the field and change the industry forever."@,
                10,
                seq![(SkillCategory::Mining, 2u32), (SkillCategory::Engineering, 3u32), (SkillCategory::Research, 1u32)],
            ),
            fresh_storyline(
                "miners_empire"@,
                FactionType::Miners,
                "Resource Empire"@,
                "Control the resource supply chain across multiple star systems."@,
                "Once a small-time prospector, you gained notoriety after discovering a rare mineral vein that funded your first ship purchase. With a keen understanding of supply chains and resource logistics, you plan to establish mining operations across multiple systems and control the flow of critical materials throughout the galaxy."@,
                11,
                seq![(SkillCategory::Mining, 3u32), (SkillCategory::Trading, 2u32), (SkillCategory::Combat, 1u32)],
            ),
        ],
        FactionType::Military => seq![
            fresh_storyline(
                "military_threat"@,
                FactionType::Military,
                "The Rising Threat"@,
                "Combat a mysterious alien force threatening galactic security."@,
                "As a decorated veteran of the Frontier Wars, you've seen more combat than most. Recently discharged after reporting unusual activity in the outer systems that command ignored, you've acquired your own vessel to investigate these anomalies yourself and protect humanity from what you believe is coming."@,
                12,
                seq![(SkillCategory::Combat, 3u32), (SkillCategory::Navigation, 2u32), (SkillCategory::Engineering, 1u32)],
            ),
            fresh_storyline(
                "military_peacekeeping"@,
                FactionType::Military,
                "Galactic Peacekeeping"@,
                "Establish order in lawless regions and fight pirate organizations."@,
                "Your career as a military police officer showed you how lawlessness destroys communities across the frontier. After budget cuts eliminated your peacekeeping division, you invested your savings in a patrol vessel to continue your mission: bringing justice to lawless systems and dismantling criminal organizations."@,
                10,
                seq![(SkillCategory::Combat, 2u32), (SkillCategory::Navigation, 2u32), (SkillCategory::Trading, 2u32)],
            ),
            fresh_storyline(
                "military_supremacy"@,
                FactionType::Military,
                "Military Supremacy"@,
                "Build the ultimate combat fleet and establish military dominance."@,
                "A tactical genius who rose quickly through military ranks, you became frustrated with political constraints on military operations. Resigning your commission, you've secured private funding for your own combat vessel - the first of what you plan to be an elite private fleet capable of outperforming standard military formations."@,
                9,
                seq![(SkillCategory::Combat, 3u32), (SkillCategory::Engineering, 2u32), (SkillCategory::Research, 1u32)],
            ),
        ],
        FactionType::Scientists => seq![
            fresh_storyline(
                "scientists_discovery"@,
                FactionType::Scientists,
                "Ancient Discovery"@,
                "Uncover the mysteries of an ancient alien civilization and their technology."@,
                "Your academic career in xenoarchaeology was derailed when you proposed controversial theories about advanced ancient civilizations. Ridiculed by the scientific establishment, you've used family inheritance to purchase a research vessel and prove your theories by finding concrete evidence of these mysterious precursor species and their advanced technology."@,
                11,
                seq![(SkillCategory::Research, 3u32), (SkillCategory::Navigation, 2u32), (SkillCategory::Mining, 1u32)],
            ),
            fresh_storyline(
                "scientists_breakthrough"@,
                FactionType::Scientists,
                "Technological Breakthrough"@,
                "Achieve a revolutionary breakthrough in FTL travel technology."@,
                "A theoretical physicist with radical ideas about space-time manipulation, you've developed equations that suggest new FTL travel methods are possible. After research institutions refused to fund your 'impossible' experiments, you've acquired an explorer vessel to gather data from space anomalies and prove your revolutionary theories."@,
                10,
                seq![(SkillCategory::Research, 3u32), (SkillCategory::Engineering, 2u32), (SkillCategory::Navigation, 1u32)],
            ),
            fresh_storyline(
                "scientists_anomaly"@,
                FactionType::Scientists,
                "The Anomaly"@,
                "Investigate a spacetime anomaly that could change our understanding of the universe."@,
                "As a former government astrophysicist, you detected unusual readings that suggest a massive spacetime anomaly is developing in a remote sector. When your reports were classified and research terminated, you resigned in protest. Now with your own explorer vessel, you're determined to reach and study this phenomenon that could revolutionize our understanding of physics."@,
                12,
                seq![(SkillCategory::Research, 3u32), (SkillCategory::Navigation, 2u32), (SkillCategory::Engineering, 1u32)],
            ),
        ],
    }
}

/// The three storylines offered to a faction.
pub fn get_storylines_for_faction(faction: &FactionType) -> (v: Vec<Storyline>)
    ensures
        v@.map_values(|s: Storyline| s@) == faction_storylines(*faction),
{
    let mut v: Vec<Storyline> = Vec::new();
    match faction {
        FactionType::Traders => {
            v.push(Storyline::new_with_background(
                "traders_dominance",
                FactionType::Traders,
                "Market Dominance",
                "Establish a trading empire that controls the galactic economy.",
                "Born into a merchant family, you've spent your life learning the intricacies of galactic markets. As a shrewd negotiator, your reputation for fair but profitable deals has spread across several systems. Now, with your own vessel, you aim to expand your influence and become a market power across the galaxy.",
                10,
                three_skills((SkillCategory::Trading, 3), (SkillCategory::Navigation, 2), (SkillCategory::Engineering, 1)),
            ));
            v.push(Storyline::new_with_background(
                "traders_discovery",
                FactionType::Traders,
                "Profit Frontiers",
                "Discover new trade routes and exotic goods to maximize profits.",
                "You made your name as an explorer who identified valuable trade opportunities in unmapped systems. Your earlier expeditions yielded enough profit to acquire your own ship, and now you seek to find undiscovered resources and establish new trade routes that will revolutionize the galactic economy.",
                8,
                three_skills((SkillCategory::Trading, 2), (SkillCategory::Navigation, 3), (SkillCategory::Research, 1)),
            ));
            v.push(Storyline::new_with_background(
                "traders_influence",
                FactionType::Traders,
                "Political Influence",
                "Use your wealth to gain political power and influence galactic policy.",
                "A former advisor to planetary governors, you've witnessed how commerce shapes politics across the stars. With connections throughout diplomatic circles and a knack for brokering mutually beneficial agreements, you've acquired your first ship to begin building a commercial empire with political aspirations.",
                12,
                three_skills((SkillCategory::Trading, 3), (SkillCategory::Combat, 1), (SkillCategory::Engineering, 2)),
            ));
        },
        FactionType::Miners => {
            v.push(Storyline::new_with_background(
                "miners_motherlode",
                FactionType::Miners,
                "The Motherlode",
                "Discover the legendary Motherlode asteroid with untold riches.",
                "Growing up in an asteroid mining colony, you learned to read mineral compositions like others read books. Your exceptional talent for finding valuable deposits earned you respect among veteran miners. You've invested everything in your own mining vessel to seek the fabled Motherlode asteroid that could make you a legend.",
                9,
                three_skills((SkillCategory::Mining, 3), (SkillCategory::Engineering, 2), (SkillCategory::Navigation, 1)),
            ));
            v.push(Storyline::new_with_background(
                "miners_technology",
                FactionType::Miners,
                "Resource Revolution",
                "Develop revolutionary mining technology to transform the industry.",
                "As a mining engineer with innovative ideas, you've developed prototypes that could revolutionize resource extraction. After corporate interests tried to steal your designs, you've struck out on your own with a mining vessel to prove your technology in the field and change the industry forever.",
                10,
                three_skills((SkillCategory::Mining, 2), (SkillCategory::Engineering, 3), (SkillCategory::Research, 1)),
            ));
            v.push(Storyline::new_with_background(
                "miners_empire",
                FactionType::Miners,
                "Resource Empire",
                "Control the resource supply chain across multiple star systems.",
                "Once a small-time prospector, you gained notoriety after discovering a rare mineral vein that funded your first ship purchase. With a keen understanding of supply chains and resource logistics, you plan to establish mining operations across multiple systems and control the flow of critical materials throughout the galaxy.",
                11,
                three_skills((SkillCategory::Mining, 3), (SkillCategory::Trading, 2), (SkillCategory::Combat, 1)),
            ));
        },
        FactionType::Military => {
            v.push(Storyline::new_with_background(
                "military_threat",
                FactionType::Military,
                "The Rising Threat",
                "Combat a mysterious alien force threatening galactic security.",
                "As a decorated veteran of the Frontier Wars, you've seen more combat than most. Recently discharged after reporting unusual activity in the outer systems that command ignored, you've acquired your own vessel to investigate these anomalies yourself and protect humanity from what you believe is coming.",
                12,
                three_skills((SkillCategory::Combat, 3), (SkillCategory::Navigation, 2), (SkillCategory::Engineering, 1)),
            ));
            v.push(Storyline::new_with_background(
                "military_peacekeeping",
                FactionType::Military,
                "Galactic Peacekeeping",
                "Establish order in lawless regions and fight pirate organizations.",
                "Your career as a military police officer showed you how lawlessness destroys communities across the frontier. After budget cuts eliminated your peacekeeping division, you invested your savings in a patrol vessel to continue your mission: bringing justice to lawless systems and dismantling criminal organizations.",
                10,
                three_skills((SkillCategory::Combat, 2), (SkillCategory::Navigation, 2), (SkillCategory::Trading, 2)),
            ));
            v.push(Storyline::new_with_background(
                "military_supremacy",
                FactionType::Military,
                "Military Supremacy",
                "Build the ultimate combat fleet and establish military dominance.",
                "A tactical genius who rose quickly through military ranks, you became frustrated with political constraints on military operations. Resigning your commission, you've secured private funding for your own combat vessel - the first of what you plan to be an elite private fleet capable of outperforming standard military formations.",
                9,
                three_skills((SkillCategory::Combat, 3), (SkillCategory::Engineering, 2), (SkillCategory::Research, 1)),
            ));
        },
        FactionType::Scientists => {
            v.push(Storyline::new_with_background(
                "scientists_discovery",
                FactionType::Scientists,
                "Ancient Discovery",
                "Uncover the mysteries of an ancient alien civilization and their technology.",
                "Your academic career in xenoarchaeology was derailed when you proposed controversial theories about advanced ancient civilizations. Ridiculed by the scientific establishment, you've used family inheritance to purchase a research vessel and prove your theories by finding concrete evidence of these mysterious precursor species and their advanced technology.",
                11,
                three_skills((SkillCategory::Research, 3), (SkillCategory::Navigation, 2), (SkillCategory::Mining, 1)),
            ));
            v.push(Storyline::new_with_background(
                "scientists_breakthrough",
                FactionType::Scientists,
                "Technological Breakthrough",
                "Achieve a revolutionary breakthrough in FTL travel technology.",
                "A theoretical physicist with radical ideas about space-time manipulation, you've developed equations that suggest new FTL travel methods are possible. After research institutions refused to fund your 'impossible' experiments, you've acquired an explorer vessel to gather data from space anomalies and prove your revolutionary theories.",
                10,
                three_skills((SkillCategory::Research, 3), (SkillCategory::Engineering, 2), (SkillCategory::Navigation, 1)),
            ));
            v.push(Storyline::new_with_background(
                "scientists_anomaly",
                FactionType::Scientists,
                "The Anomaly",
                "Investigate a spacetime anomaly that could change our understanding of the universe.",
                "As a former government astrophysicist, you detected unusual readings that suggest a massive spacetime anomaly is developing in a remote sector. When your reports were classified and research terminated, you resigned in protest. Now with your own explorer vessel, you're determined to reach and study this phenomenon that could revolutionize our understanding of physics.",
                12,
                three_skills((SkillCategory::Research, 3), (SkillCategory::Navigation, 2), (SkillCategory::Engineering, 1)),
            ));
        },
    }
    assert(v@.map_values(|s: Storyline| s@) =~= faction_storylines(*faction));
    v
}

} // verus!
