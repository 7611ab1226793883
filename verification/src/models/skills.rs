//! Skills: categories, levels, and points earned over time while a skill
//! is being trained.
use vstd::prelude::*;
use crate::platform::unix_now_millis;

verus! {

/// Areas in which a character can be skilled.
#[derive(Debug, Clone, Copy, PartialEq, Eq, Structural)]
pub enum SkillCategory {
    Mining,
    Trading,
    Combat,
    Navigation,
    Research,
    Engineering,
}

/// The display name of a skill category.
pub open spec fn skill_name(c: SkillCategory) -> Seq<char> {
    match c {
        SkillCategory::Mining => "Mining"@,
        SkillCategory::Trading => "Trading"@,
        SkillCategory::Combat => "Combat"@,
        SkillCategory::Navigation => "Navigation"@,
        SkillCategory::Research => "Research"@,
        SkillCategory::Engineering => "Engineering"@,
    }
}

/// The description of a skill category.
pub open spec fn skill_description(c: SkillCategory) -> Seq<char> {
    match c {
        SkillCategory::Mining => "Improves resource extraction efficiency, reduces mining time, and increases yield."@,
        SkillCategory::Trading => "Improves buying and selling prices, unlocks special market deals, and increases market information."@,
        SkillCategory::Combat => "Improves weapon efficacy, targeting, and ship maneuverability in combat situations."@,
        SkillCategory::Navigation => "Improves ship speed, jump range, and fuel efficiency."@,
        SkillCategory::Research => "Reduces blueprint research time and improves research outcomes."@,
        SkillCategory::Engineering => "Reduces craft time, improves equipment quality, and reduces materials required."@,
    }
}

impl SkillCategory {
    pub fn to_string(&self) -> (s: String)
        ensures
            s@ == skill_name(*self),
    {
        match self {
            SkillCategory::Mining => String::from_str("Mining"),
            SkillCategory::Trading => String::from_str("Trading"),
            SkillCategory::Combat => String::from_str("Combat"),
            SkillCategory::Navigation => String::from_str("Navigation"),
            SkillCategory::Research => String::from_str("Research"),
            SkillCategory::Engineering => String::from_str("Engineering"),
        }
    }

    pub fn description(&self) -> (s: String)
        ensures
            s@ == skill_description(*self),
    {
        match self {
            SkillCategory::Mining => String::from_str("Improves resource extraction efficiency, reduces mining time, and increases yield."),
            SkillCategory::Trading => String::from_str("Improves buying and selling prices, unlocks special market deals, and increases market information."),
            SkillCategory::Combat => String::from_str("Improves weapon efficacy, targeting, and ship maneuverability in combat situations."),
            SkillCategory::Navigation => String::from_str("Improves ship speed, jump range, and fuel efficiency."),
            SkillCategory::Research => String::from_str("Reduces blueprint research time and improves research outcomes."),
            SkillCategory::Engineering => String::from_str("Reduces craft time, improves equipment quality, and reduces materials required."),
        }
    }
}

/// Skill points needed to reach levels 1 through 5.
pub open spec fn level_threshold(i: int) -> u32 {
    if i == 0 { 100 } else if i == 1 { 300 } else if i == 2 { 600 } else if i == 3 { 1000 } else { 1500 }
}

/// The level reached with `points` skill points: the number of thresholds met.
pub open spec fn level_for(points: u32) -> u8 {
    if points < 100 { 0 }
    else if points < 300 { 1 }
    else if points < 600 { 2 }
    else if points < 1000 { 3 }
    else if points < 1500 { 4 }
    else { 5 }
}

/// The skill level reached with the given number of points.
pub fn level_for_points(points: u32) -> (level: u8)
    ensures
        level == level_for(points),
        level <= 5,
        forall|i: int| 0 <= i < level ==> points >= level_threshold(i),
        level < 5 ==> points < level_threshold(level as int),
{
    let thresholds: [u32; 5] = [100, 300, 600, 1000, 1500];
    let mut i: usize = 0;
    while i < 5
        invariant
            i <= 5,
            thresholds@ == seq![100u32, 300u32, 600u32, 1000u32, 1500u32],
            forall|j: int| 0 <= j < i ==> points >= thresholds@[j],
        decreases 5 - i,
    {
        if points < thresholds[i] {
            return i as u8;
        }
        i = i + 1;
    }
    5
}

/// More points never give a lower level.
pub proof fn law_level_monotone(a: u32, b: u32)
    requires
        a <= b,
    ensures
        level_for(a) <= level_for(b),
{
}

/// A skill being trained. Times are milliseconds since the Unix epoch.
#[derive(Debug, Clone, Copy)]
pub struct Skill {
    pub category: SkillCategory,
    pub points: u32,
    pub level: u8,
    pub active: bool,
    pub last_update: Option<u64>,
}

/// Points earned per ten seconds of training.
pub open spec fn points_earned(elapsed_millis: u64) -> u32 {
    let p = elapsed_millis / 10000;
    if p > u32::MAX { u32::MAX } else { p as u32 }
}

/// Whether bringing `s` up to `now` stays within the points a u32 holds.
pub open spec fn update_fits(s: Skill, now: u64) -> bool {
    match s.last_update {
        Some(t) => s.active && now > t ==> s.points + points_earned((now - t) as u64) <= u32::MAX,
        None => true,
    }
}

/// The skill brought up to time `now`: an active skill earns a point per
/// ten seconds since its last update, and its level follows its points.
/// An inactive skill, or a clock that has not moved on, leaves it as it is.
pub open spec fn updated(s: Skill, now: u64) -> Skill {
    match s.last_update {
        Some(t) if s.active && now > t => {
            let p = (s.points + points_earned((now - t) as u64)) as u32;
            Skill { points: p, level: level_for(p), last_update: Some(now), ..s }
        },
        _ => s,
    }
}

impl Skill {
    /// A fresh, inactive skill with no points, last updated at `now`.
    pub fn new_at(category: SkillCategory, now: u64) -> (s: Skill)
        ensures
            s == (Skill { category, points: 0, level: 0, active: false, last_update: Some(now) }),
    {
        Skill { category, points: 0, level: 0, active: false, last_update: Some(now) }
    }

    /// A fresh, inactive skill with no points, last updated now.
    pub fn new(category: SkillCategory) -> (s: Skill)
        ensures
            s.category == category && s.points == 0 && s.level == 0 && !s.active && s.last_update is Some,
    {
        Skill::new_at(category, unix_now_millis())
    }

    /// Starts training at `now`; says whether the skill was inactive.
    pub fn activate_at(&mut self, now: u64) -> (started: bool)
        ensures
            started == !old(self).active,
            started ==> *final(self) == (Skill { active: true, last_update: Some(now), ..*old(self) }),
            !started ==> *final(self) == *old(self),
    {
        if !self.active {
            self.active = true;
            self.last_update = Some(now);
            true
        } else {
            false
        }
    }

    /// Starts training now; says whether the skill was inactive.
    pub fn activate(&mut self) -> (started: bool)
        ensures
            started == !old(self).active,
            started ==> final(self).active && final(self).last_update is Some && *final(self) == (Skill {
                active: true,
                last_update: final(self).last_update,
                ..*old(self)
            }),
            !started ==> *final(self) == *old(self),
    {
        self.activate_at(unix_now_millis())
    }

    /// Stops training. Always answers `false`.
    pub fn deactivate(&mut self) -> (r: bool)
        ensures
            !r,
            *final(self) == (Skill { active: false, ..*old(self) }),
    {
        if self.active {
            self.active = false;
            false
        } else {
            false
        }
    }

    /// Brings the skill up to time `current_time`.
    pub fn update(&mut self, current_time: u64)
        requires
            update_fits(*old(self), current_time),
        ensures
            *final(self) == updated(*old(self), current_time),
    {
        if !self.active {
            return;
        }
        let last = match self.last_update {
            Some(t) => t,
            None => {
                return;
            },
        };
        if current_time <= last {
            return;
        }
        let earned = (current_time - last) / 10000;
        let gained: u32 = if earned > u32::MAX as u64 { u32::MAX } else { earned as u32 };
        self.points = self.points + gained;
        self.level = level_for_points(self.points);
        self.last_update = Some(current_time);
    }
}

/// Whether every skill can be brought up to `now` within the points a u32
/// holds.
pub open spec fn all_fit(skills: Seq<Skill>, now: u64) -> bool {
    forall|i: int| 0 <= i < skills.len() ==> update_fits(#[trigger] skills[i], now)
}

/// What `update_all` does at clock reading `now`: it succeeds exactly when
/// every skill fits, and then every skill is brought up to `now`; otherwise
/// nothing changes.
pub open spec fn update_all_outcome(before: Seq<Skill>, after: Seq<Skill>, done: bool, now: u64) -> bool {
    &&& done == all_fit(before, now)
    &&& done ==> after == all_updated(before, now)
    &&& !done ==> after == before
}

/// Every skill brought up to time `now`.
pub open spec fn all_updated(skills: Seq<Skill>, now: u64) -> Seq<Skill> {
    skills.map_values(|s: Skill| updated(s, now))
}

/// A character's skills, one per category.
#[derive(Debug, Clone)]
pub struct SkillSet {
    pub skills: Vec<Skill>,
}

/// The categories, in the order a new skill set lists them.
pub open spec fn all_categories() -> Seq<SkillCategory> {
    seq![
        SkillCategory::Mining,
        SkillCategory::Trading,
        SkillCategory::Combat,
        SkillCategory::Navigation,
        SkillCategory::Research,
        SkillCategory::Engineering,
    ]
}

/// Index of the first skill of `category`, or -1.
pub open spec fn skill_index(skills: Seq<Skill>, category: SkillCategory) -> int
    decreases skills.len(),
{
    if skills.len() == 0 {
        -1
    } else if skills.last().category == category && skill_index(skills.drop_last(), category) < 0 {
        skills.len() - 1
    } else {
        skill_index(skills.drop_last(), category)
    }
}

proof fn lemma_skill_index(skills: Seq<Skill>, category: SkillCategory)
    ensures
        -1 <= skill_index(skills, category) < skills.len(),
        skill_index(skills, category) >= 0 ==> skills[skill_index(skills, category)].category == category,
        skill_index(skills, category) >= 0 ==> forall|j: int|
            0 <= j < skill_index(skills, category) ==> skills[j].category != category,
        skill_index(skills, category) < 0 ==> forall|j: int| 0 <= j < skills.len() ==> skills[j].category != category,
    decreases skills.len(),
{
    if skills.len() > 0 {
        lemma_skill_index(skills.drop_last(), category);
        assert forall|j: int| 0 <= j < skills.len() - 1 implies skills[j] == skills.drop_last()[j] by {}
    }
}

impl SkillSet {
    /// One fresh, inactive skill per category, last updated at `now`.
    pub fn new_at(now: u64) -> (s: SkillSet)
        ensures
            s.skills@.len() == 6,
            forall|i: int| 0 <= i < 6 ==> #[trigger] s.skills@[i] == Skill::new_at_spec(all_categories()[i], now),
    {
        let skills = vec![
            Skill::new_at(SkillCategory::Mining, now),
            Skill::new_at(SkillCategory::Trading, now),
            Skill::new_at(SkillCategory::Combat, now),
            Skill::new_at(SkillCategory::Navigation, now),
            Skill::new_at(SkillCategory::Research, now),
            Skill::new_at(SkillCategory::Engineering, now),
        ];
        SkillSet { skills }
    }

    /// One fresh, inactive skill per category, last updated now.
    pub fn new() -> (s: SkillSet)
        ensures
            s.skills@.len() == 6,
            forall|i: int|
                0 <= i < 6 ==> #[trigger] s.skills@[i].category == all_categories()[i] && s.skills@[i].points == 0
                    && s.skills@[i].level == 0 && !s.skills@[i].active,
    {
        SkillSet::new_at(unix_now_millis())
    }

    fn find(&self, category: &SkillCategory) -> (r: Option<usize>)
        ensures
            match r {
                Some(i) => i as int == skill_index(self.skills@, *category) && i < self.skills@.len(),
                None => skill_index(self.skills@, *category) < 0,
            },
    {
        proof {
            lemma_skill_index(self.skills@, *category);
        }
        let mut i: usize = 0;
        while i < self.skills.len()
            invariant
                i <= self.skills@.len(),
                forall|j: int| 0 <= j < i ==> self.skills@[j].category != *category,
            decreases self.skills@.len() - i,
        {
            if self.skills[i].category == *category {
                proof {
                    lemma_skill_index_at(self.skills@, *category, i as int);
                }
                return Some(i);
            }
            i = i + 1;
        }
        None
    }

    /// The first skill of `category`, if any.
    pub fn get_skill(&self, category: &SkillCategory) -> (r: Option<&Skill>)
        ensures
            match r {
                Some(s) => skill_index(self.skills@, *category) >= 0 && *s == self.skills@[skill_index(
                    self.skills@,
                    *category,
                )],
                None => skill_index(self.skills@, *category) < 0,
            },
    {
        match self.find(category) {
            Some(i) => Some(&self.skills[i]),
            None => None,
        }
    }

    /// Starts training the first skill of `category` at `now`; says whether
    /// one was started.
    pub fn activate_skill_at(&mut self, category: &SkillCategory, now: u64) -> (started: bool)
        ensures
            ({
                let i = skill_index(old(self).skills@, *category);
                &&& started == (i >= 0 && !old(self).skills@[i].active)
                &&& started ==> final(self).skills@ == old(self).skills@.update(
                    i,
                    Skill { active: true, last_update: Some(now), ..old(self).skills@[i] },
                )
                &&& !started ==> final(self).skills@ == old(self).skills@
            }),
    {
        match self.find(category) {
            Some(i) => {
                let mut s = self.skills[i];
                let started = s.activate_at(now);
                if started {
                    self.skills.set(i, s);
                }
                started
            },
            None => false,
        }
    }

    /// Starts training the first skill of `category` now; says whether one
    /// was started.
    pub fn activate_skill(&mut self, category: &SkillCategory) -> (started: bool)
        ensures
            ({
                let i = skill_index(old(self).skills@, *category);
                &&& started == (i >= 0 && !old(self).skills@[i].active)
                &&& started ==> final(self).skills@.len() == old(self).skills@.len() && final(self).skills@[i].active
                    && final(self).skills@[i].last_update is Some && forall|j: int|
                    0 <= j < old(self).skills@.len() && j != i ==> final(self).skills@[j] == old(self).skills@[j]
                &&& !started ==> final(self).skills@ == old(self).skills@
            }),
    {
        let r = self.activate_skill_at(category, unix_now_millis());
        proof {
            lemma_skill_index(old(self).skills@, *category);
        }
        r
    }

    /// Stops training the first skill of `category`. Always answers `false`.
    pub fn deactivate_skill(&mut self, category: &SkillCategory) -> (r: bool)
        ensures
            !r,
            ({
                let i = skill_index(old(self).skills@, *category);
                &&& i >= 0 ==> final(self).skills@ == old(self).skills@.update(
                    i,
                    Skill { active: false, ..old(self).skills@[i] },
                )
                &&& i < 0 ==> final(self).skills@ == old(self).skills@
            }),
    {
        match self.find(category) {
            Some(i) => {
                let mut s = self.skills[i];
                s.deactivate();
                self.skills.set(i, s);
                false
            },
            None => false,
        }
    }

    /// Brings every skill up to time `now`.
    pub fn update_all_at(&mut self, now: u64)
        requires
            forall|i: int| 0 <= i < old(self).skills@.len() ==> update_fits(#[trigger] old(self).skills@[i], now),
        ensures
            final(self).skills@ == all_updated(old(self).skills@, now),
    {
        let ghost start = self.skills@;
        let mut i: usize = 0;
        while i < self.skills.len()
            invariant
                i <= self.skills@.len(),
                self.skills@.len() == start.len(),
                forall|j: int| 0 <= j < start.len() ==> update_fits(#[trigger] start[j], now),
                forall|j: int| 0 <= j < i ==> self.skills@[j] == updated(#[trigger] start[j], now),
                forall|j: int| i <= j < start.len() ==> self.skills@[j] == start[j],
            decreases self.skills@.len() - i,
        {
            let mut s = self.skills[i];
            assert(s == start[i as int]);
            assert(update_fits(start[i as int], now));
            s.update(now);
            self.skills.set(i, s);
            i = i + 1;
        }
        assert(self.skills@ =~= all_updated(start, now));
    }
}

impl SkillSet {
    /// Brings every skill up to the current time, unless some skill's points
    /// would pass what a u32 holds; then nothing changes. Says whether the
    /// skills were brought up to date.
    pub fn update_all(&mut self) -> (done: bool)
        ensures
            exists|now: u64| #[trigger] update_all_outcome(old(self).skills@, final(self).skills@, done, now),
    {
        let now = unix_now_millis();
        let ghost start = self.skills@;
        let mut i: usize = 0;
        while i < self.skills.len()
            invariant
                i <= self.skills@.len(),
                self.skills@ == start,
                forall|j: int| 0 <= j < i ==> update_fits(#[trigger] self.skills@[j], now),
            decreases self.skills@.len() - i,
        {
            let s = self.skills[i];
            match s.last_update {
                Some(t) => {
                    if s.active && now > t {
                        let earned = (now - t) / 10000;
                        let gained: u32 = if earned > u32::MAX as u64 { u32::MAX } else { earned as u32 };
                        if s.points > u32::MAX - gained {
                            assert(!update_fits(start[i as int], now));
                            assert(!all_fit(start, now));
                            assert(update_all_outcome(start, self.skills@, false, now));
                            return false;
                        }
                    }
                },
                None => {},
            }
            i = i + 1;
        }
        assert(all_fit(start, now));
        self.update_all_at(now);
        assert(update_all_outcome(start, self.skills@, true, now));
        true
    }
}

impl Skill {
    /// The fresh skill `new_at` makes.
    pub open spec fn new_at_spec(category: SkillCategory, now: u64) -> Skill {
        Skill { category, points: 0, level: 0, active: false, last_update: Some(now) }
    }
}

proof fn lemma_skill_index_at(skills: Seq<Skill>, category: SkillCategory, i: int)
    requires
        0 <= i < skills.len(),
        skills[i].category == category,
        forall|j: int| 0 <= j < i ==> skills[j].category != category,
    ensures
        skill_index(skills, category) == i,
{
    lemma_skill_index(skills, category);
}

/// Training never takes points away, and a skill that earned points has
/// the level its points give.
pub proof fn law_training_keeps_points(s: Skill, now: u64)
    requires
        update_fits(s, now),
    ensures
        updated(s, now).points >= s.points,
        updated(s, now) != s ==> updated(s, now).level == level_for(updated(s, now).points),
{
}

/// Bringing a skill up to the same time twice is the same as once.
pub proof fn law_update_settles(s: Skill, now: u64)
    ensures
        updated(updated(s, now), now) == updated(s, now),
{
}

} // verus!
