//! The world map: positions, settlements, factions, monsters, and the tasks
//! they offer.

use vstd::prelude::*;
use crate::config::{
    ConfigManager, TaskTemplateConfig, VillageTemplate, FactionTemplate,
    DangerousLocationTemplate, SecretRealmTemplate, MonsterTemplate, parse_talent_type_option,
};
use crate::disciple::TalentType;
use crate::external::{fill_name, rand_below};
use crate::task::{Task, TaskType, GatheringTask, CombatTask, ExplorationTask, AuxiliaryTask};

verus! {

/// A square on the map.
#[derive(Debug, Clone, Copy, PartialEq, Eq, Structural)]
pub struct Position {
    pub x: i32,
    pub y: i32,
}

/// The quality grade of a gathered herb.
#[derive(Debug, Clone, Copy, PartialEq, Eq, Structural)]
pub enum HerbQuality {
    Common,
    Uncommon,
    Rare,
}

impl HerbQuality {
    /// The display name of the grade.
    pub fn name(&self) -> (r: &'static str)
        ensures
            r@ == herb_quality_name(*self),
    {
        match self {
            HerbQuality::Common => "Common",
            HerbQuality::Uncommon => "Uncommon",
            HerbQuality::Rare => "Rare",
        }
    }
}

/// The display name of a quality grade.
pub open spec fn herb_quality_name(q: HerbQuality) -> Seq<char> {
    match q {
        HerbQuality::Common => "Common"@,
        HerbQuality::Uncommon => "Uncommon"@,
        HerbQuality::Rare => "Rare"@,
    }
}


/// A basic terrain kind; terrain offers no tasks.
#[derive(Debug, Clone, Copy, PartialEq, Eq, Structural)]
pub enum TerrainType {
    Mountain,
    Water,
    Forest,
    Plain,
}

/// A terrain feature.
#[derive(Debug, Clone)]
pub struct Terrain {
    pub terrain_type: TerrainType,
    pub name: String,
}

/// A settlement that offers gathering and support work and pays income.
#[derive(Debug, Clone)]
pub struct Village {
    pub name: String,
    pub population: u32,
    pub prosperity: u32,
    pub task_templates: Vec<TaskTemplateConfig>,
}

impl Village {
    pub fn from_template(template: &VillageTemplate) -> (r: Village)
        ensures
            r.name == template.name,
            r.population == template.population,
            r.prosperity == template.prosperity,
            r.task_templates@ == template.task_templates@,
    {
        Village {
            name: clone_string(&template.name),
            population: template.population,
            prosperity: template.prosperity,
            task_templates: clone_templates(&template.task_templates),
        }
    }

    /// The yearly income: a tenth of prosperity, plus a reputation bonus of
    /// a twentieth of reputation above 100 or a fiftieth above 50.
    pub fn get_income(&self, reputation: i32) -> (r: u32)
        ensures
            r == village_income_spec(self.prosperity as int, reputation as int),
    {
        let base = self.prosperity / 10;
        let bonus: u32 = if reputation > 100 {
            (reputation as u32) / 20
        } else if reputation > 50 {
            (reputation as u32) / 50
        } else {
            0
        };
        if bonus > u32::MAX - base {
            u32::MAX
        } else {
            base + bonus
        }
    }
}

/// The yearly income of a settlement.
pub open spec fn village_income_spec(prosperity: int, reputation: int) -> int {
    let base = prosperity / 10;
    let bonus = if reputation > 100 {
        reputation / 20
    } else if reputation > 50 {
        reputation / 50
    } else {
        0
    };
    if base + bonus > u32::MAX {
        u32::MAX as int
    } else {
        base + bonus
    }
}

/// The yearly income of a faction: generous when friendly and renowned.
pub open spec fn faction_income_spec(power_level: int, relationship: int, reputation: int) -> int {
    let raw = if relationship > 50 && reputation > 80 {
        power_level * 5
    } else if relationship > 0 {
        power_level * 2
    } else {
        0
    };
    if raw > u32::MAX {
        u32::MAX as int
    } else {
        raw
    }
}

/// A neighboring organization that offers work when friendly and battles
/// when hostile.
#[derive(Debug, Clone)]
pub struct Faction {
    pub name: String,
    pub power_level: u32,
    pub relationship: i32,
    pub friendly_task_templates: Vec<TaskTemplateConfig>,
    pub hostile_task_templates: Vec<TaskTemplateConfig>,
}

impl Faction {
    pub fn from_template(template: &FactionTemplate) -> (r: Faction)
        ensures
            r.name == template.name,
            r.power_level == template.power_level,
            r.relationship == template.relationship,
            r.friendly_task_templates@ == template.friendly_task_templates@,
            r.hostile_task_templates@ == template.hostile_task_templates@,
    {
        Faction {
            name: clone_string(&template.name),
            power_level: template.power_level,
            relationship: template.relationship,
            friendly_task_templates: clone_templates(&template.friendly_task_templates),
            hostile_task_templates: clone_templates(&template.hostile_task_templates),
        }
    }

    pub fn get_income(&self, reputation: i32) -> (r: u32)
        ensures
            r == faction_income_spec(
                self.power_level as int,
                self.relationship as int,
                reputation as int,
            ),
    {
        if self.relationship > 50 && reputation > 80 {
            if self.power_level > u32::MAX / 5 {
                u32::MAX
            } else {
                self.power_level * 5
            }
        } else if self.relationship > 0 {
            if self.power_level > u32::MAX / 2 {
                u32::MAX
            } else {
                self.power_level * 2
            }
        } else {
            0
        }
    }

    /// The tasks this faction offers now: its friendly list when relations
    /// are nonnegative, battle tasks against it when relations fell below
    /// -30, nothing in between. Task ids count up from `task_id_start`.
    pub fn generate_tasks(&self, task_id_start: usize) -> (r: Vec<Task>)
        requires
            task_id_start + self.friendly_task_templates@.len()
                + self.hostile_task_templates@.len() <= usize::MAX,
        ensures
            forall|i: int|
                0 <= i < r@.len() ==> (#[trigger] r@[i]).id == task_id_start + i,
            self.relationship >= 0 ==> r@.len() <= self.friendly_task_templates@.len(),
            self.relationship < 0 ==> r@.len() <= self.hostile_task_templates@.len(),
    {
        let mut tasks: Vec<Task> = Vec::new();
        if self.relationship >= 0 {
            let n = self.friendly_task_templates.len();
            let mut i: usize = 0;
            while i < n
                invariant
                    0 <= i <= n,
                    n == self.friendly_task_templates@.len(),
                    task_id_start + n <= usize::MAX,
                    tasks@.len() <= i,
                    forall|k: int|
                        0 <= k < tasks@.len() ==> (#[trigger] tasks@[k]).id == task_id_start + k,
                decreases n - i,
            {
                let next_id = task_id_start + tasks.len();
                match make_task_from_template(
                    next_id,
                    &self.friendly_task_templates[i],
                    &self.name,
                ) {
                    Some(task) => {
                        tasks.push(task);
                    },
                    None => {},
                }
                i = i + 1;
            }
        } else if self.relationship < -30 {
            let n = self.hostile_task_templates.len();
            let mut i: usize = 0;
            while i < n
                invariant
                    0 <= i <= n,
                    n == self.hostile_task_templates@.len(),
                    task_id_start + n <= usize::MAX,
                    tasks@.len() <= i,
                    forall|k: int|
                        0 <= k < tasks@.len() ==> (#[trigger] tasks@[k]).id == task_id_start + k,
                decreases n - i,
            {
                let template = &self.hostile_task_templates[i];
                if is_category(&template.task_type, "Combat") {
                    let difficulty = match template.difficulty {
                        Some(d) => d,
                        None => self.power_level,
                    };
                    let task_type = TaskType::Combat(
                        CombatTask {
                            enemy_id: None,
                            enemy_name: clone_string(&self.name),
                            enemy_level: self.power_level,
                            difficulty,
                        },
                    );
                    let next_id = task_id_start + tasks.len();
                    let name = fill_name(&template.name_template, &self.name);
                    let mut task = Task::new(
                        next_id,
                        name,
                        task_type,
                        template.progress_reward,
                        template.resource_reward,
                    );
                    task.reputation_reward = template.reputation_reward;
                    task.dao_heart_impact = template.dao_heart_impact;
                    tasks.push(task);
                }
                i = i + 1;
            }
        }
        tasks
    }
}

/// A dangerous place offering exploration work.
#[derive(Debug, Clone)]
pub struct DangerousLocation {
    pub name: String,
    pub danger_level: u32,
    pub task_templates: Vec<TaskTemplateConfig>,
}

impl DangerousLocation {
    pub fn from_template(template: &DangerousLocationTemplate) -> (r: DangerousLocation)
        ensures
            r.name == template.name,
            r.danger_level == template.danger_level,
            r.task_templates@ == template.task_templates@,
    {
        DangerousLocation {
            name: clone_string(&template.name),
            danger_level: template.danger_level,
            task_templates: clone_templates(&template.task_templates),
        }
    }
}

/// A hidden realm tied to one talent.
#[derive(Debug, Clone)]
pub struct SecretRealm {
    pub name: String,
    pub realm_type: TalentType,
    pub difficulty: u32,
    pub task_templates: Vec<TaskTemplateConfig>,
}

impl SecretRealm {
    pub fn from_template(template: &SecretRealmTemplate) -> (r: SecretRealm)
        ensures
            r.name == template.name,
            r.realm_type == crate::config::parse_talent_spec(template.realm_type@),
            r.difficulty == template.difficulty,
            r.task_templates@ == template.task_templates@,
    {
        SecretRealm {
            name: clone_string(&template.name),
            realm_type: crate::config::parse_talent_type(&template.realm_type),
            difficulty: template.difficulty,
            task_templates: clone_templates(&template.task_templates),
        }
    }
}

/// A roaming monster. Each holds at most one live hunt task, may invade a
/// place, and stands still while a defense task against it runs.
#[derive(Debug, Clone)]
pub struct Monster {
    pub id: usize,
    pub name: String,
    pub level: u32,
    pub is_demon: bool,
    /// Per-turn growth probability in fixed point (thousandths).
    pub growth_rate: u32,
    pub task_templates: Vec<TaskTemplateConfig>,
    pub current_task_id: Option<usize>,
    pub is_being_fought: bool,
    pub invaded_location_id: Option<String>,
    pub has_active_defense_task: bool,
}

impl Monster {
    /// A monster stamped from a template; the caller assigns the unique id.
    pub fn from_template(template: &MonsterTemplate, id: usize) -> (r: Monster)
        ensures
            r.id == id,
            r.name == template.name,
            r.level == template.level,
            r.is_demon == template.is_demon,
            r.growth_rate == template.growth_rate,
            r.task_templates@ == template.task_templates@,
            r.current_task_id is None,
            !r.is_being_fought,
            r.invaded_location_id is None,
            !r.has_active_defense_task,
    {
        Monster {
            id,
            name: clone_string(&template.name),
            level: template.level,
            is_demon: template.is_demon,
            growth_rate: template.growth_rate,
            task_templates: clone_templates(&template.task_templates),
            current_task_id: None,
            is_being_fought: false,
            invaded_location_id: None,
            has_active_defense_task: false,
        }
    }

    /// A freshly spawned monster with the default tenth-per-turn growth.
    pub fn new(name: String, level: u32, task_templates: Vec<TaskTemplateConfig>, id: usize) -> (r:
        Monster)
        ensures
            r.id == id,
            r.name == name,
            r.level == level,
            !r.is_demon,
            r.growth_rate == 100,
            r.task_templates == task_templates,
            r.current_task_id is None,
            !r.is_being_fought,
            r.invaded_location_id is None,
            !r.has_active_defense_task,
    {
        Monster {
            id,
            name,
            level,
            is_demon: false,
            growth_rate: 100,
            task_templates,
            current_task_id: None,
            is_being_fought: false,
            invaded_location_id: None,
            has_active_defense_task: false,
        }
    }

    /// Grow one level; a monster of level 100 or more has turned demon.
    pub fn grow(&mut self)
        ensures
            final(self).level == (if old(self).level < u32::MAX {
                old(self).level + 1
            } else {
                u32::MAX as int
            }),
            final(self).is_demon == (old(self).is_demon || final(self).level >= 100),
            *final(self) == (Monster {
                level: final(self).level,
                is_demon: final(self).is_demon,
                ..*old(self)
            }),
    {
        if self.level < u32::MAX {
            self.level = self.level + 1;
        }
        if self.level >= 100 {
            self.is_demon = true;
        }
    }

    pub fn set_task(&mut self, task_id: usize)
        ensures
            *final(self) == (Monster { current_task_id: Some(task_id), ..*old(self) }),
    {
        self.current_task_id = Some(task_id);
    }

    pub fn clear_task(&mut self)
        ensures
            *final(self) == (Monster { current_task_id: None, ..*old(self) }),
    {
        self.current_task_id = None;
    }

    pub fn has_task(&self) -> (r: bool)
        ensures
            r == (self.current_task_id is Some),
    {
        self.current_task_id.is_some()
    }
}

/// Anything that can stand on the map.
#[derive(Debug, Clone)]
pub enum MapElement {
    Village(Village),
    Faction(Faction),
    DangerousLocation(DangerousLocation),
    SecretRealm(SecretRealm),
    Monster(Monster),
    Terrain(Terrain),
}

/// The location id of an element: a kind prefix joined to its name (monsters
/// are keyed by name; their display names already carry the unique id).
pub open spec fn location_id_spec(e: MapElement) -> Seq<char> {
    match e {
        MapElement::Village(v) => "village_"@ + v.name@,
        MapElement::Faction(f) => "faction_"@ + f.name@,
        MapElement::DangerousLocation(d) => "danger_"@ + d.name@,
        MapElement::SecretRealm(s) => "realm_"@ + s.name@,
        MapElement::Monster(m) => "monster_"@ + m.name@,
        MapElement::Terrain(t) => "terrain_"@ + t.name@,
    }
}

impl MapElement {
    /// The unique location id used to keep one task per place and kind.
    pub fn get_location_id(&self) -> (r: String)
        ensures
            r@ == location_id_spec(*self),
    {
        match self {
            MapElement::Village(v) => concat_str("village_", &v.name),
            MapElement::Faction(f) => concat_str("faction_", &f.name),
            MapElement::DangerousLocation(d) => concat_str("danger_", &d.name),
            MapElement::SecretRealm(s) => concat_str("realm_", &s.name),
            MapElement::Monster(m) => concat_str("monster_", &m.name),
            MapElement::Terrain(t) => concat_str("terrain_", &t.name),
        }
    }

    /// Whether a monster can invade this element.
    pub fn can_be_invaded(&self) -> (r: bool)
        ensures
            r == (self matches MapElement::Village(_) || self matches MapElement::Faction(_)
                || self matches MapElement::SecretRealm(_)),
    {
        match self {
            MapElement::Village(_) => true,
            MapElement::Faction(_) => true,
            MapElement::SecretRealm(_) => true,
            _ => false,
        }
    }

    /// The name of the defense task guarding this element, for the kinds
    /// that can be invaded.
    pub fn get_defense_task_name(&self) -> (r: Option<String>)
        ensures
            (r is Some) == (self matches MapElement::Village(_) || self matches
                MapElement::Faction(_) || self matches MapElement::SecretRealm(_)),
    {
        match self {
            MapElement::Village(v) => Some(concat_str("Defend ", &v.name)),
            MapElement::Faction(f) => Some(concat_str("Defend ", &f.name)),
            MapElement::SecretRealm(s) => Some(concat_str("Defend realm ", &s.name)),
            _ => None,
        }
    }

    /// A borrow of the monster inside, if this element is one.
    pub fn as_monster<'a>(&'a self) -> (r: Option<&'a Monster>)
        ensures
            match r {
                Some(m) => *self == MapElement::Monster(*m),
                None => !(self matches MapElement::Monster(_)),
            },
    {
        match self {
            MapElement::Monster(m) => Some(m),
            _ => None,
        }
    }

    /// The income this element pays, given the organization's reputation.
    pub fn get_resource_income(&self, reputation: i32) -> (r: u32)
        ensures
            r == element_income_spec(*self, reputation as int),
    {
        match self {
            MapElement::Village(v) => v.get_income(reputation),
            MapElement::Faction(f) => f.get_income(reputation),
            _ => 0,
        }
    }
}

/// The income of one element.
pub open spec fn element_income_spec(e: MapElement, reputation: int) -> int {
    match e {
        MapElement::Village(v) => village_income_spec(v.prosperity as int, reputation),
        MapElement::Faction(f) => faction_income_spec(
            f.power_level as int,
            f.relationship as int,
            reputation,
        ),
        _ => 0,
    }
}

/// An element together with its square.
#[derive(Debug, Clone)]
pub struct PositionedElement {
    pub element: MapElement,
    pub position: Position,
}

/// The total income of a sequence of elements, capped at u32::MAX.
pub open spec fn total_income_spec(es: Seq<PositionedElement>, reputation: int) -> int
    decreases es.len(),
{
    if es.len() == 0 {
        0
    } else {
        let rest = total_income_spec(es.drop_first(), reputation);
        if element_income_spec(es[0].element, reputation) + rest > u32::MAX {
            u32::MAX as int
        } else {
            element_income_spec(es[0].element, reputation) + rest
        }
    }
}

/// Build one task from a blueprint, filling the place name in.
fn make_task_from_template(task_id: usize, template: &TaskTemplateConfig, place_name: &String) -> (r:
    Option<Task>)
    ensures
        r matches Some(t) ==> t.id == task_id && t.progress_reward == template.progress_reward
            && t.resource_reward == template.resource_reward && t.reputation_reward
            == template.reputation_reward && t.dao_heart_impact == template.dao_heart_impact
            && t.location_id is None && t.position is None,
{
    let name = fill_name(&template.name_template, place_name);
    let task_type: TaskType = if is_category(&template.task_type, "Gathering") {
        let resource_type = match &template.resource_type {
            Some(rt) => clone_string(rt),
            None => {
                return None;
            },
        };
        let difficulty = match template.difficulty {
            Some(d) => d,
            None => 1,
        };
        TaskType::Gathering(GatheringTask { resource_type, difficulty })
    } else if is_category(&template.task_type, "Combat") {
        let difficulty = match template.difficulty {
            Some(d) => d,
            None => 1,
        };
        TaskType::Combat(
            CombatTask {
                enemy_id: None,
                enemy_name: clone_string(place_name),
                enemy_level: difficulty,
                difficulty,
            },
        )
    } else if is_category(&template.task_type, "Exploration") {
        let danger_level = match template.danger_level {
            Some(d) => d,
            None => 10,
        };
        TaskType::Exploration(
            ExplorationTask { location: clone_string(place_name), danger_level },
        )
    } else if is_category(&template.task_type, "Auxiliary") {
        let skill_required = match &template.skill_required {
            Some(sk) => parse_talent_type_option(sk),
            None => None,
        };
        TaskType::Auxiliary(
            AuxiliaryTask { task_name: clone_string(&template.name_template), skill_required },
        )
    } else {
        return None;
    };
    let mut task = Task::new(
        task_id,
        name,
        task_type,
        template.progress_reward,
        template.resource_reward,
    );
    task.reputation_reward = template.reputation_reward;
    task.dao_heart_impact = template.dao_heart_impact;
    Some(task)
}

/// Whether a blueprint's category name equals the given one.
fn is_category(s: &String, lit_name: &str) -> (r: bool)
    ensures
        r == (s@ == lit_name@),
{
    let l = <String as vstd::string::StringExecFns>::from_str(lit_name);
    *s == l
}

/// Pick a task from a template list: one random blueprint per category, as
/// place-generated work varies turn by turn.
fn generate_from_templates(
    templates: &Vec<TaskTemplateConfig>,
    task_id_start: usize,
    place_name: &String,
) -> (r: Vec<Task>)
    requires
        task_id_start + 5 <= usize::MAX,
    ensures
        r@.len() <= 5,
        forall|i: int| 0 <= i < r@.len() ==> (#[trigger] r@[i]).id == task_id_start + i,
{
    let mut tasks: Vec<Task> = Vec::new();
    let category_names: [&str; 5] = ["Gathering", "Combat", "Exploration", "Auxiliary", "Investment"];
    let mut c: usize = 0;
    while c < 5
        invariant
            0 <= c <= 5,
            task_id_start + 5 <= usize::MAX,
            tasks@.len() <= c,
            forall|k: int|
                0 <= k < tasks@.len() ==> (#[trigger] tasks@[k]).id == task_id_start + k,
        decreases 5 - c,
    {
        let category = category_names[c];
        // collect the blueprints of this category
        let mut candidates: Vec<usize> = Vec::new();
        let n = templates.len();
        let mut i: usize = 0;
        while i < n
            invariant
                0 <= i <= n,
                n == templates@.len(),
                forall|k: int| 0 <= k < candidates@.len() ==> (#[trigger] candidates@[k]) < n,
            decreases n - i,
        {
            if is_category(&templates[i].task_type, category) {
                candidates.push(i);
            }
            i = i + 1;
        }
        if candidates.len() > 0 {
            let pick = rand_below(candidates.len() as u64) as usize;
            let idx = candidates[pick];
            let next_id = task_id_start + tasks.len();
            match make_task_from_template(next_id, &templates[idx], place_name) {
                Some(task) => {
                    tasks.push(task);
                },
                None => {},
            }
        }
        c = c + 1;
    }
    tasks
}

impl Village {
    /// The tasks this settlement offers now: at most one random blueprint
    /// per category. Ids count up from `task_id_start`.
    pub fn generate_tasks(&self, task_id_start: usize) -> (r: Vec<Task>)
        requires
            task_id_start + 5 <= usize::MAX,
        ensures
            r@.len() <= 5,
            forall|i: int| 0 <= i < r@.len() ==> (#[trigger] r@[i]).id == task_id_start + i,
    {
        generate_from_templates(&self.task_templates, task_id_start, &self.name)
    }
}

impl DangerousLocation {
    /// The tasks this place offers now: at most one random blueprint per
    /// category. Ids count up from `task_id_start`.
    pub fn generate_tasks(&self, task_id_start: usize) -> (r: Vec<Task>)
        requires
            task_id_start + 5 <= usize::MAX,
        ensures
            r@.len() <= 5,
            forall|i: int| 0 <= i < r@.len() ==> (#[trigger] r@[i]).id == task_id_start + i,
    {
        generate_from_templates(&self.task_templates, task_id_start, &self.name)
    }
}

impl SecretRealm {
    /// The tasks this realm offers now: at most one random blueprint per
    /// category. Ids count up from `task_id_start`.
    pub fn generate_tasks(&self, task_id_start: usize) -> (r: Vec<Task>)
        requires
            task_id_start + 5 <= usize::MAX,
        ensures
            r@.len() <= 5,
            forall|i: int| 0 <= i < r@.len() ==> (#[trigger] r@[i]).id == task_id_start + i,
    {
        generate_from_templates(&self.task_templates, task_id_start, &self.name)
    }
}

impl Monster {
    /// The hunt tasks this monster offers: battle blueprints only, and none
    /// while a hunt against it is already live. The display name joins the
    /// monster's name and unique id.
    pub fn generate_tasks(&self, task_id_start: usize) -> (r: Vec<Task>)
        requires
            task_id_start + self.task_templates@.len() <= usize::MAX,
        ensures
            self.current_task_id is Some ==> r@.len() == 0,
            r@.len() <= self.task_templates@.len(),
            forall|i: int| 0 <= i < r@.len() ==> (#[trigger] r@[i]).id == task_id_start + i,
            forall|i: int|
                0 <= i < r@.len() ==> ((#[trigger] r@[i]).task_type matches TaskType::Combat(c)
                    && c.enemy_id == Some(self.id) && c.enemy_level == self.level),
    {
        let mut tasks: Vec<Task> = Vec::new();
        if self.current_task_id.is_some() {
            return tasks;
        }
        let n = self.task_templates.len();
        let mut i: usize = 0;
        while i < n
            invariant
                0 <= i <= n,
                n == self.task_templates@.len(),
                task_id_start + n <= usize::MAX,
                tasks@.len() <= i,
                forall|k: int|
                    0 <= k < tasks@.len() ==> (#[trigger] tasks@[k]).id == task_id_start + k,
                forall|k: int|
                    0 <= k < tasks@.len() ==> ((#[trigger] tasks@[k]).task_type matches
                    TaskType::Combat(c) && c.enemy_id == Some(self.id) && c.enemy_level
                        == self.level),
            decreases n - i,
        {
            let template = &self.task_templates[i];
            if is_category(&template.task_type, "Combat") {
                let difficulty = match template.difficulty {
                    Some(d) => d,
                    None => self.level,
                };
                let task_type = TaskType::Combat(
                    CombatTask {
                        enemy_id: Some(self.id),
                        enemy_name: clone_string(&self.name),
                        enemy_level: self.level,
                        difficulty,
                    },
                );
                let next_id = task_id_start + tasks.len();
                let name = fill_name(&template.name_template, &self.name);
                let mut task = Task::new(
                    next_id,
                    name,
                    task_type,
                    template.progress_reward,
                    template.resource_reward,
                );
                task.reputation_reward = template.reputation_reward;
                task.dao_heart_impact = template.dao_heart_impact;
                tasks.push(task);
            }
            i = i + 1;
        }
        tasks
    }
}

/// A copy of a string with the same characters.
fn clone_string(s: &String) -> (r: String)
    ensures
        r == *s,
{
    s.clone()
}

/// The two texts joined, prefix first.
fn concat_str(a: &str, b: &String) -> (r: String)
    ensures
        r@ == a@ + b@,
{
    let s = <String as vstd::string::StringExecFns>::from_str(a);
    vstd::string::StringExecFns::concat(s, b.as_str())
}

/// A copy of a blueprint list. The derived clone says nothing to the
/// verifier, so the copy is spelled out.
fn clone_templates(ts: &Vec<TaskTemplateConfig>) -> (r: Vec<TaskTemplateConfig>)
    ensures
        r@ == ts@,
{
    let n = ts.len();
    let mut out: Vec<TaskTemplateConfig> = Vec::new();
    let mut i: usize = 0;
    while i < n
        invariant
            0 <= i <= n,
            n == ts@.len(),
            out@.len() == i,
            forall|k: int| 0 <= k < i ==> out@[k] == ts@[k],
        decreases n - i,
    {
        let t = &ts[i];
        let copied = TaskTemplateConfig {
            name_template: clone_string(&t.name_template),
            task_type: clone_string(&t.task_type),
            progress_reward: t.progress_reward,
            resource_reward: t.resource_reward,
            reputation_reward: t.reputation_reward,
            dao_heart_impact: t.dao_heart_impact,
            resource_type: match &t.resource_type {
                Some(x) => Some(clone_string(x)),
                None => None,
            },
            difficulty: t.difficulty,
            danger_level: t.danger_level,
            skill_required: match &t.skill_required {
                Some(x) => Some(clone_string(x)),
                None => None,
            },
        };
        out.push(copied);
        i = i + 1;
    }
    proof {
        assert(out@ =~= ts@);
    }
    out
}


/// The first monster with the given id, if any.
pub open spec fn find_monster(es: Seq<PositionedElement>, id: int) -> Option<Monster>
    decreases es.len(),
{
    if es.len() == 0 {
        None
    } else if es[0].element matches MapElement::Monster(m) && m.id == id {
        Some(es[0].element->Monster_0)
    } else {
        find_monster(es.drop_first(), id)
    }
}

/// An element with any hunt link to the given task removed.
pub open spec fn cleared_of_task(e: MapElement, task_id: int) -> MapElement {
    match e {
        MapElement::Monster(m) => if m.current_task_id == Some(task_id as usize) {
            MapElement::Monster(Monster { current_task_id: None, ..m })
        } else {
            e
        },
        _ => e,
    }
}

/// An element with the given monster's defense lock set or cleared.
pub open spec fn with_defense_lock(e: MapElement, monster_id: int, locked: bool) -> MapElement {
    match e {
        MapElement::Monster(m) => if m.id == monster_id {
            MapElement::Monster(Monster { has_active_defense_task: locked, ..m })
        } else {
            e
        },
        _ => e,
    }
}

/// Whether a defense task no longer has a reason to exist: its monster is
/// gone or has stopped invading.
pub open spec fn defense_invalid(es: Seq<PositionedElement>, t: Task) -> bool {
    t.is_defense && (t.task_type matches TaskType::Combat(c) && (c.enemy_id matches Some(mid) && (
    match find_monster(es, mid as int) {
        Some(m) => m.invaded_location_id is None,
        None => true,
    })))
}

/// The ids of the defense tasks in a list that lost their reason to exist.
pub open spec fn invalid_defense_ids(es: Seq<PositionedElement>, ts: Seq<Task>) -> Seq<usize>
    decreases ts.len(),
{
    if ts.len() == 0 {
        Seq::empty()
    } else if defense_invalid(es, ts[0]) {
        seq![ts[0].id] + invalid_defense_ids(es, ts.drop_first())
    } else {
        invalid_defense_ids(es, ts.drop_first())
    }
}

/// The world map: its elements, its size, the blueprints it generates from,
/// and the id counter for spawned monsters.
#[derive(Debug)]
pub struct GameMap {
    pub elements: Vec<PositionedElement>,
    pub width: i32,
    pub height: i32,
    pub config: ConfigManager,
    pub next_monster_id: usize,
}

impl GameMap {
    /// An empty twenty-by-twenty map over the given blueprints.
    pub fn new(config: ConfigManager) -> (r: GameMap)
        ensures
            r.elements@ =~= Seq::<PositionedElement>::empty(),
            r.width == 20,
            r.height == 20,
            r.config == config,
            r.next_monster_id == 0,
    {
        GameMap { elements: Vec::new(), width: 20, height: 20, config, next_monster_id: 0 }
    }

    /// Populate the map from its blueprints: random terrain, then villages,
    /// factions, dangerous places, realms, and the starting monsters.
    pub fn initialize(&mut self)
        ensures
            final(self).width == old(self).width,
            final(self).height == old(self).height,
            final(self).config == old(self).config,
    {
        if self.width <= 0 || self.height <= 0 {
            return ;
        }
        let w = self.width as u64;
        let h = self.height as u64;
        let terrain_names: [&str; 6] = [
            "Ridgeback Mountain",
            "Skyreach Peak",
            "Darkwater Lake",
            "Pinewhisper Forest",
            "Bamboo Sea",
            "Fertile Plain",
        ];
        let terrain_kinds: [TerrainType; 6] = [
            TerrainType::Mountain,
            TerrainType::Mountain,
            TerrainType::Water,
            TerrainType::Forest,
            TerrainType::Forest,
            TerrainType::Plain,
        ];
        let mut t: usize = 0;
        while t < 6
            invariant
                0 <= t <= 6,
                0 < w <= i32::MAX,
                0 < h <= i32::MAX,
                self.width == old(self).width,
                self.height == old(self).height,
                self.config == old(self).config,
            decreases 6 - t,
        {
            let x = rand_below(w) as i32;
            let y = rand_below(h) as i32;
            let name = lit_str(terrain_names[t]);
            self.elements.push(
                PositionedElement {
                    element: MapElement::Terrain(
                        Terrain { terrain_type: terrain_kinds[t], name },
                    ),
                    position: Position { x, y },
                },
            );
            t = t + 1;
        }
        let nv = self.config.map_elements.villages.len();
        let mut i: usize = 0;
        while i < nv
            invariant
                0 <= i <= nv,
                nv == self.config.map_elements.villages@.len(),
                self.width == old(self).width,
                self.height == old(self).height,
                self.config == old(self).config,
            decreases nv - i,
        {
            let template = &self.config.map_elements.villages[i];
            let position = Position { x: template.position.x, y: template.position.y };
            let village = Village::from_template(template);
            self.elements.push(
                PositionedElement { element: MapElement::Village(village), position },
            );
            i = i + 1;
        }
        let nf = self.config.map_elements.factions.len();
        let mut i: usize = 0;
        while i < nf
            invariant
                0 <= i <= nf,
                nf == self.config.map_elements.factions@.len(),
                self.width == old(self).width,
                self.height == old(self).height,
                self.config == old(self).config,
            decreases nf - i,
        {
            let template = &self.config.map_elements.factions[i];
            let position = Position { x: template.position.x, y: template.position.y };
            let faction = Faction::from_template(template);
            self.elements.push(
                PositionedElement { element: MapElement::Faction(faction), position },
            );
            i = i + 1;
        }
        let nd = self.config.map_elements.dangerous_locations.len();
        let mut i: usize = 0;
        while i < nd
            invariant
                0 <= i <= nd,
                nd == self.config.map_elements.dangerous_locations@.len(),
                self.width == old(self).width,
                self.height == old(self).height,
                self.config == old(self).config,
            decreases nd - i,
        {
            let template = &self.config.map_elements.dangerous_locations[i];
            let position = Position { x: template.position.x, y: template.position.y };
            let place = DangerousLocation::from_template(template);
            self.elements.push(
                PositionedElement { element: MapElement::DangerousLocation(place), position },
            );
            i = i + 1;
        }
        let nr = self.config.map_elements.secret_realms.len();
        let mut i: usize = 0;
        while i < nr
            invariant
                0 <= i <= nr,
                nr == self.config.map_elements.secret_realms@.len(),
                self.width == old(self).width,
                self.height == old(self).height,
                self.config == old(self).config,
            decreases nr - i,
        {
            let template = &self.config.map_elements.secret_realms[i];
            let position = Position { x: template.position.x, y: template.position.y };
            let realm = SecretRealm::from_template(template);
            self.elements.push(
                PositionedElement { element: MapElement::SecretRealm(realm), position },
            );
            i = i + 1;
        }
        let nm = self.config.monsters.monster_templates.len();
        let mut i: usize = 0;
        while i < nm
            invariant
                0 <= i <= nm,
                nm == self.config.monsters.monster_templates@.len(),
                self.width == old(self).width,
                self.height == old(self).height,
                self.config == old(self).config,
            decreases nm - i,
        {
            let template = &self.config.monsters.monster_templates[i];
            match &template.position {
                Some(pos) => {
                    let position = Position { x: pos.x, y: pos.y };
                    let id = self.next_monster_id;
                    if id < usize::MAX {
                        self.next_monster_id = id + 1;
                    }
                    let monster = Monster::from_template(template, id);
                    self.elements.push(
                        PositionedElement { element: MapElement::Monster(monster), position },
                    );
                },
                None => {},
            }
            i = i + 1;
        }
    }

    /// Every task the map offers this turn, with positions and location ids
    /// filled in and fresh, strictly increasing ids; a monster with a fresh
    /// hunt task is linked to it. Defense tasks for invaded places follow.
    pub fn get_available_tasks(&mut self) -> (r: Vec<Task>)
        ensures
            final(self).width == old(self).width,
            final(self).height == old(self).height,
            final(self).config == old(self).config,
            final(self).elements@.len() == old(self).elements@.len(),
            forall|a: int, b: int| 0 <= a < b < r@.len() ==> r@[a].id != r@[b].id,
    {
        let mut tasks: Vec<Task> = Vec::new();
        let n = self.elements.len();
        let mut i: usize = 0;
        while i < n
            invariant
                0 <= i <= n,
                n == self.elements@.len(),
                n == old(self).elements@.len(),
                self.width == old(self).width,
                self.height == old(self).height,
                self.config == old(self).config,
                forall|a: int, b: int|
                    0 <= a < b < tasks@.len() ==> tasks@[a].id != tasks@[b].id,
            decreases n - i,
        {
            let start = next_task_id(&tasks);
            if start > usize::MAX - 64 {
                return tasks;
            }
            let location_id = self.elements[i].get_location_id_at();
            let position = self.elements[i].position;
            let mut element_tasks: Vec<Task> = match &self.elements[i].element {
                MapElement::Village(v) => v.generate_tasks(start),
                MapElement::Faction(f) => {
                    if f.friendly_task_templates.len() <= 32 && f.hostile_task_templates.len()
                        <= 32 {
                        f.generate_tasks(start)
                    } else {
                        Vec::new()
                    }
                },
                MapElement::DangerousLocation(d) => d.generate_tasks(start),
                MapElement::SecretRealm(s) => s.generate_tasks(start),
                MapElement::Monster(m) => {
                    if m.task_templates.len() <= 32 {
                        m.generate_tasks(start)
                    } else {
                        Vec::new()
                    }
                },
                MapElement::Terrain(_) => Vec::new(),
            };
            let produced = element_tasks.len();
            if produced > 64 {
                return tasks;
            }
            let mut j: usize = 0;
            while j < produced
                invariant
                    0 <= j <= produced,
                    element_tasks@.len() + j == produced,
                    forall|k: int|
                        0 <= k < element_tasks@.len() ==> (#[trigger] element_tasks@[k]).id == start
                            + j + k,
                    forall|a: int, b: int|
                        0 <= a < b < tasks@.len() ==> tasks@[a].id != tasks@[b].id,
                    forall|a: int|
                        0 <= a < tasks@.len() ==> (#[trigger] tasks@[a]).id < start + j,
                    start + produced <= usize::MAX,
                    0 <= i < n,
                    n == self.elements@.len(),
                    n == old(self).elements@.len(),
                    self.width == old(self).width,
                    self.height == old(self).height,
                    self.config == old(self).config,
                decreases produced - j,
            {
                let mut task = element_tasks.remove(0);
                task.location_id = Some(clone_string(&location_id));
                task.position = Some(position);
                let task_id = task.id;
                tasks.push(task);
                // a monster offering a fresh hunt is linked to its first task
                if j == 0 {
                    let is_unlinked_monster = match &self.elements[i].element {
                        MapElement::Monster(m) => !m.has_task(),
                        _ => false,
                    };
                    if is_unlinked_monster {
                        let ghost pre = self.elements@;
                        let mut pe = self.elements.remove(i);
                        match &mut pe.element {
                            MapElement::Monster(m) => {
                                m.set_task(task_id);
                            },
                            _ => {},
                        }
                        self.elements.insert(i, pe);
                        proof {
                            assert(self.elements@.len() == pre.len());
                        }
                    }
                }
                j = j + 1;
            }
            i = i + 1;
        }
        let start = next_task_id(&tasks);
        if self.elements.len() >= usize::MAX - start {
            return tasks;
        }
        let defense = self.generate_defense_tasks(start);
        let m = defense.len();
        let mut j: usize = 0;
        let mut defense_tasks = defense;
        while j < m
            invariant
                0 <= j <= m,
                defense_tasks@.len() + j == m,
                forall|k: int|
                    0 <= k < defense_tasks@.len() ==> (#[trigger] defense_tasks@[k]).id == start + j
                        + k,
                forall|a: int, b: int|
                    0 <= a < b < tasks@.len() ==> tasks@[a].id != tasks@[b].id,
                forall|a: int| 0 <= a < tasks@.len() ==> (#[trigger] tasks@[a]).id < start + j,
                start + m < usize::MAX,
                self.width == old(self).width,
                self.height == old(self).height,
                self.config == old(self).config,
                self.elements@.len() == old(self).elements@.len(),
            decreases m - j,
        {
            let task = defense_tasks.remove(0);
            tasks.push(task);
            j = j + 1;
        }
        tasks
    }

    /// The total income of every element, capped at u32::MAX.
    pub fn calculate_income(&self, reputation: i32) -> (r: u32)
        ensures
            r == total_income_spec(self.elements@, reputation as int),
    {
        let ghost es = self.elements@;
        let n = self.elements.len();
        proof {
            assert(es.subrange(n as int, n as int) =~= Seq::<PositionedElement>::empty());
        }
        let mut total: u32 = 0;
        let mut i: usize = n;
        while i > 0
            invariant
                0 <= i <= n,
                n == es.len(),
                self.elements@ == es,
                total == total_income_spec(es.subrange(i as int, n as int), reputation as int),
            decreases i,
        {
            i = i - 1;
            proof {
                assert(es.subrange(i as int, n as int).drop_first() =~= es.subrange(
                    i as int + 1,
                    n as int,
                ));
            }
            let income = self.elements[i].element.get_resource_income(reputation);
            total = if income > u32::MAX - total {
                u32::MAX
            } else {
                income + total
            };
        }
        proof {
            assert(es.subrange(0, n as int) =~= es);
        }
        total
    }

    /// One world step: locked or fought monsters stand still, the others
    /// each either take one random step inside the map or train (growing
    /// with their growth rate); a moving monster that lands on an invadable
    /// place begins an invasion there, and one that lands elsewhere stops
    /// invading. Finally a fresh monster may spawn. The map size, blueprints
    /// and element count change only by at most one spawned monster.
    pub fn update(&mut self)
        ensures
            final(self).width == old(self).width,
            final(self).height == old(self).height,
            final(self).config == old(self).config,
            old(self).elements@.len() <= final(self).elements@.len() <= old(self).elements@.len()
                + 1,
    {
        if self.width <= 0 || self.height <= 0 {
            return ;
        }
        let n = self.elements.len();
        let mut i: usize = 0;
        while i < n
            invariant
                0 <= i <= n,
                n == self.elements@.len(),
                0 < self.width,
                0 < self.height,
                self.width == old(self).width,
                self.height == old(self).height,
                self.config == old(self).config,
            decreases n - i,
        {
            let is_active_monster = match &self.elements[i].element {
                MapElement::Monster(m) => !m.is_being_fought && !m.has_active_defense_task,
                _ => false,
            };
            if is_active_monster {
                if rand_below(2) == 0 {
                    // move one step and re-check invasion
                    let dir = rand_below(4);
                    let pos = self.elements[i].position;
                    let xx: i32 = if pos.x < 0 {
                        0
                    } else if pos.x >= self.width {
                        self.width - 1
                    } else {
                        pos.x
                    };
                    let yy: i32 = if pos.y < 0 {
                        0
                    } else if pos.y >= self.height {
                        self.height - 1
                    } else {
                        pos.y
                    };
                    let nx: i32 = if dir == 0 {
                        if xx + 1 < self.width {
                            xx + 1
                        } else {
                            xx
                        }
                    } else if dir == 1 {
                        if xx > 0 {
                            xx - 1
                        } else {
                            0
                        }
                    } else {
                        xx
                    };
                    let ny: i32 = if dir == 2 {
                        if yy + 1 < self.height {
                            yy + 1
                        } else {
                            yy
                        }
                    } else if dir == 3 {
                        if yy > 0 {
                            yy - 1
                        } else {
                            0
                        }
                    } else {
                        yy
                    };
                    let landing = Position { x: nx, y: ny };
                    let invaded = self.find_invadable_at(landing, i);
                    let mut pe = self.elements.remove(i);
                    pe.position = landing;
                    match &mut pe.element {
                        MapElement::Monster(m) => {
                            m.invaded_location_id = invaded;
                        },
                        _ => {},
                    }
                    self.elements.insert(i, pe);
                } else {
                    if (rand_below(1000) as u32) < 300 {
                        let mut pe = self.elements.remove(i);
                        match &mut pe.element {
                            MapElement::Monster(m) => {
                                m.grow();
                            },
                            _ => {},
                        }
                        self.elements.insert(i, pe);
                    }
                }
            } else {
                // idle growth roll for every monster, locked or not
                let growth_rate = match &self.elements[i].element {
                    MapElement::Monster(m) => Some(m.growth_rate),
                    _ => None,
                };
                match growth_rate {
                    Some(rate) => {
                        if (rand_below(1000) as u32) < rate {
                            let mut pe = self.elements.remove(i);
                            match &mut pe.element {
                                MapElement::Monster(m) => {
                                    m.grow();
                                },
                                _ => {},
                            }
                            self.elements.insert(i, pe);
                        }
                    },
                    None => {},
                }
            }
            i = i + 1;
        }
        // a fresh monster may spawn from the name pool
        let spawn_chance = self.config.monsters.spawn_rules.spawn_chance;
        if (rand_below(1000) as u32) < spawn_chance {
            let pool_len = self.config.monsters.spawn_rules.random_names.len();
            if pool_len > 0 {
                let pick = rand_below(pool_len as u64) as usize;
                let name = clone_string(&self.config.monsters.spawn_rules.random_names[pick]);
                let lo = self.config.monsters.spawn_rules.min_level;
                let hi = self.config.monsters.spawn_rules.max_level;
                let level = if hi > lo {
                    lo + (rand_below(((hi - lo) as u64) + 1) as u32)
                } else {
                    lo
                };
                let templates = if self.config.monsters.monster_templates.len() > 0 {
                    clone_templates(&self.config.monsters.monster_templates[0].task_templates)
                } else {
                    Vec::new()
                };
                let x = rand_below(self.width as u64) as i32;
                let y = rand_below(self.height as u64) as i32;
                let id = self.next_monster_id;
                if id < usize::MAX {
                    self.next_monster_id = id + 1;
                }
                self.elements.push(
                    PositionedElement {
                        element: MapElement::Monster(Monster::new(name, level, templates, id)),
                        position: Position { x, y },
                    },
                );
            }
        }
    }

    /// The location id of an invadable element standing at `pos`, other than
    /// the element at index `skip`.
    fn find_invadable_at(&self, pos: Position, skip: usize) -> (r: Option<String>)
    {
        let n = self.elements.len();
        let mut i: usize = 0;
        while i < n
            invariant
                0 <= i <= n,
                n == self.elements@.len(),
            decreases n - i,
        {
            if i != skip {
                let here = self.elements[i].position;
                if here.x == pos.x && here.y == pos.y && self.elements[i].element.can_be_invaded() {
                    return Some(self.elements[i].get_location_id_at());
                }
            }
            i = i + 1;
        }
        None
    }

    /// Defense tasks for every invaded place, one per invading monster, with
    /// ids counting up from `task_id_start`.
    pub fn generate_defense_tasks(&self, task_id_start: usize) -> (r: Vec<Task>)
        requires
            task_id_start + self.elements@.len() <= usize::MAX,
        ensures
            r@.len() <= self.elements@.len(),
            forall|k: int| 0 <= k < r@.len() ==> (#[trigger] r@[k]).id == task_id_start + k,
            forall|k: int| 0 <= k < r@.len() ==> (#[trigger] r@[k]).is_defense,
    {
        let mut tasks: Vec<Task> = Vec::new();
        let n = self.elements.len();
        let mut i: usize = 0;
        while i < n
            invariant
                0 <= i <= n,
                n == self.elements@.len(),
                task_id_start + n <= usize::MAX,
                tasks@.len() <= i,
                forall|k: int|
                    0 <= k < tasks@.len() ==> (#[trigger] tasks@[k]).id == task_id_start + k,
                forall|k: int| 0 <= k < tasks@.len() ==> (#[trigger] tasks@[k]).is_defense,
            decreases n - i,
        {
            let invasion: Option<(String, usize, u32, String)> = match &self.elements[i].element {
                MapElement::Monster(m) => {
                    match &m.invaded_location_id {
                        Some(loc) => Some(
                            (clone_string(loc), m.id, m.level, clone_string(&m.name)),
                        ),
                        None => None,
                    }
                },
                _ => None,
            };
            match invasion {
                Some((loc, monster_id, level, monster_name)) => {
                    match self.find_defense_site(&loc) {
                        Some((task_name, site_position)) => {
                            let next_id = task_id_start + tasks.len();
                            let progress_reward = if level > u32::MAX / 10 {
                                u32::MAX
                            } else {
                                level * 10
                            };
                            let resource_reward = if level > u32::MAX / 20 {
                                u32::MAX
                            } else {
                                level * 20
                            };
                            let mut task = Task::new(
                                next_id,
                                task_name,
                                TaskType::Combat(
                                    CombatTask {
                                        enemy_id: Some(monster_id),
                                        enemy_name: monster_name,
                                        enemy_level: level,
                                        difficulty: level,
                                    },
                                ),
                                progress_reward,
                                resource_reward,
                            );
                            task.position = Some(site_position);
                            task.is_defense = true;
                            tasks.push(task);
                        },
                        None => {},
                    }
                },
                None => {},
            }
            i = i + 1;
        }
        tasks
    }

    /// The defense task name and position of the element carrying the given
    /// location id, if it can be defended.
    fn find_defense_site(&self, location_id: &String) -> (r: Option<(String, Position)>)
    {
        let n = self.elements.len();
        let mut i: usize = 0;
        while i < n
            invariant
                0 <= i <= n,
                n == self.elements@.len(),
            decreases n - i,
        {
            let lid = self.elements[i].get_location_id_at();
            if lid == *location_id {
                match self.elements[i].element.get_defense_task_name() {
                    Some(name) => {
                        return Some((name, self.elements[i].position));
                    },
                    None => {
                        return None;
                    },
                }
            }
            i = i + 1;
        }
        None
    }

    /// Unlink every monster from the given task (when it settled or
    /// expired).
    pub fn clear_monster_task(&mut self, task_id: usize)
        ensures
            final(self).elements@.len() == old(self).elements@.len(),
            forall|k: int|
                0 <= k < old(self).elements@.len() ==> #[trigger] final(self).elements@[k]
                    == (PositionedElement {
                    element: cleared_of_task(old(self).elements@[k].element, task_id as int),
                    ..old(self).elements@[k]
                }),
            *final(self) == (GameMap { elements: final(self).elements, ..*old(self) }),
    {
        let ghost orig = self.elements@;
        let n = self.elements.len();
        let mut i: usize = 0;
        while i < n
            invariant
                0 <= i <= n,
                n == orig.len(),
                self.elements@.len() == n,
                orig == old(self).elements@,
                forall|k: int|
                    0 <= k < i ==> #[trigger] self.elements@[k] == (PositionedElement {
                        element: cleared_of_task(orig[k].element, task_id as int),
                        ..orig[k]
                    }),
                forall|k: int| i <= k < n ==> #[trigger] self.elements@[k] == orig[k],
                *self == (GameMap { elements: self.elements, ..*old(self) }),
            decreases n - i,
        {
            let matches_task = match &self.elements[i].element {
                MapElement::Monster(m) => {
                    match m.current_task_id {
                        Some(tid) => tid == task_id,
                        None => false,
                    }
                },
                _ => false,
            };
            if matches_task {
                let mut pe = self.elements.remove(i);
                match &mut pe.element {
                    MapElement::Monster(m) => {
                        m.clear_task();
                    },
                    _ => {},
                }
                self.elements.insert(i, pe);
            }
            i = i + 1;
        }
    }

    /// Lock the monster with the given id while a defense task against it
    /// runs.
    pub fn lock_monster_for_defense_task(&mut self, monster_id: usize)
        ensures
            final(self).elements@.len() == old(self).elements@.len(),
            forall|k: int|
                0 <= k < old(self).elements@.len() ==> #[trigger] final(self).elements@[k]
                    == (PositionedElement {
                    element: with_defense_lock(old(self).elements@[k].element, monster_id as int, true),
                    ..old(self).elements@[k]
                }),
            *final(self) == (GameMap { elements: final(self).elements, ..*old(self) }),
    {
        self.set_defense_lock(monster_id, true);
    }

    /// Release the monster with the given id when its defense task ends.
    pub fn unlock_monster_for_defense_task(&mut self, monster_id: usize)
        ensures
            final(self).elements@.len() == old(self).elements@.len(),
            forall|k: int|
                0 <= k < old(self).elements@.len() ==> #[trigger] final(self).elements@[k]
                    == (PositionedElement {
                    element: with_defense_lock(
                        old(self).elements@[k].element,
                        monster_id as int,
                        false,
                    ),
                    ..old(self).elements@[k]
                }),
            *final(self) == (GameMap { elements: final(self).elements, ..*old(self) }),
    {
        self.set_defense_lock(monster_id, false);
    }

    fn set_defense_lock(&mut self, monster_id: usize, locked: bool)
        ensures
            final(self).elements@.len() == old(self).elements@.len(),
            forall|k: int|
                0 <= k < old(self).elements@.len() ==> #[trigger] final(self).elements@[k]
                    == (PositionedElement {
                    element: with_defense_lock(old(self).elements@[k].element, monster_id as int, locked),
                    ..old(self).elements@[k]
                }),
            *final(self) == (GameMap { elements: final(self).elements, ..*old(self) }),
    {
        let ghost orig = self.elements@;
        let n = self.elements.len();
        let mut i: usize = 0;
        while i < n
            invariant
                0 <= i <= n,
                n == orig.len(),
                self.elements@.len() == n,
                orig == old(self).elements@,
                forall|k: int|
                    0 <= k < i ==> #[trigger] self.elements@[k] == (PositionedElement {
                        element: with_defense_lock(orig[k].element, monster_id as int, locked),
                        ..orig[k]
                    }),
                forall|k: int| i <= k < n ==> #[trigger] self.elements@[k] == orig[k],
                *self == (GameMap { elements: self.elements, ..*old(self) }),
            decreases n - i,
        {
            let matches_monster = match &self.elements[i].element {
                MapElement::Monster(m) => m.id == monster_id,
                _ => false,
            };
            if matches_monster {
                let mut pe = self.elements.remove(i);
                match &mut pe.element {
                    MapElement::Monster(m) => {
                        m.has_active_defense_task = locked;
                    },
                    _ => {},
                }
                self.elements.insert(i, pe);
            }
            i = i + 1;
        }
    }

    /// The ids of the defense tasks in the list whose monster vanished or
    /// stopped invading, in list order.
    pub fn check_defense_tasks_validity(&self, current_tasks: &Vec<Task>) -> (r: Vec<usize>)
        ensures
            r@ == invalid_defense_ids(self.elements@, current_tasks@),
    {
        let ghost es = self.elements@;
        let ghost ts = current_tasks@;
        let n = current_tasks.len();
        proof {
            assert(ts.subrange(0, n as int) =~= ts);
            assert(Seq::<usize>::empty() + invalid_defense_ids(es, ts) =~= invalid_defense_ids(
                es,
                ts,
            ));
        }
        let mut out: Vec<usize> = Vec::new();
        let mut i: usize = 0;
        while i < n
            invariant
                0 <= i <= n,
                n == ts.len(),
                current_tasks@ == ts,
                self.elements@ == es,
                out@ + invalid_defense_ids(es, ts.subrange(i as int, n as int))
                    == invalid_defense_ids(es, ts),
            decreases n - i,
        {
            proof {
                assert(ts.subrange(i as int, n as int).drop_first() =~= ts.subrange(
                    i as int + 1,
                    n as int,
                ));
            }
            let task = &current_tasks[i];
            if task.is_defense {
                match &task.task_type {
                    TaskType::Combat(c) => {
                        match c.enemy_id {
                            Some(mid) => {
                                let gone = match self.find_monster_by_id(mid) {
                                    Some(idx) => {
                                        match &self.elements[idx].element {
                                            MapElement::Monster(m) => m.invaded_location_id.is_none(),
                                            _ => true,
                                        }
                                    },
                                    None => true,
                                };
                                if gone {
                                    out.push(task.id);
                                }
                            },
                            None => {},
                        }
                    },
                    _ => {},
                }
            }
            proof {
                assert(out@ + invalid_defense_ids(es, ts.subrange(i as int + 1, n as int))
                    =~= invalid_defense_ids(es, ts));
            }
            i = i + 1;
        }
        proof {
            assert(ts.subrange(n as int, n as int) =~= Seq::<Task>::empty());
            assert(out@ =~= invalid_defense_ids(es, ts));
        }
        out
    }

    /// The index of the first monster with the given id.
    fn find_monster_by_id(&self, monster_id: usize) -> (r: Option<usize>)
        ensures
            match r {
                Some(i) => 0 <= i < self.elements@.len() && (self.elements@[i as int].element
                    matches MapElement::Monster(m) && m.id == monster_id) && find_monster(
                    self.elements@,
                    monster_id as int,
                ) == Some(self.elements@[i as int].element->Monster_0),
                None => find_monster(self.elements@, monster_id as int) is None,
            },
    {
        let ghost es = self.elements@;
        let n = self.elements.len();
        proof {
            assert(es.subrange(0, n as int) =~= es);
        }
        let mut i: usize = 0;
        while i < n
            invariant
                0 <= i <= n,
                n == es.len(),
                self.elements@ == es,
                find_monster(es, monster_id as int) == find_monster(
                    es.subrange(i as int, n as int),
                    monster_id as int,
                ),
            decreases n - i,
        {
            proof {
                assert(es.subrange(i as int, n as int).drop_first() =~= es.subrange(
                    i as int + 1,
                    n as int,
                ));
            }
            let is_match = match &self.elements[i].element {
                MapElement::Monster(m) => m.id == monster_id,
                _ => false,
            };
            if is_match {
                return Some(i);
            }
            i = i + 1;
        }
        proof {
            assert(es.subrange(n as int, n as int) =~= Seq::<PositionedElement>::empty());
        }
        None
    }

    /// Whether any monster has turned demon.
    pub fn has_demon(&self) -> (r: bool)
        ensures
            r == (exists|i: int|
                0 <= i < self.elements@.len() && ((#[trigger] self.elements@[i]).element matches
                MapElement::Monster(m) && m.is_demon)),
    {
        let n = self.elements.len();
        let mut i: usize = 0;
        while i < n
            invariant
                0 <= i <= n,
                n == self.elements@.len(),
                forall|k: int|
                    0 <= k < i ==> !((#[trigger] self.elements@[k]).element matches
                    MapElement::Monster(m) && m.is_demon),
            decreases n - i,
        {
            let demon = match &self.elements[i].element {
                MapElement::Monster(m) => m.is_demon,
                _ => false,
            };
            if demon {
                return true;
            }
            i = i + 1;
        }
        false
    }
}

impl PositionedElement {
    /// The location id of the element standing here.
    pub fn get_location_id_at(&self) -> (r: String)
        ensures
            r@ == location_id_spec(self.element),
    {
        self.element.get_location_id()
    }
}

/// One more than the largest task id in the list; zero when empty.
fn next_task_id(tasks: &Vec<Task>) -> (r: usize)
    ensures
        forall|k: int| 0 <= k < tasks@.len() ==> (#[trigger] tasks@[k]).id < r || r == usize::MAX,
{
    let n = tasks.len();
    let mut max_seen: usize = 0;
    let mut i: usize = 0;
    while i < n
        invariant
            0 <= i <= n,
            n == tasks@.len(),
            forall|k: int|
                0 <= k < i ==> (#[trigger] tasks@[k]).id < max_seen || max_seen == usize::MAX,
        decreases n - i,
    {
        let id = tasks[i].id;
        if id >= max_seen {
            max_seen = if id < usize::MAX {
                id + 1
            } else {
                usize::MAX
            };
        }
        i = i + 1;
    }
    max_seen
}

/// A String holding the same characters as the given literal.
fn lit_str(s: &str) -> (r: String)
    ensures
        r@ == s@,
{
    <String as vstd::string::StringExecFns>::from_str(s)
}

} // verus!
