//! Tasks: multi-turn activities with per-category payloads, per-turn costs,
//! rewards, expiry, and the eligibility rules for joining one.

use vstd::prelude::*;
use crate::disciple::{Disciple, TalentType, find_talent};
use crate::map::Position;
use crate::modifier::{Modifier, ModifierTarget, effective_value, seq_all_wf};

verus! {

/// The closed set of activity categories.
#[derive(Debug, Clone, Copy, PartialEq, Eq, Structural)]
pub enum TaskCategory {
    Gathering,
    Combat,
    Exploration,
    Auxiliary,
    Investment,
}

/// A gathering task's payload.
#[derive(Debug, Clone)]
pub struct GatheringTask {
    pub resource_type: String,
    pub difficulty: u32,
}

/// A combat task's payload. `enemy_id` is None for faction battles, where no
/// monster has to be released afterwards.
#[derive(Debug, Clone)]
pub struct CombatTask {
    pub enemy_id: Option<usize>,
    pub enemy_name: String,
    pub enemy_level: u32,
    pub difficulty: u32,
}

/// An exploration task's payload.
#[derive(Debug, Clone)]
pub struct ExplorationTask {
    pub location: String,
    pub danger_level: u32,
}

/// A support task's payload.
#[derive(Debug, Clone)]
pub struct AuxiliaryTask {
    pub task_name: String,
    pub skill_required: Option<TalentType>,
}

/// An investment task's payload.
#[derive(Debug, Clone)]
pub struct InvestmentTask {
    pub resource_cost: u32,
    pub description: String,
}

/// A task's category together with its payload.
#[derive(Debug, Clone)]
pub enum TaskType {
    Gathering(GatheringTask),
    Combat(CombatTask),
    Exploration(ExplorationTask),
    Auxiliary(AuxiliaryTask),
    Investment(InvestmentTask),
}

impl TaskType {
    /// The category tag of this payload.
    pub open spec fn category_spec(self) -> TaskCategory {
        match self {
            TaskType::Gathering(_) => TaskCategory::Gathering,
            TaskType::Combat(_) => TaskCategory::Combat,
            TaskType::Exploration(_) => TaskCategory::Exploration,
            TaskType::Auxiliary(_) => TaskCategory::Auxiliary,
            TaskType::Investment(_) => TaskCategory::Investment,
        }
    }

    pub fn category(&self) -> (c: TaskCategory)
        ensures
            c == self.category_spec(),
    {
        match self {
            TaskType::Gathering(_) => TaskCategory::Gathering,
            TaskType::Combat(_) => TaskCategory::Combat,
            TaskType::Exploration(_) => TaskCategory::Exploration,
            TaskType::Auxiliary(_) => TaskCategory::Auxiliary,
            TaskType::Investment(_) => TaskCategory::Investment,
        }
    }
}

/// The name of a category, as used in quota paths and snapshots.
pub open spec fn category_name(c: TaskCategory) -> Seq<char> {
    match c {
        TaskCategory::Gathering => "Gathering"@,
        TaskCategory::Combat => "Combat"@,
        TaskCategory::Exploration => "Exploration"@,
        TaskCategory::Auxiliary => "Auxiliary"@,
        TaskCategory::Investment => "Investment"@,
    }
}

/// Why a member may not join a task; each check failure has its own code.
#[derive(Debug, Clone, Copy, PartialEq, Eq, Structural)]
pub enum IneligibleReason {
    /// Already a participant of this very task.
    AlreadyAssigned,
    /// The task has reached its maximum participant count.
    TaskFull,
    /// The task is bound to a map position the member is not at.
    NotAtPosition,
    /// The member is busy on a different active assignment.
    Busy,
    /// Stamina below the task's per-turn stamina cost.
    InsufficientEnergy,
    /// Vigor below the task's per-turn vigor cost.
    InsufficientConstitution,
    /// Effective rank too low for the exploration's danger level.
    InsufficientCultivation,
    /// The support task asks for a talent the member lacks.
    MissingTalent,
}

/// The outcome of an eligibility check: eligible, or a reason why not.
#[derive(Debug, Clone, Copy, PartialEq, Eq, Structural)]
pub struct TaskEligibility {
    pub eligible: bool,
    pub reason: Option<IneligibleReason>,
}

impl TaskEligibility {
    pub fn eligible() -> (r: TaskEligibility)
        ensures
            r.eligible,
            r.reason is None,
    {
        TaskEligibility { eligible: true, reason: None }
    }

    pub fn ineligible(reason: IneligibleReason) -> (r: TaskEligibility)
        ensures
            !r.eligible,
            r.reason == Some(reason),
    {
        TaskEligibility { eligible: false, reason: Some(reason) }
    }
}

/// The default duration, per-turn stamina cost, per-turn vigor cost and
/// participant cap of each category.
pub open spec fn category_defaults(c: TaskCategory) -> (u32, u32, u32, u32) {
    match c {
        TaskCategory::Gathering => (1u32, 5u32, 2u32, 2u32),
        TaskCategory::Combat => (2u32, 15u32, 10u32, 3u32),
        TaskCategory::Exploration => (3u32, 10u32, 5u32, 2u32),
        TaskCategory::Auxiliary => (1u32, 5u32, 3u32, 1u32),
        TaskCategory::Investment => (4u32, 3u32, 1u32, 1u32),
    }
}

/// A multi-turn activity definition.
#[derive(Debug, Clone)]
pub struct Task {
    pub id: usize,
    pub name: String,
    pub task_type: TaskType,
    /// Progression reward on success.
    pub progress_reward: u32,
    /// Resource reward on success.
    pub resource_reward: u32,
    /// Reputation reward on success.
    pub reputation_reward: i32,
    /// Morale delta applied to each participant on success.
    pub dao_heart_impact: i32,
    /// Turns of work needed to settle the task.
    pub duration: u32,
    /// Turns after creation after which the task is discarded unfulfilled.
    pub expiry_turns: u32,
    /// The turn the task was created on.
    pub created_turn: u32,
    /// Per-turn stamina cost for each participant.
    pub energy_cost: u32,
    /// Per-turn vigor cost for each participant.
    pub constitution_cost: u32,
    /// Ties the task to a map location, for one-task-per-place rules.
    pub location_id: Option<String>,
    /// Where participants must stand, if the task is position-bound.
    pub position: Option<Position>,
    /// Most members that may work the task at once.
    pub max_participants: u32,
    /// Whether this is a defense task guarding an invaded place.
    pub is_defense: bool,
}

impl Task {
    /// A task with category defaults, a five-turn expiry, and no rewards
    /// beyond progression and resources.
    pub fn new(
        id: usize,
        name: String,
        task_type: TaskType,
        progress_reward: u32,
        resource_reward: u32,
    ) -> (t: Task)
        ensures
            t.id == id,
            t.name == name,
            t.task_type == task_type,
            t.progress_reward == progress_reward,
            t.resource_reward == resource_reward,
            t.reputation_reward == 0,
            t.dao_heart_impact == 0,
            (t.duration, t.energy_cost, t.constitution_cost, t.max_participants)
                == category_defaults(task_type.category_spec()),
            t.expiry_turns == 5,
            t.created_turn == 0,
            t.location_id is None,
            t.position is None,
            !t.is_defense,
    {
        let c = task_type.category();
        let (duration, energy_cost, constitution_cost, max_participants) = match c {
            TaskCategory::Gathering => (1, 5, 2, 2),
            TaskCategory::Combat => (2, 15, 10, 3),
            TaskCategory::Exploration => (3, 10, 5, 2),
            TaskCategory::Auxiliary => (1, 5, 3, 1),
            TaskCategory::Investment => (4, 3, 1, 1),
        };
        Task {
            id,
            name,
            task_type,
            progress_reward,
            resource_reward,
            reputation_reward: 0,
            dao_heart_impact: 0,
            duration,
            expiry_turns: 5,
            created_turn: 0,
            energy_cost,
            constitution_cost,
            location_id: None,
            position: None,
            max_participants,
            is_defense: false,
        }
    }

    /// A task created on a given turn with full reward data and the longer
    /// twenty-turn expiry used for quota-path work.
    pub fn new_with_turn(
        id: usize,
        name: String,
        task_type: TaskType,
        progress_reward: u32,
        resource_reward: u32,
        reputation_reward: i32,
        dao_heart_impact: i32,
        created_turn: u32,
    ) -> (t: Task)
        ensures
            t.id == id,
            t.name == name,
            t.task_type == task_type,
            t.progress_reward == progress_reward,
            t.resource_reward == resource_reward,
            t.reputation_reward == reputation_reward,
            t.dao_heart_impact == dao_heart_impact,
            (t.duration, t.energy_cost, t.constitution_cost, t.max_participants)
                == category_defaults(task_type.category_spec()),
            t.expiry_turns == 20,
            t.created_turn == created_turn,
            t.location_id is None,
            t.position is None,
            !t.is_defense,
    {
        let c = task_type.category();
        let (duration, energy_cost, constitution_cost, max_participants) = match c {
            TaskCategory::Gathering => (1, 5, 2, 2),
            TaskCategory::Combat => (2, 15, 10, 3),
            TaskCategory::Exploration => (3, 10, 5, 2),
            TaskCategory::Auxiliary => (1, 5, 3, 1),
            TaskCategory::Investment => (4, 3, 1, 1),
        };
        Task {
            id,
            name,
            task_type,
            progress_reward,
            resource_reward,
            reputation_reward,
            dao_heart_impact,
            duration,
            expiry_turns: 20,
            created_turn,
            energy_cost,
            constitution_cost,
            location_id: None,
            position: None,
            max_participants,
            is_defense: false,
        }
    }

    /// Whether the task has outlived its expiry horizon by `current_turn`.
    pub fn is_expired(&self, current_turn: u32) -> (r: bool)
        ensures
            r == (current_turn >= self.created_turn + self.expiry_turns),
    {
        (current_turn as u64) >= (self.created_turn as u64) + (self.expiry_turns as u64)
    }

    /// The category tag.
    pub fn category(&self) -> (c: TaskCategory)
        ensures
            c == self.task_type.category_spec(),
    {
        self.task_type.category()
    }

    /// The name of the category, as quota paths and snapshots use it.
    pub fn get_task_type_str(&self) -> (r: &'static str)
        ensures
            r@ == category_name(self.task_type.category_spec()),
    {
        match &self.task_type {
            TaskType::Gathering(_) => "Gathering",
            TaskType::Combat(_) => "Combat",
            TaskType::Exploration(_) => "Exploration",
            TaskType::Auxiliary(_) => "Auxiliary",
            TaskType::Investment(_) => "Investment",
        }
    }

    /// The talent a support task asks for, if any.
    pub open spec fn skill_required_spec(self) -> Option<TalentType> {
        match self.task_type {
            TaskType::Auxiliary(a) => a.skill_required,
            _ => None,
        }
    }

    pub fn get_skill_required(&self) -> (r: Option<TalentType>)
        ensures
            r == self.skill_required_spec(),
    {
        match &self.task_type {
            TaskType::Auxiliary(a) => a.skill_required,
            _ => None,
        }
    }

    /// The enemy level of a combat task, if this is one.
    pub open spec fn enemy_level_spec(self) -> Option<u32> {
        match self.task_type {
            TaskType::Combat(c) => Some(c.enemy_level),
            _ => None,
        }
    }

    pub fn get_enemy_level(&self) -> (r: Option<u32>)
        ensures
            r == self.enemy_level_spec(),
    {
        match &self.task_type {
            TaskType::Combat(c) => Some(c.enemy_level),
            _ => None,
        }
    }

    /// The difficulty used for reward scaling: the payload's own difficulty,
    /// for combat the larger of difficulty and enemy level, and fixed values
    /// for support and investment work.
    pub open spec fn difficulty_spec(self) -> int {
        match self.task_type {
            TaskType::Gathering(g) => g.difficulty as int,
            TaskType::Combat(c) => if c.difficulty >= c.enemy_level {
                c.difficulty as int
            } else {
                c.enemy_level as int
            },
            TaskType::Exploration(e) => e.danger_level as int,
            TaskType::Auxiliary(_) => 20,
            TaskType::Investment(_) => 15,
        }
    }

    pub fn get_difficulty(&self) -> (r: u32)
        ensures
            r == self.difficulty_spec(),
    {
        match &self.task_type {
            TaskType::Gathering(g) => g.difficulty,
            TaskType::Combat(c) => if c.difficulty >= c.enemy_level {
                c.difficulty
            } else {
                c.enemy_level
            },
            TaskType::Exploration(e) => e.danger_level,
            TaskType::Auxiliary(_) => 20,
            TaskType::Investment(_) => 15,
        }
    }
}


/// The effective whole-number suitability rank of a member for exploration
/// work: the tier rank runs through the modifier engine for the
/// task-suitability target and is floored to a whole number (negative
/// results count as zero, huge ones saturate).
pub open spec fn effective_suitability(d: Disciple, extras: Seq<Modifier>) -> int {
    let native = d.cultivation.current_level.to_numeric_spec() * 1000;
    let eff = effective_value(d.modifiers@, extras, ModifierTarget::TaskSuitability, native);
    if eff <= 0 {
        0int
    } else if eff / 1000 > u32::MAX {
        u32::MAX as int
    } else {
        eff / 1000
    }
}

/// The category-specific suitability gate: combat, gathering and investment
/// are always open; exploration needs ten times the effective rank to reach
/// the danger level; support needs the required talent.
pub open spec fn suitability_ok(task: Task, d: Disciple, extras: Seq<Modifier>) -> bool {
    match task.task_type {
        TaskType::Combat(_) => true,
        TaskType::Exploration(e) => effective_suitability(d, extras) * 10 >= e.danger_level,
        TaskType::Auxiliary(a) => match a.skill_required {
            Some(tt) => find_talent(d.talents@, tt) is Some,
            None => true,
        },
        _ => true,
    }
}

/// The eligibility verdict, evaluated in fixed order with the first failure
/// winning: already assigned, task full, not at the task's position, busy
/// elsewhere, too little stamina, too little vigor, then the
/// category-specific gate.
pub open spec fn eligibility_spec(
    task: Task,
    d: Disciple,
    extras: Seq<Modifier>,
    is_at_position: bool,
    is_busy: bool,
    is_already_assigned: bool,
    current_assigned_count: int,
) -> Option<IneligibleReason> {
    if is_already_assigned {
        Some(IneligibleReason::AlreadyAssigned)
    } else if current_assigned_count >= task.max_participants {
        Some(IneligibleReason::TaskFull)
    } else if task.position is Some && !is_at_position {
        Some(IneligibleReason::NotAtPosition)
    } else if is_busy {
        Some(IneligibleReason::Busy)
    } else if d.energy < task.energy_cost {
        Some(IneligibleReason::InsufficientEnergy)
    } else if d.constitution < task.constitution_cost {
        Some(IneligibleReason::InsufficientConstitution)
    } else {
        match task.task_type {
            TaskType::Exploration(_) => if !suitability_ok(task, d, extras) {
                Some(IneligibleReason::InsufficientCultivation)
            } else {
                None
            },
            TaskType::Auxiliary(_) => if !suitability_ok(task, d, extras) {
                Some(IneligibleReason::MissingTalent)
            } else {
                None
            },
            _ => None,
        }
    }
}

/// The combat rating of a member: four per major tier, one per sub-tier,
/// plus one.
pub open spec fn combat_level_spec(d: Disciple) -> int {
    d.cultivation.current_level.to_numeric_spec() * 4 + d.cultivation.sub_level.rank_spec() + 1
}

/// The success probability of a settlement attempt in fixed point: combat
/// starts at 0.7 and gains 0.1 per level of advantage or loses 0.15 per
/// level of disadvantage, clamped to [0.05, 0.95]; every other category uses
/// the flat default of 0.8.
pub open spec fn success_rate_spec(task: Task, d: Disciple) -> int {
    match task.task_type {
        TaskType::Combat(c) => {
            let diff = combat_level_spec(d) - c.enemy_level;
            let rate = if diff >= 0 {
                700 + diff * 100
            } else {
                700 + diff * 150
            };
            if rate < 50 {
                50int
            } else if rate > 950 {
                950int
            } else {
                rate
            }
        },
        _ => 800,
    }
}

impl Task {
    /// Whether the member passes the category-specific suitability gate,
    /// under personal rules alone.
    pub fn is_suitable_for_disciple(&self, disciple: &Disciple) -> (r: bool)
        requires
            disciple.wf(),
        ensures
            r == suitability_ok(*self, *disciple, Seq::<Modifier>::empty()),
    {
        let extras: Vec<Modifier> = Vec::new();
        self.is_suitable_for_disciple_with_sect_modifiers(disciple, &extras)
    }

    /// Whether the member passes the category-specific suitability gate,
    /// with organization-level rules in scope.
    pub fn is_suitable_for_disciple_with_sect_modifiers(
        &self,
        disciple: &Disciple,
        sect_modifiers: &Vec<Modifier>,
    ) -> (r: bool)
        requires
            disciple.wf(),
            seq_all_wf(sect_modifiers@),
        ensures
            r == suitability_ok(*self, *disciple, sect_modifiers@),
    {
        match &self.task_type {
            TaskType::Combat(_) => true,
            TaskType::Exploration(exploration) => {
                let rank = effective_suitability_of(disciple, sect_modifiers);
                (rank as u64) * 10 >= exploration.danger_level as u64
            },
            TaskType::Auxiliary(auxiliary) => {
                match &auxiliary.skill_required {
                    Some(skill) => has_talent(disciple, skill),
                    None => true,
                }
            },
            _ => true,
        }
    }

    /// The full eligibility check, in the fixed order of
    /// `eligibility_spec`, reporting the first failure's reason.
    pub fn check_eligibility(
        &self,
        disciple: &Disciple,
        sect_modifiers: &Vec<Modifier>,
        is_at_position: bool,
        is_busy: bool,
        is_already_assigned: bool,
        current_assigned_count: usize,
    ) -> (r: TaskEligibility)
        requires
            disciple.wf(),
            seq_all_wf(sect_modifiers@),
        ensures
            r.reason == eligibility_spec(
                *self,
                *disciple,
                sect_modifiers@,
                is_at_position,
                is_busy,
                is_already_assigned,
                current_assigned_count as int,
            ),
            r.eligible == (r.reason is None),
    {
        if is_already_assigned {
            return TaskEligibility::ineligible(IneligibleReason::AlreadyAssigned);
        }
        if current_assigned_count as u64 >= self.max_participants as u64 {
            return TaskEligibility::ineligible(IneligibleReason::TaskFull);
        }
        if self.position.is_some() && !is_at_position {
            return TaskEligibility::ineligible(IneligibleReason::NotAtPosition);
        }
        if is_busy {
            return TaskEligibility::ineligible(IneligibleReason::Busy);
        }
        if disciple.energy < self.energy_cost {
            return TaskEligibility::ineligible(IneligibleReason::InsufficientEnergy);
        }
        if disciple.constitution < self.constitution_cost {
            return TaskEligibility::ineligible(IneligibleReason::InsufficientConstitution);
        }
        match &self.task_type {
            TaskType::Exploration(_) => {
                if !self.is_suitable_for_disciple_with_sect_modifiers(disciple, sect_modifiers) {
                    return TaskEligibility::ineligible(IneligibleReason::InsufficientCultivation);
                }
            },
            TaskType::Auxiliary(_) => {
                if !self.is_suitable_for_disciple_with_sect_modifiers(disciple, sect_modifiers) {
                    return TaskEligibility::ineligible(IneligibleReason::MissingTalent);
                }
            },
            _ => {},
        }
        TaskEligibility::eligible()
    }

    /// The combat rating of a member: four per major tier, one per sub-tier,
    /// plus one.
    pub fn calculate_disciple_combat_level(disciple: &Disciple) -> (r: u32)
        ensures
            r == combat_level_spec(*disciple),
    {
        let major = disciple.cultivation.current_level.to_numeric();
        let sub = disciple.cultivation.sub_level.rank();
        major * 4 + sub + 1
    }

    /// The success probability the given member has when settlement comes,
    /// in fixed point between 50 and 950 (0.05 to 0.95).
    pub fn calculate_combat_success_rate(&self, disciple: &Disciple) -> (r: u32)
        ensures
            r == success_rate_spec(*self, *disciple),
            50 <= r <= 950,
    {
        match &self.task_type {
            TaskType::Combat(combat) => {
                let disciple_level = Task::calculate_disciple_combat_level(disciple);
                let diff: i64 = disciple_level as i64 - combat.enemy_level as i64;
                let rate: i64 = if diff >= 0 {
                    700 + diff * 100
                } else {
                    700 + diff * 150
                };
                if rate < 50 {
                    50
                } else if rate > 950 {
                    950
                } else {
                    rate as u32
                }
            },
            _ => 800,
        }
    }
}

/// The effective whole-number suitability rank for exploration work.
fn effective_suitability_of(disciple: &Disciple, sect_modifiers: &Vec<Modifier>) -> (r: u32)
    requires
        disciple.wf(),
        seq_all_wf(sect_modifiers@),
    ensures
        r == effective_suitability(*disciple, sect_modifiers@),
{
    let native: i64 = (disciple.cultivation.current_level.to_numeric() as i64) * 1000;
    let eff = disciple.modifiers.calculate_effective_with_extras(
        &ModifierTarget::TaskSuitability,
        native,
        sect_modifiers,
    );
    if eff <= 0 {
        0
    } else {
        let q: u64 = (eff as u64) / 1000;
        if q > (u32::MAX as u64) {
            u32::MAX
        } else {
            q as u32
        }
    }
}

/// Whether the member holds a talent of the given type.
fn has_talent(disciple: &Disciple, tt: &TalentType) -> (r: bool)
    ensures
        r == (find_talent(disciple.talents@, *tt) is Some),
{
    let ghost ts = disciple.talents@;
    let n = disciple.talents.len();
    proof {
        assert(ts.subrange(0, n as int) =~= ts);
    }
    let mut i: usize = 0;
    while i < n
        invariant
            0 <= i <= n,
            n == ts.len(),
            disciple.talents@ == ts,
            find_talent(ts, *tt) == find_talent(ts.subrange(i as int, n as int), *tt),
        decreases n - i,
    {
        proof {
            assert(ts.subrange(i as int, n as int).drop_first() =~= ts.subrange(
                i as int + 1,
                n as int,
            ));
        }
        if disciple.talents[i].talent_type == *tt {
            return true;
        }
        i = i + 1;
    }
    proof {
        assert(ts.subrange(n as int, n as int) =~= Seq::<crate::disciple::Talent>::empty());
    }
    false
}

} // verus!
