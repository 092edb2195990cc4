//! Members of the sect: identity, attributes, talents, relationships and the
//! per-member progression state machine.

use vstd::prelude::*;
use crate::cultivation::{CultivationLevel, SubLevel, CultivationPath, QuotaEntry};
use crate::cultivation::{quota_can_advance, quota_credit};
use crate::map::Position;
use crate::modifier::{
    Modifier, ModifierStack, ModifierTarget, ModifierSource, effective_value, fp_div, sat,
    seq_all_wf, VAL_LIMIT, FP_ONE,
};
use crate::relationship::{Relationship, RelationScores};
use crate::task::{Task, TaskType, TaskCategory};
use crate::external::rand_below;

verus! {

/// The standing of a member within the organization.
#[derive(Debug, Clone, Copy, PartialEq, Eq, Structural)]
pub enum DiscipleType {
    Outer,
    Inner,
    Personal,
}

/// A kind of innate aptitude.
#[derive(Debug, Clone, Copy, PartialEq, Eq, Structural)]
pub enum TalentType {
    Fire,
    Water,
    Wood,
    Metal,
    Earth,
    Thunder,
    Ice,
    Wind,
    Sword,
    Alchemy,
    Formation,
    Beast,
    Medical,
}

/// A typed aptitude with a magnitude from 1 to 10.
#[derive(Debug, Clone, Copy, PartialEq, Eq, Structural)]
pub struct Talent {
    pub talent_type: TalentType,
    pub level: u32,
}

/// A legacy left by a fallen high-tier member; its bonus (fixed point,
/// thousandths) feeds the tribulation success rate of whoever holds it.
#[derive(Debug, Clone)]
pub struct Heritage {
    pub name: String,
    pub level: CultivationLevel,
    pub tribulation_bonus: i64,
}

/// A member's standing on the progression ladder: major tier, sub-tier,
/// sub-tier progress from 0 to 100, and the quota path gating the next major
/// promotion.
#[derive(Debug, Clone)]
pub struct CultivationProgress {
    pub current_level: CultivationLevel,
    pub sub_level: SubLevel,
    pub progress: u32,
    pub cultivation_path: Option<CultivationPath>,
}

impl CultivationProgress {
    /// Progress never exceeds 100 and the quota path, when present, is well
    /// formed.
    pub open spec fn wf(self) -> bool {
        self.progress <= 100 && (self.cultivation_path matches Some(p) ==> p.wf())
    }

    /// Whether the member may attempt a major promotion: Perfect sub-tier
    /// and every quota requirement met.
    pub open spec fn can_tribulate_spec(self) -> bool {
        self.sub_level == SubLevel::Perfect && (match self.cultivation_path {
            Some(p) => p.satisfied(),
            None => false,
        })
    }

    /// A fresh record at the given tier: Early sub-tier, no progress, an
    /// empty quota path.
    pub fn new(level: CultivationLevel) -> (r: CultivationProgress)
        ensures
            r.current_level == level,
            r.sub_level == SubLevel::Early,
            r.progress == 0,
            r.cultivation_path matches Some(p) && p.entries@ =~= Seq::<QuotaEntry>::empty(),
            r.wf(),
    {
        CultivationProgress {
            current_level: level,
            sub_level: SubLevel::Early,
            progress: 0,
            cultivation_path: Some(CultivationPath::new()),
        }
    }

    /// Whether the current sub-tier is complete.
    pub fn is_sub_level_complete(&self) -> (r: bool)
        ensures
            r == (self.progress >= 100),
    {
        self.progress >= 100
    }

    /// Whether the member may attempt a major promotion (Perfect sub-tier
    /// and fully satisfied quota path) -- false exactly when the sub-tier is
    /// short of Perfect or some requirement is unmet.
    pub fn can_tribulate(&self) -> (r: bool)
        ensures
            r == self.can_tribulate_spec(),
    {
        if !matches!(self.sub_level, SubLevel::Perfect) {
            return false;
        }
        match &self.cultivation_path {
            Some(p) => p.is_completed(),
            None => false,
        }
    }

    /// Raise sub-tier progress by `amount`, capped at 100. Progress never
    /// decreases.
    pub fn add_progress(&mut self, amount: u32)
        requires
            old(self).wf(),
        ensures
            final(self).wf(),
            final(self).progress == (if old(self).progress + amount > 100 {
                100int
            } else {
                old(self).progress + amount
            }),
            final(self).progress >= old(self).progress,
            final(self).progress <= 100,
            final(self).current_level == old(self).current_level,
            final(self).sub_level == old(self).sub_level,
            final(self).cultivation_path == old(self).cultivation_path,
    {
        let sum: u64 = self.progress as u64 + amount as u64;
        self.progress = if sum > 100 {
            100
        } else {
            sum as u32
        };
    }

    /// Promote the sub-tier when progress is full: Early to Middle to
    /// Perfect, one step at a time, never past Perfect, resetting progress
    /// to 0. Reports whether a promotion happened.
    pub fn try_sublevel_breakthrough(&mut self) -> (r: bool)
        requires
            old(self).wf(),
        ensures
            final(self).wf(),
            r == (old(self).progress >= 100 && old(self).sub_level.next_spec() is Some),
            r ==> Some(final(self).sub_level) == old(self).sub_level.next_spec()
                && final(self).progress == 0,
            !r ==> *final(self) == *old(self),
            final(self).current_level == old(self).current_level,
            final(self).cultivation_path == old(self).cultivation_path,
    {
        if self.progress < 100 {
            return false;
        }
        match self.sub_level.next() {
            Some(next_sub) => {
                self.sub_level = next_sub;
                self.progress = 0;
                true
            },
            None => false,
        }
    }

    /// Credit one completed task of `category` against the quota path, if
    /// one is present. Categories without an open requirement change
    /// nothing.
    pub fn try_complete_path_task_by_type(&mut self, category: TaskCategory) -> (r: bool)
        requires
            old(self).wf(),
        ensures
            final(self).wf(),
            match old(self).cultivation_path {
                Some(p) => {
                    &&& r == quota_can_advance(p.entries@, category)
                    &&& final(self).cultivation_path matches Some(q) && q.entries@ == quota_credit(
                        p.entries@,
                        category,
                    )
                },
                None => r == false && final(self).cultivation_path is None,
            },
            final(self).current_level == old(self).current_level,
            final(self).sub_level == old(self).sub_level,
            final(self).progress == old(self).progress,
    {
        match &mut self.cultivation_path {
            Some(p) => p.complete_task_by_type(category),
            None => false,
        }
    }

    /// The major promotion transition: the next tier at Early sub-tier with
    /// no progress and a fresh, empty quota path.
    pub fn breakthrough_major_level(&mut self, new_level: CultivationLevel)
        ensures
            final(self).wf(),
            final(self).current_level == new_level,
            final(self).sub_level == SubLevel::Early,
            final(self).progress == 0,
            final(self).cultivation_path matches Some(p) && p.entries@ =~= Seq::<
                QuotaEntry,
            >::empty(),
    {
        self.current_level = new_level;
        self.sub_level = SubLevel::Early;
        self.progress = 0;
        self.cultivation_path = Some(CultivationPath::new());
    }
}


/// The first talent of the given type, if the member holds one.
pub open spec fn find_talent(ts: Seq<Talent>, tt: TalentType) -> Option<Talent>
    decreases ts.len(),
{
    if ts.len() == 0 {
        None
    } else if ts[0].talent_type == tt {
        Some(ts[0])
    } else {
        find_talent(ts.drop_first(), tt)
    }
}

/// The native talent bonus in fixed point: a tenth of a unit per level.
pub open spec fn native_talent_bonus(ts: Seq<Talent>, tt: TalentType) -> int {
    match find_talent(ts, tt) {
        Some(t) => t.level * 100,
        None => 0,
    }
}

/// The first relationship toward the given member, if any.
pub open spec fn find_rel(rs: Seq<Relationship>, id: int) -> Option<Relationship>
    decreases rs.len(),
{
    if rs.len() == 0 {
        None
    } else if rs[0].target_id == id {
        Some(rs[0])
    } else {
        find_rel(rs.drop_first(), id)
    }
}

/// The index of the first relationship toward the given member; the length
/// when there is none.
pub open spec fn rel_pos(rs: Seq<Relationship>, id: int) -> int
    decreases rs.len(),
{
    if rs.len() == 0 {
        0
    } else if rs[0].target_id == id {
        0
    } else {
        1 + rel_pos(rs.drop_first(), id)
    }
}

/// Which talent a task category draws its reward bonus from.
pub open spec fn reward_talent(t: TaskType) -> Option<TalentType> {
    match t {
        TaskType::Gathering(_) => Some(TalentType::Wood),
        TaskType::Combat(_) => Some(TalentType::Sword),
        TaskType::Exploration(_) => None,
        TaskType::Auxiliary(_) => Some(TalentType::Formation),
        TaskType::Investment(_) => None,
    }
}

/// The reward difficulty multiplier in fixed point: one half plus
/// difficulty/50, the variable part capped at one and a half.
pub open spec fn difficulty_multiplier_spec(difficulty: int) -> int {
    500 + (if difficulty * 20 > 1500 {
        1500int
    } else {
        difficulty * 20
    })
}

/// The diminishing-returns penalty in fixed point: 6/(6 + tier rank).
pub open spec fn level_penalty_spec(rank: int) -> int {
    6000int / (6 + rank)
}

/// A member of the sect.
#[derive(Debug, Clone)]
pub struct Disciple {
    pub id: usize,
    pub name: String,
    pub disciple_type: DiscipleType,
    pub cultivation: CultivationProgress,
    pub talents: Vec<Talent>,
    pub age: u32,
    pub lifespan: u32,
    /// Morale ("dao heart"), natively 0 to 100.
    pub dao_heart: u32,
    /// Stamina, natively 0 to 100.
    pub energy: u32,
    /// Vigor, natively 0 to 100.
    pub constitution: u32,
    pub heritage: Option<Heritage>,
    pub relationships: Vec<Relationship>,
    pub children: Vec<usize>,
    pub modifiers: ModifierStack,
    pub position: Position,
    pub moves_remaining: u32,
}

/// The tribulation success rate of a member in fixed point: a base of 0.3
/// plus 0.005 per point of effective morale plus the heritage bonus, capped
/// at 0.95, then run through the modifier engine and clamped to [0, 0.95].
pub open spec fn tribulation_rate_spec(d: Disciple, extras: Seq<Modifier>) -> int {
    let eff_dh = effective_value(d.modifiers@, extras, ModifierTarget::DaoHeart, d.dao_heart * 1000);
    let dhb = fp_div(eff_dh * 5);
    let hb = match d.heritage {
        Some(h) => h.tribulation_bonus as int,
        None => 0,
    };
    let native = if 300 + dhb + hb > 950 {
        950int
    } else if 300 + dhb + hb < 0 {
        0int
    } else {
        300 + dhb + hb
    };
    let eff = effective_value(d.modifiers@, extras, ModifierTarget::TribulationSuccessRate, native);
    if eff < 0 {
        0int
    } else if eff > 950 {
        950int
    } else {
        eff
    }
}

/// The progression points a member earns for settling a task: the base
/// reward scaled by difficulty, diminished by tier, scaled by the effective
/// talent bonus, run through the modifier engine for the task-reward target,
/// and floored to a whole count of at least one.
pub open spec fn task_reward_spec(d: Disciple, task: Task) -> int {
    let tb = match reward_talent(task.task_type) {
        Some(tt) => effective_value(
            d.modifiers@,
            Seq::<Modifier>::empty(),
            ModifierTarget::TalentBonus(tt),
            native_talent_bonus(d.talents@, tt),
        ),
        None => 0,
    };
    let base = task.progress_reward * 1000;
    let dm = difficulty_multiplier_spec(task.difficulty_spec());
    let lp = level_penalty_spec(d.cultivation.current_level.to_numeric_spec());
    let v1 = sat(fp_div(base * dm));
    let v2 = sat(fp_div(v1 * lp));
    let native = sat(fp_div(v2 * (1000 + tb)));
    let eff = effective_value(d.modifiers@, Seq::<Modifier>::empty(), ModifierTarget::TaskReward, native);
    let whole = if eff <= 0 {
        0int
    } else if eff / 1000 > u32::MAX {
        u32::MAX as int
    } else {
        eff / 1000
    };
    if whole < 1 {
        1int
    } else {
        whole
    }
}

/// The effective whole-unit cost a member pays when a native cost of
/// `amount` is run through the modifier engine for the given consumption
/// target: negative results cost nothing, huge ones saturate.
pub open spec fn consumption_spec(d: Disciple, target: ModifierTarget, amount: int) -> int {
    let eff = effective_value(d.modifiers@, Seq::<Modifier>::empty(), target, amount * 1000);
    if eff <= 0 {
        0int
    } else if eff / 1000 > u32::MAX {
        u32::MAX as int
    } else {
        eff / 1000
    }
}

impl Disciple {
    /// The modifier stack and quota path are well formed and any held
    /// heritage bonus is a plausible rate bonus (at most one whole unit).
    pub open spec fn wf(self) -> bool {
        &&& self.modifiers.wf()
        &&& self.cultivation.wf()
        &&& (self.heritage matches Some(h) ==> 0 <= h.tribulation_bonus <= FP_ONE)
    }

    /// A fresh member at the lowest tier: age 16, full stamina and vigor,
    /// average morale, no rules, standing at the sect's home square.
    pub fn new(id: usize, name: String, disciple_type: DiscipleType, talents: Vec<Talent>) -> (d:
        Disciple)
        ensures
            d.wf(),
            d.id == id,
            d.name == name,
            d.disciple_type == disciple_type,
            d.talents == talents,
            d.cultivation.current_level == CultivationLevel::QiRefining,
            d.cultivation.sub_level == SubLevel::Early,
            d.cultivation.progress == 0,
            d.cultivation.cultivation_path matches Some(p) && p.entries@ =~= Seq::<
                QuotaEntry,
            >::empty(),
            d.age == 16,
            d.lifespan == 150,
            d.dao_heart == 50,
            d.energy == 100,
            d.constitution == 100,
            d.heritage is None,
            d.relationships@ =~= Seq::<Relationship>::empty(),
            d.children@ =~= Seq::<usize>::empty(),
            d.modifiers@ =~= Seq::<Modifier>::empty(),
            d.position == (Position { x: 10, y: 10 }),
            d.moves_remaining == 2,
    {
        let lifespan = CultivationLevel::QiRefining.base_lifespan();
        let movement_range = CultivationLevel::QiRefining.movement_range();
        Disciple {
            id,
            name,
            disciple_type,
            cultivation: CultivationProgress::new(CultivationLevel::QiRefining),
            talents,
            age: 16,
            lifespan,
            dao_heart: 50,
            energy: 100,
            constitution: 100,
            heritage: None,
            relationships: Vec::new(),
            children: Vec::new(),
            modifiers: ModifierStack::new(),
            position: Position { x: 10, y: 10 },
            moves_remaining: movement_range,
        }
    }

    /// Alive: within the lifespan and with vigor left.
    pub fn is_alive(&self) -> (r: bool)
        ensures
            r == (self.age < self.lifespan && self.constitution > 0),
    {
        self.age < self.lifespan && self.constitution > 0
    }

    /// Whether the member reached the terminal major tier.
    pub fn is_immortal(&self) -> (r: bool)
        ensures
            r == (self.cultivation.current_level == CultivationLevel::Ascension),
    {
        matches!(self.cultivation.current_level, CultivationLevel::Ascension)
    }

    pub fn age_one_year(&mut self)
        requires
            old(self).age < u32::MAX,
        ensures
            *final(self) == (Disciple { age: (old(self).age + 1) as u32, ..*old(self) }),
    {
        self.age = self.age + 1;
    }

    pub fn move_to(&mut self, new_position: Position)
        ensures
            *final(self) == (Disciple { position: new_position, ..*old(self) }),
    {
        self.position = new_position;
    }

    pub fn is_at_position(&self, pos: &Position) -> (r: bool)
        ensures
            r == (self.position == *pos),
    {
        self.position.x == pos.x && self.position.y == pos.y
    }

    /// Effective morale in fixed point, under personal rules alone.
    pub fn get_effective_dao_heart(&self) -> (r: i64)
        requires
            self.wf(),
        ensures
            r == effective_value(
                self.modifiers@,
                Seq::<Modifier>::empty(),
                ModifierTarget::DaoHeart,
                self.dao_heart * 1000,
            ),
    {
        let extras: Vec<Modifier> = Vec::new();
        self.get_effective_dao_heart_with_sect_modifiers(&extras)
    }

    /// Effective morale in fixed point, under personal and extra rules.
    pub fn get_effective_dao_heart_with_sect_modifiers(&self, sect_modifiers: &Vec<Modifier>) -> (r:
        i64)
        requires
            self.wf(),
            seq_all_wf(sect_modifiers@),
        ensures
            r == effective_value(
                self.modifiers@,
                sect_modifiers@,
                ModifierTarget::DaoHeart,
                self.dao_heart * 1000,
            ),
            -VAL_LIMIT <= r <= VAL_LIMIT,
    {
        self.modifiers.calculate_effective_with_extras(
            &ModifierTarget::DaoHeart,
            (self.dao_heart as i64) * 1000,
            sect_modifiers,
        )
    }

    /// Effective stamina in fixed point, under personal rules alone.
    pub fn get_effective_energy(&self) -> (r: i64)
        requires
            self.wf(),
        ensures
            r == effective_value(
                self.modifiers@,
                Seq::<Modifier>::empty(),
                ModifierTarget::Energy,
                self.energy * 1000,
            ),
    {
        let extras: Vec<Modifier> = Vec::new();
        self.get_effective_energy_with_sect_modifiers(&extras)
    }

    /// Effective stamina in fixed point, under personal and extra rules.
    pub fn get_effective_energy_with_sect_modifiers(&self, sect_modifiers: &Vec<Modifier>) -> (r:
        i64)
        requires
            self.wf(),
            seq_all_wf(sect_modifiers@),
        ensures
            r == effective_value(
                self.modifiers@,
                sect_modifiers@,
                ModifierTarget::Energy,
                self.energy * 1000,
            ),
            -VAL_LIMIT <= r <= VAL_LIMIT,
    {
        self.modifiers.calculate_effective_with_extras(
            &ModifierTarget::Energy,
            (self.energy as i64) * 1000,
            sect_modifiers,
        )
    }

    /// Effective vigor in fixed point, under personal rules alone.
    pub fn get_effective_constitution(&self) -> (r: i64)
        requires
            self.wf(),
        ensures
            r == effective_value(
                self.modifiers@,
                Seq::<Modifier>::empty(),
                ModifierTarget::Constitution,
                self.constitution * 1000,
            ),
    {
        let extras: Vec<Modifier> = Vec::new();
        self.get_effective_constitution_with_sect_modifiers(&extras)
    }

    /// Effective vigor in fixed point, under personal and extra rules.
    pub fn get_effective_constitution_with_sect_modifiers(
        &self,
        sect_modifiers: &Vec<Modifier>,
    ) -> (r: i64)
        requires
            self.wf(),
            seq_all_wf(sect_modifiers@),
        ensures
            r == effective_value(
                self.modifiers@,
                sect_modifiers@,
                ModifierTarget::Constitution,
                self.constitution * 1000,
            ),
            -VAL_LIMIT <= r <= VAL_LIMIT,
    {
        self.modifiers.calculate_effective_with_extras(
            &ModifierTarget::Constitution,
            (self.constitution as i64) * 1000,
            sect_modifiers,
        )
    }

    /// Age the member's timed rules by one turn; at most one call per member
    /// per turn. Returns how many rules expired.
    pub fn tick_modifiers(&mut self) -> (expired: usize)
        requires
            old(self).wf(),
        ensures
            final(self).wf(),
            final(self).modifiers@ == crate::modifier::ticked(old(self).modifiers@),
            expired == old(self).modifiers@.len() - final(self).modifiers@.len(),
            *final(self) == (Disciple { modifiers: final(self).modifiers, ..*old(self) }),
    {
        self.modifiers.tick()
    }

    /// Add a personal rule.
    pub fn add_modifier(&mut self, modifier: Modifier)
        requires
            old(self).wf(),
            modifier.wf(),
        ensures
            final(self).wf(),
            final(self).modifiers@ == old(self).modifiers@.insert(
                crate::modifier::insert_pos(old(self).modifiers@, modifier.priority),
                modifier,
            ),
            *final(self) == (Disciple { modifiers: final(self).modifiers, ..*old(self) }),
    {
        self.modifiers.add_modifier(modifier);
    }

    /// Drop every personal rule of the given provenance.
    pub fn remove_modifiers_by_source(&mut self, source: &ModifierSource)
        requires
            old(self).wf(),
        ensures
            final(self).wf(),
            final(self).modifiers@ == crate::modifier::without_source(old(self).modifiers@, *source),
            *final(self) == (Disciple { modifiers: final(self).modifiers, ..*old(self) }),
    {
        self.modifiers.remove_modifiers_by_source(source);
    }

    /// The effective bonus of one talent in fixed point, under personal
    /// rules alone.
    pub fn get_talent_bonus(&self, talent_type: &TalentType) -> (r: i64)
        requires
            self.wf(),
        ensures
            r == effective_value(
                self.modifiers@,
                Seq::<Modifier>::empty(),
                ModifierTarget::TalentBonus(*talent_type),
                native_talent_bonus(self.talents@, *talent_type),
            ),
            -VAL_LIMIT <= r <= VAL_LIMIT,
    {
        let extras: Vec<Modifier> = Vec::new();
        self.get_talent_bonus_with_sect_modifiers(talent_type, &extras)
    }

    /// The effective bonus of one talent in fixed point, under personal and
    /// extra rules.
    pub fn get_talent_bonus_with_sect_modifiers(
        &self,
        talent_type: &TalentType,
        sect_modifiers: &Vec<Modifier>,
    ) -> (r: i64)
        requires
            self.wf(),
            seq_all_wf(sect_modifiers@),
        ensures
            r == effective_value(
                self.modifiers@,
                sect_modifiers@,
                ModifierTarget::TalentBonus(*talent_type),
                native_talent_bonus(self.talents@, *talent_type),
            ),
            -VAL_LIMIT <= r <= VAL_LIMIT,
    {
        let ghost ts = self.talents@;
        proof {
            assert(ts.subrange(0, ts.len() as int) =~= ts);
        }
        let n = self.talents.len();
        let mut native: i64 = 0;
        let mut found = false;
        let mut i: usize = 0;
        while i < n
            invariant
                0 <= i <= n,
                n == ts.len(),
                self.talents@ == ts,
                !found ==> find_talent(ts, *talent_type) == find_talent(
                    ts.subrange(i as int, n as int),
                    *talent_type,
                ),
                found ==> (find_talent(ts, *talent_type) matches Some(t) && native == t.level
                    * 100),
                !found ==> native == 0,
            decreases n - i,
        {
            proof {
                lemma_find_talent_split(ts, *talent_type, i as int);
            }
            if !found && self.talents[i].talent_type == *talent_type {
                native = (self.talents[i].level as i64) * 100;
                found = true;
                proof {
                    assert(find_talent(ts.subrange(i as int, n as int), *talent_type) == Some(
                        ts[i as int],
                    ));
                }
            }
            i = i + 1;
        }
        proof {
            if !found {
                assert(ts.subrange(n as int, n as int) =~= Seq::<Talent>::empty());
            }
            assert(native == native_talent_bonus(ts, *talent_type));
        }
        self.modifiers.calculate_effective_with_extras(
            &ModifierTarget::TalentBonus(*talent_type),
            native,
            sect_modifiers,
        )
    }

    /// The tribulation success rate in fixed point, under personal rules
    /// alone; between 0 and 950 (that is, 0.95).
    pub fn tribulation_success_rate(&self) -> (r: i64)
        requires
            self.wf(),
        ensures
            r == tribulation_rate_spec(*self, Seq::<Modifier>::empty()),
            0 <= r <= 950,
    {
        let extras: Vec<Modifier> = Vec::new();
        self.tribulation_success_rate_with_sect_modifiers(&extras)
    }

    /// The tribulation success rate in fixed point, under personal and extra
    /// rules; between 0 and 950 (that is, 0.95).
    pub fn tribulation_success_rate_with_sect_modifiers(&self, sect_modifiers: &Vec<Modifier>) -> (r:
        i64)
        requires
            self.wf(),
            seq_all_wf(sect_modifiers@),
        ensures
            r == tribulation_rate_spec(*self, sect_modifiers@),
            0 <= r <= 950,
    {
        let effective_dao_heart = self.get_effective_dao_heart_with_sect_modifiers(sect_modifiers);
        let dao_heart_bonus = crate::modifier::div_fp(effective_dao_heart * 5);
        let heritage_bonus: i64 = match &self.heritage {
            Some(h) => h.tribulation_bonus,
            None => 0,
        };
        let sum: i64 = 300 + dao_heart_bonus + heritage_bonus;
        let native: i64 = if sum > 950 {
            950
        } else if sum < 0 {
            0
        } else {
            sum
        };
        let eff = self.modifiers.calculate_effective_with_extras(
            &ModifierTarget::TribulationSuccessRate,
            native,
            sect_modifiers,
        );
        if eff < 0 {
            0
        } else if eff > 950 {
            950
        } else {
            eff
        }
    }
}

proof fn lemma_find_talent_split(ts: Seq<Talent>, tt: TalentType, i: int)
    requires
        0 <= i < ts.len(),
    ensures
        find_talent(ts.subrange(i, ts.len() as int), tt) == (if ts[i].talent_type == tt {
            Some(ts[i])
        } else {
            find_talent(ts.subrange(i + 1, ts.len() as int), tt)
        }),
{
    assert(ts.subrange(i, ts.len() as int).drop_first() =~= ts.subrange(i + 1, ts.len() as int));
}


/// The tribulation-rate bonus a heritage of the given tier grants, in fixed
/// point.
pub open spec fn heritage_bonus_for(l: CultivationLevel) -> int {
    match l {
        CultivationLevel::NascentSoul => 100,
        CultivationLevel::SpiritSevering => 150,
        CultivationLevel::VoidRefinement => 200,
        _ => 50,
    }
}

/// The target id of the first companion bond, if any.
pub open spec fn companion_of(rs: Seq<Relationship>) -> Option<usize>
    decreases rs.len(),
{
    if rs.len() == 0 {
        None
    } else if rs[0].is_dao_companion {
        Some(rs[0].target_id)
    } else {
        companion_of(rs.drop_first())
    }
}

/// The target id of the first master bond, if any.
pub open spec fn master_of(rs: Seq<Relationship>) -> Option<usize>
    decreases rs.len(),
{
    if rs.len() == 0 {
        None
    } else if rs[0].is_master {
        Some(rs[0].target_id)
    } else {
        master_of(rs.drop_first())
    }
}

/// The target ids of every student bond, in order.
pub open spec fn student_ids(rs: Seq<Relationship>) -> Seq<usize>
    decreases rs.len(),
{
    if rs.len() == 0 {
        Seq::empty()
    } else if rs[0].is_disciple {
        seq![rs[0].target_id] + student_ids(rs.drop_first())
    } else {
        student_ids(rs.drop_first())
    }
}

/// The relationships that do not point at `id`, in order.
pub open spec fn without_rel(rs: Seq<Relationship>, id: int) -> Seq<Relationship>
    decreases rs.len(),
{
    if rs.len() == 0 {
        Seq::empty()
    } else if rs[0].target_id == id {
        without_rel(rs.drop_first(), id)
    } else {
        seq![rs[0]] + without_rel(rs.drop_first(), id)
    }
}

/// A fresh relationship record as `ensure_relationship` appends it.
pub open spec fn fresh_rel(target_id: usize, year: u32) -> Relationship {
    Relationship {
        target_id,
        scores: RelationScores {
            romance: 0u32,
            mentorship: 0u32,
            comrade: 0u32,
            understanding: 0u32,
            fateful_bond: 0u32,
        },
        established_year: year,
        is_dao_companion: false,
        is_master: false,
        is_disciple: false,
    }
}

/// The relationship list after an operation made sure a record toward
/// `target_id` exists: unchanged if one was there, else extended by a fresh
/// record.
pub open spec fn ensured_rels(rs: Seq<Relationship>, target_id: usize, year: u32) -> Seq<
    Relationship,
> {
    if find_rel(rs, target_id as int) is Some {
        rs
    } else {
        rs.push(fresh_rel(target_id, year))
    }
}

impl Disciple {
    /// Settle a successfully finished task for this member: compute the
    /// effective progression reward, add it, credit the quota path for the
    /// task's category, and promote the sub-tier when progress is full.
    /// Returns the progression points granted (always at least one).
    pub fn complete_task(&mut self, task: &Task) -> (r: u32)
        requires
            old(self).wf(),
        ensures
            final(self).wf(),
            r == task_reward_spec(*old(self), *task),
            r >= 1,
            ({
                let amount = task_reward_spec(*old(self), *task);
                let raised: int = if old(self).cultivation.progress + amount > 100 {
                    100int
                } else {
                    old(self).cultivation.progress + amount
                };
                &&& (if raised >= 100 && old(self).cultivation.sub_level.next_spec() is Some {
                    Some(final(self).cultivation.sub_level)
                        == old(self).cultivation.sub_level.next_spec() && final(self).cultivation.progress == 0
                } else {
                    final(self).cultivation.sub_level == old(self).cultivation.sub_level && final(self).cultivation.progress == raised
                })
                &&& final(self).cultivation.current_level == old(self).cultivation.current_level
                &&& (match old(self).cultivation.cultivation_path {
                    Some(p) => final(self).cultivation.cultivation_path matches Some(q)
                        && q.entries@ == quota_credit(p.entries@, task.task_type.category_spec()),
                    None => final(self).cultivation.cultivation_path is None,
                })
            }),
            *final(self) == (Disciple { cultivation: final(self).cultivation, ..*old(self) }),
    {
        let talent_bonus: i64 = match &task.task_type {
            TaskType::Gathering(_) => self.get_talent_bonus(&TalentType::Wood),
            TaskType::Combat(_) => self.get_talent_bonus(&TalentType::Sword),
            TaskType::Exploration(_) => 0,
            TaskType::Auxiliary(_) => self.get_talent_bonus(&TalentType::Formation),
            TaskType::Investment(_) => 0,
        };
        let base: i64 = (task.progress_reward as i64) * 1000;
        let difficulty = task.get_difficulty();
        let dmv: i64 = (difficulty as i64) * 20;
        let dm: i64 = 500 + (if dmv > 1500 {
            1500
        } else {
            dmv
        });
        let rank = self.cultivation.current_level.to_numeric();
        let lp: i64 = (6000u64 / ((6 + rank) as u64)) as i64;
        let v1 = crate::modifier::mul_fp(base, dm);
        let v2 = crate::modifier::mul_fp(v1, lp);
        let native = crate::modifier::mul_fp(v2, 1000 + talent_bonus);
        let eff = self.modifiers.calculate_effective(&ModifierTarget::TaskReward, native);
        let whole: u32 = if eff <= 0 {
            0
        } else {
            let q: u64 = (eff as u64) / 1000;
            if q > (u32::MAX as u64) {
                u32::MAX
            } else {
                q as u32
            }
        };
        let actual: u32 = if whole < 1 {
            1
        } else {
            whole
        };
        self.cultivation.add_progress(actual);
        let category = task.category();
        self.cultivation.try_complete_path_task_by_type(category);
        if self.cultivation.is_sub_level_complete() {
            self.cultivation.try_sublevel_breakthrough();
        }
        actual
    }

    /// Deduct an effective stamina cost: the native cost runs through the
    /// stamina-cost target, then stamina drops (not below zero). Running dry
    /// costs one year of lifespan.
    pub fn consume_energy(&mut self, amount: u32)
        requires
            old(self).wf(),
        ensures
            final(self).wf(),
            ({
                let c = consumption_spec(
                    *old(self),
                    ModifierTarget::EnergyConsumption,
                    amount as int,
                );
                &&& final(self).energy == (if old(self).energy >= c {
                    old(self).energy - c
                } else {
                    0int
                })
                &&& final(self).lifespan == (if final(self).energy == 0 && old(self).lifespan > 0 {
                    old(self).lifespan - 1
                } else {
                    old(self).lifespan as int
                })
            }),
            *final(self) == (Disciple {
                energy: final(self).energy,
                lifespan: final(self).lifespan,
                ..*old(self)
            }),
    {
        let eff = self.modifiers.calculate_effective(
            &ModifierTarget::EnergyConsumption,
            (amount as i64) * 1000,
        );
        let consumption: u32 = if eff <= 0 {
            0
        } else {
            let q: u64 = (eff as u64) / 1000;
            if q > (u32::MAX as u64) {
                u32::MAX
            } else {
                q as u32
            }
        };
        if self.energy >= consumption {
            self.energy = self.energy - consumption;
        } else {
            self.energy = 0;
        }
        if self.energy == 0 && self.lifespan > 0 {
            self.lifespan = self.lifespan - 1;
        }
    }

    /// Deduct an effective vigor cost: the native cost runs through the
    /// vigor-cost target, then vigor drops (not below zero). A member whose
    /// vigor reaches zero is no longer alive.
    pub fn consume_constitution(&mut self, amount: u32)
        requires
            old(self).wf(),
        ensures
            final(self).wf(),
            ({
                let c = consumption_spec(
                    *old(self),
                    ModifierTarget::ConstitutionConsumption,
                    amount as int,
                );
                final(self).constitution == (if old(self).constitution >= c {
                    old(self).constitution - c
                } else {
                    0int
                })
            }),
            *final(self) == (Disciple { constitution: final(self).constitution, ..*old(self) }),
    {
        let eff = self.modifiers.calculate_effective(
            &ModifierTarget::ConstitutionConsumption,
            (amount as i64) * 1000,
        );
        let consumption: u32 = if eff <= 0 {
            0
        } else {
            let q: u64 = (eff as u64) / 1000;
            if q > (u32::MAX as u64) {
                u32::MAX
            } else {
                q as u32
            }
        };
        if self.constitution >= consumption {
            self.constitution = self.constitution - consumption;
        } else {
            self.constitution = 0;
        }
    }

    /// Restore stamina, up to the cap of 100.
    pub fn restore_energy(&mut self, amount: u32)
        ensures
            final(self).energy == (if old(self).energy + amount > 100 {
                100int
            } else {
                old(self).energy + amount
            }),
            *final(self) == (Disciple { energy: final(self).energy, ..*old(self) }),
    {
        let sum: u64 = self.energy as u64 + amount as u64;
        self.energy = if sum > 100 {
            100
        } else {
            sum as u32
        };
    }

    /// Restore vigor, up to the cap of 100.
    pub fn restore_constitution(&mut self, amount: u32)
        ensures
            final(self).constitution == (if old(self).constitution + amount > 100 {
                100int
            } else {
                old(self).constitution + amount
            }),
            *final(self) == (Disciple { constitution: final(self).constitution, ..*old(self) }),
    {
        let sum: u64 = self.constitution as u64 + amount as u64;
        self.constitution = if sum > 100 {
            100
        } else {
            sum as u32
        };
    }

    /// The per-turn natural recovery: five stamina and two vigor.
    pub fn natural_recovery(&mut self)
        ensures
            final(self).energy == (if old(self).energy + 5 > 100 {
                100int
            } else {
                old(self).energy + 5
            }),
            final(self).constitution == (if old(self).constitution + 2 > 100 {
                100int
            } else {
                old(self).constitution + 2
            }),
            *final(self) == (Disciple {
                energy: final(self).energy,
                constitution: final(self).constitution,
                ..*old(self)
            }),
    {
        self.restore_energy(5);
        self.restore_constitution(2);
    }

    /// The legacy a member leaves at death: only members of the fourth tier
    /// or higher leave one, with a rate bonus that grows with the tier.
    pub fn generate_heritage(&self) -> (r: Option<Heritage>)
        ensures
            (r is Some) == (self.cultivation.current_level.to_numeric_spec() >= 3),
            r matches Some(h) ==> h.name == self.name && h.level == self.cultivation.current_level
                && h.tribulation_bonus == heritage_bonus_for(self.cultivation.current_level),
    {
        if self.cultivation.current_level.to_numeric() >= 3 {
            let bonus: i64 = match self.cultivation.current_level {
                CultivationLevel::NascentSoul => 100,
                CultivationLevel::SpiritSevering => 150,
                CultivationLevel::VoidRefinement => 200,
                _ => 50,
            };
            Some(
                Heritage {
                    name: clone_name(&self.name),
                    level: self.cultivation.current_level,
                    tribulation_bonus: bonus,
                },
            )
        } else {
            None
        }
    }

    /// Resolve a major-promotion attempt with an already-drawn roll from
    /// [0, 1000). Nothing happens unless the member is at Perfect sub-tier
    /// with the quota met and a next tier exists. The attempt succeeds when
    /// the roll falls below the member's tribulation rate: the member is
    /// promoted and the lifespan recomputed. A failed attempt is lethal: the
    /// member's vigor drops to zero.
    pub fn apply_tribulation_with_roll(&mut self, roll: u64) -> (success: bool)
        requires
            old(self).wf(),
            roll < 1000,
        ensures
            final(self).wf(),
            success == (old(self).cultivation.can_tribulate_spec() && old(self).cultivation.current_level.next_spec() is Some && (roll as int)
                < tribulation_rate_spec(*old(self), Seq::<Modifier>::empty())),
            (!old(self).cultivation.can_tribulate_spec() || old(self).cultivation.current_level.next_spec() is None) ==> *final(self) == *old(self),
            success ==> Some(final(self).cultivation.current_level) == old(self).cultivation.current_level.next_spec() && final(self).cultivation.sub_level
                == SubLevel::Early && final(self).cultivation.progress == 0 && (final(self).cultivation.cultivation_path matches Some(p) && p.entries@.len() == 0) && final(self).lifespan == final(self).cultivation.current_level.base_lifespan_spec() && *final(self)
                == (Disciple {
                cultivation: final(self).cultivation,
                lifespan: final(self).lifespan,
                ..*old(self)
            }),
            (!success && old(self).cultivation.can_tribulate_spec() && old(self).cultivation.current_level.next_spec() is Some) ==> final(self).constitution == 0
                && *final(self) == (Disciple { constitution: 0u32, ..*old(self) }),
    {
        if !self.cultivation.can_tribulate() {
            return false;
        }
        let next = self.cultivation.current_level.next();
        match next {
            None => false,
            Some(next_level) => {
                let rate = self.tribulation_success_rate();
                if (roll as i64) < rate {
                    self.cultivation.breakthrough_major_level(next_level);
                    self.lifespan = next_level.base_lifespan();
                    true
                } else {
                    self.constitution = 0;
                    false
                }
            },
        }
    }

    /// Attempt a major promotion with a fresh random roll. Whatever the
    /// roll: nothing changes unless the member qualifies; success promotes
    /// and recomputes the lifespan; a failed qualifying attempt is lethal.
    pub fn attempt_tribulation(&mut self) -> (success: bool)
        requires
            old(self).wf(),
        ensures
            final(self).wf(),
            success ==> old(self).cultivation.can_tribulate_spec() && Some(
                final(self).cultivation.current_level,
            ) == old(self).cultivation.current_level.next_spec() && final(self).cultivation.sub_level == SubLevel::Early && final(self).cultivation.progress == 0 && (
            final(self).cultivation.cultivation_path matches Some(p) && p.entries@.len() == 0)
                && final(self).lifespan == final(self).cultivation.current_level.base_lifespan_spec() && *final(self) == (Disciple {
                cultivation: final(self).cultivation,
                lifespan: final(self).lifespan,
                ..*old(self)
            }),
            !success ==> *final(self) == *old(self) || (old(self).cultivation.can_tribulate_spec()
                && final(self).constitution == 0 && *final(self) == (Disciple {
                constitution: 0u32,
                ..*old(self)
            })),
            (!old(self).cultivation.can_tribulate_spec()) ==> !success && *final(self) == *old(self),
            (old(self).cultivation.can_tribulate_spec()
                && old(self).cultivation.current_level.next_spec() is Some) ==> success || (
            final(self).constitution == 0 && *final(self) == (Disciple {
                constitution: 0u32,
                ..*old(self)
            })),
            (old(self).cultivation.can_tribulate_spec()
                && old(self).cultivation.current_level.next_spec() is None) ==> !success && *final(self) == *old(self),
    {
        let roll = rand_below(1000);
        self.apply_tribulation_with_roll(roll)
    }

    /// The direct, riskless promotion out of the lowest tier: a member at
    /// QiRefining with Perfect sub-tier and the quota met advances to
    /// Foundation at Early sub-tier with no progress, a fresh empty quota
    /// path, and the new tier's lifespan. Anyone else is left unchanged.
    pub fn breakthrough(&mut self) -> (r: bool)
        requires
            old(self).wf(),
        ensures
            final(self).wf(),
            r == (old(self).cultivation.current_level == CultivationLevel::QiRefining && old(self).cultivation.can_tribulate_spec()),
            r ==> final(self).cultivation.current_level == CultivationLevel::Foundation && final(self).cultivation.sub_level == SubLevel::Early && final(self).cultivation.progress == 0 && (
            final(self).cultivation.cultivation_path matches Some(p) && p.entries@.len() == 0)
                && final(self).lifespan == 300 && *final(self) == (Disciple {
                cultivation: final(self).cultivation,
                lifespan: 300u32,
                ..*old(self)
            }),
            !r ==> *final(self) == *old(self),
    {
        if matches!(self.cultivation.current_level, CultivationLevel::QiRefining)
            && self.cultivation.can_tribulate() {
            let next = self.cultivation.current_level.next();
            match next {
                Some(next_level) => {
                    self.cultivation.breakthrough_major_level(next_level);
                    self.lifespan = next_level.base_lifespan();
                    true
                },
                None => false,
            }
        } else {
            false
        }
    }

    /// The relationship held toward `target_id`, if any.
    pub fn get_relationship<'a>(&'a self, target_id: usize) -> (r: Option<&'a Relationship>)
        ensures
            match r {
                Some(rel) => find_rel(self.relationships@, target_id as int) == Some(*rel),
                None => find_rel(self.relationships@, target_id as int) is None,
            },
    {
        let ghost rs = self.relationships@;
        let n = self.relationships.len();
        proof {
            assert(rs.subrange(0, n as int) =~= rs);
        }
        let mut i: usize = 0;
        while i < n
            invariant
                0 <= i <= n,
                n == rs.len(),
                self.relationships@ == rs,
                find_rel(rs, target_id as int) == find_rel(
                    rs.subrange(i as int, n as int),
                    target_id as int,
                ),
            decreases n - i,
        {
            proof {
                lemma_find_rel_split(rs, target_id as int, i as int);
            }
            if self.relationships[i].target_id == target_id {
                return Some(&self.relationships[i]);
            }
            i = i + 1;
        }
        proof {
            assert(rs.subrange(n as int, n as int) =~= Seq::<Relationship>::empty());
        }
        None
    }

    /// Make sure a relationship record toward `target_id` exists, creating a
    /// fresh one dated `year` if none does.
    pub fn ensure_relationship(&mut self, target_id: usize, year: u32)
        ensures
            final(self).relationships@ == ensured_rels(
                old(self).relationships@,
                target_id,
                year,
            ),
            *final(self) == (Disciple {
                relationships: final(self).relationships,
                ..*old(self)
            }),
    {
        let existing = self.get_relationship(target_id);
        if existing.is_none() {
            self.relationships.push(Relationship::new(target_id, year));
        }
    }

    /// Add `delta` to one dimension of the relationship toward `target_id`,
    /// creating the relationship (dated `year`) if it does not exist yet.
    /// Reports the new score and, when the level rose, the new level.
    pub fn add_relationship_score(
        &mut self,
        target_id: usize,
        year: u32,
        dimension: crate::relationship::RelationDimension,
        delta: i32,
    ) -> (r: (u32, Option<crate::relationship::RelationLevel>))
        ensures
            ({
                let base = ensured_rels(old(self).relationships@, target_id, year);
                let i = rel_pos(base, target_id as int);
                let old_score = base[i].scores.get_spec(dimension);
                let new_score = crate::relationship::add_result(old_score, delta as int);
                &&& r.0 == new_score
                &&& r.1 == (if crate::relationship::level_rank(
                    crate::relationship::level_from_score(new_score),
                ) > crate::relationship::level_rank(
                    crate::relationship::level_from_score(old_score),
                ) {
                    Some(crate::relationship::level_from_score(new_score))
                } else {
                    None::<crate::relationship::RelationLevel>
                })
                &&& final(self).relationships@ == base.update(
                    i,
                    Relationship {
                        scores: base[i].scores.set_spec(dimension, new_score),
                        ..base[i]
                    },
                )
            }),
            *final(self) == (Disciple {
                relationships: final(self).relationships,
                ..*old(self)
            }),
    {
        self.ensure_relationship(target_id, year);
        let ghost base = self.relationships@;
        proof {
            if find_rel(old(self).relationships@, target_id as int) is None {
                lemma_find_rel_push(
                    old(self).relationships@,
                    target_id as int,
                    fresh_rel(target_id, year),
                );
            }
            lemma_find_rel_pos(base, target_id as int);
            assert(base.subrange(0, base.len() as int) =~= base);
        }
        let n = self.relationships.len();
        let mut i: usize = 0;
        while i < n
            invariant
                0 <= i <= n,
                n == base.len(),
                self.relationships@ == base,
                base == ensured_rels(old(self).relationships@, target_id, year),
                *self == (Disciple { relationships: self.relationships, ..*old(self) }),
                find_rel(base, target_id as int) is Some,
                base[rel_pos(base, target_id as int)].target_id == target_id,
                rel_pos(base, target_id as int) >= i,
                rel_pos(base, target_id as int) == i + rel_pos(
                    base.subrange(i as int, n as int),
                    target_id as int,
                ),
                rel_pos(base, target_id as int) < n,
            decreases n - i,
        {
            proof {
                lemma_rel_pos_split(base, target_id as int, i as int);
            }
            if self.relationships[i].target_id == target_id {
                let mut rel = self.relationships[i];
                let r = rel.scores.add(dimension, delta);
                self.relationships.set(i, rel);
                proof {
                    assert(rel_pos(base, target_id as int) == i as int);
                }
                return r;
            }
            i = i + 1;
        }
        proof {
            assert(false);
        }
        (0, None)
    }

    /// Mark the relationship toward `target_id` as a companion bond,
    /// creating the relationship (dated `year`) if needed.
    pub fn set_dao_companion_flag(&mut self, target_id: usize, year: u32)
        ensures
            ({
                let base = ensured_rels(old(self).relationships@, target_id, year);
                let i = rel_pos(base, target_id as int);
                final(self).relationships@ == base.update(
                    i,
                    Relationship { is_dao_companion: true, ..base[i] },
                )
            }),
            *final(self) == (Disciple {
                relationships: final(self).relationships,
                ..*old(self)
            }),
    {
        self.ensure_relationship(target_id, year);
        let ghost base = self.relationships@;
        proof {
            if find_rel(old(self).relationships@, target_id as int) is None {
                lemma_find_rel_push(
                    old(self).relationships@,
                    target_id as int,
                    fresh_rel(target_id, year),
                );
            }
            lemma_find_rel_pos(base, target_id as int);
            assert(base.subrange(0, base.len() as int) =~= base);
        }
        let n = self.relationships.len();
        let mut i: usize = 0;
        while i < n
            invariant
                0 <= i <= n,
                n == base.len(),
                self.relationships@ == base,
                base == ensured_rels(old(self).relationships@, target_id, year),
                *self == (Disciple { relationships: self.relationships, ..*old(self) }),
                find_rel(base, target_id as int) is Some,
                base[rel_pos(base, target_id as int)].target_id == target_id,
                rel_pos(base, target_id as int) >= i,
                rel_pos(base, target_id as int) == i + rel_pos(
                    base.subrange(i as int, n as int),
                    target_id as int,
                ),
                rel_pos(base, target_id as int) < n,
            decreases n - i,
        {
            proof {
                lemma_rel_pos_split(base, target_id as int, i as int);
            }
            if self.relationships[i].target_id == target_id {
                let mut rel = self.relationships[i];
                rel.is_dao_companion = true;
                self.relationships.set(i, rel);
                proof {
                    assert(rel_pos(base, target_id as int) == i as int);
                }
                return ;
            }
            i = i + 1;
        }
        proof {
            assert(false);
        }
    }

    /// Apply the relationship growth of a shared task of `task_type` toward
    /// `target_id`, creating the relationship (dated `year`) if needed.
    /// Reports the dimensions whose level rose.
    pub fn apply_task_growth_with(
        &mut self,
        target_id: usize,
        year: u32,
        task_type: &TaskType,
    ) -> (r: Vec<(crate::relationship::RelationDimension, crate::relationship::RelationLevel)>)
        ensures
            ({
                let base = ensured_rels(old(self).relationships@, target_id, year);
                let i = rel_pos(base, target_id as int);
                let growth = crate::relationship::growth_for_category(*task_type);
                &&& r@ == growth.level_ups(base[i].scores)
                &&& final(self).relationships@ == base.update(
                    i,
                    Relationship { scores: growth.grown(base[i].scores), ..base[i] },
                )
            }),
            *final(self) == (Disciple {
                relationships: final(self).relationships,
                ..*old(self)
            }),
    {
        self.ensure_relationship(target_id, year);
        let ghost base = self.relationships@;
        proof {
            if find_rel(old(self).relationships@, target_id as int) is None {
                lemma_find_rel_push(
                    old(self).relationships@,
                    target_id as int,
                    fresh_rel(target_id, year),
                );
            }
            lemma_find_rel_pos(base, target_id as int);
            assert(base.subrange(0, base.len() as int) =~= base);
        }
        let n = self.relationships.len();
        let mut i: usize = 0;
        while i < n
            invariant
                0 <= i <= n,
                n == base.len(),
                self.relationships@ == base,
                base == ensured_rels(old(self).relationships@, target_id, year),
                *self == (Disciple { relationships: self.relationships, ..*old(self) }),
                find_rel(base, target_id as int) is Some,
                base[rel_pos(base, target_id as int)].target_id == target_id,
                rel_pos(base, target_id as int) >= i,
                rel_pos(base, target_id as int) == i + rel_pos(
                    base.subrange(i as int, n as int),
                    target_id as int,
                ),
                rel_pos(base, target_id as int) < n,
            decreases n - i,
        {
            proof {
                lemma_rel_pos_split(base, target_id as int, i as int);
            }
            if self.relationships[i].target_id == target_id {
                let mut rel = self.relationships[i];
                let ups = rel.apply_task_growth(task_type);
                self.relationships.set(i, rel);
                proof {
                    assert(rel_pos(base, target_id as int) == i as int);
                }
                return ups;
            }
            i = i + 1;
        }
        proof {
            assert(false);
        }
        Vec::new()
    }

    /// Drop the relationship toward `target_id`, if any.
    pub fn remove_relationship(&mut self, target_id: usize)
        ensures
            final(self).relationships@ == without_rel(old(self).relationships@, target_id as int),
            *final(self) == (Disciple {
                relationships: final(self).relationships,
                ..*old(self)
            }),
    {
        let ghost orig = self.relationships@;
        let mut rest: Vec<Relationship> = Vec::new();
        core::mem::swap(&mut self.relationships, &mut rest);
        let before = rest.len();
        proof {
            assert(orig.subrange(0, before as int) =~= orig);
            assert(Seq::<Relationship>::empty() + without_rel(orig, target_id as int)
                =~= without_rel(orig, target_id as int));
        }
        let mut i: usize = 0;
        while i < before
            invariant
                0 <= i <= before,
                before == orig.len(),
                rest@ == orig,
                *self == (Disciple { relationships: self.relationships, ..*old(self) }),
                self.relationships@ + without_rel(
                    orig.subrange(i as int, before as int),
                    target_id as int,
                ) == without_rel(orig, target_id as int),
            decreases before - i,
        {
            proof {
                lemma_without_rel_split(orig, target_id as int, i as int);
            }
            if !(rest[i].target_id == target_id) {
                let kept = rest[i];
                self.relationships.push(kept);
            }
            proof {
                assert(self.relationships@ + without_rel(
                    orig.subrange(i as int + 1, before as int),
                    target_id as int,
                ) =~= without_rel(orig, target_id as int));
            }
            i = i + 1;
        }
        proof {
            assert(orig.subrange(before as int, before as int) =~= Seq::<Relationship>::empty());
            assert(self.relationships@ =~= without_rel(orig, target_id as int));
        }
    }

    /// The companion's id, if a companion bond exists.
    pub fn get_dao_companion_id(&self) -> (r: Option<usize>)
        ensures
            r == companion_of(self.relationships@),
    {
        let ghost rs = self.relationships@;
        let n = self.relationships.len();
        proof {
            assert(rs.subrange(0, n as int) =~= rs);
        }
        let mut i: usize = 0;
        while i < n
            invariant
                0 <= i <= n,
                n == rs.len(),
                self.relationships@ == rs,
                companion_of(rs) == companion_of(rs.subrange(i as int, n as int)),
            decreases n - i,
        {
            proof {
                lemma_flags_split(rs, i as int);
            }
            if self.relationships[i].is_dao_companion {
                return Some(self.relationships[i].target_id);
            }
            i = i + 1;
        }
        proof {
            assert(rs.subrange(n as int, n as int) =~= Seq::<Relationship>::empty());
        }
        None
    }

    /// The master's id, if a master bond exists.
    pub fn get_master_id(&self) -> (r: Option<usize>)
        ensures
            r == master_of(self.relationships@),
    {
        let ghost rs = self.relationships@;
        let n = self.relationships.len();
        proof {
            assert(rs.subrange(0, n as int) =~= rs);
        }
        let mut i: usize = 0;
        while i < n
            invariant
                0 <= i <= n,
                n == rs.len(),
                self.relationships@ == rs,
                master_of(rs) == master_of(rs.subrange(i as int, n as int)),
            decreases n - i,
        {
            proof {
                lemma_flags_split(rs, i as int);
            }
            if self.relationships[i].is_master {
                return Some(self.relationships[i].target_id);
            }
            i = i + 1;
        }
        proof {
            assert(rs.subrange(n as int, n as int) =~= Seq::<Relationship>::empty());
        }
        None
    }

    /// The ids of every student, in relationship order.
    pub fn get_disciple_ids(&self) -> (r: Vec<usize>)
        ensures
            r@ == student_ids(self.relationships@),
    {
        let ghost rs = self.relationships@;
        let n = self.relationships.len();
        proof {
            assert(rs.subrange(0, n as int) =~= rs);
            assert(Seq::<usize>::empty() + student_ids(rs) =~= student_ids(rs));
        }
        let mut out: Vec<usize> = Vec::new();
        let mut i: usize = 0;
        while i < n
            invariant
                0 <= i <= n,
                n == rs.len(),
                self.relationships@ == rs,
                out@ + student_ids(rs.subrange(i as int, n as int)) == student_ids(rs),
            decreases n - i,
        {
            proof {
                lemma_flags_split(rs, i as int);
            }
            if self.relationships[i].is_disciple {
                out.push(self.relationships[i].target_id);
            }
            proof {
                assert(out@ + student_ids(rs.subrange(i as int + 1, n as int)) =~= student_ids(
                    rs,
                ));
            }
            i = i + 1;
        }
        proof {
            assert(rs.subrange(n as int, n as int) =~= Seq::<Relationship>::empty());
            assert(out@ =~= student_ids(rs));
        }
        out
    }

    /// Whether a companion bond exists.
    pub fn has_dao_companion(&self) -> (r: bool)
        ensures
            r == (companion_of(self.relationships@) is Some),
    {
        self.get_dao_companion_id().is_some()
    }
}

/// A copy of a member's name with the same characters.
fn clone_name(s: &String) -> (r: String)
    ensures
        r == *s,
{
    s.clone()
}

proof fn lemma_find_rel_split(rs: Seq<Relationship>, id: int, i: int)
    requires
        0 <= i < rs.len(),
    ensures
        find_rel(rs.subrange(i, rs.len() as int), id) == (if rs[i].target_id == id {
            Some(rs[i])
        } else {
            find_rel(rs.subrange(i + 1, rs.len() as int), id)
        }),
{
    assert(rs.subrange(i, rs.len() as int).drop_first() =~= rs.subrange(i + 1, rs.len() as int));
}

proof fn lemma_rel_pos_split(rs: Seq<Relationship>, id: int, i: int)
    requires
        0 <= i < rs.len(),
    ensures
        rel_pos(rs.subrange(i, rs.len() as int), id) == (if rs[i].target_id == id {
            0int
        } else {
            1 + rel_pos(rs.subrange(i + 1, rs.len() as int), id)
        }),
{
    assert(rs.subrange(i, rs.len() as int).drop_first() =~= rs.subrange(i + 1, rs.len() as int));
}

/// When a relationship toward `id` exists, its first index is in range and
/// holds it.
pub proof fn lemma_find_rel_pos(rs: Seq<Relationship>, id: int)
    ensures
        find_rel(rs, id) is Some ==> 0 <= rel_pos(rs, id) < rs.len() && rs[rel_pos(rs, id)].target_id
            == id && find_rel(rs, id) == Some(rs[rel_pos(rs, id)]),
        find_rel(rs, id) is None ==> rel_pos(rs, id) == rs.len(),
    decreases rs.len(),
{
    if rs.len() > 0 && rs[0].target_id != id {
        lemma_find_rel_pos(rs.drop_first(), id);
        assert(forall|j: int| 0 <= j < rs.drop_first().len() ==> #[trigger] rs.drop_first()[j]
            == rs[j + 1]);
    }
}

/// Appending a fresh record for `id` to a list that lacks one makes the
/// search find it, at the end.
proof fn lemma_find_rel_push(rs: Seq<Relationship>, id: int, x: Relationship)
    requires
        find_rel(rs, id) is None,
        x.target_id == id,
    ensures
        find_rel(rs.push(x), id) == Some(x),
        rel_pos(rs.push(x), id) == rs.len(),
    decreases rs.len(),
{
    if rs.len() == 0 {
        assert(rs.push(x)[0] == x);
    } else {
        lemma_find_rel_push(rs.drop_first(), id, x);
        assert(rs.push(x).drop_first() =~= rs.drop_first().push(x));
    }
}

proof fn lemma_without_rel_split(rs: Seq<Relationship>, id: int, i: int)
    requires
        0 <= i < rs.len(),
    ensures
        without_rel(rs.subrange(i, rs.len() as int), id) == (if rs[i].target_id == id {
            without_rel(rs.subrange(i + 1, rs.len() as int), id)
        } else {
            seq![rs[i]] + without_rel(rs.subrange(i + 1, rs.len() as int), id)
        }),
{
    assert(rs.subrange(i, rs.len() as int).drop_first() =~= rs.subrange(i + 1, rs.len() as int));
}

proof fn lemma_flags_split(rs: Seq<Relationship>, i: int)
    requires
        0 <= i < rs.len(),
    ensures
        companion_of(rs.subrange(i, rs.len() as int)) == (if rs[i].is_dao_companion {
            Some(rs[i].target_id)
        } else {
            companion_of(rs.subrange(i + 1, rs.len() as int))
        }),
        master_of(rs.subrange(i, rs.len() as int)) == (if rs[i].is_master {
            Some(rs[i].target_id)
        } else {
            master_of(rs.subrange(i + 1, rs.len() as int))
        }),
        student_ids(rs.subrange(i, rs.len() as int)) == (if rs[i].is_disciple {
            seq![rs[i].target_id] + student_ids(rs.subrange(i + 1, rs.len() as int))
        } else {
            student_ids(rs.subrange(i + 1, rs.len() as int))
        }),
{
    assert(rs.subrange(i, rs.len() as int).drop_first() =~= rs.subrange(i + 1, rs.len() as int));
}

} // verus!
