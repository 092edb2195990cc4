//! Pairwise relationships between members: five scored dimensions, levels
//! derived from scores, and growth from working tasks together.

use vstd::prelude::*;
use crate::task::TaskType;

verus! {

/// A dimension along which two members can relate.
#[derive(Debug, Clone, Copy, PartialEq, Eq, Structural)]
pub enum RelationDimension {
    Romance,
    Mentorship,
    Comrade,
    Understanding,
    FatefulBond,
}

impl RelationDimension {
    /// The display name of the dimension.
    pub fn name(&self) -> (r: &'static str)
        ensures
            r@ == dimension_name(*self),
    {
        match self {
            RelationDimension::Romance => "Affection",
            RelationDimension::Mentorship => "Mentorship",
            RelationDimension::Comrade => "Comrade",
            RelationDimension::Understanding => "Understanding",
            RelationDimension::FatefulBond => "FatefulBond",
        }
    }

    /// Every dimension, in fixed order.
    pub fn all() -> (r: Vec<RelationDimension>)
        ensures
            r@ == seq![
                RelationDimension::Romance,
                RelationDimension::Mentorship,
                RelationDimension::Comrade,
                RelationDimension::Understanding,
                RelationDimension::FatefulBond,
            ],
    {
        let mut v: Vec<RelationDimension> = Vec::new();
        v.push(RelationDimension::Romance);
        v.push(RelationDimension::Mentorship);
        v.push(RelationDimension::Comrade);
        v.push(RelationDimension::Understanding);
        v.push(RelationDimension::FatefulBond);
        proof {
            assert(v@ =~= seq![
                RelationDimension::Romance,
                RelationDimension::Mentorship,
                RelationDimension::Comrade,
                RelationDimension::Understanding,
                RelationDimension::FatefulBond,
            ]);
        }
        v
    }
}

/// The display name of a dimension.
pub open spec fn dimension_name(d: RelationDimension) -> Seq<char> {
    match d {
        RelationDimension::Romance => "Affection"@,
        RelationDimension::Mentorship => "Mentorship"@,
        RelationDimension::Comrade => "Comrade"@,
        RelationDimension::Understanding => "Understanding"@,
        RelationDimension::FatefulBond => "FatefulBond"@,
    }
}

/// A relationship level, derived from a dimension's score.
#[derive(Debug, Clone, Copy, PartialEq, Eq, Structural)]
pub enum RelationLevel {
    Stranger,
    Acquaintance,
    Familiar,
    Close,
    Intimate,
    Destined,
}

/// The numeric rank of a level, Stranger = 0 up to Destined = 5.
pub open spec fn level_rank(l: RelationLevel) -> int {
    match l {
        RelationLevel::Stranger => 0,
        RelationLevel::Acquaintance => 1,
        RelationLevel::Familiar => 2,
        RelationLevel::Close => 3,
        RelationLevel::Intimate => 4,
        RelationLevel::Destined => 5,
    }
}

/// The level a score falls in: 0-19 Stranger, 20-39 Acquaintance, 40-59
/// Familiar, 60-79 Close, 80-99 Intimate, 100 and above Destined.
pub open spec fn level_from_score(score: int) -> RelationLevel {
    if score <= 19 {
        RelationLevel::Stranger
    } else if score <= 39 {
        RelationLevel::Acquaintance
    } else if score <= 59 {
        RelationLevel::Familiar
    } else if score <= 79 {
        RelationLevel::Close
    } else if score <= 99 {
        RelationLevel::Intimate
    } else {
        RelationLevel::Destined
    }
}

impl RelationLevel {
    pub fn from_score(score: u32) -> (r: RelationLevel)
        ensures
            r == level_from_score(score as int),
    {
        if score <= 19 {
            RelationLevel::Stranger
        } else if score <= 39 {
            RelationLevel::Acquaintance
        } else if score <= 59 {
            RelationLevel::Familiar
        } else if score <= 79 {
            RelationLevel::Close
        } else if score <= 99 {
            RelationLevel::Intimate
        } else {
            RelationLevel::Destined
        }
    }

    /// The display name of the level.
    pub fn name(&self) -> (r: &'static str)
        ensures
            r@ == level_name(*self),
    {
        match self {
            RelationLevel::Stranger => "Stranger",
            RelationLevel::Acquaintance => "Acquaintance",
            RelationLevel::Familiar => "Familiar",
            RelationLevel::Close => "Close",
            RelationLevel::Intimate => "Intimate",
            RelationLevel::Destined => "Destined",
        }
    }

    /// The lowest score that maps to this level.
    pub open spec fn min_score_spec(self) -> int {
        match self {
            RelationLevel::Stranger => 0,
            RelationLevel::Acquaintance => 20,
            RelationLevel::Familiar => 40,
            RelationLevel::Close => 60,
            RelationLevel::Intimate => 80,
            RelationLevel::Destined => 100,
        }
    }

    pub fn min_score(&self) -> (r: u32)
        ensures
            r == self.min_score_spec(),
    {
        match self {
            RelationLevel::Stranger => 0,
            RelationLevel::Acquaintance => 20,
            RelationLevel::Familiar => 40,
            RelationLevel::Close => 60,
            RelationLevel::Intimate => 80,
            RelationLevel::Destined => 100,
        }
    }

    pub fn rank(&self) -> (r: u32)
        ensures
            r == level_rank(*self),
    {
        match self {
            RelationLevel::Stranger => 0,
            RelationLevel::Acquaintance => 1,
            RelationLevel::Familiar => 2,
            RelationLevel::Close => 3,
            RelationLevel::Intimate => 4,
            RelationLevel::Destined => 5,
        }
    }
}

/// The display name of a level.
pub open spec fn level_name(l: RelationLevel) -> Seq<char> {
    match l {
        RelationLevel::Stranger => "Stranger"@,
        RelationLevel::Acquaintance => "Acquaintance"@,
        RelationLevel::Familiar => "Familiar"@,
        RelationLevel::Close => "Close"@,
        RelationLevel::Intimate => "Intimate"@,
        RelationLevel::Destined => "Destined"@,
    }
}

/// The higher-ranked of two levels; ties keep the first.
pub open spec fn level_max(a: RelationLevel, b: RelationLevel) -> RelationLevel {
    if level_rank(b) > level_rank(a) {
        b
    } else {
        a
    }
}

/// Scores along every relationship dimension, each kept within 0 to 100 by
/// the mutating operations.
#[derive(Debug, Clone, Copy, PartialEq, Eq, Structural)]
pub struct RelationScores {
    pub romance: u32,
    pub mentorship: u32,
    pub comrade: u32,
    pub understanding: u32,
    pub fateful_bond: u32,
}

/// What a score becomes when `delta` is added: capped at 100 going up,
/// floored at 0 going down.
pub open spec fn add_result(old: int, delta: int) -> int {
    if delta >= 0 {
        if old + delta > 100 {
            100
        } else {
            old + delta
        }
    } else {
        if old + delta < 0 {
            0
        } else {
            old + delta
        }
    }
}

/// A value as `set` stores it: never above 100.
pub open spec fn clamp100(v: int) -> int {
    if v > 100 {
        100
    } else {
        v
    }
}

impl RelationScores {
    /// The stored score of one dimension.
    pub open spec fn get_spec(self, dimension: RelationDimension) -> int {
        match dimension {
            RelationDimension::Romance => self.romance as int,
            RelationDimension::Mentorship => self.mentorship as int,
            RelationDimension::Comrade => self.comrade as int,
            RelationDimension::Understanding => self.understanding as int,
            RelationDimension::FatefulBond => self.fateful_bond as int,
        }
    }

    /// These scores with one dimension replaced by the clamped value.
    pub open spec fn set_spec(self, dimension: RelationDimension, value: int) -> RelationScores {
        match dimension {
            RelationDimension::Romance => RelationScores {
                romance: clamp100(value) as u32,
                ..self
            },
            RelationDimension::Mentorship => RelationScores {
                mentorship: clamp100(value) as u32,
                ..self
            },
            RelationDimension::Comrade => RelationScores {
                comrade: clamp100(value) as u32,
                ..self
            },
            RelationDimension::Understanding => RelationScores {
                understanding: clamp100(value) as u32,
                ..self
            },
            RelationDimension::FatefulBond => RelationScores {
                fateful_bond: clamp100(value) as u32,
                ..self
            },
        }
    }

    /// All scores zero.
    pub fn new() -> (r: RelationScores)
        ensures
            r == (RelationScores {
                romance: 0u32,
                mentorship: 0u32,
                comrade: 0u32,
                understanding: 0u32,
                fateful_bond: 0u32,
            }),
    {
        RelationScores { romance: 0, mentorship: 0, comrade: 0, understanding: 0, fateful_bond: 0 }
    }

    pub fn get(&self, dimension: RelationDimension) -> (r: u32)
        ensures
            r == self.get_spec(dimension),
    {
        match dimension {
            RelationDimension::Romance => self.romance,
            RelationDimension::Mentorship => self.mentorship,
            RelationDimension::Comrade => self.comrade,
            RelationDimension::Understanding => self.understanding,
            RelationDimension::FatefulBond => self.fateful_bond,
        }
    }

    /// Store a score, never above 100.
    pub fn set(&mut self, dimension: RelationDimension, value: u32)
        ensures
            *final(self) == old(self).set_spec(dimension, value as int),
    {
        let value = if value > 100 {
            100
        } else {
            value
        };
        match dimension {
            RelationDimension::Romance => {
                self.romance = value;
            },
            RelationDimension::Mentorship => {
                self.mentorship = value;
            },
            RelationDimension::Comrade => {
                self.comrade = value;
            },
            RelationDimension::Understanding => {
                self.understanding = value;
            },
            RelationDimension::FatefulBond => {
                self.fateful_bond = value;
            },
        }
    }

    /// Add `delta` to one dimension's score (capped at 100, floored at 0) and
    /// report the new score, together with the new level when the addition
    /// raised the level.
    pub fn add(&mut self, dimension: RelationDimension, delta: i32) -> (r: (
        u32,
        Option<RelationLevel>,
    ))
        ensures
            r.0 == add_result(old(self).get_spec(dimension), delta as int),
            *final(self) == old(self).set_spec(
                dimension,
                add_result(old(self).get_spec(dimension), delta as int),
            ),
            r.1 == (if level_rank(level_from_score(r.0 as int)) > level_rank(
                level_from_score(old(self).get_spec(dimension)),
            ) {
                Some(level_from_score(r.0 as int))
            } else {
                None::<RelationLevel>
            }),
    {
        let old_score = self.get(dimension);
        let old_level = RelationLevel::from_score(old_score);
        let new_score: u32 = if delta >= 0 {
            let s: u64 = old_score as u64 + delta as u64;
            if s > 100 {
                100
            } else {
                s as u32
            }
        } else {
            let nd: u64 = (-(delta as i64)) as u64;
            if (old_score as u64) <= nd {
                0
            } else {
                old_score - (nd as u32)
            }
        };
        self.set(dimension, new_score);
        let new_level = RelationLevel::from_score(new_score);
        if new_level.rank() > old_level.rank() {
            (new_score, Some(new_level))
        } else {
            (new_score, None)
        }
    }

    /// The level of one dimension.
    pub fn get_level(&self, dimension: RelationDimension) -> (r: RelationLevel)
        ensures
            r == level_from_score(self.get_spec(dimension)),
    {
        RelationLevel::from_score(self.get(dimension))
    }

    /// The level of every dimension, in fixed order.
    pub fn get_all_levels(&self) -> (r: Vec<(RelationDimension, RelationLevel)>)
        ensures
            r@ == seq![
                (RelationDimension::Romance, level_from_score(self.romance as int)),
                (RelationDimension::Mentorship, level_from_score(self.mentorship as int)),
                (RelationDimension::Comrade, level_from_score(self.comrade as int)),
                (RelationDimension::Understanding, level_from_score(self.understanding as int)),
                (RelationDimension::FatefulBond, level_from_score(self.fateful_bond as int)),
            ],
    {
        let mut v: Vec<(RelationDimension, RelationLevel)> = Vec::new();
        v.push((RelationDimension::Romance, self.get_level(RelationDimension::Romance)));
        v.push((RelationDimension::Mentorship, self.get_level(RelationDimension::Mentorship)));
        v.push((RelationDimension::Comrade, self.get_level(RelationDimension::Comrade)));
        v.push(
            (RelationDimension::Understanding, self.get_level(RelationDimension::Understanding)),
        );
        v.push((RelationDimension::FatefulBond, self.get_level(RelationDimension::FatefulBond)));
        proof {
            assert(v@ =~= seq![
                (RelationDimension::Romance, level_from_score(self.romance as int)),
                (RelationDimension::Mentorship, level_from_score(self.mentorship as int)),
                (RelationDimension::Comrade, level_from_score(self.comrade as int)),
                (RelationDimension::Understanding, level_from_score(self.understanding as int)),
                (RelationDimension::FatefulBond, level_from_score(self.fateful_bond as int)),
            ]);
        }
        v
    }

    /// The highest level across all dimensions.
    pub open spec fn highest_level_spec(self) -> RelationLevel {
        level_max(
            level_max(
                level_max(
                    level_max(
                        level_from_score(self.romance as int),
                        level_from_score(self.mentorship as int),
                    ),
                    level_from_score(self.comrade as int),
                ),
                level_from_score(self.understanding as int),
            ),
            level_from_score(self.fateful_bond as int),
        )
    }

    pub fn highest_level(&self) -> (r: RelationLevel)
        ensures
            r == self.highest_level_spec(),
    {
        let mut best = self.get_level(RelationDimension::Romance);
        let l = self.get_level(RelationDimension::Mentorship);
        if l.rank() > best.rank() {
            best = l;
        }
        let l = self.get_level(RelationDimension::Comrade);
        if l.rank() > best.rank() {
            best = l;
        }
        let l = self.get_level(RelationDimension::Understanding);
        if l.rank() > best.rank() {
            best = l;
        }
        let l = self.get_level(RelationDimension::FatefulBond);
        if l.rank() > best.rank() {
            best = l;
        }
        best
    }

    /// Whether the pair may become companions: affection at least 80.
    pub fn can_be_dao_companion(&self) -> (r: bool)
        ensures
            r == (self.romance >= 80),
    {
        self.romance >= 80
    }

    /// Whether a mentor bond exists: mentorship at least 40.
    pub fn has_mentorship(&self) -> (r: bool)
        ensures
            r == (self.mentorship >= 40),
    {
        self.mentorship >= 40
    }
}

/// Per-dimension growth earned by finishing a task together.
#[derive(Debug, Clone, Copy, PartialEq, Eq, Structural)]
pub struct RelationGrowth {
    pub romance: i32,
    pub mentorship: i32,
    pub comrade: i32,
    pub understanding: i32,
    pub fateful_bond: i32,
}

/// The growth each task category brings: combat builds comradeship,
/// exploration shared fortune, gathering and support mutual understanding.
pub open spec fn growth_for_category(t: TaskType) -> RelationGrowth {
    match t {
        TaskType::Combat(_) => RelationGrowth {
            romance: 0,
            mentorship: 0,
            comrade: 3,
            understanding: 1,
            fateful_bond: 0,
        },
        TaskType::Exploration(_) => RelationGrowth {
            romance: 0,
            mentorship: 0,
            comrade: 0,
            understanding: 2,
            fateful_bond: 2,
        },
        TaskType::Gathering(_) => RelationGrowth {
            romance: 0,
            mentorship: 0,
            comrade: 0,
            understanding: 2,
            fateful_bond: 0,
        },
        TaskType::Auxiliary(_) => RelationGrowth {
            romance: 1,
            mentorship: 0,
            comrade: 0,
            understanding: 1,
            fateful_bond: 0,
        },
        TaskType::Investment(_) => RelationGrowth {
            romance: 0,
            mentorship: 0,
            comrade: 0,
            understanding: 0,
            fateful_bond: 0,
        },
    }
}

/// One growth step of `apply_to`: dimensions with zero growth are untouched.
pub open spec fn grow_one(s: RelationScores, dim: RelationDimension, delta: int) -> RelationScores {
    if delta != 0 {
        s.set_spec(dim, add_result(s.get_spec(dim), delta))
    } else {
        s
    }
}

/// The level-up report of one growth step.
pub open spec fn grow_one_up(s: RelationScores, dim: RelationDimension, delta: int) -> Seq<
    (RelationDimension, RelationLevel),
> {
    if delta != 0 && level_rank(level_from_score(add_result(s.get_spec(dim), delta))) > level_rank(
        level_from_score(s.get_spec(dim)),
    ) {
        seq![(dim, level_from_score(add_result(s.get_spec(dim), delta)))]
    } else {
        Seq::empty()
    }
}

impl RelationGrowth {
    /// The growth a task of the given type brings.
    pub fn from_task_type(task_type: &TaskType) -> (r: RelationGrowth)
        ensures
            r == growth_for_category(*task_type),
    {
        match task_type {
            TaskType::Combat(_) => RelationGrowth {
                romance: 0,
                mentorship: 0,
                comrade: 3,
                understanding: 1,
                fateful_bond: 0,
            },
            TaskType::Exploration(_) => RelationGrowth {
                romance: 0,
                mentorship: 0,
                comrade: 0,
                understanding: 2,
                fateful_bond: 2,
            },
            TaskType::Gathering(_) => RelationGrowth {
                romance: 0,
                mentorship: 0,
                comrade: 0,
                understanding: 2,
                fateful_bond: 0,
            },
            TaskType::Auxiliary(_) => RelationGrowth {
                romance: 1,
                mentorship: 0,
                comrade: 0,
                understanding: 1,
                fateful_bond: 0,
            },
            TaskType::Investment(_) => RelationGrowth {
                romance: 0,
                mentorship: 0,
                comrade: 0,
                understanding: 0,
                fateful_bond: 0,
            },
        }
    }

    /// The scores after this growth is applied, dimension by dimension in
    /// fixed order.
    pub open spec fn grown(self, s: RelationScores) -> RelationScores {
        let s1 = grow_one(s, RelationDimension::Romance, self.romance as int);
        let s2 = grow_one(s1, RelationDimension::Mentorship, self.mentorship as int);
        let s3 = grow_one(s2, RelationDimension::Comrade, self.comrade as int);
        let s4 = grow_one(s3, RelationDimension::Understanding, self.understanding as int);
        grow_one(s4, RelationDimension::FatefulBond, self.fateful_bond as int)
    }

    /// The level-ups this growth produces, in dimension order.
    pub open spec fn level_ups(self, s: RelationScores) -> Seq<
        (RelationDimension, RelationLevel),
    > {
        let s1 = grow_one(s, RelationDimension::Romance, self.romance as int);
        let s2 = grow_one(s1, RelationDimension::Mentorship, self.mentorship as int);
        let s3 = grow_one(s2, RelationDimension::Comrade, self.comrade as int);
        let s4 = grow_one(s3, RelationDimension::Understanding, self.understanding as int);
        grow_one_up(s, RelationDimension::Romance, self.romance as int) + grow_one_up(
            s1,
            RelationDimension::Mentorship,
            self.mentorship as int,
        ) + grow_one_up(s2, RelationDimension::Comrade, self.comrade as int) + grow_one_up(
            s3,
            RelationDimension::Understanding,
            self.understanding as int,
        ) + grow_one_up(s4, RelationDimension::FatefulBond, self.fateful_bond as int)
    }

    /// Apply the growth to a score sheet and report each dimension whose
    /// level rose, with its new level.
    #[verifier::rlimit(60)]
    pub fn apply_to(&self, scores: &mut RelationScores) -> (r: Vec<
        (RelationDimension, RelationLevel),
    >)
        ensures
            *final(scores) == self.grown(*old(scores)),
            r@ == self.level_ups(*old(scores)),
    {
        let ghost s0 = *scores;
        let ghost g1 = grow_one(s0, RelationDimension::Romance, self.romance as int);
        let ghost g2 = grow_one(g1, RelationDimension::Mentorship, self.mentorship as int);
        let ghost g3 = grow_one(g2, RelationDimension::Comrade, self.comrade as int);
        let ghost g4 = grow_one(g3, RelationDimension::Understanding, self.understanding as int);
        let ghost u1 = grow_one_up(s0, RelationDimension::Romance, self.romance as int);
        let ghost u2 = grow_one_up(g1, RelationDimension::Mentorship, self.mentorship as int);
        let ghost u3 = grow_one_up(g2, RelationDimension::Comrade, self.comrade as int);
        let ghost u4 = grow_one_up(g3, RelationDimension::Understanding, self.understanding as int);
        let ghost u5 = grow_one_up(g4, RelationDimension::FatefulBond, self.fateful_bond as int);
        let mut level_ups: Vec<(RelationDimension, RelationLevel)> = Vec::new();
        if self.romance != 0 {
            let (_, up) = scores.add(RelationDimension::Romance, self.romance);
            if let Some(level) = up {
                level_ups.push((RelationDimension::Romance, level));
            }
        }
        proof {
            assert(*scores == g1);
            assert(level_ups@ =~= u1);
        }
        if self.mentorship != 0 {
            let (_, up) = scores.add(RelationDimension::Mentorship, self.mentorship);
            if let Some(level) = up {
                level_ups.push((RelationDimension::Mentorship, level));
            }
        }
        proof {
            assert(*scores == g2);
            assert(level_ups@ =~= u1 + u2);
        }
        if self.comrade != 0 {
            let (_, up) = scores.add(RelationDimension::Comrade, self.comrade);
            if let Some(level) = up {
                level_ups.push((RelationDimension::Comrade, level));
            }
        }
        proof {
            assert(*scores == g3);
            assert(level_ups@ =~= u1 + u2 + u3);
        }
        if self.understanding != 0 {
            let (_, up) = scores.add(RelationDimension::Understanding, self.understanding);
            if let Some(level) = up {
                level_ups.push((RelationDimension::Understanding, level));
            }
        }
        proof {
            assert(*scores == g4);
            assert(level_ups@ =~= u1 + u2 + u3 + u4);
        }
        if self.fateful_bond != 0 {
            let (_, up) = scores.add(RelationDimension::FatefulBond, self.fateful_bond);
            if let Some(level) = up {
                level_ups.push((RelationDimension::FatefulBond, level));
            }
        }
        proof {
            assert(*scores == self.grown(s0));
            assert(level_ups@ =~= u1 + u2 + u3 + u4 + u5);
            assert(level_ups@ =~= self.level_ups(s0));
        }
        level_ups
    }
}

impl Default for RelationGrowth {
    /// No growth along any dimension.
    fn default() -> (r: RelationGrowth)
        ensures
            r == (RelationGrowth {
                romance: 0i32,
                mentorship: 0i32,
                comrade: 0i32,
                understanding: 0i32,
                fateful_bond: 0i32,
            }),
    {
        RelationGrowth { romance: 0, mentorship: 0, comrade: 0, understanding: 0, fateful_bond: 0 }
    }
}

/// A one-way relationship from one member toward another.
#[derive(Debug, Clone, Copy, PartialEq, Eq, Structural)]
pub struct Relationship {
    pub target_id: usize,
    pub scores: RelationScores,
    pub established_year: u32,
    pub is_dao_companion: bool,
    pub is_master: bool,
    pub is_disciple: bool,
}

impl Relationship {
    /// A fresh relationship with all scores at zero and no special bonds.
    pub fn new(target_id: usize, year: u32) -> (r: Relationship)
        ensures
            r.target_id == target_id,
            r.established_year == year,
            r.scores == (RelationScores {
                romance: 0u32,
                mentorship: 0u32,
                comrade: 0u32,
                understanding: 0u32,
                fateful_bond: 0u32,
            }),
            !r.is_dao_companion,
            !r.is_master,
            !r.is_disciple,
    {
        Relationship {
            target_id,
            scores: RelationScores::new(),
            established_year: year,
            is_dao_companion: false,
            is_master: false,
            is_disciple: false,
        }
    }

    /// The relationship a new student holds toward their master: the master
    /// flag set and mentorship starting at 50.
    pub fn new_as_disciple_of(master_id: usize, year: u32) -> (r: Relationship)
        ensures
            r.target_id == master_id,
            r.established_year == year,
            r.is_master,
            !r.is_disciple,
            !r.is_dao_companion,
            r.scores == (RelationScores {
                romance: 0u32,
                mentorship: 50u32,
                comrade: 0u32,
                understanding: 0u32,
                fateful_bond: 0u32,
            }),
    {
        let mut rel = Relationship::new(master_id, year);
        rel.is_master = true;
        rel.scores.mentorship = 50;
        rel
    }

    /// The relationship a master holds toward a new student: the student
    /// flag set and mentorship starting at 50.
    pub fn new_as_master_of(disciple_id: usize, year: u32) -> (r: Relationship)
        ensures
            r.target_id == disciple_id,
            r.established_year == year,
            r.is_disciple,
            !r.is_master,
            !r.is_dao_companion,
            r.scores == (RelationScores {
                romance: 0u32,
                mentorship: 50u32,
                comrade: 0u32,
                understanding: 0u32,
                fateful_bond: 0u32,
            }),
    {
        let mut rel = Relationship::new(disciple_id, year);
        rel.is_disciple = true;
        rel.scores.mentorship = 50;
        rel
    }

    /// Apply the growth a shared task of the given type brings.
    pub fn apply_task_growth(&mut self, task_type: &TaskType) -> (r: Vec<
        (RelationDimension, RelationLevel),
    >)
        ensures
            final(self).scores == growth_for_category(*task_type).grown(old(self).scores),
            r@ == growth_for_category(*task_type).level_ups(old(self).scores),
            final(self).target_id == old(self).target_id,
            final(self).established_year == old(self).established_year,
            final(self).is_dao_companion == old(self).is_dao_companion,
            final(self).is_master == old(self).is_master,
            final(self).is_disciple == old(self).is_disciple,
    {
        let growth = RelationGrowth::from_task_type(task_type);
        growth.apply_to(&mut self.scores)
    }

    /// The label that best describes the relationship: an explicit bond if
    /// one exists, otherwise the highest-scoring ordinary dimension (the last
    /// of equals wins), or Stranger when every score is below 20.
    pub open spec fn primary_relation_spec(self) -> Seq<char> {
        if self.is_dao_companion {
            "Companion"@
        } else if self.is_master {
            "Master"@
        } else if self.is_disciple {
            "Student"@
        } else if level_rank(self.scores.highest_level_spec()) == 0 {
            "Stranger"@
        } else {
            let s = self.scores;
            let n1 = "Confidant"@;
            let (b1, v1) = (n1, s.romance as int);
            let (b2, v2) = (if s.comrade as int >= v1 {
                ("BattleFriend"@, s.comrade as int)
            } else {
                (b1, v1)
            });
            let (b3, v3) = (if s.understanding as int >= v2 {
                ("OldAcquaintance"@, s.understanding as int)
            } else {
                (b2, v2)
            });
            if s.fateful_bond as int >= v3 {
                "KindredSpirit"@
            } else {
                b3
            }
        }
    }

    pub fn get_primary_relation(&self) -> (r: &'static str)
        ensures
            r@ == self.primary_relation_spec(),
    {
        if self.is_dao_companion {
            return "Companion";
        }
        if self.is_master {
            return "Master";
        }
        if self.is_disciple {
            return "Student";
        }
        let highest = self.scores.highest_level();
        if highest.rank() == 0 {
            return "Stranger";
        }
        let mut best: &'static str = "Confidant";
        let mut best_score = self.scores.romance;
        if self.scores.comrade >= best_score {
            best = "BattleFriend";
            best_score = self.scores.comrade;
        }
        if self.scores.understanding >= best_score {
            best = "OldAcquaintance";
            best_score = self.scores.understanding;
        }
        if self.scores.fateful_bond >= best_score {
            best = "KindredSpirit";
        }
        best
    }
}

} // verus!
