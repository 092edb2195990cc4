//! The turn engine: it opens each turn (aging, recovery, income, recruits,
//! expiry, fresh tasks, promotion checks), binds members to tasks through the
//! eligibility rules, advances and settles assignments, and watches the
//! victory and defeat conditions.

use vstd::prelude::*;
use crate::cultivation::{CultivationLevel, CultivationPath, QuotaEntry, SubLevel, quota_credit};
use crate::disciple::{CultivationProgress, Disciple, task_reward_spec};
use crate::event::{EventSystem, RecruitmentSystem, TaskResult};
use crate::external::rand_below;
use crate::map::GameMap;
use crate::pill::{PillRecipe, PillType, pill_count, pill_effects_spec, recipe_of};
use crate::sect::{Sect, SectError, org_rules};
use crate::task::{Task, TaskCategory, TaskEligibility, eligibility_spec, success_rate_spec};

verus! {

/// Whether the game still runs, was won, or was lost.
#[derive(Debug, Clone, Copy, PartialEq, Eq, Structural)]
pub enum GameState {
    Running,
    Victory,
    Defeat,
}

/// The live binding of members to one task.
#[derive(Debug, Clone)]
pub struct TaskAssignment {
    pub task_id: usize,
    pub disciple_ids: Vec<usize>,
    /// The turn work started, once any member is bound.
    pub started_turn: Option<u32>,
    /// Turns worked so far (distinct from the task's duration).
    pub progress: u32,
}

impl TaskAssignment {
    /// Whether the member participates here.
    pub fn contains_disciple(&self, disciple_id: usize) -> (r: bool)
        ensures
            r == self.disciple_ids@.contains(disciple_id),
    {
        let n = self.disciple_ids.len();
        let mut i: usize = 0;
        while i < n
            invariant
                0 <= i <= n,
                n == self.disciple_ids@.len(),
                forall|k: int| 0 <= k < i ==> self.disciple_ids@[k] != disciple_id,
            decreases n - i,
        {
            if self.disciple_ids[i] == disciple_id {
                proof {
                    assert(self.disciple_ids@[i as int] == disciple_id);
                }
                return true;
            }
            i = i + 1;
        }
        proof {
            if self.disciple_ids@.contains(disciple_id) {
                let w = choose|k: int|
                    0 <= k < self.disciple_ids@.len() && self.disciple_ids@[k] == disciple_id;
                assert(false);
            }
        }
        false
    }
}

/// Whether any assignment other than the given task's binds the member.
pub open spec fn busy_elsewhere(asn: Seq<TaskAssignment>, disciple_id: int, task_id: int) -> bool {
    exists|i: int|
        0 <= i < asn.len() && (#[trigger] asn[i]).task_id != task_id && asn[i].disciple_ids@.contains(
            disciple_id as usize,
        )
}

/// The first open task with the given id, if any.
pub open spec fn find_task(ts: Seq<Task>, id: int) -> Option<Task>
    decreases ts.len(),
{
    if ts.len() == 0 {
        None
    } else if ts[0].id == id {
        Some(ts[0])
    } else {
        find_task(ts.drop_first(), id)
    }
}

/// The index of the first open task with the given id; the length when none.
pub open spec fn task_pos(ts: Seq<Task>, id: int) -> int
    decreases ts.len(),
{
    if ts.len() == 0 {
        0
    } else if ts[0].id == id {
        0
    } else {
        1 + task_pos(ts.drop_first(), id)
    }
}

/// The first assignment bound to the given task, if any.
pub open spec fn find_assignment(asn: Seq<TaskAssignment>, task_id: int) -> Option<TaskAssignment>
    decreases asn.len(),
{
    if asn.len() == 0 {
        None
    } else if asn[0].task_id == task_id {
        Some(asn[0])
    } else {
        find_assignment(asn.drop_first(), task_id)
    }
}

/// The index of that assignment; the length when none is bound.
pub open spec fn asn_pos(asn: Seq<TaskAssignment>, task_id: int) -> int
    decreases asn.len(),
{
    if asn.len() == 0 {
        0
    } else if asn[0].task_id == task_id {
        0
    } else {
        1 + asn_pos(asn.drop_first(), task_id)
    }
}

/// Whether a task has outlived its expiry horizon by `year`.
pub open spec fn expired_spec(t: Task, year: int) -> bool {
    year >= t.created_turn + t.expiry_turns
}

/// The open tasks that have not expired by `year`, in order.
pub open spec fn live_tasks(ts: Seq<Task>, year: int) -> Seq<Task>
    decreases ts.len(),
{
    if ts.len() == 0 {
        Seq::empty()
    } else if expired_spec(ts[0], year) {
        live_tasks(ts.drop_first(), year)
    } else {
        seq![ts[0]] + live_tasks(ts.drop_first(), year)
    }
}

/// The ids of the tasks that expired by `year`, in order.
pub open spec fn expired_ids(ts: Seq<Task>, year: int) -> Seq<usize>
    decreases ts.len(),
{
    if ts.len() == 0 {
        Seq::empty()
    } else if expired_spec(ts[0], year) {
        seq![ts[0].id] + expired_ids(ts.drop_first(), year)
    } else {
        expired_ids(ts.drop_first(), year)
    }
}

/// The assignments whose task is not in the given id list, in order.
pub open spec fn kept_assignments(asn: Seq<TaskAssignment>, ids: Seq<usize>) -> Seq<TaskAssignment>
    decreases asn.len(),
{
    if asn.len() == 0 {
        Seq::empty()
    } else if ids.contains(asn[0].task_id) {
        kept_assignments(asn.drop_first(), ids)
    } else {
        seq![asn[0]] + kept_assignments(asn.drop_first(), ids)
    }
}

/// The id list with every occurrence of one member removed, in order.
pub open spec fn without_member(ids: Seq<usize>, id: usize) -> Seq<usize>
    decreases ids.len(),
{
    if ids.len() == 0 {
        Seq::empty()
    } else if ids[0] == id {
        without_member(ids.drop_first(), id)
    } else {
        seq![ids[0]] + without_member(ids.drop_first(), id)
    }
}

/// One running game: the organization, its world, the queued events, the
/// recruiter, the open tasks and their live assignments.
#[derive(Debug)]
pub struct InteractiveGame {
    pub sect: Sect,
    pub map: GameMap,
    pub event_system: EventSystem,
    pub recruitment_system: RecruitmentSystem,
    pub state: GameState,
    pub current_tasks: Vec<Task>,
    pub task_assignments: Vec<TaskAssignment>,
}

impl InteractiveGame {
    pub open spec fn wf(&self) -> bool {
        self.sect.wf()
    }

    /// A fresh game over the given world blueprints, with three starting
    /// members recruited.
    pub fn new(sect_name: String, config: crate::config::ConfigManager) -> (g: InteractiveGame)
        ensures
            g.wf(),
            g.state == GameState::Running,
            g.current_tasks@.len() == 0,
            g.task_assignments@.len() == 0,
            g.sect.disciples@.len() == 3,
    {
        let mut map = GameMap::new(config);
        map.initialize();
        let mut sect = Sect::new(sect_name);
        let mut recruitment_system = RecruitmentSystem::new();
        let d1 = recruitment_system.generate_random_disciple();
        sect.recruit_disciple(d1);
        let d2 = recruitment_system.generate_random_disciple();
        sect.recruit_disciple(d2);
        let d3 = recruitment_system.generate_random_disciple();
        sect.recruit_disciple(d3);
        InteractiveGame {
            sect,
            map,
            event_system: EventSystem::new(),
            recruitment_system,
            state: GameState::Running,
            current_tasks: Vec::new(),
            task_assignments: Vec::new(),
        }
    }

    /// Open a turn: the year advances and members age, alive members recover
    /// and their timed rules age by one turn, the map pays income, a recruit
    /// may arrive, expired tasks are purged, fresh tasks are drawn (skipping
    /// places that already offer the same category), members with an empty
    /// quota requirement receive a fresh one and lowest-tier members ready
    /// for promotion advance, and the world takes its step.
    pub fn start_turn(&mut self)
        requires
            old(self).wf(),
            old(self).recruitment_system.next_disciple_id < usize::MAX,
        ensures
            final(self).wf(),
            final(self).state == old(self).state,
            final(self).sect.year == crate::sect::cap_add_u32(old(self).sect.year as int, 1),
            old(self).sect.disciples@.len() <= final(self).sect.disciples@.len() <= old(
                self,
            ).sect.disciples@.len() + 1,
            forall|k: int|
                0 <= k < old(self).sect.disciples@.len() ==> turn_opened(
                    old(self).sect.disciples@[k],
                    #[trigger] final(self).sect.disciples@[k],
                ),
            final(self).sect.disciples@.len() > old(self).sect.disciples@.len() ==> ({
                let rec = final(self).sect.disciples@[old(self).sect.disciples@.len() as int];
                rec.cultivation.current_level == CultivationLevel::QiRefining && rec.id == old(
                    self,
                ).recruitment_system.next_disciple_id
            }),
    {
        let ghost year_after = crate::sect::cap_add_u32(old(self).sect.year as int, 1);
        let ghost roster_before = old(self).sect.disciples@.len();
        let ghost orig_ds = old(self).sect.disciples@;
        self.sect.yearly_update();
        proof {
            crate::sect::lemma_aged_all_index(orig_ds);
        }
        // recovery and rule aging for the living
        let n = self.sect.disciples.len();
        let mut i: usize = 0;
        while i < n
            invariant
                0 <= i <= n,
                n == self.sect.disciples@.len(),
                n == orig_ds.len(),
                orig_ds == old(self).sect.disciples@,
                forall|k: int|
                    0 <= k < i ==> refreshed_member(
                        orig_ds[k],
                        #[trigger] self.sect.disciples@[k],
                    ),
                forall|k: int|
                    i <= k < n ==> #[trigger] self.sect.disciples@[k] == crate::sect::aged(
                        orig_ds[k],
                    ),
                self.wf(),
                self.state == old(self).state,
                self.sect.year == year_after,
                self.recruitment_system == old(self).recruitment_system,
            decreases n - i,
        {
            let ghost pre = self.sect.disciples@;
            if self.sect.disciples[i].is_alive() {
                let mut d = self.sect.disciples.remove(i);
                d.natural_recovery();
                d.tick_modifiers();
                self.sect.disciples.insert(i, d);
                proof {
                    assert(self.sect.disciples@ =~= pre.update(
                        i as int,
                        self.sect.disciples@[i as int],
                    ));
                }
            }
            proof {
                assert(refreshed_member(orig_ds[i as int], self.sect.disciples@[i as int]));
            }
            i = i + 1;
        }
        let ghost refreshed = self.sect.disciples@;
        // income
        let income = self.map.calculate_income(self.sect.reputation);
        self.sect.add_resources(income);
        // recruitment
        let ghost next_id = old(self).recruitment_system.next_disciple_id;
        if self.recruitment_system.next_disciple_id < usize::MAX {
            match self.recruitment_system.try_recruit(&self.sect) {
                Some(disciple) => {
                    self.sect.recruit_disciple(disciple);
                },
                None => {},
            }
        }
        let ghost joined = self.sect.disciples@;
        proof {
            assert(joined.len() == refreshed.len() || (joined.len() == refreshed.len() + 1
                && joined[refreshed.len() as int].cultivation.current_level
                == CultivationLevel::QiRefining && joined[refreshed.len() as int].id == next_id
                && joined[refreshed.len() as int].cultivation.sub_level == SubLevel::Early));
            assert(forall|k: int| 0 <= k < refreshed.len() ==> #[trigger] joined[k] == refreshed[k]);
        }
        // expiry, then fresh tasks
        self.remove_expired_tasks();
        let mut new_tasks = self.map.get_available_tasks();
        let year = self.sect.year;
        let fresh_count = new_tasks.len();
        let mut j: usize = 0;
        while j < fresh_count
            invariant
                0 <= j <= fresh_count,
                new_tasks@.len() + j == fresh_count,
                self.wf(),
                self.state == old(self).state,
                self.sect.year == year_after,
                self.sect.disciples@ == joined,
            decreases fresh_count - j,
        {
            let mut task = new_tasks.remove(0);
            task.created_turn = year;
            let duplicate = self.has_same_place_task(&task);
            let already_listed = self.has_task_id(task.id);
            if !duplicate && !already_listed {
                let task_id = task.id;
                self.current_tasks.push(task);
                self.task_assignments.push(
                    TaskAssignment {
                        task_id,
                        disciple_ids: Vec::new(),
                        started_turn: None,
                        progress: 0,
                    },
                );
            }
            j = j + 1;
        }
        // promotion checks and fresh quota paths
        self.check_breakthroughs();
        proof {
            assert forall|k: int| 0 <= k < roster_before implies turn_opened(
                orig_ds[k],
                #[trigger] self.sect.disciples@[k],
            ) by {
                assert(refreshed_member(orig_ds[k], refreshed[k]));
                assert(breakthrough_checked(joined[k], self.sect.disciples@[k]));
                assert(joined[k] == refreshed[k]);
            }
            if self.sect.disciples@.len() > roster_before {
                let rec0 = joined[roster_before as int];
                let rec = self.sect.disciples@[roster_before as int];
                assert(breakthrough_checked(rec0, rec));
                let mid = choose|m: Disciple|
                    #[trigger] path_issued(rec0, m) && direct_promotion_applied(m, rec);
                assert(mid.cultivation.current_level == CultivationLevel::QiRefining);
                assert(mid.cultivation.sub_level == SubLevel::Early);
                assert(!mid.cultivation.can_tribulate_spec());
                assert(rec == mid);
            }
        }
        // the world moves
        self.map.update();
        self.check_and_remove_invalid_defense_tasks();
    }

    /// Whether an open task from the same place offers the same category.
    fn has_same_place_task(&self, task: &Task) -> (r: bool)
    {
        let loc = match &task.location_id {
            Some(l) => l,
            None => {
                return false;
            },
        };
        let category = task.category();
        let n = self.current_tasks.len();
        let mut i: usize = 0;
        while i < n
            invariant
                0 <= i <= n,
                n == self.current_tasks@.len(),
            decreases n - i,
        {
            let same_loc = match &self.current_tasks[i].location_id {
                Some(l2) => *l2 == *loc,
                None => false,
            };
            if same_loc {
                let c2 = self.current_tasks[i].category();
                if c2 == category {
                    return true;
                }
            }
            i = i + 1;
        }
        false
    }

    /// Whether an open task already carries the id.
    fn has_task_id(&self, task_id: usize) -> (r: bool)
        ensures
            r == (exists|i: int|
                0 <= i < self.current_tasks@.len() && (#[trigger] self.current_tasks@[i]).id
                    == task_id),
    {
        let n = self.current_tasks.len();
        let mut i: usize = 0;
        while i < n
            invariant
                0 <= i <= n,
                n == self.current_tasks@.len(),
                forall|k: int| 0 <= k < i ==> (#[trigger] self.current_tasks@[k]).id != task_id,
            decreases n - i,
        {
            if self.current_tasks[i].id == task_id {
                return true;
            }
            i = i + 1;
        }
        false
    }

    /// Purge every task that outlived its expiry horizon, with its
    /// assignment; monsters tied to a purged hunt are released. The open
    /// tasks become exactly the unexpired ones, in order.
    pub fn remove_expired_tasks(&mut self)
        requires
            old(self).wf(),
        ensures
            final(self).wf(),
            final(self).state == old(self).state,
            final(self).sect == old(self).sect,
            final(self).current_tasks@ == live_tasks(
                old(self).current_tasks@,
                old(self).sect.year as int,
            ),
            final(self).task_assignments@ == kept_assignments(
                old(self).task_assignments@,
                expired_ids(old(self).current_tasks@, old(self).sect.year as int),
            ),
            final(self).map.width == old(self).map.width,
            final(self).map.height == old(self).map.height,
            final(self).map.config == old(self).map.config,
            final(self).map.elements@.len() == old(self).map.elements@.len(),
            final(self).current_tasks@.len() <= old(self).current_tasks@.len(),
            final(self).event_system == old(self).event_system,
            final(self).recruitment_system == old(self).recruitment_system,
    {
        let ghost orig = self.current_tasks@;
        let ghost y = self.sect.year as int;
        let current_turn = self.sect.year;
        let mut kept: Vec<Task> = Vec::new();
        let mut dropped_ids: Vec<usize> = Vec::new();
        let mut dropped_monsters: Vec<usize> = Vec::new();
        let total = self.current_tasks.len();
        let mut tasks: Vec<Task> = Vec::new();
        core::mem::swap(&mut self.current_tasks, &mut tasks);
        proof {
            assert(orig.subrange(0, total as int) =~= orig);
            assert(Seq::<Task>::empty() + live_tasks(orig, y) =~= live_tasks(orig, y));
            assert(Seq::<usize>::empty() + expired_ids(orig, y) =~= expired_ids(orig, y));
            lemma_live_le(orig, y);
        }
        let mut i: usize = 0;
        while i < total
            invariant
                0 <= i <= total,
                total == orig.len(),
                tasks@ == orig.subrange(i as int, total as int),
                y == old(self).sect.year as int,
                current_turn == old(self).sect.year,
                orig == old(self).current_tasks@,
                kept@ + live_tasks(orig.subrange(i as int, total as int), y) == live_tasks(
                    orig,
                    y,
                ),
                dropped_ids@ + expired_ids(orig.subrange(i as int, total as int), y)
                    == expired_ids(orig, y),
                self.current_tasks@.len() == 0,
                *self == (InteractiveGame { current_tasks: self.current_tasks, ..*old(self) }),
            decreases total - i,
        {
            proof {
                lemma_expiry_split(orig, y, i as int);
            }
            let task = tasks.remove(0);
            proof {
                assert(tasks@ =~= orig.subrange(i as int + 1, total as int));
            }
            if task.is_expired(current_turn) {
                dropped_ids.push(task.id);
                match &task.task_type {
                    crate::task::TaskType::Combat(c) => {
                        if task.is_defense {
                            match c.enemy_id {
                                Some(mid) => {
                                    dropped_monsters.push(mid);
                                },
                                None => {},
                            }
                        }
                    },
                    _ => {},
                }
            } else {
                kept.push(task);
            }
            proof {
                assert(kept@ + live_tasks(orig.subrange(i as int + 1, total as int), y)
                    =~= live_tasks(orig, y));
                assert(dropped_ids@ + expired_ids(orig.subrange(i as int + 1, total as int), y)
                    =~= expired_ids(orig, y));
            }
            i = i + 1;
        }
        proof {
            assert(orig.subrange(total as int, total as int) =~= Seq::<Task>::empty());
            assert(kept@ =~= live_tasks(orig, y));
            assert(dropped_ids@ =~= expired_ids(orig, y));
        }
        self.current_tasks = kept;
        self.drop_assignments_of(&dropped_ids);
        let m = dropped_ids.len();
        let mut k: usize = 0;
        while k < m
            invariant
                0 <= k <= m,
                m == dropped_ids@.len(),
                self.wf(),
                self.state == old(self).state,
                self.sect == old(self).sect,
                self.current_tasks@ == live_tasks(orig, y),
                orig == old(self).current_tasks@,
                y == old(self).sect.year as int,
                self.task_assignments@ == kept_assignments(
                    old(self).task_assignments@,
                    expired_ids(orig, y),
                ),
                self.map.width == old(self).map.width,
                self.map.height == old(self).map.height,
                self.map.config == old(self).map.config,
                self.map.elements@.len() == old(self).map.elements@.len(),
                self.current_tasks@.len() <= old(self).current_tasks@.len(),
                self.event_system == old(self).event_system,
                self.recruitment_system == old(self).recruitment_system,
            decreases m - k,
        {
            self.map.clear_monster_task(dropped_ids[k]);
            k = k + 1;
        }
        let m2 = dropped_monsters.len();
        let mut k2: usize = 0;
        while k2 < m2
            invariant
                0 <= k2 <= m2,
                m2 == dropped_monsters@.len(),
                self.wf(),
                self.state == old(self).state,
                self.sect == old(self).sect,
                self.current_tasks@ == live_tasks(orig, y),
                orig == old(self).current_tasks@,
                y == old(self).sect.year as int,
                self.task_assignments@ == kept_assignments(
                    old(self).task_assignments@,
                    expired_ids(orig, y),
                ),
                self.map.width == old(self).map.width,
                self.map.height == old(self).map.height,
                self.map.config == old(self).map.config,
                self.map.elements@.len() == old(self).map.elements@.len(),
                self.current_tasks@.len() <= old(self).current_tasks@.len(),
                self.event_system == old(self).event_system,
                self.recruitment_system == old(self).recruitment_system,
            decreases m2 - k2,
        {
            self.map.unlock_monster_for_defense_task(dropped_monsters[k2]);
            k2 = k2 + 1;
        }
    }

    /// Drop the assignments of the given tasks: exactly those whose task id
    /// is not listed remain, in order.
    fn drop_assignments_of(&mut self, task_ids: &Vec<usize>)
        ensures
            final(self).task_assignments@ == kept_assignments(
                old(self).task_assignments@,
                task_ids@,
            ),
            final(self).task_assignments@.len() <= old(self).task_assignments@.len(),
            *final(self) == (InteractiveGame {
                task_assignments: final(self).task_assignments,
                ..*old(self)
            }),
    {
        let ghost orig = self.task_assignments@;
        let ghost ids = task_ids@;
        let total = self.task_assignments.len();
        let mut kept: Vec<TaskAssignment> = Vec::new();
        let mut asn: Vec<TaskAssignment> = Vec::new();
        core::mem::swap(&mut self.task_assignments, &mut asn);
        proof {
            assert(orig.subrange(0, total as int) =~= orig);
            assert(Seq::<TaskAssignment>::empty() + kept_assignments(orig, ids)
                =~= kept_assignments(orig, ids));
            lemma_kept_le(orig, ids);
        }
        let mut i: usize = 0;
        while i < total
            invariant
                0 <= i <= total,
                total == orig.len(),
                ids == task_ids@,
                asn@ == orig.subrange(i as int, total as int),
                kept@ + kept_assignments(orig.subrange(i as int, total as int), ids)
                    == kept_assignments(orig, ids),
                self.task_assignments@.len() == 0,
                *self == (InteractiveGame { task_assignments: self.task_assignments, ..*old(self) }),
            decreases total - i,
        {
            proof {
                lemma_kept_split(orig, ids, i as int);
            }
            let a = asn.remove(0);
            proof {
                assert(asn@ =~= orig.subrange(i as int + 1, total as int));
            }
            if !contains_id(task_ids, a.task_id) {
                kept.push(a);
            }
            proof {
                assert(kept@ + kept_assignments(orig.subrange(i as int + 1, total as int), ids)
                    =~= kept_assignments(orig, ids));
            }
            i = i + 1;
        }
        proof {
            assert(orig.subrange(total as int, total as int) =~= Seq::<TaskAssignment>::empty());
            assert(kept@ =~= kept_assignments(orig, ids));
        }
        self.task_assignments = kept;
    }

    /// Drop the defense tasks whose monster vanished or stopped invading:
    /// exactly the tasks the map reports invalid leave the board, with their
    /// assignments; their monsters are unlinked and released.
    pub fn check_and_remove_invalid_defense_tasks(&mut self)
        requires
            old(self).wf(),
        ensures
            final(self).wf(),
            final(self).state == old(self).state,
            final(self).sect == old(self).sect,
            final(self).current_tasks@ == tasks_without(
                old(self).current_tasks@,
                crate::map::invalid_defense_ids(
                    old(self).map.elements@,
                    old(self).current_tasks@,
                ),
            ),
            final(self).task_assignments@ == kept_assignments(
                old(self).task_assignments@,
                crate::map::invalid_defense_ids(
                    old(self).map.elements@,
                    old(self).current_tasks@,
                ),
            ),
            final(self).map.width == old(self).map.width,
            final(self).map.height == old(self).map.height,
            final(self).map.config == old(self).map.config,
            final(self).map.elements@.len() == old(self).map.elements@.len(),
            final(self).event_system == old(self).event_system,
            final(self).recruitment_system == old(self).recruitment_system,
    {
        let ghost orig_tasks = self.current_tasks@;
        let ghost ids = crate::map::invalid_defense_ids(self.map.elements@, self.current_tasks@);
        let invalid = self.map.check_defense_tasks_validity(&self.current_tasks);
        // collect the monsters to release
        let mut monsters: Vec<usize> = Vec::new();
        let n = self.current_tasks.len();
        let mut i: usize = 0;
        while i < n
            invariant
                0 <= i <= n,
                n == self.current_tasks@.len(),
                invalid@ == ids,
                *self == *old(self),
            decreases n - i,
        {
            if contains_id(&invalid, self.current_tasks[i].id) {
                match &self.current_tasks[i].task_type {
                    crate::task::TaskType::Combat(c) => {
                        match c.enemy_id {
                            Some(mid) => {
                                monsters.push(mid);
                            },
                            None => {},
                        }
                    },
                    _ => {},
                }
            }
            i = i + 1;
        }
        // drop the tasks and their assignments
        let total = self.current_tasks.len();
        let mut kept: Vec<Task> = Vec::new();
        let mut tasks: Vec<Task> = Vec::new();
        core::mem::swap(&mut self.current_tasks, &mut tasks);
        proof {
            assert(orig_tasks.subrange(0, total as int) =~= orig_tasks);
            assert(Seq::<Task>::empty() + tasks_without(orig_tasks, ids) =~= tasks_without(
                orig_tasks,
                ids,
            ));
        }
        let mut j: usize = 0;
        while j < total
            invariant
                0 <= j <= total,
                total == orig_tasks.len(),
                orig_tasks == old(self).current_tasks@,
                tasks@ == orig_tasks.subrange(j as int, total as int),
                invalid@ == ids,
                kept@ + tasks_without(orig_tasks.subrange(j as int, total as int), ids)
                    == tasks_without(orig_tasks, ids),
                self.current_tasks@.len() == 0,
                *self == (InteractiveGame { current_tasks: self.current_tasks, ..*old(self) }),
            decreases total - j,
        {
            proof {
                lemma_tasks_without_split(orig_tasks, ids, j as int);
            }
            let task = tasks.remove(0);
            proof {
                assert(tasks@ =~= orig_tasks.subrange(j as int + 1, total as int));
            }
            if !contains_id(&invalid, task.id) {
                kept.push(task);
            }
            proof {
                assert(kept@ + tasks_without(orig_tasks.subrange(j as int + 1, total as int), ids)
                    =~= tasks_without(orig_tasks, ids));
            }
            j = j + 1;
        }
        proof {
            assert(orig_tasks.subrange(total as int, total as int) =~= Seq::<Task>::empty());
            assert(kept@ =~= tasks_without(orig_tasks, ids));
        }
        self.current_tasks = kept;
        self.drop_assignments_of(&invalid);
        // unlink and release the monsters
        let m = invalid.len();
        let mut k: usize = 0;
        while k < m
            invariant
                0 <= k <= m,
                m == invalid@.len(),
                self.wf(),
                self.state == old(self).state,
                self.sect == old(self).sect,
                self.current_tasks@ == tasks_without(orig_tasks, ids),
                orig_tasks == old(self).current_tasks@,
                self.task_assignments@ == kept_assignments(old(self).task_assignments@, ids),
                invalid@ == ids,
                self.map.width == old(self).map.width,
                self.map.height == old(self).map.height,
                self.map.config == old(self).map.config,
                self.map.elements@.len() == old(self).map.elements@.len(),
                self.event_system == old(self).event_system,
                self.recruitment_system == old(self).recruitment_system,
            decreases m - k,
        {
            self.map.clear_monster_task(invalid[k]);
            k = k + 1;
        }
        let m2 = monsters.len();
        let mut k2: usize = 0;
        while k2 < m2
            invariant
                0 <= k2 <= m2,
                m2 == monsters@.len(),
                self.wf(),
                self.state == old(self).state,
                self.sect == old(self).sect,
                self.current_tasks@ == tasks_without(orig_tasks, ids),
                orig_tasks == old(self).current_tasks@,
                self.task_assignments@ == kept_assignments(old(self).task_assignments@, ids),
                self.map.width == old(self).map.width,
                self.map.height == old(self).map.height,
                self.map.config == old(self).map.config,
                self.map.elements@.len() == old(self).map.elements@.len(),
                self.event_system == old(self).event_system,
                self.recruitment_system == old(self).recruitment_system,
            decreases m2 - k2,
        {
            self.map.unlock_monster_for_defense_task(monsters[k2]);
            k2 = k2 + 1;
        }
    }

    /// Promotion housekeeping: every member whose quota path has no
    /// requirements receives a fresh tier-appropriate one, and lowest-tier
    /// members ready to advance are promoted outright (higher tiers wait for
    /// an explicit tribulation attempt).
    pub fn check_breakthroughs(&mut self)
        requires
            old(self).wf(),
        ensures
            final(self).wf(),
            final(self).state == old(self).state,
            final(self).sect.disciples@.len() == old(self).sect.disciples@.len(),
            forall|k: int|
                0 <= k < old(self).sect.disciples@.len() ==> breakthrough_checked(
                    old(self).sect.disciples@[k],
                    #[trigger] final(self).sect.disciples@[k],
                ),
            final(self).sect == (crate::sect::Sect {
                disciples: final(self).sect.disciples,
                ..old(self).sect
            }),
            final(self).current_tasks == old(self).current_tasks,
            final(self).task_assignments == old(self).task_assignments,
    {
        let ghost orig = self.sect.disciples@;
        let n = self.sect.disciples.len();
        let mut i: usize = 0;
        while i < n
            invariant
                0 <= i <= n,
                n == orig.len(),
                orig == old(self).sect.disciples@,
                self.sect.disciples@.len() == n,
                forall|k: int|
                    0 <= k < i ==> breakthrough_checked(
                        orig[k],
                        #[trigger] self.sect.disciples@[k],
                    ),
                forall|k: int| i <= k < n ==> self.sect.disciples@[k] == orig[k],
                self.wf(),
                self.state == old(self).state,
                self.sect == (crate::sect::Sect { disciples: self.sect.disciples, ..old(self).sect }),
                *self == (InteractiveGame { sect: self.sect, state: self.state, ..*old(self) }),
            decreases n - i,
        {
            let ghost pre = self.sect.disciples@;
            let needs_path = match &self.sect.disciples[i].cultivation.cultivation_path {
                Some(p) => p.entries.len() == 0,
                None => true,
            };
            let level = self.sect.disciples[i].cultivation.current_level;
            if needs_path {
                let mut d = self.sect.disciples.remove(i);
                d.cultivation.cultivation_path = Some(fresh_quota_path(level));
                self.sect.disciples.insert(i, d);
                proof {
                    assert(self.sect.disciples@ =~= pre.update(
                        i as int,
                        self.sect.disciples@[i as int],
                    ));
                }
            }
            let ghost mid = self.sect.disciples@[i as int];
            proof {
                assert(path_issued(orig[i as int], mid));
            }
            let ghost pre2 = self.sect.disciples@;
            let direct = {
                let d = &self.sect.disciples[i];
                d.is_alive() && matches!(
                    d.cultivation.current_level,
                    CultivationLevel::QiRefining,
                )
            };
            if direct {
                let mut d = self.sect.disciples.remove(i);
                if d.cultivation.can_tribulate() {
                    d.breakthrough();
                }
                self.sect.disciples.insert(i, d);
                proof {
                    assert(self.sect.disciples@ =~= pre2.update(
                        i as int,
                        self.sect.disciples@[i as int],
                    ));
                }
            }
            proof {
                assert(direct_promotion_applied(mid, self.sect.disciples@[i as int]));
                assert(breakthrough_checked(orig[i as int], self.sect.disciples@[i as int]));
            }
            i = i + 1;
        }
    }

    /// An explicit major-promotion attempt for one member. None exactly when
    /// no such member exists, the member is dead, or the promotion gate is
    /// closed; nothing changes then. A qualifying lowest-tier member is
    /// promoted without a roll; any other qualifying member rolls, and the
    /// attempt resolves either into the next tier or into death -- except at
    /// the terminal tier, where nothing changes.
    pub fn execute_tribulation(&mut self, disciple_id: usize) -> (r: Option<bool>)
        requires
            old(self).wf(),
        ensures
            final(self).wf(),
            final(self).state == old(self).state,
            ({
                let ds = old(self).sect.disciples@;
                let di = crate::sect::disciple_pos(ds, disciple_id as int);
                match crate::sect::find_disciple(ds, disciple_id as int) {
                    None => r is None && *final(self) == *old(self),
                    Some(d) => {
                        &&& ((!crate::sect::alive_spec(d) || !d.cultivation.can_tribulate_spec())
                            ==> r is None && *final(self) == *old(self))
                        &&& ((crate::sect::alive_spec(d) && d.cultivation.can_tribulate_spec())
                            ==> {
                            let d2 = final(self).sect.disciples@[di];
                            &&& r is Some
                            &&& final(self).sect.disciples@.len() == ds.len()
                            &&& (forall|k: int|
                                0 <= k < ds.len() && k != di ==> final(self).sect.disciples@[k]
                                    == ds[k])
                            &&& final(self).sect == (Sect {
                                disciples: final(self).sect.disciples,
                                ..old(self).sect
                            })
                            &&& *final(self) == (InteractiveGame {
                                sect: final(self).sect,
                                ..*old(self)
                            })
                            &&& (d.cultivation.current_level == CultivationLevel::QiRefining ==> r
                                == Some(true) && d2.cultivation.current_level
                                == CultivationLevel::Foundation && d2.cultivation.sub_level
                                == SubLevel::Early && d2.cultivation.progress == 0 && d2.lifespan
                                == 300)
                            &&& (d.cultivation.current_level != CultivationLevel::QiRefining
                                ==> match r {
                                Some(true) => Some(d2.cultivation.current_level)
                                    == d.cultivation.current_level.next_spec()
                                    && d2.cultivation.sub_level == SubLevel::Early
                                    && d2.cultivation.progress == 0 && d2.lifespan
                                    == d2.cultivation.current_level.base_lifespan_spec(),
                                Some(false) => d2.constitution == 0 || (
                                d.cultivation.current_level.next_spec() is None && d2 == d),
                                None => false,
                            })
                        })
                    },
                }
            }),
    {
        let idx = match self.find_disciple_index(disciple_id) {
            Some(i) => i,
            None => {
                return None;
            },
        };
        if !self.sect.disciples[idx].is_alive() {
            return None;
        }
        if !self.sect.disciples[idx].cultivation.can_tribulate() {
            return None;
        }
        let ghost pre = self.sect.disciples@;
        let mut d = self.sect.disciples.remove(idx);
        let outcome: Option<bool> = if matches!(
            d.cultivation.current_level,
            CultivationLevel::QiRefining,
        ) {
            Some(d.breakthrough())
        } else {
            Some(d.attempt_tribulation())
        };
        self.sect.disciples.insert(idx, d);
        proof {
            assert(self.sect.disciples@ =~= pre.update(
                idx as int,
                self.sect.disciples@[idx as int],
            ));
        }
        outcome
    }

    /// The index of the first member with the given id.
    fn find_disciple_index(&self, id: usize) -> (r: Option<usize>)
        ensures
            match r {
                Some(i) => 0 <= i < self.sect.disciples@.len() && self.sect.disciples@[i as int].id
                    == id && i == crate::sect::disciple_pos(self.sect.disciples@, id as int)
                    && crate::sect::find_disciple(self.sect.disciples@, id as int) == Some(
                    self.sect.disciples@[i as int],
                ),
                None => crate::sect::find_disciple(self.sect.disciples@, id as int) is None,
            },
    {
        let ghost ds = self.sect.disciples@;
        let n = self.sect.disciples.len();
        proof {
            assert(ds.subrange(0, n as int) =~= ds);
        }
        let mut i: usize = 0;
        while i < n
            invariant
                0 <= i <= n,
                n == ds.len(),
                self.sect.disciples@ == ds,
                crate::sect::find_disciple(ds, id as int) == crate::sect::find_disciple(
                    ds.subrange(i as int, n as int),
                    id as int,
                ),
                crate::sect::disciple_pos(ds, id as int) == i + crate::sect::disciple_pos(
                    ds.subrange(i as int, n as int),
                    id as int,
                ),
            decreases n - i,
        {
            proof {
                crate::sect::lemma_find_disciple_split(ds, id as int, i as int);
            }
            if self.sect.disciples[i].id == id {
                return Some(i);
            }
            i = i + 1;
        }
        proof {
            assert(ds.subrange(n as int, n as int) =~= Seq::<Disciple>::empty());
        }
        None
    }

    /// The index of the assignment bound to the given task.
    fn find_assignment_index(&self, task_id: usize) -> (r: Option<usize>)
        ensures
            match r {
                Some(i) => 0 <= i < self.task_assignments@.len()
                    && self.task_assignments@[i as int].task_id == task_id && i == asn_pos(
                    self.task_assignments@,
                    task_id as int,
                ) && find_assignment(self.task_assignments@, task_id as int) == Some(
                    self.task_assignments@[i as int],
                ),
                None => find_assignment(self.task_assignments@, task_id as int) is None,
            },
    {
        let ghost asn = self.task_assignments@;
        let n = self.task_assignments.len();
        proof {
            assert(asn.subrange(0, n as int) =~= asn);
        }
        let mut i: usize = 0;
        while i < n
            invariant
                0 <= i <= n,
                n == asn.len(),
                self.task_assignments@ == asn,
                find_assignment(asn, task_id as int) == find_assignment(
                    asn.subrange(i as int, n as int),
                    task_id as int,
                ),
                asn_pos(asn, task_id as int) == i + asn_pos(
                    asn.subrange(i as int, n as int),
                    task_id as int,
                ),
            decreases n - i,
        {
            proof {
                lemma_assignment_split(asn, task_id as int, i as int);
            }
            if self.task_assignments[i].task_id == task_id {
                return Some(i);
            }
            i = i + 1;
        }
        proof {
            assert(asn.subrange(n as int, n as int) =~= Seq::<TaskAssignment>::empty());
        }
        None
    }

    /// Whether the member is bound to any assignment other than the task's.
    fn is_busy_elsewhere(&self, disciple_id: usize, task_id: usize) -> (r: bool)
        ensures
            r == busy_elsewhere(self.task_assignments@, disciple_id as int, task_id as int),
    {
        let n = self.task_assignments.len();
        let mut i: usize = 0;
        while i < n
            invariant
                0 <= i <= n,
                n == self.task_assignments@.len(),
                forall|k: int|
                    0 <= k < i ==> !((#[trigger] self.task_assignments@[k]).task_id
                        != task_id && self.task_assignments@[k].disciple_ids@.contains(
                        disciple_id,
                    )),
            decreases n - i,
        {
            if self.task_assignments[i].task_id != task_id
                && self.task_assignments[i].contains_disciple(disciple_id) {
                return true;
            }
            i = i + 1;
        }
        false
    }

    /// The assign call: run the full eligibility check for the member and
    /// task (in its fixed order, with the organization's rules in scope) and
    /// bind the member only when it passes. An ineligible request leaves
    /// every assignment untouched and reports the first failing reason.
    pub fn assign_disciple_to_task(&mut self, task_id: usize, disciple_id: usize) -> (r: Option<
        TaskEligibility,
    >)
        requires
            old(self).wf(),
        ensures
            final(self).wf(),
            final(self).state == old(self).state,
            (r is None) == (find_task(old(self).current_tasks@, task_id as int) is None
                || crate::sect::find_disciple(old(self).sect.disciples@, disciple_id as int) is None
                || find_assignment(old(self).task_assignments@, task_id as int) is None),
            r is None ==> *final(self) == *old(self),
            r matches Some(e) ==> ({
                let task = old(self).current_tasks@[task_pos(
                    old(self).current_tasks@,
                    task_id as int,
                )];
                let member = old(self).sect.disciples@[crate::sect::disciple_pos(
                    old(self).sect.disciples@,
                    disciple_id as int,
                )];
                let ai = asn_pos(old(self).task_assignments@, task_id as int);
                let a = old(self).task_assignments@[ai];
                let at_pos = match task.position {
                    Some(p) => member.position == p,
                    None => true,
                };
                let busy = busy_elsewhere(
                    old(self).task_assignments@,
                    disciple_id as int,
                    task_id as int,
                );
                &&& e.reason == eligibility_spec(
                    task,
                    member,
                    org_rules(old(self).sect, member),
                    at_pos,
                    busy,
                    a.disciple_ids@.contains(disciple_id),
                    a.disciple_ids@.len() as int,
                )
                &&& e.eligible == (e.reason is None)
                &&& !e.eligible ==> *final(self) == *old(self)
                &&& e.eligible ==> {
                    &&& final(self).task_assignments@.len() == old(self).task_assignments@.len()
                    &&& final(self).task_assignments@[ai].task_id == a.task_id
                    &&& final(self).task_assignments@[ai].disciple_ids@ == a.disciple_ids@.push(
                        disciple_id,
                    )
                    &&& final(self).task_assignments@[ai].progress == a.progress
                    &&& final(self).task_assignments@[ai].started_turn == (if a.started_turn
                        is Some {
                        a.started_turn
                    } else {
                        Some(old(self).sect.year)
                    })
                    &&& (forall|k: int|
                        0 <= k < old(self).task_assignments@.len() && k != ai ==> final(self).task_assignments@[k] == old(self).task_assignments@[k])
                    &&& *final(self) == (InteractiveGame {
                        task_assignments: final(self).task_assignments,
                        ..*old(self)
                    })
                }
            }),
    {
        let task_idx = match self.find_task_index(task_id) {
            Some(i) => i,
            None => {
                return None;
            },
        };
        let disciple_idx = match self.find_disciple_index(disciple_id) {
            Some(i) => i,
            None => {
                return None;
            },
        };
        let assignment_idx = match self.find_assignment_index(task_id) {
            Some(i) => i,
            None => {
                return None;
            },
        };
        let is_already_assigned = self.task_assignments[assignment_idx].contains_disciple(
            disciple_id,
        );
        let current_count = self.task_assignments[assignment_idx].disciple_ids.len();
        let is_busy = self.is_busy_elsewhere(disciple_id, task_id);
        let is_at_position = match &self.current_tasks[task_idx].position {
            Some(pos) => self.sect.disciples[disciple_idx].is_at_position(pos),
            None => true,
        };
        let extras = self.sect.get_applicable_modifiers_owned(&self.sect.disciples[disciple_idx]);
        let eligibility = self.current_tasks[task_idx].check_eligibility(
            &self.sect.disciples[disciple_idx],
            &extras,
            is_at_position,
            is_busy,
            is_already_assigned,
            current_count,
        );
        if eligibility.eligible {
            let year = self.sect.year;
            let ghost pre = self.task_assignments@;
            let mut a = self.task_assignments.remove(assignment_idx);
            a.disciple_ids.push(disciple_id);
            if a.started_turn.is_none() {
                a.started_turn = Some(year);
            }
            self.task_assignments.insert(assignment_idx, a);
            proof {
                assert(self.task_assignments@ =~= pre.update(
                    assignment_idx as int,
                    self.task_assignments@[assignment_idx as int],
                ));
            }
        }
        Some(eligibility)
    }

    /// The unassign call: unbind the member from the task's assignment.
    /// Reports whether anything changed: true exactly when that assignment
    /// exists and held the member, in which case only its member list
    /// changes, losing exactly this member.
    pub fn unassign_disciple_from_task(&mut self, task_id: usize, disciple_id: usize) -> (r: bool)
        requires
            old(self).wf(),
        ensures
            final(self).wf(),
            final(self).state == old(self).state,
            r == (find_assignment(old(self).task_assignments@, task_id as int) matches Some(a)
                && a.disciple_ids@.contains(disciple_id)),
            !r ==> *final(self) == *old(self),
            r ==> ({
                let ai = asn_pos(old(self).task_assignments@, task_id as int);
                let a = old(self).task_assignments@[ai];
                &&& final(self).task_assignments@.len() == old(self).task_assignments@.len()
                &&& final(self).task_assignments@[ai].task_id == a.task_id
                &&& final(self).task_assignments@[ai].disciple_ids@ == without_member(
                    a.disciple_ids@,
                    disciple_id,
                )
                &&& final(self).task_assignments@[ai].progress == a.progress
                &&& final(self).task_assignments@[ai].started_turn == a.started_turn
                &&& (forall|k: int|
                    0 <= k < old(self).task_assignments@.len() && k != ai ==> final(self).task_assignments@[k] == old(self).task_assignments@[k])
                &&& *final(self) == (InteractiveGame {
                    task_assignments: final(self).task_assignments,
                    ..*old(self)
                })
            }),
    {
        let assignment_idx = match self.find_assignment_index(task_id) {
            Some(i) => i,
            None => {
                return false;
            },
        };
        if !self.task_assignments[assignment_idx].contains_disciple(disciple_id) {
            return false;
        }
        let ghost pre = self.task_assignments@;
        let mut a = self.task_assignments.remove(assignment_idx);
        let ghost orig_ids = a.disciple_ids@;
        let total = a.disciple_ids.len();
        let mut kept: Vec<usize> = Vec::new();
        let mut ids = a.disciple_ids;
        proof {
            assert(orig_ids.subrange(0, total as int) =~= orig_ids);
            assert(Seq::<usize>::empty() + without_member(orig_ids, disciple_id)
                =~= without_member(orig_ids, disciple_id));
        }
        let mut i: usize = 0;
        while i < total
            invariant
                0 <= i <= total,
                total == orig_ids.len(),
                ids@.len() + i == total,
                ids@ == orig_ids.subrange(i as int, total as int),
                kept@ + without_member(orig_ids.subrange(i as int, total as int), disciple_id)
                    == without_member(orig_ids, disciple_id),
            decreases total - i,
        {
            proof {
                lemma_without_member_split(orig_ids, disciple_id, i as int);
            }
            let id = ids.remove(0);
            proof {
                assert(ids@ =~= orig_ids.subrange(i as int + 1, total as int));
            }
            if id != disciple_id {
                kept.push(id);
            }
            proof {
                assert(kept@ + without_member(
                    orig_ids.subrange(i as int + 1, total as int),
                    disciple_id,
                ) =~= without_member(orig_ids, disciple_id));
            }
            i = i + 1;
        }
        proof {
            assert(orig_ids.subrange(total as int, total as int) =~= Seq::<usize>::empty());
            assert(kept@ =~= without_member(orig_ids, disciple_id));
        }
        a.disciple_ids = kept;
        self.task_assignments.insert(assignment_idx, a);
        proof {
            assert(self.task_assignments@ =~= pre.update(
                assignment_idx as int,
                self.task_assignments@[assignment_idx as int],
            ));
        }
        true
    }

    /// The index of the open task with the given id.
    fn find_task_index(&self, task_id: usize) -> (r: Option<usize>)
        ensures
            match r {
                Some(i) => 0 <= i < self.current_tasks@.len() && self.current_tasks@[i as int].id
                    == task_id && i == task_pos(self.current_tasks@, task_id as int) && find_task(
                    self.current_tasks@,
                    task_id as int,
                ) == Some(self.current_tasks@[i as int]),
                None => find_task(self.current_tasks@, task_id as int) is None,
            },
    {
        let ghost ts = self.current_tasks@;
        let n = self.current_tasks.len();
        proof {
            assert(ts.subrange(0, n as int) =~= ts);
        }
        let mut i: usize = 0;
        while i < n
            invariant
                0 <= i <= n,
                n == ts.len(),
                self.current_tasks@ == ts,
                find_task(ts, task_id as int) == find_task(
                    ts.subrange(i as int, n as int),
                    task_id as int,
                ),
                task_pos(ts, task_id as int) == i + task_pos(
                    ts.subrange(i as int, n as int),
                    task_id as int,
                ),
            decreases n - i,
        {
            proof {
                lemma_task_split(ts, task_id as int, i as int);
            }
            if self.current_tasks[i].id == task_id {
                return Some(i);
            }
            i = i + 1;
        }
        proof {
            assert(ts.subrange(n as int, n as int) =~= Seq::<Task>::empty());
        }
        None
    }

    /// Bind eligible idle members to every unstaffed task, first member
    /// first.
    pub fn auto_assign_remaining(&mut self) -> (assigned: usize)
        requires
            old(self).wf(),
        ensures
            final(self).wf(),
            final(self).state == old(self).state,
            *final(self) == (InteractiveGame {
                task_assignments: final(self).task_assignments,
                ..*old(self)
            }),
    {
        let mut assigned: usize = 0;
        let n = self.current_tasks.len();
        let mut i: usize = 0;
        while i < n
            invariant
                0 <= i <= n,
                self.wf(),
                self.state == old(self).state,
                assigned <= i,
                *self == (InteractiveGame { task_assignments: self.task_assignments, ..*old(self) }),
            decreases n - i,
        {
            if i < self.current_tasks.len() {
                let task_id = self.current_tasks[i].id;
                let staffed = match self.find_assignment_index(task_id) {
                    Some(a) => self.task_assignments[a].disciple_ids.len() > 0,
                    None => true,
                };
                if !staffed {
                    let m = self.sect.disciples.len();
                    let mut j: usize = 0;
                    let mut done = false;
                    while j < m
                        invariant
                            0 <= j <= m,
                            self.wf(),
                            self.state == old(self).state,
                            *self == (InteractiveGame {
                                task_assignments: self.task_assignments,
                                ..*old(self)
                            }),
                        decreases m - j,
                    {
                        if !done && j < self.sect.disciples.len() {
                            let disciple_id = self.sect.disciples[j].id;
                            let alive = self.sect.disciples[j].is_alive();
                            if alive {
                                match self.assign_disciple_to_task(task_id, disciple_id) {
                                    Some(e) => {
                                        if e.eligible {
                                            done = true;
                                        }
                                    },
                                    None => {},
                                }
                            }
                        }
                        j = j + 1;
                    }
                    if done && assigned < usize::MAX && assigned <= i {
                        assigned = assigned + 1;
                    }
                }
            }
            i = i + 1;
        }
        assigned
    }

    /// Close a turn: every staffed assignment advances one turn of work and
    /// each participant pays the task's effective per-turn stamina and vigor
    /// costs; an assignment whose work reaches its task's duration settles,
    /// each participant rolling against the task's success rate (combat by
    /// level difference, a flat default elsewhere; see the settlement
    /// relation for what each outcome pays). Settled tasks leave the board
    /// with their assignments, and hunted or guarded monsters are released.
    pub fn execute_turn(&mut self) -> (results: Vec<TaskResult>)
        requires
            old(self).wf(),
        ensures
            final(self).wf(),
            final(self).state == old(self).state,
            final(self).sect.year == old(self).sect.year,
            final(self).sect.disciples@.len() == old(self).sect.disciples@.len(),
            exists|adv: Seq<TaskAssignment>|
                {
                    &&& #[trigger] assignments_advanced(
                        old(self).task_assignments@,
                        adv,
                        old(self).sect.year,
                    )
                    &&& final(self).current_tasks@ == tasks_without(
                        old(self).current_tasks@,
                        completed_ids_of(old(self).current_tasks@, adv),
                    )
                    &&& final(self).task_assignments@ == kept_assignments(
                        adv,
                        completed_ids_of(old(self).current_tasks@, adv),
                    )
                    &&& (forall|j: int|
                        0 <= j < results@.len() ==> completed_ids_of(
                            old(self).current_tasks@,
                            adv,
                        ).contains((#[trigger] results@[j]).task_id))
                },
    {
        let year = self.sect.year;
        let ghost orig_asn = self.task_assignments@;
        let ghost orig_tasks = self.current_tasks@;
        // every staffed assignment gains one turn of work
        let na = self.task_assignments.len();
        let mut i: usize = 0;
        while i < na
            invariant
                0 <= i <= na,
                na == orig_asn.len(),
                orig_asn == old(self).task_assignments@,
                self.task_assignments@.len() == na,
                year == old(self).sect.year,
                forall|k: int|
                    0 <= k < i ==> advanced_rel(
                        orig_asn[k],
                        #[trigger] self.task_assignments@[k],
                        year,
                    ),
                forall|k: int| i <= k < na ==> self.task_assignments@[k] == orig_asn[k],
                *self == (InteractiveGame { task_assignments: self.task_assignments, ..*old(self) }),
            decreases na - i,
        {
            let ghost pre = self.task_assignments@;
            if self.task_assignments[i].disciple_ids.len() > 0 {
                let mut a = self.task_assignments.remove(i);
                if a.started_turn.is_none() {
                    a.started_turn = Some(year);
                }
                if a.progress < u32::MAX {
                    a.progress = a.progress + 1;
                }
                self.task_assignments.insert(i, a);
                proof {
                    assert(self.task_assignments@ =~= pre.update(
                        i as int,
                        self.task_assignments@[i as int],
                    ));
                }
            }
            proof {
                assert(advanced_rel(orig_asn[i as int], self.task_assignments@[i as int], year));
            }
            i = i + 1;
        }
        let ghost adv = self.task_assignments@;
        let ghost done = completed_ids_of(orig_tasks, adv);
        proof {
            assert(assignments_advanced(orig_asn, adv, year));
            assert(adv.subrange(0, na as int) =~= adv);
            assert(Seq::<usize>::empty() + done =~= done);
        }
        // collect the assignments whose work reached their task's duration
        let mut completed_ids: Vec<usize> = Vec::new();
        let mut i2: usize = 0;
        while i2 < na
            invariant
                0 <= i2 <= na,
                na == adv.len(),
                self.task_assignments@ == adv,
                self.current_tasks@ == orig_tasks,
                completed_ids@ + completed_ids_of(orig_tasks, adv.subrange(i2 as int, na as int))
                    == done,
                done == completed_ids_of(orig_tasks, adv),
                *self == (InteractiveGame { task_assignments: self.task_assignments, ..*old(self) }),
            decreases na - i2,
        {
            proof {
                lemma_completed_split(orig_tasks, adv, i2 as int);
            }
            let staffed = self.task_assignments[i2].disciple_ids.len() > 0;
            if staffed {
                let task_id = self.task_assignments[i2].task_id;
                let progress = self.task_assignments[i2].progress;
                match self.find_task_index(task_id) {
                    Some(t) => {
                        if progress >= self.current_tasks[t].duration {
                            completed_ids.push(task_id);
                        }
                    },
                    None => {},
                }
            }
            proof {
                assert(completed_ids@ + completed_ids_of(
                    orig_tasks,
                    adv.subrange(i2 as int + 1, na as int),
                ) =~= done);
            }
            i2 = i2 + 1;
        }
        proof {
            assert(adv.subrange(na as int, na as int) =~= Seq::<TaskAssignment>::empty());
            assert(completed_ids@ =~= done);
        }
        // participants pay their per-turn costs; completed work settles
        let mut results: Vec<TaskResult> = Vec::new();
        let mut i3: usize = 0;
        while i3 < na
            invariant
                0 <= i3 <= na,
                na == adv.len(),
                self.wf(),
                self.state == old(self).state,
                self.task_assignments@ == adv,
                self.current_tasks@ == orig_tasks,
                completed_ids@ == done,
                done == completed_ids_of(orig_tasks, adv),
                self.sect.year == old(self).sect.year,
                self.sect.disciples@.len() == old(self).sect.disciples@.len(),
                self.map == old(self).map,
                self.event_system == old(self).event_system,
                self.recruitment_system == old(self).recruitment_system,
                forall|j: int|
                    0 <= j < results@.len() ==> done.contains((#[trigger] results@[j]).task_id),
            decreases na - i3,
        {
            let staffed = self.task_assignments[i3].disciple_ids.len() > 0;
            if staffed {
                let task_id = self.task_assignments[i3].task_id;
                let participants = clone_ids(&self.task_assignments[i3].disciple_ids);
                match self.find_task_index(task_id) {
                    Some(t) => {
                        let energy_cost = self.current_tasks[t].energy_cost;
                        let constitution_cost = self.current_tasks[t].constitution_cost;
                        let np = participants.len();
                        let mut p: usize = 0;
                        while p < np
                            invariant
                                0 <= p <= np,
                                np == participants@.len(),
                                self.wf(),
                                self.state == old(self).state,
                                self.task_assignments@ == adv,
                                self.current_tasks@ == orig_tasks,
                                self.sect.year == old(self).sect.year,
                                self.sect.disciples@.len() == old(self).sect.disciples@.len(),
                                self.map == old(self).map,
                                self.event_system == old(self).event_system,
                                self.recruitment_system == old(self).recruitment_system,
                            decreases np - p,
                        {
                            match self.find_disciple_index(participants[p]) {
                                Some(di) => {
                                    let ghost pred = self.sect.disciples@;
                                    let mut d = self.sect.disciples.remove(di);
                                    d.consume_energy(energy_cost);
                                    d.consume_constitution(constitution_cost);
                                    self.sect.disciples.insert(di, d);
                                    proof {
                                        assert(self.sect.disciples@ =~= pred.update(
                                            di as int,
                                            self.sect.disciples@[di as int],
                                        ));
                                    }
                                },
                                None => {},
                            }
                            p = p + 1;
                        }
                        if contains_id(&completed_ids, task_id) {
                            let mut q: usize = 0;
                            while q < np
                                invariant
                                    0 <= q <= np,
                                    np == participants@.len(),
                                    self.wf(),
                                    self.state == old(self).state,
                                    self.task_assignments@ == adv,
                                    self.current_tasks@ == orig_tasks,
                                    completed_ids@ == done,
                                    done.contains(task_id),
                                    self.sect.year == old(self).sect.year,
                                    self.sect.disciples@.len() == old(
                                        self,
                                    ).sect.disciples@.len(),
                                    self.map == old(self).map,
                                    self.event_system == old(self).event_system,
                                    self.recruitment_system == old(self).recruitment_system,
                                    forall|j: int|
                                        0 <= j < results@.len() ==> done.contains(
                                            (#[trigger] results@[j]).task_id,
                                        ),
                                decreases np - q,
                            {
                                match self.settle_participant(task_id, participants[q]) {
                                    Some(result) => {
                                        results.push(result);
                                    },
                                    None => {},
                                }
                                q = q + 1;
                            }
                        }
                    },
                    None => {},
                }
            }
            i3 = i3 + 1;
        }
        // settled tasks leave the board; their monsters are released
        let mut released: Vec<usize> = Vec::new();
        let n = self.current_tasks.len();
        let mut j: usize = 0;
        while j < n
            invariant
                0 <= j <= n,
                n == self.current_tasks@.len(),
                self.wf(),
                self.state == old(self).state,
                self.task_assignments@ == adv,
                self.current_tasks@ == orig_tasks,
                completed_ids@ == done,
                self.sect.year == old(self).sect.year,
                self.sect.disciples@.len() == old(self).sect.disciples@.len(),
                forall|k: int|
                    0 <= k < results@.len() ==> done.contains((#[trigger] results@[k]).task_id),
            decreases n - j,
        {
            if contains_id(&completed_ids, self.current_tasks[j].id) {
                if self.current_tasks[j].is_defense {
                    match &self.current_tasks[j].task_type {
                        crate::task::TaskType::Combat(c) => {
                            match c.enemy_id {
                                Some(mid) => {
                                    released.push(mid);
                                },
                                None => {},
                            }
                        },
                        _ => {},
                    }
                }
            }
            j = j + 1;
        }
        let total = self.current_tasks.len();
        let mut kept: Vec<Task> = Vec::new();
        let mut tasks: Vec<Task> = Vec::new();
        core::mem::swap(&mut self.current_tasks, &mut tasks);
        proof {
            assert(orig_tasks.subrange(0, total as int) =~= orig_tasks);
            assert(Seq::<Task>::empty() + tasks_without(orig_tasks, done) =~= tasks_without(
                orig_tasks,
                done,
            ));
        }
        let mut k: usize = 0;
        while k < total
            invariant
                0 <= k <= total,
                total == orig_tasks.len(),
                tasks@ == orig_tasks.subrange(k as int, total as int),
                completed_ids@ == done,
                kept@ + tasks_without(orig_tasks.subrange(k as int, total as int), done)
                    == tasks_without(orig_tasks, done),
                self.wf(),
                self.state == old(self).state,
                self.task_assignments@ == adv,
                self.sect.year == old(self).sect.year,
                self.sect.disciples@.len() == old(self).sect.disciples@.len(),
                forall|kk: int|
                    0 <= kk < results@.len() ==> done.contains((#[trigger] results@[kk]).task_id),
            decreases total - k,
        {
            proof {
                lemma_tasks_without_split(orig_tasks, done, k as int);
            }
            let task = tasks.remove(0);
            proof {
                assert(tasks@ =~= orig_tasks.subrange(k as int + 1, total as int));
            }
            if !contains_id(&completed_ids, task.id) {
                kept.push(task);
            }
            proof {
                assert(kept@ + tasks_without(orig_tasks.subrange(k as int + 1, total as int), done)
                    =~= tasks_without(orig_tasks, done));
            }
            k = k + 1;
        }
        proof {
            assert(orig_tasks.subrange(total as int, total as int) =~= Seq::<Task>::empty());
            assert(kept@ =~= tasks_without(orig_tasks, done));
        }
        self.current_tasks = kept;
        self.drop_assignments_of(&completed_ids);
        let m = completed_ids.len();
        let mut k2: usize = 0;
        while k2 < m
            invariant
                0 <= k2 <= m,
                m == completed_ids@.len(),
                self.wf(),
                self.state == old(self).state,
                self.current_tasks@ == tasks_without(orig_tasks, done),
                self.task_assignments@ == kept_assignments(adv, done),
                self.sect.year == old(self).sect.year,
                self.sect.disciples@.len() == old(self).sect.disciples@.len(),
                forall|kk: int|
                    0 <= kk < results@.len() ==> done.contains((#[trigger] results@[kk]).task_id),
            decreases m - k2,
        {
            self.map.clear_monster_task(completed_ids[k2]);
            k2 = k2 + 1;
        }
        let m2 = released.len();
        let mut k3: usize = 0;
        while k3 < m2
            invariant
                0 <= k3 <= m2,
                m2 == released@.len(),
                self.wf(),
                self.state == old(self).state,
                self.current_tasks@ == tasks_without(orig_tasks, done),
                self.task_assignments@ == kept_assignments(adv, done),
                self.sect.year == old(self).sect.year,
                self.sect.disciples@.len() == old(self).sect.disciples@.len(),
                forall|kk: int|
                    0 <= kk < results@.len() ==> done.contains((#[trigger] results@[kk]).task_id),
            decreases m2 - k3,
        {
            self.map.unlock_monster_for_defense_task(released[k3]);
            k3 = k3 + 1;
        }
        proof {
            assert(assignments_advanced(old(self).task_assignments@, adv, old(self).sect.year));
        }
        results
    }

    /// Settle one participant of one open task with an already-drawn roll
    /// from [0, 1000): success exactly when the roll falls below the task's
    /// success rate for this member. On success the member receives the
    /// effective progression reward, the quota credit and the clamped morale
    /// delta, and the organization is paid the task's resource and
    /// reputation rewards; failure pays nothing and changes nothing.
    pub fn settle_participant_with_roll(
        &mut self,
        task_id: usize,
        disciple_id: usize,
        roll: u64,
    ) -> (r: Option<TaskResult>)
        requires
            old(self).wf(),
            roll < 1000,
        ensures
            final(self).wf(),
            final(self).state == old(self).state,
            settlement_outcome(*old(self), *final(self), task_id, disciple_id, r),
            ({
                let ts = old(self).current_tasks@;
                let ds = old(self).sect.disciples@;
                (find_task(ts, task_id as int) is Some && crate::sect::find_disciple(
                    ds,
                    disciple_id as int,
                ) is Some) ==> (r matches Some(res) && res.success == ((roll as int)
                    < success_rate_spec(
                    ts[task_pos(ts, task_id as int)],
                    ds[crate::sect::disciple_pos(ds, disciple_id as int)],
                )))
            }),
    {
        let task_idx = match self.find_task_index(task_id) {
            Some(t) => t,
            None => {
                return None;
            },
        };
        let disciple_idx = match self.find_disciple_index(disciple_id) {
            Some(d) => d,
            None => {
                return None;
            },
        };
        let rate = self.current_tasks[task_idx].calculate_combat_success_rate(
            &self.sect.disciples[disciple_idx],
        );
        let success = (roll as u32) < rate;
        let resource_reward = self.current_tasks[task_idx].resource_reward;
        let reputation_reward = self.current_tasks[task_idx].reputation_reward;
        let dao_heart_impact = self.current_tasks[task_idx].dao_heart_impact;
        if success {
            let ghost pre = self.sect.disciples@;
            let mut d = self.sect.disciples.remove(disciple_idx);
            let name = clone_string(&d.name);
            let progress_gained = d.complete_task(&self.current_tasks[task_idx]);
            // the morale delta, clamped to the 0..100 band
            let morale: i64 = d.dao_heart as i64 + dao_heart_impact as i64;
            d.dao_heart = if morale < 0 {
                0
            } else if morale > 100 {
                100
            } else {
                morale as u32
            };
            let died = !d.is_alive();
            self.sect.disciples.insert(disciple_idx, d);
            proof {
                assert(self.sect.disciples@ =~= pre.update(
                    disciple_idx as int,
                    self.sect.disciples@[disciple_idx as int],
                ));
            }
            self.sect.add_resources(resource_reward);
            self.sect.add_reputation(reputation_reward);
            Some(
                TaskResult {
                    task_id,
                    disciple_id,
                    disciple_name: name,
                    success: true,
                    resources_gained: resource_reward,
                    reputation_gained: reputation_reward,
                    progress_gained,
                    disciple_died: died,
                },
            )
        } else {
            let name = clone_string(&self.sect.disciples[disciple_idx].name);
            Some(
                TaskResult {
                    task_id,
                    disciple_id,
                    disciple_name: name,
                    success: false,
                    resources_gained: 0,
                    reputation_gained: 0,
                    progress_gained: 0,
                    disciple_died: false,
                },
            )
        }
    }

    /// Settle one participant with a fresh roll. Whatever the roll, the
    /// settlement relation holds: missing task or member settles nothing, a
    /// failed roll changes nothing, and a successful roll pays exactly the
    /// settlement amounts.
    fn settle_participant(&mut self, task_id: usize, disciple_id: usize) -> (r: Option<TaskResult>)
        requires
            old(self).wf(),
        ensures
            final(self).wf(),
            final(self).state == old(self).state,
            settlement_outcome(*old(self), *final(self), task_id, disciple_id, r),
    {
        let roll = rand_below(1000);
        self.settle_participant_with_roll(task_id, disciple_id, roll)
    }

    /// Feed one stored pill to a member: the pill leaves the store, stamina
    /// and vigor recover by the pill's effect (capped at 100), and a
    /// progression pill adds its raw progress. Refused, with nothing
    /// changed, when the member is missing or dead or no such pill is
    /// stocked. Reports stamina and vigor before and after.
    pub fn use_pill(&mut self, disciple_id: usize, pill_type: PillType) -> (r: Result<
        (u32, u32, u32, u32),
        SectError,
    >)
        requires
            old(self).wf(),
        ensures
            final(self).wf(),
            final(self).state == old(self).state,
            r is Err ==> *final(self) == *old(self),
            ({
                let ds = old(self).sect.disciples@;
                let di = crate::sect::disciple_pos(ds, disciple_id as int);
                match crate::sect::find_disciple(ds, disciple_id as int) {
                    None => r == Err::<(u32, u32, u32, u32), SectError>(SectError::MemberMissing),
                    Some(d) => {
                        &&& (!crate::sect::alive_spec(d) ==> r == Err::<
                            (u32, u32, u32, u32),
                            SectError,
                        >(SectError::MemberMissing))
                        &&& (crate::sect::alive_spec(d) && pill_count(
                            old(self).sect.pill_inventory.pills@,
                            pill_type,
                        ) == 0 ==> r == Err::<(u32, u32, u32, u32), SectError>(
                            SectError::PillUnavailable,
                        ))
                        &&& (crate::sect::alive_spec(d) && pill_count(
                            old(self).sect.pill_inventory.pills@,
                            pill_type,
                        ) > 0 ==> {
                            let e = pill_effects_spec(pill_type);
                            let d2 = final(self).sect.disciples@[di];
                            &&& d2.energy == (if e.energy_restore > 0 {
                                if d.energy + e.energy_restore > 100 {
                                    100int
                                } else {
                                    d.energy + e.energy_restore
                                }
                            } else {
                                d.energy as int
                            })
                            &&& d2.constitution == (if e.constitution_restore > 0 {
                                if d.constitution + e.constitution_restore > 100 {
                                    100int
                                } else {
                                    d.constitution + e.constitution_restore
                                }
                            } else {
                                d.constitution as int
                            })
                            &&& d2.cultivation.progress == (if e.cultivation_boost > 0 {
                                if d.cultivation.progress + e.cultivation_boost > 100 {
                                    100int
                                } else {
                                    d.cultivation.progress + e.cultivation_boost
                                }
                            } else {
                                d.cultivation.progress as int
                            })
                            &&& d2.cultivation == (crate::disciple::CultivationProgress {
                                progress: d2.cultivation.progress,
                                ..d.cultivation
                            })
                            &&& d2 == (Disciple {
                                energy: d2.energy,
                                constitution: d2.constitution,
                                cultivation: d2.cultivation,
                                ..d
                            })
                            &&& r == Ok::<(u32, u32, u32, u32), SectError>(
                                (d.energy, d2.energy, d.constitution, d2.constitution),
                            )
                            &&& final(self).sect.disciples@.len() == ds.len()
                            &&& (forall|k: int|
                                0 <= k < ds.len() && k != di ==> final(self).sect.disciples@[k]
                                    == ds[k])
                            &&& pill_count(final(self).sect.pill_inventory.pills@, pill_type)
                                == pill_count(old(self).sect.pill_inventory.pills@, pill_type) - 1
                            &&& (forall|t2: PillType|
                                t2 != pill_type ==> pill_count(
                                    final(self).sect.pill_inventory.pills@,
                                    t2,
                                ) == pill_count(old(self).sect.pill_inventory.pills@, t2))
                            &&& final(self).sect == (Sect {
                                disciples: final(self).sect.disciples,
                                pill_inventory: final(self).sect.pill_inventory,
                                ..old(self).sect
                            })
                            &&& *final(self) == (InteractiveGame {
                                sect: final(self).sect,
                                ..*old(self)
                            })
                        })
                    },
                }
            }),
    {
        let disciple_idx = match self.find_disciple_index(disciple_id) {
            Some(d) => d,
            None => {
                return Err(SectError::MemberMissing);
            },
        };
        if !self.sect.disciples[disciple_idx].is_alive() {
            return Err(SectError::MemberMissing);
        }
        if self.sect.pill_inventory.get_count(pill_type) == 0 {
            return Err(SectError::PillUnavailable);
        }
        proof {
            crate::pill::lemma_pill_count_has(self.sect.pill_inventory.pills@, pill_type);
        }
        let consumed = self.sect.pill_inventory.consume(pill_type);
        if !consumed {
            proof {
                assert(false);
            }
            return Err(SectError::PillUnavailable);
        }
        let effect = pill_type.effects();
        let ghost pre = self.sect.disciples@;
        let mut d = self.sect.disciples.remove(disciple_idx);
        let energy_before = d.energy;
        let constitution_before = d.constitution;
        if effect.energy_restore > 0 {
            d.restore_energy(effect.energy_restore);
        }
        if effect.constitution_restore > 0 {
            d.restore_constitution(effect.constitution_restore);
        }
        if effect.cultivation_boost > 0 {
            d.cultivation.add_progress(effect.cultivation_boost);
        }
        let energy_after = d.energy;
        let constitution_after = d.constitution;
        self.sect.disciples.insert(disciple_idx, d);
        proof {
            assert(self.sect.disciples@ =~= pre.update(
                disciple_idx as int,
                self.sect.disciples@[disciple_idx as int],
            ));
        }
        Ok((energy_before, energy_after, constitution_before, constitution_after))
    }

    /// Craft one pill by its recipe: the herb store must hold enough herbs
    /// of the recipe's quality and the resource pool its cost; the herbs and
    /// cost are paid, and a roll against the recipe's rate decides whether
    /// the batch yields pills. Reports whether the batch succeeded.
    pub fn refine_pill(&mut self, pill_type: PillType) -> (r: Result<bool, SectError>)
        requires
            old(self).wf(),
        ensures
            final(self).wf(),
            final(self).state == old(self).state,
            ({
                let recipe = recipe_of(pill_type);
                let stock = crate::pill::herb_total_quality(
                    old(self).sect.herb_inventory@,
                    recipe.required_herb_quality,
                );
                &&& (stock < recipe.required_herb_count ==> r == Err::<bool, SectError>(
                    SectError::InsufficientHerbs,
                ) && *final(self) == *old(self))
                &&& (stock >= recipe.required_herb_count && old(self).sect.resources
                    < recipe.resource_cost ==> r == Err::<bool, SectError>(
                    SectError::InsufficientResources,
                ) && *final(self) == *old(self))
                &&& (r matches Ok(success) ==> {
                    &&& final(self).sect.resources == old(self).sect.resources
                        - recipe.resource_cost
                    &&& (success ==> pill_count(final(self).sect.pill_inventory.pills@, pill_type)
                        == crate::pill::cap_add(
                        pill_count(old(self).sect.pill_inventory.pills@, pill_type),
                        recipe.output_count as int,
                    ))
                    &&& (!success ==> final(self).sect.pill_inventory == old(
                        self,
                    ).sect.pill_inventory)
                    &&& (forall|t2: PillType|
                        t2 != pill_type ==> pill_count(final(self).sect.pill_inventory.pills@, t2)
                            == pill_count(old(self).sect.pill_inventory.pills@, t2))
                    &&& final(self).sect == (Sect {
                        herb_inventory: final(self).sect.herb_inventory,
                        resources: final(self).sect.resources,
                        pill_inventory: final(self).sect.pill_inventory,
                        ..old(self).sect
                    })
                    &&& *final(self) == (InteractiveGame { sect: final(self).sect, ..*old(self) })
                })
            }),
    {
        let recipe = match PillRecipe::for_pill(pill_type) {
            Some(rec) => rec,
            None => {
                return Err(SectError::NoRecipe);
            },
        };
        // the recipe needs enough herbs of its quality, of any name
        if self.sect.herb_inventory.count_by_quality(recipe.required_herb_quality)
            < recipe.required_herb_count {
            return Err(SectError::InsufficientHerbs);
        }
        if self.sect.resources < recipe.resource_cost {
            return Err(SectError::InsufficientResources);
        }
        // pay the herbs: drain stacks of the right quality until covered
        let mut remaining = recipe.required_herb_count;
        let mut guard: usize = 0;
        while remaining > 0 && guard < 10000
            invariant
                self.wf(),
                self.state == old(self).state,
                self.sect == (Sect {
                    herb_inventory: self.sect.herb_inventory,
                    ..old(self).sect
                }),
                *self == (InteractiveGame { sect: self.sect, ..*old(self) }),
            decreases 10000 - guard,
        {
            let stacks = self.sect.herb_inventory.get_all();
            let mut taken = false;
            let ns = stacks.len();
            let mut s: usize = 0;
            while s < ns
                invariant
                    0 <= s <= ns,
                    ns == stacks@.len(),
                    self.wf(),
                    self.state == old(self).state,
                    self.sect == (Sect {
                        herb_inventory: self.sect.herb_inventory,
                        ..old(self).sect
                    }),
                    *self == (InteractiveGame { sect: self.sect, ..*old(self) }),
                decreases ns - s,
            {
                if !taken && stacks[s].quality == recipe.required_herb_quality
                    && stacks[s].count > 0 {
                    let take = if stacks[s].count < remaining {
                        stacks[s].count
                    } else {
                        remaining
                    };
                    let ok = self.sect.herb_inventory.consume(
                        &stacks[s].name,
                        stacks[s].quality,
                        take,
                    );
                    if ok {
                        remaining = remaining - take;
                        taken = true;
                    }
                }
                s = s + 1;
            }
            if !taken {
                break ;
            }
            guard = guard + 1;
        }
        if remaining > 0 {
            return Err(SectError::InsufficientHerbs);
        }
        let paid = self.sect.consume_resources(recipe.resource_cost);
        if !paid {
            proof {
                assert(false);
            }
            return Err(SectError::InsufficientResources);
        }
        let roll = rand_below(1000);
        let success = (roll as u32) < recipe.success_rate;
        if success {
            self.sect.pill_inventory.add(pill_type, recipe.output_count);
        }
        Ok(success)
    }

    /// Move a member on the map: the Manhattan distance must fit the tier's
    /// movement range and the member's moves left this turn. On success only
    /// the member's position and remaining moves change.
    pub fn move_disciple(&mut self, disciple_id: usize, x: i32, y: i32) -> (r: Result<
        (),
        SectError,
    >)
        requires
            old(self).wf(),
        ensures
            final(self).wf(),
            final(self).state == old(self).state,
            r is Err ==> *final(self) == *old(self),
            ({
                let ds = old(self).sect.disciples@;
                let di = crate::sect::disciple_pos(ds, disciple_id as int);
                match crate::sect::find_disciple(ds, disciple_id as int) {
                    None => r == Err::<(), SectError>(SectError::MemberMissing),
                    Some(d) => {
                        let distance = (if x >= d.position.x {
                            x - d.position.x
                        } else {
                            d.position.x - x
                        }) + (if y >= d.position.y {
                            y - d.position.y
                        } else {
                            d.position.y - y
                        });
                        &&& (distance > d.cultivation.current_level.movement_range_spec() ==> r
                            == Err::<(), SectError>(SectError::OutOfRange))
                        &&& (distance <= d.cultivation.current_level.movement_range_spec()
                            && distance > d.moves_remaining ==> r == Err::<(), SectError>(
                            SectError::NoMovesLeft,
                        ))
                        &&& (distance <= d.cultivation.current_level.movement_range_spec()
                            && distance <= d.moves_remaining ==> {
                            let d2 = final(self).sect.disciples@[di];
                            &&& r is Ok
                            &&& final(self).sect.disciples@.len() == ds.len()
                            &&& d2.position == (crate::map::Position { x, y })
                            &&& d2.moves_remaining == d.moves_remaining - distance
                            &&& d2 == (Disciple {
                                position: d2.position,
                                moves_remaining: d2.moves_remaining,
                                ..d
                            })
                            &&& (forall|k: int|
                                0 <= k < ds.len() && k != di ==> final(self).sect.disciples@[k]
                                    == ds[k])
                            &&& final(self).sect == (Sect {
                                disciples: final(self).sect.disciples,
                                ..old(self).sect
                            })
                            &&& *final(self) == (InteractiveGame {
                                sect: final(self).sect,
                                ..*old(self)
                            })
                        })
                    },
                }
            }),
    {
        let disciple_idx = match self.find_disciple_index(disciple_id) {
            Some(d) => d,
            None => {
                return Err(SectError::MemberMissing);
            },
        };
        let pos = self.sect.disciples[disciple_idx].position;
        let dx: i64 = if x as i64 >= pos.x as i64 {
            x as i64 - pos.x as i64
        } else {
            pos.x as i64 - x as i64
        };
        let dy: i64 = if y as i64 >= pos.y as i64 {
            y as i64 - pos.y as i64
        } else {
            pos.y as i64 - y as i64
        };
        let distance: i64 = dx + dy;
        let max_range = self.sect.disciples[disciple_idx].cultivation.current_level.movement_range();
        if distance > max_range as i64 {
            return Err(SectError::OutOfRange);
        }
        let moves_remaining = self.sect.disciples[disciple_idx].moves_remaining;
        if distance > moves_remaining as i64 {
            return Err(SectError::NoMovesLeft);
        }
        let ghost pre = self.sect.disciples@;
        let mut d = self.sect.disciples.remove(disciple_idx);
        d.moves_remaining = d.moves_remaining - (distance as u32);
        d.move_to(crate::map::Position { x, y });
        self.sect.disciples.insert(disciple_idx, d);
        proof {
            assert(self.sect.disciples@ =~= pre.update(
                disciple_idx as int,
                self.sect.disciples@[disciple_idx as int],
            ));
        }
        Ok(())
    }

    /// Update the win and loss conditions: victory once any member reaches
    /// the terminal tier, defeat when nobody is left alive or a monster has
    /// turned demon, checked in that order. Returns whether the game still
    /// runs.
    pub fn check_game_state(&mut self) -> (running: bool)
        requires
            old(self).wf(),
        ensures
            final(self).wf(),
            running == (final(self).state == GameState::Running),
            final(self).state == ({
                let won = exists|i: int|
                    0 <= i < old(self).sect.disciples@.len()
                        && (#[trigger] old(self).sect.disciples@[i]).cultivation.current_level
                        == CultivationLevel::Ascension;
                let destroyed = crate::sect::alive_list(old(self).sect.disciples@).len() == 0;
                let demon = exists|i: int|
                    0 <= i < old(self).map.elements@.len() && ((
                    #[trigger] old(self).map.elements@[i]).element matches
                        crate::map::MapElement::Monster(m) && m.is_demon);
                if won {
                    GameState::Victory
                } else if destroyed {
                    GameState::Defeat
                } else if demon {
                    GameState::Defeat
                } else {
                    GameState::Running
                }
            }),
            final(self).sect == (Sect {
                is_immortal_sect: final(self).sect.is_immortal_sect,
                ..old(self).sect
            }),
            *final(self) == (InteractiveGame {
                state: final(self).state,
                sect: final(self).sect,
                ..*old(self)
            }),
    {
        if self.sect.check_immortal_sect() {
            self.state = GameState::Victory;
            return false;
        }
        if self.sect.is_destroyed() {
            self.state = GameState::Defeat;
            return false;
        }
        if self.map.has_demon() {
            self.state = GameState::Defeat;
            return false;
        }
        self.state = GameState::Running;
        true
    }
}

/// A member after the turn-opening refresh: aged one year, then -- if still
/// alive -- recovered five stamina and two vigor, with their timed rules
/// aged exactly once.
pub open spec fn refreshed_member(d: Disciple, d2: Disciple) -> bool {
    let a = crate::sect::aged(d);
    if crate::sect::alive_spec(a) {
        &&& d2.energy == (if a.energy + 5 > 100 {
            100int
        } else {
            a.energy + 5
        })
        &&& d2.constitution == (if a.constitution + 2 > 100 {
            100int
        } else {
            a.constitution + 2
        })
        &&& d2.modifiers@ == crate::modifier::ticked(a.modifiers@)
        &&& d2 == (Disciple {
            energy: d2.energy,
            constitution: d2.constitution,
            modifiers: d2.modifiers,
            ..a
        })
    } else {
        d2 == a
    }
}

/// One member's whole turn opening: the yearly refresh, then the promotion
/// check.
pub open spec fn turn_opened(d: Disciple, d2: Disciple) -> bool {
    exists|m: Disciple| #[trigger] refreshed_member(d, m) && breakthrough_checked(m, d2)
}

/// One assignment after its per-turn advancement: staffed assignments gain
/// one turn of work (capped) and a start marker; unstaffed ones rest.
pub open spec fn advanced_rel(a: TaskAssignment, a2: TaskAssignment, year: u32) -> bool {
    &&& a2.task_id == a.task_id
    &&& a2.disciple_ids@ == a.disciple_ids@
    &&& (if a.disciple_ids@.len() > 0 {
        &&& a2.progress == (if a.progress < u32::MAX {
            a.progress + 1
        } else {
            u32::MAX as int
        })
        &&& a2.started_turn == (if a.started_turn is Some {
            a.started_turn
        } else {
            Some(year)
        })
    } else {
        a2.progress == a.progress && a2.started_turn == a.started_turn
    })
}

/// Every assignment advanced one turn, in place.
pub open spec fn assignments_advanced(
    olds: Seq<TaskAssignment>,
    news: Seq<TaskAssignment>,
    year: u32,
) -> bool {
    news.len() == olds.len() && (forall|k: int|
        0 <= k < olds.len() ==> advanced_rel(olds[k], #[trigger] news[k], year))
}

/// Whether an advanced assignment has reached its task's duration.
pub open spec fn completes(ts: Seq<Task>, a: TaskAssignment) -> bool {
    a.disciple_ids@.len() > 0 && (find_task(ts, a.task_id as int) matches Some(t) && a.progress
        >= t.duration)
}

/// The ids of the assignments that settle this turn, in order.
pub open spec fn completed_ids_of(ts: Seq<Task>, asn: Seq<TaskAssignment>) -> Seq<usize>
    decreases asn.len(),
{
    if asn.len() == 0 {
        Seq::empty()
    } else if completes(ts, asn[0]) {
        seq![asn[0].task_id] + completed_ids_of(ts, asn.drop_first())
    } else {
        completed_ids_of(ts, asn.drop_first())
    }
}

/// The open tasks whose id is not listed, in order.
pub open spec fn tasks_without(ts: Seq<Task>, ids: Seq<usize>) -> Seq<Task>
    decreases ts.len(),
{
    if ts.len() == 0 {
        Seq::empty()
    } else if ids.contains(ts[0].id) {
        tasks_without(ts.drop_first(), ids)
    } else {
        seq![ts[0]] + tasks_without(ts.drop_first(), ids)
    }
}

/// A morale value clamped into its 0 to 100 band.
pub open spec fn clamp_morale(v: int) -> int {
    if v < 0 {
        0
    } else if v > 100 {
        100
    } else {
        v
    }
}

/// A member after a successful settlement: the effective progression reward
/// added (with the sub-tier promotion check), the quota credited for the
/// task's category, and the morale delta applied, clamped.
pub open spec fn settled_member(member: Disciple, task: Task, d2: Disciple) -> bool {
    let amount = task_reward_spec(member, task);
    let raised: int = if member.cultivation.progress + amount > 100 {
        100int
    } else {
        member.cultivation.progress + amount
    };
    &&& (if raised >= 100 && member.cultivation.sub_level.next_spec() is Some {
        Some(d2.cultivation.sub_level) == member.cultivation.sub_level.next_spec()
            && d2.cultivation.progress == 0
    } else {
        d2.cultivation.sub_level == member.cultivation.sub_level && d2.cultivation.progress
            == raised
    })
    &&& d2.cultivation.current_level == member.cultivation.current_level
    &&& (match member.cultivation.cultivation_path {
        Some(p) => d2.cultivation.cultivation_path matches Some(q) && q.entries@ == quota_credit(
            p.entries@,
            task.task_type.category_spec(),
        ),
        None => d2.cultivation.cultivation_path is None,
    })
    &&& d2.dao_heart == clamp_morale(member.dao_heart + task.dao_heart_impact)
    &&& d2 == (Disciple { cultivation: d2.cultivation, dao_heart: d2.dao_heart, ..member })
}

/// What settling one participant of one task does, as a relation between the
/// game before and after: nothing when task or member is missing; otherwise
/// a report is produced, and on success the member is settled and the
/// organization credited, while failure changes nothing.
pub open spec fn settlement_outcome(
    pre: InteractiveGame,
    post: InteractiveGame,
    task_id: usize,
    disciple_id: usize,
    r: Option<TaskResult>,
) -> bool {
    let ts = pre.current_tasks@;
    let ds = pre.sect.disciples@;
    if find_task(ts, task_id as int) is None || crate::sect::find_disciple(
        ds,
        disciple_id as int,
    ) is None {
        r is None && post == pre
    } else {
        let task = ts[task_pos(ts, task_id as int)];
        let di = crate::sect::disciple_pos(ds, disciple_id as int);
        let member = ds[di];
        r matches Some(res) && {
            &&& res.task_id == task_id
            &&& res.disciple_id == disciple_id
            &&& res.disciple_name == member.name
            &&& (!res.success ==> res.resources_gained == 0 && res.reputation_gained == 0
                && res.progress_gained == 0 && !res.disciple_died && post == pre)
            &&& (res.success ==> {
                let d2 = post.sect.disciples@[di];
                &&& res.progress_gained == task_reward_spec(member, task)
                &&& res.resources_gained == task.resource_reward
                &&& res.reputation_gained == task.reputation_reward
                &&& res.disciple_died == !crate::sect::alive_spec(d2)
                &&& post.sect.disciples@.len() == ds.len()
                &&& settled_member(member, task, d2)
                &&& (forall|k: int|
                    0 <= k < ds.len() && k != di ==> post.sect.disciples@[k] == ds[k])
                &&& post.sect.resources == crate::sect::cap_add_u32(
                    pre.sect.resources as int,
                    task.resource_reward as int,
                )
                &&& post.sect.reputation == crate::sect::cap_add_i32(
                    pre.sect.reputation as int,
                    task.reputation_reward as int,
                )
                &&& post.sect == (Sect {
                    disciples: post.sect.disciples,
                    resources: post.sect.resources,
                    reputation: post.sect.reputation,
                    ..pre.sect
                })
                &&& post == (InteractiveGame { sect: post.sect, ..pre })
            })
        }
    }
}

/// The quota a member entering a tier is issued: twelve tasks spread over
/// the categories, battle-heavy at the top, zero-count categories omitted.
pub open spec fn issued_path_entries(level: CultivationLevel) -> Seq<QuotaEntry> {
    match level {
        CultivationLevel::QiRefining => seq![
            QuotaEntry { category: TaskCategory::Combat, required: 2u32, completed: 0u32 },
            QuotaEntry { category: TaskCategory::Exploration, required: 3u32, completed: 0u32 },
            QuotaEntry { category: TaskCategory::Gathering, required: 4u32, completed: 0u32 },
            QuotaEntry { category: TaskCategory::Auxiliary, required: 3u32, completed: 0u32 },
        ],
        CultivationLevel::Foundation => seq![
            QuotaEntry { category: TaskCategory::Combat, required: 4u32, completed: 0u32 },
            QuotaEntry { category: TaskCategory::Exploration, required: 3u32, completed: 0u32 },
            QuotaEntry { category: TaskCategory::Gathering, required: 2u32, completed: 0u32 },
            QuotaEntry { category: TaskCategory::Auxiliary, required: 3u32, completed: 0u32 },
        ],
        CultivationLevel::GoldenCore => seq![
            QuotaEntry { category: TaskCategory::Combat, required: 5u32, completed: 0u32 },
            QuotaEntry { category: TaskCategory::Exploration, required: 4u32, completed: 0u32 },
            QuotaEntry { category: TaskCategory::Gathering, required: 1u32, completed: 0u32 },
            QuotaEntry { category: TaskCategory::Auxiliary, required: 2u32, completed: 0u32 },
        ],
        CultivationLevel::NascentSoul => seq![
            QuotaEntry { category: TaskCategory::Combat, required: 6u32, completed: 0u32 },
            QuotaEntry { category: TaskCategory::Exploration, required: 4u32, completed: 0u32 },
            QuotaEntry { category: TaskCategory::Auxiliary, required: 2u32, completed: 0u32 },
        ],
        CultivationLevel::SpiritSevering => seq![
            QuotaEntry { category: TaskCategory::Combat, required: 7u32, completed: 0u32 },
            QuotaEntry { category: TaskCategory::Exploration, required: 4u32, completed: 0u32 },
            QuotaEntry { category: TaskCategory::Auxiliary, required: 1u32, completed: 0u32 },
        ],
        CultivationLevel::VoidRefinement => seq![
            QuotaEntry { category: TaskCategory::Combat, required: 8u32, completed: 0u32 },
            QuotaEntry { category: TaskCategory::Exploration, required: 3u32, completed: 0u32 },
            QuotaEntry { category: TaskCategory::Auxiliary, required: 1u32, completed: 0u32 },
        ],
        CultivationLevel::Ascension => seq![
            QuotaEntry { category: TaskCategory::Combat, required: 10u32, completed: 0u32 },
            QuotaEntry { category: TaskCategory::Exploration, required: 2u32, completed: 0u32 },
        ],
    }
}

/// Whether a member is owed a fresh quota path: none, or one without
/// requirements.
pub open spec fn needs_quota(d: Disciple) -> bool {
    match d.cultivation.cultivation_path {
        Some(p) => p.entries@.len() == 0,
        None => true,
    }
}

/// The path-issuing step of the promotion check: a member owed a path holds
/// the issued tier quota afterwards, anyone else is untouched.
pub open spec fn path_issued(d: Disciple, d2: Disciple) -> bool {
    if needs_quota(d) {
        &&& d2.cultivation.cultivation_path matches Some(p) && p.entries@ == issued_path_entries(
            d.cultivation.current_level,
        )
        &&& d2.cultivation == (CultivationProgress {
            cultivation_path: d2.cultivation.cultivation_path,
            ..d.cultivation
        })
        &&& d2 == (Disciple { cultivation: d2.cultivation, ..d })
    } else {
        d2 == d
    }
}

/// The direct lowest-tier promotion step: an alive, qualifying lowest-tier
/// member advances per the riskless breakthrough, anyone else is untouched.
pub open spec fn direct_promotion_applied(d: Disciple, d2: Disciple) -> bool {
    if crate::sect::alive_spec(d) && d.cultivation.current_level == CultivationLevel::QiRefining
        && d.cultivation.can_tribulate_spec() {
        &&& d2.cultivation.current_level == CultivationLevel::Foundation
        &&& d2.cultivation.sub_level == SubLevel::Early
        &&& d2.cultivation.progress == 0
        &&& (d2.cultivation.cultivation_path matches Some(p) && p.entries@.len() == 0)
        &&& d2.lifespan == 300
        &&& d2 == (Disciple { cultivation: d2.cultivation, lifespan: 300u32, ..d })
    } else {
        d2 == d
    }
}

/// One member's whole promotion check: a quota issued where owed, then the
/// direct promotion where it applies.
pub open spec fn breakthrough_checked(d: Disciple, d2: Disciple) -> bool {
    exists|m: Disciple| #[trigger] path_issued(d, m) && direct_promotion_applied(m, d2)
}

/// The fresh tier-appropriate quota path: combat, exploration, gathering and
/// support counts from the tier table, zero-count categories omitted.
pub fn fresh_quota_path(level: CultivationLevel) -> (r: CultivationPath)
    ensures
        r.wf(),
        r.entries@ == issued_path_entries(level),
{
    let (combat, exploration, gathering, auxiliary): (u32, u32, u32, u32) = match level {
        CultivationLevel::QiRefining => (2, 3, 4, 3),
        CultivationLevel::Foundation => (4, 3, 2, 3),
        CultivationLevel::GoldenCore => (5, 4, 1, 2),
        CultivationLevel::NascentSoul => (6, 4, 0, 2),
        CultivationLevel::SpiritSevering => (7, 4, 0, 1),
        CultivationLevel::VoidRefinement => (8, 3, 0, 1),
        CultivationLevel::Ascension => (10, 2, 0, 0),
    };
    let mut requirements: Vec<(TaskCategory, u32)> = Vec::new();
    if combat > 0 {
        requirements.push((TaskCategory::Combat, combat));
    }
    if exploration > 0 {
        requirements.push((TaskCategory::Exploration, exploration));
    }
    if gathering > 0 {
        requirements.push((TaskCategory::Gathering, gathering));
    }
    if auxiliary > 0 {
        requirements.push((TaskCategory::Auxiliary, auxiliary));
    }
    proof {
        assert(forall|i: int, j: int|
            0 <= i < j < requirements@.len() ==> requirements@[i].0 != requirements@[j].0);
    }
    let path = CultivationPath::with_requirements(requirements);
    proof {
        assert(path.entries@ =~= issued_path_entries(level));
    }
    path
}

/// Whether a list holds the id.
fn contains_id(ids: &Vec<usize>, id: usize) -> (r: bool)
    ensures
        r == ids@.contains(id),
{
    let n = ids.len();
    let mut i: usize = 0;
    while i < n
        invariant
            0 <= i <= n,
            n == ids@.len(),
            forall|k: int| 0 <= k < i ==> ids@[k] != id,
        decreases n - i,
    {
        if ids[i] == id {
            proof {
                assert(ids@[i as int] == id);
            }
            return true;
        }
        i = i + 1;
    }
    proof {
        if ids@.contains(id) {
            let w = choose|k: int| 0 <= k < ids@.len() && ids@[k] == id;
            assert(false);
        }
    }
    false
}

/// A copy of an id list.
fn clone_ids(ids: &Vec<usize>) -> (r: Vec<usize>)
    ensures
        r@ == ids@,
{
    let n = ids.len();
    let mut out: Vec<usize> = Vec::new();
    let mut i: usize = 0;
    while i < n
        invariant
            0 <= i <= n,
            n == ids@.len(),
            out@.len() == i,
            forall|k: int| 0 <= k < i ==> out@[k] == ids@[k],
        decreases n - i,
    {
        out.push(ids[i]);
        i = i + 1;
    }
    proof {
        assert(out@ =~= ids@);
    }
    out
}

/// A copy of a string with the same characters.
fn clone_string(s: &String) -> (r: String)
    ensures
        r == *s,
{
    s.clone()
}

proof fn lemma_task_split(ts: Seq<Task>, id: int, i: int)
    requires
        0 <= i < ts.len(),
    ensures
        find_task(ts.subrange(i, ts.len() as int), id) == (if ts[i].id == id {
            Some(ts[i])
        } else {
            find_task(ts.subrange(i + 1, ts.len() as int), id)
        }),
        task_pos(ts.subrange(i, ts.len() as int), id) == (if ts[i].id == id {
            0int
        } else {
            1 + task_pos(ts.subrange(i + 1, ts.len() as int), id)
        }),
{
    assert(ts.subrange(i, ts.len() as int).drop_first() =~= ts.subrange(i + 1, ts.len() as int));
}

proof fn lemma_assignment_split(asn: Seq<TaskAssignment>, id: int, i: int)
    requires
        0 <= i < asn.len(),
    ensures
        find_assignment(asn.subrange(i, asn.len() as int), id) == (if asn[i].task_id == id {
            Some(asn[i])
        } else {
            find_assignment(asn.subrange(i + 1, asn.len() as int), id)
        }),
        asn_pos(asn.subrange(i, asn.len() as int), id) == (if asn[i].task_id == id {
            0int
        } else {
            1 + asn_pos(asn.subrange(i + 1, asn.len() as int), id)
        }),
{
    assert(asn.subrange(i, asn.len() as int).drop_first() =~= asn.subrange(i + 1, asn.len() as int));
}

proof fn lemma_expiry_split(ts: Seq<Task>, year: int, i: int)
    requires
        0 <= i < ts.len(),
    ensures
        live_tasks(ts.subrange(i, ts.len() as int), year) == (if expired_spec(ts[i], year) {
            live_tasks(ts.subrange(i + 1, ts.len() as int), year)
        } else {
            seq![ts[i]] + live_tasks(ts.subrange(i + 1, ts.len() as int), year)
        }),
        expired_ids(ts.subrange(i, ts.len() as int), year) == (if expired_spec(ts[i], year) {
            seq![ts[i].id] + expired_ids(ts.subrange(i + 1, ts.len() as int), year)
        } else {
            expired_ids(ts.subrange(i + 1, ts.len() as int), year)
        }),
{
    assert(ts.subrange(i, ts.len() as int).drop_first() =~= ts.subrange(i + 1, ts.len() as int));
}

proof fn lemma_live_le(ts: Seq<Task>, year: int)
    ensures
        live_tasks(ts, year).len() <= ts.len(),
    decreases ts.len(),
{
    if ts.len() > 0 {
        lemma_live_le(ts.drop_first(), year);
    }
}

proof fn lemma_kept_split(asn: Seq<TaskAssignment>, ids: Seq<usize>, i: int)
    requires
        0 <= i < asn.len(),
    ensures
        kept_assignments(asn.subrange(i, asn.len() as int), ids) == (if ids.contains(
            asn[i].task_id,
        ) {
            kept_assignments(asn.subrange(i + 1, asn.len() as int), ids)
        } else {
            seq![asn[i]] + kept_assignments(asn.subrange(i + 1, asn.len() as int), ids)
        }),
{
    assert(asn.subrange(i, asn.len() as int).drop_first() =~= asn.subrange(i + 1, asn.len() as int));
}

proof fn lemma_kept_le(asn: Seq<TaskAssignment>, ids: Seq<usize>)
    ensures
        kept_assignments(asn, ids).len() <= asn.len(),
    decreases asn.len(),
{
    if asn.len() > 0 {
        lemma_kept_le(asn.drop_first(), ids);
    }
}

proof fn lemma_completed_split(ts: Seq<Task>, asn: Seq<TaskAssignment>, i: int)
    requires
        0 <= i < asn.len(),
    ensures
        completed_ids_of(ts, asn.subrange(i, asn.len() as int)) == (if completes(ts, asn[i]) {
            seq![asn[i].task_id] + completed_ids_of(ts, asn.subrange(i + 1, asn.len() as int))
        } else {
            completed_ids_of(ts, asn.subrange(i + 1, asn.len() as int))
        }),
{
    assert(asn.subrange(i, asn.len() as int).drop_first() =~= asn.subrange(i + 1, asn.len() as int));
}

proof fn lemma_tasks_without_split(ts: Seq<Task>, ids: Seq<usize>, i: int)
    requires
        0 <= i < ts.len(),
    ensures
        tasks_without(ts.subrange(i, ts.len() as int), ids) == (if ids.contains(ts[i].id) {
            tasks_without(ts.subrange(i + 1, ts.len() as int), ids)
        } else {
            seq![ts[i]] + tasks_without(ts.subrange(i + 1, ts.len() as int), ids)
        }),
{
    assert(ts.subrange(i, ts.len() as int).drop_first() =~= ts.subrange(i + 1, ts.len() as int));
}

proof fn lemma_without_member_split(ids: Seq<usize>, id: usize, i: int)
    requires
        0 <= i < ids.len(),
    ensures
        without_member(ids.subrange(i, ids.len() as int), id) == (if ids[i] == id {
            without_member(ids.subrange(i + 1, ids.len() as int), id)
        } else {
            seq![ids[i]] + without_member(ids.subrange(i + 1, ids.len() as int), id)
        }),
{
    assert(ids.subrange(i, ids.len() as int).drop_first() =~= ids.subrange(
        i + 1,
        ids.len() as int,
    ));
}

} // verus!
