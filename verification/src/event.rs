//! Game events, their settlement against the organization, and the
//! recruitment of new members.

use vstd::prelude::*;
use crate::disciple::{Disciple, DiscipleType, Talent, TalentType};
use crate::external::rand_below;
use crate::relationship::{RelationDimension, RelationLevel};
use crate::sect::{Sect, cap_add_u32, cap_add_i32, find_disciple, heritage_of};
use crate::task::Task;

verus! {

/// The outcome of one settlement attempt for one member.
#[derive(Debug, Clone)]
pub struct TaskResult {
    pub task_id: usize,
    pub disciple_id: usize,
    pub disciple_name: String,
    pub success: bool,
    pub resources_gained: u32,
    pub reputation_gained: i32,
    pub progress_gained: u32,
    /// Whether the member fell during the task.
    pub disciple_died: bool,
}

/// Something that happened during a turn.
#[derive(Debug, Clone)]
pub enum GameEvent {
    TaskAvailable(Vec<Task>),
    TaskCompleted(TaskResult),
    DiscipleRecruited(usize),
    DiscipleBreakthrough(usize),
    DiscipleTribulation(usize, bool),
    DiscipleDeath(usize),
    YearlyIncome(u32),
    MapUpdate,
    ChildBorn(usize, usize),
    ChildComeOfAge(usize),
    RelationshipLevelUp {
        disciple_id: usize,
        target_id: usize,
        dimension: RelationDimension,
        new_level: RelationLevel,
    },
    BecameDaoCompanion(usize, usize),
    BecameMasterDisciple(usize, usize),
}

/// The resource pool after one event settles.
pub open spec fn event_resources(r: int, e: GameEvent) -> int {
    match e {
        GameEvent::TaskCompleted(result) => if result.success {
            cap_add_u32(r, result.resources_gained as int)
        } else {
            r
        },
        GameEvent::YearlyIncome(amount) => cap_add_u32(r, amount as int),
        _ => r,
    }
}

/// The reputation after one event settles.
pub open spec fn event_reputation(p: int, e: GameEvent) -> int {
    match e {
        GameEvent::TaskCompleted(result) => if result.success {
            cap_add_i32(p, result.reputation_gained as int)
        } else {
            p
        },
        _ => p,
    }
}

/// The stored legacies after one event settles against a fixed roster.
pub open spec fn event_heritages(hs: Seq<crate::disciple::Heritage>, ds: Seq<Disciple>, e: GameEvent) -> Seq<
    crate::disciple::Heritage,
> {
    match e {
        GameEvent::DiscipleDeath(id) => match find_disciple(ds, id as int) {
            Some(d) => if d.cultivation.current_level.to_numeric_spec() >= 3 {
                hs.push(heritage_of(d))
            } else {
                hs
            },
            None => hs,
        },
        _ => hs,
    }
}

/// The resource pool after a whole event list settles, in order.
pub open spec fn fold_resources(r: int, es: Seq<GameEvent>) -> int
    decreases es.len(),
{
    if es.len() == 0 {
        r
    } else {
        fold_resources(event_resources(r, es[0]), es.drop_first())
    }
}

/// The reputation after a whole event list settles, in order.
pub open spec fn fold_reputation(p: int, es: Seq<GameEvent>) -> int
    decreases es.len(),
{
    if es.len() == 0 {
        p
    } else {
        fold_reputation(event_reputation(p, es[0]), es.drop_first())
    }
}

/// The stored legacies after a whole event list settles, in order.
pub open spec fn fold_heritages(
    hs: Seq<crate::disciple::Heritage>,
    ds: Seq<Disciple>,
    es: Seq<GameEvent>,
) -> Seq<crate::disciple::Heritage>
    decreases es.len(),
{
    if es.len() == 0 {
        hs
    } else {
        fold_heritages(event_heritages(hs, ds, es[0]), ds, es.drop_first())
    }
}

/// The queue of pending events.
#[derive(Debug)]
pub struct EventSystem {
    pub events: Vec<GameEvent>,
}

impl EventSystem {
    pub fn new() -> (r: EventSystem)
        ensures
            r.events@ =~= Seq::<GameEvent>::empty(),
    {
        EventSystem { events: Vec::new() }
    }

    /// Queue an event.
    pub fn add_event(&mut self, event: GameEvent)
        ensures
            final(self).events@ == old(self).events@.push(event),
    {
        self.events.push(event);
    }

    /// Settle every queued event against the organization, in queue order:
    /// successful task completions pay their resource and reputation
    /// rewards, yearly income pays resources, and a death banks the fallen
    /// member's legacy. The queue is left empty; the roster itself is not
    /// touched.
    pub fn process_events(&mut self, sect: &mut Sect)
        ensures
            final(self).events@ =~= Seq::<GameEvent>::empty(),
            final(sect).resources == fold_resources(
                old(sect).resources as int,
                old(self).events@,
            ),
            final(sect).reputation == fold_reputation(
                old(sect).reputation as int,
                old(self).events@,
            ),
            final(sect).heritages@ == fold_heritages(
                old(sect).heritages@,
                old(sect).disciples@,
                old(self).events@,
            ),
            *final(sect) == (Sect {
                resources: final(sect).resources,
                reputation: final(sect).reputation,
                heritages: final(sect).heritages,
                ..*old(sect)
            }),
    {
        let ghost es = self.events@;
        let mut queue: Vec<GameEvent> = Vec::new();
        core::mem::swap(&mut self.events, &mut queue);
        let n = queue.len();
        proof {
            assert(es.subrange(0, n as int) =~= es);
        }
        let mut i: usize = 0;
        while i < n
            invariant
                0 <= i <= n,
                n == es.len(),
                queue@ == es,
                self.events@.len() == 0,
                sect.disciples@ == old(sect).disciples@,
                fold_resources(old(sect).resources as int, es) == fold_resources(
                    sect.resources as int,
                    es.subrange(i as int, n as int),
                ),
                fold_reputation(old(sect).reputation as int, es) == fold_reputation(
                    sect.reputation as int,
                    es.subrange(i as int, n as int),
                ),
                fold_heritages(old(sect).heritages@, old(sect).disciples@, es) == fold_heritages(
                    sect.heritages@,
                    old(sect).disciples@,
                    es.subrange(i as int, n as int),
                ),
                *sect == (Sect {
                    resources: sect.resources,
                    reputation: sect.reputation,
                    heritages: sect.heritages,
                    ..*old(sect)
                }),
            decreases n - i,
        {
            proof {
                assert(es.subrange(i as int, n as int).drop_first() =~= es.subrange(
                    i as int + 1,
                    n as int,
                ));
            }
            match &queue[i] {
                GameEvent::TaskCompleted(result) => {
                    if result.success {
                        let gained = result.resources_gained;
                        let rep = result.reputation_gained;
                        sect.add_resources(gained);
                        sect.add_reputation(rep);
                    }
                },
                GameEvent::YearlyIncome(amount) => {
                    let a = *amount;
                    sect.add_resources(a);
                },
                GameEvent::DiscipleDeath(id) => {
                    let d = *id;
                    sect.handle_disciple_death(d);
                },
                _ => {},
            }
            i = i + 1;
        }
        proof {
            assert(es.subrange(n as int, n as int) =~= Seq::<GameEvent>::empty());
        }
    }
}

/// The recruiter: hands out fresh member ids and rolls for new arrivals.
#[derive(Debug)]
pub struct RecruitmentSystem {
    pub next_disciple_id: usize,
}

impl RecruitmentSystem {
    pub fn new() -> (r: RecruitmentSystem)
        ensures
            r.next_disciple_id == 0,
    {
        RecruitmentSystem { next_disciple_id: 0 }
    }

    /// A randomly rolled new member: a fresh id, a name from the pool, one
    /// to three talents of levels one to seven, and a random standing.
    /// Everything else starts as a fresh lowest-tier member.
    pub fn generate_random_disciple(&mut self) -> (d: Disciple)
        requires
            old(self).next_disciple_id < usize::MAX,
        ensures
            final(self).next_disciple_id == old(self).next_disciple_id + 1,
            d.wf(),
            d.id == old(self).next_disciple_id,
            d.cultivation.current_level == crate::cultivation::CultivationLevel::QiRefining,
            d.cultivation.sub_level == crate::cultivation::SubLevel::Early,
            d.cultivation.progress == 0,
            d.age == 16,
            d.lifespan == 150,
            d.dao_heart == 50,
            d.energy == 100,
            d.constitution == 100,
            1 <= d.talents@.len() <= 3,
            forall|i: int| 0 <= i < d.talents@.len() ==> 1 <= (#[trigger] d.talents@[i]).level <= 7,
            d.modifiers@.len() == 0,
            d.relationships@.len() == 0,
    {
        let names: [&str; 14] = [
            "Zhang San",
            "Li Si",
            "Wang Wu",
            "Zhao Liu",
            "Chen Qi",
            "Lin Ba",
            "Zhou Jiu",
            "Wu Shi",
            "Yun Feiyang",
            "Jian Wuxin",
            "Mo Wentian",
            "Feng Qingyang",
            "Ye Gucheng",
            "Dugu Qiubai",
        ];
        let pick = rand_below(14) as usize;
        let name = lit_str(names[pick]);
        let num_talents = 1 + (rand_below(3) as usize);
        let all_talents: [TalentType; 9] = [
            TalentType::Fire,
            TalentType::Water,
            TalentType::Wood,
            TalentType::Metal,
            TalentType::Earth,
            TalentType::Sword,
            TalentType::Alchemy,
            TalentType::Formation,
            TalentType::Medical,
        ];
        let mut talents: Vec<Talent> = Vec::new();
        let mut t: usize = 0;
        while t < num_talents
            invariant
                0 <= t <= num_talents,
                num_talents <= 3,
                talents@.len() == t,
                forall|i: int|
                    0 <= i < talents@.len() ==> 1 <= (#[trigger] talents@[i]).level <= 7,
            decreases num_talents - t,
        {
            let talent_type = all_talents[rand_below(9) as usize];
            let level = 1 + (rand_below(7) as u32);
            talents.push(Talent { talent_type, level });
            t = t + 1;
        }
        let type_roll = rand_below(10);
        let disciple_type = if type_roll <= 5 {
            DiscipleType::Outer
        } else if type_roll <= 8 {
            DiscipleType::Inner
        } else {
            DiscipleType::Personal
        };
        let id = self.next_disciple_id;
        self.next_disciple_id = id + 1;
        Disciple::new(id, name, disciple_type, talents)
    }

    /// Roll for a new arrival: the chance rises with reputation. Whatever
    /// the roll, a produced member is fresh and valid and takes the next id;
    /// with no arrival nothing changes.
    pub fn try_recruit(&mut self, sect: &Sect) -> (r: Option<Disciple>)
        requires
            old(self).next_disciple_id < usize::MAX,
        ensures
            match r {
                Some(d) => final(self).next_disciple_id == old(self).next_disciple_id + 1 && d.wf()
                    && d.id == old(self).next_disciple_id && d.cultivation.current_level
                    == crate::cultivation::CultivationLevel::QiRefining
                    && d.cultivation.sub_level == crate::cultivation::SubLevel::Early,
                None => *final(self) == *old(self),
            },
    {
        let chance = if sect.reputation > 100 {
            150u64
        } else if sect.reputation > 50 {
            100u64
        } else if sect.reputation > 0 {
            50u64
        } else {
            20u64
        };
        let roll = rand_below(1000);
        if roll < chance {
            Some(self.generate_random_disciple())
        } else {
            None
        }
    }
}

/// A String holding the same characters as the given literal.
fn lit_str(s: &str) -> (r: String)
    ensures
        r@ == s@,
{
    <String as vstd::string::StringExecFns>::from_str(s)
}

} // verus!
