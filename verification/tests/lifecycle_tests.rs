//! The turn lifecycle through the engine: binding and unbinding members,
//! advancing and settling work with a chosen roll, expiry, and explicit
//! promotion attempts.

use sect_sim::config::ConfigManager;
use sect_sim::cultivation::{CultivationLevel, CultivationPath, SubLevel};
use sect_sim::interactive::{InteractiveGame, TaskAssignment};
use sect_sim::sect::SectError;
use sect_sim::task::{CombatTask, GatheringTask, Task, TaskType};

fn game() -> InteractiveGame {
    InteractiveGame::new("Azure Peak".to_string(), ConfigManager::create_default())
}

/// Open a gathering task on the board with an empty assignment record.
fn open_task(g: &mut InteractiveGame, id: usize) {
    let task = Task::new(
        id,
        "Gather".to_string(),
        TaskType::Gathering(GatheringTask { resource_type: "Herb".to_string(), difficulty: 1 }),
        5,
        10,
    );
    g.current_tasks.push(task);
    g.task_assignments.push(TaskAssignment {
        task_id: id,
        disciple_ids: Vec::new(),
        started_turn: None,
        progress: 0,
    });
}

#[test]
fn members_bind_and_unbind_through_the_rules() {
    let mut g = game();
    open_task(&mut g, 7);
    let member = g.sect.disciples[0].id;
    // an unknown task or member is reported, nothing bound
    assert!(g.assign_disciple_to_task(999, member).is_none());
    assert!(g.assign_disciple_to_task(7, 999).is_none());
    // a healthy idle member binds
    let verdict = g.assign_disciple_to_task(7, member).unwrap();
    assert!(verdict.eligible);
    assert_eq!(g.task_assignments[0].disciple_ids, vec![member]);
    assert!(g.task_assignments[0].started_turn.is_some());
    // binding again is refused as already assigned, changing nothing
    let verdict = g.assign_disciple_to_task(7, member).unwrap();
    assert!(!verdict.eligible);
    assert_eq!(g.task_assignments[0].disciple_ids, vec![member]);
    // a second task refuses the now-busy member
    open_task(&mut g, 8);
    let verdict = g.assign_disciple_to_task(8, member).unwrap();
    assert!(!verdict.eligible);
    // unbinding reports truthfully and empties the record
    assert!(g.unassign_disciple_from_task(7, member));
    assert!(g.task_assignments[0].disciple_ids.is_empty());
    assert!(!g.unassign_disciple_from_task(7, member));
}

#[test]
fn settlement_roll_decides_the_outcome() {
    let mut g = game();
    open_task(&mut g, 7);
    // a member without talents, so the reward arithmetic is fixed
    let member = 100;
    g.sect.recruit_disciple(sect_sim::disciple::Disciple::new(
        member,
        "Su He".to_string(),
        sect_sim::disciple::DiscipleType::Outer,
        Vec::new(),
    ));
    let member_idx = g.sect.disciples.len() - 1;
    // a roll at the top of the range fails a 0.8-rate task: nothing is paid
    let resources_before = g.sect.resources;
    let failed = g.settle_participant_with_roll(7, member, 999).unwrap();
    assert!(!failed.success);
    assert_eq!(failed.progress_gained, 0);
    assert_eq!(g.sect.resources, resources_before);
    // a roll of zero succeeds: the member gains progress, the pool is paid
    let settled = g.settle_participant_with_roll(7, member, 0).unwrap();
    assert!(settled.success);
    assert_eq!(settled.progress_gained, 2);
    assert_eq!(settled.resources_gained, 10);
    assert_eq!(g.sect.resources, resources_before + 10);
    assert_eq!(g.sect.disciples[member_idx].cultivation.progress, 2);
    // a missing task settles nothing
    assert!(g.settle_participant_with_roll(999, member, 0).is_none());
}

#[test]
fn execute_turn_advances_and_settles_at_duration() {
    let mut g = game();
    open_task(&mut g, 7);
    let member = g.sect.disciples[0].id;
    assert!(g.assign_disciple_to_task(7, member).unwrap().eligible);
    // gathering takes one turn, so one execution settles it
    let energy_before = g.sect.disciples[0].energy;
    let results = g.execute_turn();
    assert_eq!(results.len(), 1);
    assert_eq!(results[0].task_id, 7);
    assert_eq!(results[0].disciple_id, member);
    // the settled task and its assignment left the board
    assert!(g.current_tasks.is_empty());
    assert!(g.task_assignments.is_empty());
    // the participant paid the per-turn stamina cost
    assert_eq!(g.sect.disciples[0].energy, energy_before - 5);
}

#[test]
fn unstaffed_assignments_rest() {
    let mut g = game();
    open_task(&mut g, 7);
    let results = g.execute_turn();
    assert!(results.is_empty());
    assert_eq!(g.current_tasks.len(), 1);
    assert_eq!(g.task_assignments[0].progress, 0);
    assert!(g.task_assignments[0].started_turn.is_none());
}

#[test]
fn expired_tasks_are_purged_with_their_assignments() {
    let mut g = game();
    open_task(&mut g, 7);
    g.current_tasks[0].created_turn = 0;
    g.current_tasks[0].expiry_turns = 1;
    g.sect.year = 5;
    g.remove_expired_tasks();
    assert!(g.current_tasks.is_empty());
    assert!(g.task_assignments.is_empty());
}

#[test]
fn explicit_tribulation_resolves_or_refuses() {
    let mut g = game();
    // nobody of that id
    assert_eq!(g.execute_tribulation(999), None);
    // an unready member is refused without change
    let id = g.sect.disciples[0].id;
    assert_eq!(g.execute_tribulation(id), None);
    // a ready second-tier member resolves: promoted or dead
    g.sect.disciples[0].cultivation.current_level = CultivationLevel::Foundation;
    g.sect.disciples[0].cultivation.sub_level = SubLevel::Perfect;
    g.sect.disciples[0].cultivation.cultivation_path =
        Some(CultivationPath::with_requirements(Vec::new()));
    let outcome = g.execute_tribulation(id).unwrap();
    if outcome {
        assert_eq!(g.sect.disciples[0].cultivation.current_level, CultivationLevel::GoldenCore);
        assert_eq!(g.sect.disciples[0].lifespan, 500);
    } else {
        assert_eq!(g.sect.disciples[0].constitution, 0);
    }
}

#[test]
fn defense_tasks_lapse_when_the_monster_leaves() {
    let mut g = game();
    // a defense task against a monster that is not invading anything
    let mut task = Task::new(
        7,
        "Defend town".to_string(),
        TaskType::Combat(CombatTask {
            enemy_id: Some(123456),
            enemy_name: "Wild Beast".to_string(),
            enemy_level: 3,
            difficulty: 3,
        }),
        10,
        20,
    );
    task.is_defense = true;
    g.current_tasks.push(task);
    g.task_assignments.push(TaskAssignment {
        task_id: 7,
        disciple_ids: Vec::new(),
        started_turn: None,
        progress: 0,
    });
    g.check_and_remove_invalid_defense_tasks();
    assert!(g.current_tasks.is_empty());
    assert!(g.task_assignments.is_empty());
}

#[test]
fn turn_opening_issues_quota_paths() {
    let mut g = game();
    let old_len = g.sect.disciples.len();
    g.start_turn();
    assert_eq!(g.sect.year, 1);
    assert!(g.sect.disciples.len() >= old_len);
    // every member holds an issued quota path with requirements
    for d in g.sect.disciples.iter() {
        let path = d.cultivation.cultivation_path.as_ref().unwrap();
        assert!(path.entries.len() > 0);
    }
}
