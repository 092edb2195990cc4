//! Relationship scores, levels and growth.

use sect_sim::relationship::{
    RelationDimension, RelationGrowth, RelationLevel, RelationScores, Relationship,
};
use sect_sim::task::{CombatTask, TaskType};

#[test]
fn test_relation_level_from_score() {
    assert_eq!(RelationLevel::from_score(0), RelationLevel::Stranger);
    assert_eq!(RelationLevel::from_score(19), RelationLevel::Stranger);
    assert_eq!(RelationLevel::from_score(20), RelationLevel::Acquaintance);
    assert_eq!(RelationLevel::from_score(50), RelationLevel::Familiar);
    assert_eq!(RelationLevel::from_score(79), RelationLevel::Close);
    assert_eq!(RelationLevel::from_score(80), RelationLevel::Intimate);
    assert_eq!(RelationLevel::from_score(100), RelationLevel::Destined);
}

#[test]
fn test_relation_scores_add() {
    let mut scores = RelationScores::new();

    let (new_score, level_up) = scores.add(RelationDimension::Romance, 25);
    assert_eq!(new_score, 25);
    assert_eq!(level_up, Some(RelationLevel::Acquaintance));

    let (new_score, level_up) = scores.add(RelationDimension::Romance, 20);
    assert_eq!(new_score, 45);
    assert_eq!(level_up, Some(RelationLevel::Familiar));

    let (new_score, level_up) = scores.add(RelationDimension::Romance, -10);
    assert_eq!(new_score, 35);
    assert_eq!(level_up, None);
}

#[test]
fn test_relation_scores_cap() {
    let mut scores = RelationScores::new();
    scores.set(RelationDimension::Romance, 150);
    assert_eq!(scores.romance, 100);
}

#[test]
fn combat_tasks_grow_comradeship() {
    let task_type = TaskType::Combat(CombatTask {
        enemy_id: None,
        enemy_name: "Raider".to_string(),
        enemy_level: 1,
        difficulty: 1,
    });
    let growth = RelationGrowth::from_task_type(&task_type);
    assert_eq!(growth.comrade, 3);
    assert_eq!(growth.understanding, 1);
    assert_eq!(growth.romance, 0);

    let mut rel = Relationship::new(7, 3);
    let ups = rel.apply_task_growth(&task_type);
    assert_eq!(rel.scores.comrade, 3);
    assert_eq!(rel.scores.understanding, 1);
    assert!(ups.is_empty());
}

#[test]
fn add_floors_at_zero() {
    let mut scores = RelationScores::new();
    scores.set(RelationDimension::Comrade, 5);
    let (new_score, up) = scores.add(RelationDimension::Comrade, -50);
    assert_eq!(new_score, 0);
    assert_eq!(up, None);
    assert_eq!(scores.comrade, 0);
}

#[test]
fn highest_level_picks_the_best_dimension() {
    let mut scores = RelationScores::new();
    scores.set(RelationDimension::Mentorship, 45);
    scores.set(RelationDimension::FatefulBond, 85);
    assert_eq!(scores.highest_level(), RelationLevel::Intimate);
    assert!(scores.has_mentorship());
    assert!(!scores.can_be_dao_companion());
}

#[test]
fn mentorship_bonds_start_at_fifty() {
    let as_student = Relationship::new_as_disciple_of(3, 12);
    assert!(as_student.is_master);
    assert_eq!(as_student.scores.mentorship, 50);
    let as_master = Relationship::new_as_master_of(9, 12);
    assert!(as_master.is_disciple);
    assert_eq!(as_master.scores.mentorship, 50);
    assert_eq!(as_master.get_primary_relation(), "Student");
}
