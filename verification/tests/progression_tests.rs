//! The progression ladder: sub-tier progress, quota paths, promotion gating
//! and the riskless first-tier breakthrough.

use sect_sim::cultivation::{CultivationLevel, CultivationPath, SubLevel};
use sect_sim::disciple::{CultivationProgress, Disciple, DiscipleType};
use sect_sim::task::TaskCategory;

fn member() -> Disciple {
    Disciple::new(0, "Mu Yun".to_string(), DiscipleType::Outer, Vec::new())
}

#[test]
fn sub_progress_is_monotonic_and_capped() {
    let mut c = CultivationProgress::new(CultivationLevel::QiRefining);
    c.add_progress(30);
    assert_eq!(c.progress, 30);
    c.add_progress(0);
    assert_eq!(c.progress, 30);
    c.add_progress(90);
    assert_eq!(c.progress, 100);
    c.add_progress(50);
    assert_eq!(c.progress, 100);
}

#[test]
fn sub_tier_advances_one_step_at_a_time() {
    let mut c = CultivationProgress::new(CultivationLevel::QiRefining);
    assert_eq!(c.sub_level, SubLevel::Early);
    assert!(!c.try_sublevel_breakthrough());
    c.add_progress(100);
    assert!(c.try_sublevel_breakthrough());
    assert_eq!(c.sub_level, SubLevel::Middle);
    assert_eq!(c.progress, 0);
    c.add_progress(100);
    assert!(c.try_sublevel_breakthrough());
    assert_eq!(c.sub_level, SubLevel::Perfect);
    // no promotion beyond Perfect on this path
    c.add_progress(100);
    assert!(!c.try_sublevel_breakthrough());
    assert_eq!(c.sub_level, SubLevel::Perfect);
}

#[test]
fn promotion_gate_needs_perfect_and_full_quota() {
    let mut c = CultivationProgress::new(CultivationLevel::QiRefining);
    let reqs = vec![(TaskCategory::Combat, 2)];
    c.cultivation_path = Some(CultivationPath::with_requirements(reqs));
    // Early sub-tier: gate closed even if quota were met
    assert!(!c.can_tribulate());
    c.sub_level = SubLevel::Perfect;
    // Perfect but quota unmet: closed
    assert!(!c.can_tribulate());
    assert!(c.try_complete_path_task_by_type(TaskCategory::Combat));
    assert!(!c.can_tribulate());
    assert!(c.try_complete_path_task_by_type(TaskCategory::Combat));
    // Perfect and every requirement met: open
    assert!(c.can_tribulate());
}

#[test]
fn quota_ignores_absent_categories() {
    let mut c = CultivationProgress::new(CultivationLevel::QiRefining);
    let reqs = vec![(TaskCategory::Combat, 2)];
    c.cultivation_path = Some(CultivationPath::with_requirements(reqs));
    // a category with no requirement never advances and never errors
    assert!(!c.try_complete_path_task_by_type(TaskCategory::Gathering));
    let path = c.cultivation_path.as_ref().unwrap();
    assert_eq!(path.progress(), (0, 2));
    assert_eq!(path.progress_by_type(TaskCategory::Gathering), (0, 0));
    assert_eq!(path.progress_by_type(TaskCategory::Combat), (0, 2));
}

#[test]
fn quota_counts_stop_at_their_requirement() {
    let mut path = CultivationPath::with_requirements(vec![(TaskCategory::Exploration, 1)]);
    assert!(path.complete_task_by_type(TaskCategory::Exploration));
    assert!(!path.complete_task_by_type(TaskCategory::Exploration));
    assert_eq!(path.progress(), (1, 1));
    assert!(path.is_completed());
}

#[test]
fn lowest_tier_promotion_is_unconditional() {
    // a member at QiRefining/Perfect with quota {Combat: 2} fully met
    let mut d = member();
    d.cultivation.sub_level = SubLevel::Perfect;
    d.cultivation.cultivation_path = Some(CultivationPath::with_requirements(vec![(
        TaskCategory::Combat,
        2,
    )]));
    assert!(d.cultivation.try_complete_path_task_by_type(TaskCategory::Combat));
    assert!(d.cultivation.try_complete_path_task_by_type(TaskCategory::Combat));
    assert!(d.cultivation.can_tribulate());
    // the lowest tier needs no roll
    assert!(d.breakthrough());
    assert_eq!(d.cultivation.current_level, CultivationLevel::Foundation);
    assert_eq!(d.cultivation.sub_level, SubLevel::Early);
    assert_eq!(d.cultivation.progress, 0);
    let fresh = d.cultivation.cultivation_path.as_ref().unwrap();
    assert_eq!(fresh.entries.len(), 0);
    assert!(fresh.is_completed());
    assert_eq!(d.lifespan, 300);
}

#[test]
fn breakthrough_refuses_the_unready() {
    let mut d = member();
    assert!(!d.breakthrough());
    assert_eq!(d.cultivation.current_level, CultivationLevel::QiRefining);
}

#[test]
fn tier_ladder_walks_in_order() {
    assert_eq!(CultivationLevel::QiRefining.next(), Some(CultivationLevel::Foundation));
    assert_eq!(CultivationLevel::VoidRefinement.next(), Some(CultivationLevel::Ascension));
    assert_eq!(CultivationLevel::Ascension.next(), None);
    assert!(!CultivationLevel::QiRefining.requires_tribulation());
    assert!(CultivationLevel::Foundation.requires_tribulation());
    assert_eq!(CultivationLevel::QiRefining.base_lifespan(), 150);
    assert_eq!(CultivationLevel::Foundation.base_lifespan(), 300);
}
