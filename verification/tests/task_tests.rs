//! Tasks: category defaults, expiry, eligibility order, suitability, combat
//! ratings and success rates, and reward settlement.

use sect_sim::disciple::{Disciple, DiscipleType, Talent, TalentType};
use sect_sim::cultivation::SubLevel;
use sect_sim::modifier::{Modifier, ModifierApplication, ModifierSource, ModifierTarget};
use sect_sim::map::Position;
use sect_sim::task::{
    AuxiliaryTask, CombatTask, ExplorationTask, GatheringTask, IneligibleReason, Task, TaskType,
};

fn member() -> Disciple {
    Disciple::new(0, "Su He".to_string(), DiscipleType::Outer, Vec::new())
}

fn combat_task(enemy_level: u32) -> Task {
    Task::new(
        1,
        "Hunt".to_string(),
        TaskType::Combat(CombatTask {
            enemy_id: None,
            enemy_name: "Raider".to_string(),
            enemy_level,
            difficulty: enemy_level,
        }),
        10,
        20,
    )
}

#[test]
fn category_defaults_follow_the_table() {
    let g = Task::new(
        0,
        "Gather".to_string(),
        TaskType::Gathering(GatheringTask { resource_type: "Herb".to_string(), difficulty: 1 }),
        5,
        10,
    );
    assert_eq!((g.duration, g.energy_cost, g.constitution_cost, g.max_participants), (1, 5, 2, 2));
    let c = combat_task(3);
    assert_eq!((c.duration, c.energy_cost, c.constitution_cost, c.max_participants), (2, 15, 10, 3));
    assert_eq!(c.expiry_turns, 5);
}

#[test]
fn expiry_is_reached_at_the_horizon() {
    let mut t = combat_task(3);
    t.created_turn = 10;
    t.expiry_turns = 5;
    assert!(!t.is_expired(14));
    assert!(t.is_expired(15));
    assert!(t.is_expired(16));
}

#[test]
fn sixth_member_is_refused_with_task_full() {
    // a 6th member joining a task capped at 5 is refused with the
    // task-full reason, before any other check
    let mut t = combat_task(3);
    t.max_participants = 5;
    let d = member();
    let extras: Vec<Modifier> = Vec::new();
    let verdict = t.check_eligibility(&d, &extras, true, false, false, 5);
    assert!(!verdict.eligible);
    assert_eq!(verdict.reason, Some(IneligibleReason::TaskFull));
}

#[test]
fn eligibility_checks_fire_in_order() {
    let t = combat_task(3);
    let extras: Vec<Modifier> = Vec::new();
    let mut d = member();
    // already assigned wins over everything
    let v = t.check_eligibility(&d, &extras, false, true, true, 99);
    assert_eq!(v.reason, Some(IneligibleReason::AlreadyAssigned));
    // position before busyness
    let mut bound = combat_task(3);
    bound.position = Some(Position { x: 2, y: 2 });
    let v = bound.check_eligibility(&d, &extras, false, true, false, 0);
    assert_eq!(v.reason, Some(IneligibleReason::NotAtPosition));
    // busyness before stamina
    d.energy = 0;
    let v = t.check_eligibility(&d, &extras, true, true, false, 0);
    assert_eq!(v.reason, Some(IneligibleReason::Busy));
    // stamina before vigor
    d.constitution = 0;
    let v = t.check_eligibility(&d, &extras, true, false, false, 0);
    assert_eq!(v.reason, Some(IneligibleReason::InsufficientEnergy));
    // vigor gate
    d.energy = 100;
    let v = t.check_eligibility(&d, &extras, true, false, false, 0);
    assert_eq!(v.reason, Some(IneligibleReason::InsufficientConstitution));
    // a healthy, free, present member may fight anything
    d.constitution = 100;
    let v = t.check_eligibility(&d, &extras, true, false, false, 0);
    assert!(v.eligible);
    assert_eq!(v.reason, None);
}

#[test]
fn exploration_needs_enough_effective_rank() {
    let t = Task::new(
        2,
        "Roam".to_string(),
        TaskType::Exploration(ExplorationTask { location: "Mist".to_string(), danger_level: 20 }),
        10,
        20,
    );
    let mut d = member();
    let extras: Vec<Modifier> = Vec::new();
    // rank 0, ten times the rank is below the danger level
    assert!(!t.is_suitable_for_disciple(&d));
    let v = t.check_eligibility(&d, &extras, true, false, false, 0);
    assert_eq!(v.reason, Some(IneligibleReason::InsufficientCultivation));
    // a suitability rule can lift the effective rank: +2 whole ranks
    d.add_modifier(Modifier::new(
        "Artifact".to_string(),
        ModifierTarget::TaskSuitability,
        ModifierApplication::Additive(2_000),
        ModifierSource::Equipment,
    ));
    assert!(t.is_suitable_for_disciple(&d));
    let v = t.check_eligibility(&d, &extras, true, false, false, 0);
    assert!(v.eligible);
}

#[test]
fn support_tasks_need_the_talent() {
    let t = Task::new(
        3,
        "Heal".to_string(),
        TaskType::Auxiliary(AuxiliaryTask {
            task_name: "Heal".to_string(),
            skill_required: Some(TalentType::Medical),
        }),
        5,
        8,
    );
    let d = member();
    let extras: Vec<Modifier> = Vec::new();
    let v = t.check_eligibility(&d, &extras, true, false, false, 0);
    assert_eq!(v.reason, Some(IneligibleReason::MissingTalent));
    let healer = Disciple::new(
        1,
        "Bai Zhi".to_string(),
        DiscipleType::Outer,
        vec![Talent { talent_type: TalentType::Medical, level: 3 }],
    );
    let v = t.check_eligibility(&healer, &extras, true, false, false, 0);
    assert!(v.eligible);
}

#[test]
fn combat_rating_counts_tiers_and_subtiers() {
    let mut d = member();
    assert_eq!(Task::calculate_disciple_combat_level(&d), 1);
    d.cultivation.sub_level = SubLevel::Perfect;
    assert_eq!(Task::calculate_disciple_combat_level(&d), 3);
}

#[test]
fn outmatched_fighters_get_the_penalty_rate() {
    // rating 3 against an enemy of level 5: 0.7 + (3-5)*0.15 = 0.40
    let mut d = member();
    d.cultivation.sub_level = SubLevel::Perfect;
    let t = combat_task(5);
    assert_eq!(t.calculate_combat_success_rate(&d), 400);
}

#[test]
fn success_rates_clamp_and_default() {
    let d = member();
    // rating 1 against level 30: clamped at the 0.05 floor
    assert_eq!(combat_task(30).calculate_combat_success_rate(&d), 50);
    // rating 1 against level 0: 0.7 + 1*0.1 = 0.8
    assert_eq!(combat_task(0).calculate_combat_success_rate(&d), 800);
    // non-combat work uses the flat 0.8 default
    let g = Task::new(
        4,
        "Gather".to_string(),
        TaskType::Gathering(GatheringTask { resource_type: "Herb".to_string(), difficulty: 1 }),
        5,
        10,
    );
    assert_eq!(g.calculate_combat_success_rate(&d), 800);
}

#[test]
fn settlement_pays_the_scaled_reward() {
    // base 5, difficulty 1: multiplier 0.52, tier penalty 1, no talent:
    // native 2.6 units, floored to 2 progression points
    let mut d = member();
    let g = Task::new(
        5,
        "Gather".to_string(),
        TaskType::Gathering(GatheringTask { resource_type: "Herb".to_string(), difficulty: 1 }),
        5,
        10,
    );
    let gained = d.complete_task(&g);
    assert_eq!(gained, 2);
    assert_eq!(d.cultivation.progress, 2);
}

#[test]
fn settlement_never_pays_less_than_one() {
    let mut d = member();
    let g = Task::new(
        6,
        "Gather".to_string(),
        TaskType::Gathering(GatheringTask { resource_type: "Herb".to_string(), difficulty: 0 }),
        0,
        0,
    );
    let gained = d.complete_task(&g);
    assert_eq!(gained, 1);
}

#[test]
fn reward_rules_scale_the_settlement() {
    // a +100% task-reward rule doubles the native 2.6 units to 5.2, so 5
    let mut d = member();
    d.add_modifier(Modifier::new(
        "Blessing".to_string(),
        ModifierTarget::TaskReward,
        ModifierApplication::Multiplicative(1_000),
        ModifierSource::Buff,
    ));
    let g = Task::new(
        7,
        "Gather".to_string(),
        TaskType::Gathering(GatheringTask { resource_type: "Herb".to_string(), difficulty: 1 }),
        5,
        10,
    );
    assert_eq!(d.complete_task(&g), 5);
}

#[test]
fn consumption_rules_scale_the_costs() {
    // a -20% stamina-cost rule turns a 10-point cost into 8
    let mut d = member();
    d.add_modifier(Modifier::new(
        "Pill Nourishment".to_string(),
        ModifierTarget::EnergyConsumption,
        ModifierApplication::Multiplicative(-200),
        ModifierSource::Pill,
    ));
    d.consume_energy(10);
    assert_eq!(d.energy, 92);
    // vigor costs are unaffected by the stamina rule
    d.consume_constitution(10);
    assert_eq!(d.constitution, 90);
}

#[test]
fn tribulation_rate_follows_morale() {
    // native rate: 0.3 + 0.005 * 50 = 0.55, no heritage, no rules
    let d = member();
    assert_eq!(d.tribulation_success_rate(), 550);
    // an override rule pins the rate (clamped to 0.95)
    let mut blessed = member();
    blessed.add_modifier(Modifier::new(
        "Heaven's Favor".to_string(),
        ModifierTarget::TribulationSuccessRate,
        ModifierApplication::Override(2_000),
        ModifierSource::Heritage,
    ));
    assert_eq!(blessed.tribulation_success_rate(), 950);
}
