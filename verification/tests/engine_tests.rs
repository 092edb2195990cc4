//! Error variants, crafting, the aging pass, and the two possible outcomes
//! of a promotion attempt.

use sect_sim::building::{Building, BuildingError, BuildingTree, BuildingTreeBuilder};
use sect_sim::config::ConfigManager;
use sect_sim::cultivation::{CultivationLevel, CultivationPath, SubLevel};
use sect_sim::disciple::{Disciple, DiscipleType};
use sect_sim::interactive::InteractiveGame;
use sect_sim::map::HerbQuality;
use sect_sim::modifier::{Modifier, ModifierApplication, ModifierSource, ModifierTarget};
use sect_sim::pill::PillType;
use sect_sim::relationship::RelationDimension;
use sect_sim::sect::{Sect, SectError};
use sect_sim::task::TaskCategory;

#[test]
fn crafting_needs_recipe_herbs_and_resources() {
    let mut game = InteractiveGame::new("Azure Peak".to_string(), ConfigManager::create_default());
    // no rare herbs stocked yet
    assert_eq!(game.refine_pill(PillType::CultivationBoost), Err(SectError::InsufficientHerbs));
    game.sect.herb_inventory.add(&"Fire Lotus".to_string(), HerbQuality::Rare, 2);
    game.sect.resources = 10;
    assert_eq!(game.refine_pill(PillType::CultivationBoost), Err(SectError::InsufficientResources));
    game.sect.resources = 500;
    let outcome = game.refine_pill(PillType::CultivationBoost);
    assert!(outcome.is_ok());
    // one rare herb was paid whatever the roll said
    assert_eq!(game.sect.herb_inventory.count_by_quality(HerbQuality::Rare), 1);
    assert_eq!(game.sect.resources, 400);
}

#[test]
fn companionship_is_exclusive() {
    let mut sect = Sect::new("Azure Peak".to_string());
    for id in 0..3 {
        sect.recruit_disciple(Disciple::new(
            id,
            "Mu Yun".to_string(),
            DiscipleType::Outer,
            Vec::new(),
        ));
    }
    for (a, b) in [(0, 1), (1, 0), (0, 2), (2, 0)] {
        sect.update_relationship_score(a, b, RelationDimension::Romance, 95).unwrap();
    }
    assert_eq!(sect.set_dao_companion(0, 1), Ok(()));
    assert_eq!(sect.set_dao_companion(0, 2), Err(SectError::AlreadyHasCompanion));
}

#[test]
fn doubling_costs_can_outgrow_the_ledger() {
    let root = Building::new_root(
        "root".to_string(),
        "Grand Hall".to_string(),
        "The heart of the sect".to_string(),
        u32::MAX,
        Vec::new(),
    );
    let mut tree = BuildingTree::new(root);
    // the first build still fits exactly
    assert_eq!(tree.calculate_build_cost(&"root".to_string()), Ok(u32::MAX));
    tree.build(&"root".to_string()).unwrap();
    let pricey = Building::new_child(
        "annex".to_string(),
        "Annex".to_string(),
        "A pricey annex".to_string(),
        u32::MAX,
        "root".to_string(),
        Vec::new(),
    );
    tree.add_building(pricey).unwrap();
    // doubled once, the cost no longer fits in 32 bits
    assert_eq!(
        tree.calculate_build_cost(&"annex".to_string()),
        Err(BuildingError::CostOverflow)
    );
}

#[test]
fn builder_requires_a_root() {
    let builder = BuildingTreeBuilder::new();
    assert!(builder.build().is_err());
    let built = BuildingTreeBuilder::new()
        .root(Building::new_root(
            "root".to_string(),
            "Grand Hall".to_string(),
            "The heart of the sect".to_string(),
            100,
            Vec::new(),
        ))
        .child(Building::new_child(
            "lib".to_string(),
            "Library".to_string(),
            "Archives".to_string(),
            150,
            "root".to_string(),
            Vec::new(),
        ))
        .build();
    assert!(built.is_ok());
    assert_eq!(built.unwrap().buildings.len(), 2);
}

#[test]
fn member_rule_aging_matches_stack_aging() {
    let mut d = Disciple::new(0, "Mu Yun".to_string(), DiscipleType::Outer, Vec::new());
    d.add_modifier(Modifier::new_temporary(
        "Short blessing".to_string(),
        ModifierTarget::DaoHeart,
        ModifierApplication::Additive(10_000),
        ModifierSource::Buff,
        1,
    ));
    assert_eq!(d.get_effective_dao_heart(), 60_000);
    let expired = d.tick_modifiers();
    assert_eq!(expired, 1);
    assert_eq!(d.get_effective_dao_heart(), 50_000);
}

#[test]
fn tribulation_promotes_or_kills() {
    // a member at the second tier, fully ready: the roll either promotes to
    // the third tier (with the new lifespan) or is lethal
    let mut d = Disciple::new(0, "Mu Yun".to_string(), DiscipleType::Outer, Vec::new());
    d.cultivation.current_level = CultivationLevel::Foundation;
    d.cultivation.sub_level = SubLevel::Perfect;
    d.cultivation.cultivation_path = Some(CultivationPath::with_requirements(Vec::new()));
    let success = d.attempt_tribulation();
    if success {
        assert_eq!(d.cultivation.current_level, CultivationLevel::GoldenCore);
        assert_eq!(d.cultivation.sub_level, SubLevel::Early);
        assert_eq!(d.cultivation.progress, 0);
        assert_eq!(d.lifespan, 500);
        assert!(d.is_alive());
    } else {
        assert_eq!(d.constitution, 0);
        assert!(!d.is_alive());
    }
}

#[test]
fn unready_members_never_roll() {
    let mut d = Disciple::new(0, "Mu Yun".to_string(), DiscipleType::Outer, Vec::new());
    d.cultivation.current_level = CultivationLevel::Foundation;
    // Early sub-tier: no roll, no change, no death
    assert!(!d.attempt_tribulation());
    assert_eq!(d.cultivation.current_level, CultivationLevel::Foundation);
    assert!(d.is_alive());
}

#[test]
fn quota_paths_are_reissued_per_tier() {
    let mut game = InteractiveGame::new("Azure Peak".to_string(), ConfigManager::create_default());
    game.check_breakthroughs();
    // the lowest tier asks for 2 battles, 3 explorations, 4 gatherings and
    // 3 support tasks
    let path = game.sect.disciples[0].cultivation.cultivation_path.as_ref().unwrap();
    assert_eq!(path.progress_by_type(TaskCategory::Combat), (0, 2));
    assert_eq!(path.progress_by_type(TaskCategory::Exploration), (0, 3));
    assert_eq!(path.progress_by_type(TaskCategory::Gathering), (0, 4));
    assert_eq!(path.progress_by_type(TaskCategory::Auxiliary), (0, 3));
    assert_eq!(path.progress(), (0, 12));
}
