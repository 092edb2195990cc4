//! The construction tree, the organization aggregate, the stores and the
//! turn engine.

use sect_sim::building::{
    Building, BuildingError, BuildingTree, create_default_sect_building_tree,
};
use sect_sim::config::ConfigManager;
use sect_sim::disciple::{Disciple, DiscipleType};
use sect_sim::interactive::{GameState, InteractiveGame};
use sect_sim::map::HerbQuality;
use sect_sim::modifier::{
    ConditionalModifier, Modifier, ModifierApplication, ModifierCondition, ModifierSource,
    ModifierTarget,
};
use sect_sim::pill::{HerbInventory, PillInventory, PillType};
use sect_sim::sect::{Sect, SectError};

fn root_building(id: &str, cost: u32) -> Building {
    Building::new_root(
        id.to_string(),
        "Grand Hall".to_string(),
        "The heart of the sect".to_string(),
        cost,
        Vec::new(),
    )
}

fn child_building(id: &str, parent: &str, cost: u32) -> Building {
    Building::new_child(
        id.to_string(),
        "Library".to_string(),
        "Technique archives".to_string(),
        cost,
        parent.to_string(),
        Vec::new(),
    )
}

#[test]
fn test_building_tree_creation() {
    let root = root_building("root", 100);
    let tree = BuildingTree::new(root);
    assert_eq!(tree.buildings.len(), 1);
    assert_eq!(tree.buildings_built_count, 0);
}

#[test]
fn test_add_child_building() {
    let root = root_building("root", 100);
    let mut tree = BuildingTree::new(root);
    let child = child_building("library", "root", 200);
    assert!(tree.add_building(child).is_ok());
    assert_eq!(tree.buildings.len(), 2);
}

#[test]
fn test_build_cost_calculation() {
    let root = root_building("root", 100);
    let mut tree = BuildingTree::new(root);
    // first build: 100 * 2^0 = 100
    assert_eq!(tree.calculate_build_cost(&"root".to_string()).unwrap(), 100);
    tree.build(&"root".to_string()).unwrap();
    let child = child_building("lib", "root", 200);
    tree.add_building(child).unwrap();
    // second build: 200 * 2^1 = 400
    assert_eq!(tree.calculate_build_cost(&"lib".to_string()).unwrap(), 400);
}

#[test]
fn test_build_dependency() {
    let root = root_building("root", 100);
    let mut tree = BuildingTree::new(root);
    let child = child_building("lib", "root", 200);
    tree.add_building(child).unwrap();
    // the parent is unbuilt, so the child is refused
    assert!(tree.can_build(&"lib".to_string()).is_err());
    tree.build(&"root".to_string()).unwrap();
    assert!(tree.can_build(&"lib".to_string()).is_ok());
}

#[test]
fn test_building_with_modifiers() {
    let modifier = ConditionalModifier::new(
        ModifierCondition::DiscipleTypeEquals(DiscipleType::Inner),
        Modifier::new(
            "Inner blessing".to_string(),
            ModifierTarget::TaskReward,
            ModifierApplication::Multiplicative(200),
            ModifierSource::System,
        ),
    );
    let root = Building::new_root(
        "root".to_string(),
        "Grand Hall".to_string(),
        "The heart of the sect".to_string(),
        100,
        vec![modifier],
    );
    let mut tree = BuildingTree::new(root);
    tree.build(&"root".to_string()).unwrap();
    let modifiers = tree.get_all_modifiers();
    assert_eq!(modifiers.len(), 1);
}

#[test]
fn building_errors_name_their_causes() {
    let root = root_building("root", 100);
    let mut tree = BuildingTree::new(root);
    assert_eq!(tree.can_build(&"ghost".to_string()), Err(BuildingError::NotFound));
    let dup = root_building("root", 50);
    assert_eq!(tree.add_building(dup), Err(BuildingError::DuplicateId));
    let orphan = child_building("lib", "missing", 10);
    assert_eq!(tree.add_building(orphan), Err(BuildingError::MissingParent));
    tree.build(&"root".to_string()).unwrap();
    assert_eq!(tree.can_build(&"root".to_string()), Err(BuildingError::AlreadyBuilt));
}

#[test]
fn stock_tree_has_its_root_unbuilt() {
    let tree = create_default_sect_building_tree();
    assert_eq!(tree.buildings_built_count, 0);
    assert_eq!(tree.root_id, "main_hall".to_string());
    assert!(tree.can_build(&"main_hall".to_string()).is_ok());
    // children unlock only under a built parent
    assert!(tree.can_build(&"library".to_string()).is_err());
}

#[test]
fn sect_pays_builds_from_its_pool() {
    let mut sect = Sect::new("Azure Peak".to_string());
    assert_eq!(sect.resources, 1000);
    assert_eq!(
        sect.build_building(&"main_hall".to_string()),
        Err(SectError::NoBuildingTree)
    );
    sect.init_building_tree(create_default_sect_building_tree());
    let cost = sect.build_building(&"main_hall".to_string()).unwrap();
    assert_eq!(cost, 100);
    assert_eq!(sect.resources, 900);
    // second build doubles: the library costs 150 * 2 = 300
    let cost = sect.build_building(&"library".to_string()).unwrap();
    assert_eq!(cost, 300);
    assert_eq!(sect.resources, 600);
}

#[test]
fn organization_rules_reach_matching_members_only() {
    let mut sect = Sect::new("Azure Peak".to_string());
    sect.add_sect_modifier(ConditionalModifier::new(
        ModifierCondition::DiscipleTypeEquals(DiscipleType::Inner),
        Modifier::new(
            "Inner blessing".to_string(),
            ModifierTarget::TaskReward,
            ModifierApplication::Multiplicative(250),
            ModifierSource::System,
        ),
    ));
    let outer = Disciple::new(0, "Mu Yun".to_string(), DiscipleType::Outer, Vec::new());
    let inner = Disciple::new(1, "Su He".to_string(), DiscipleType::Inner, Vec::new());
    assert_eq!(sect.get_applicable_modifiers_owned(&outer).len(), 0);
    assert_eq!(sect.get_applicable_modifiers_owned(&inner).len(), 1);
}

#[test]
fn mentorship_and_companionship_enforce_their_rules() {
    let mut sect = Sect::new("Azure Peak".to_string());
    sect.recruit_disciple(Disciple::new(0, "Mu Yun".to_string(), DiscipleType::Outer, Vec::new()));
    sect.recruit_disciple(Disciple::new(1, "Su He".to_string(), DiscipleType::Inner, Vec::new()));
    assert_eq!(sect.set_mentorship(0, 0), Err(SectError::SelfRelation));
    assert_eq!(sect.set_mentorship(9, 0), Err(SectError::MemberMissing));
    assert_eq!(sect.set_mentorship(0, 1), Ok(()));
    assert_eq!(sect.set_mentorship(0, 1), Err(SectError::AlreadyHasMaster));
    // companionship needs mutual affection of at least 80
    assert_eq!(sect.set_dao_companion(0, 1), Err(SectError::AffectionTooLow));
    sect.update_relationship_score(0, 1, sect_sim::relationship::RelationDimension::Romance, 90)
        .unwrap();
    sect.update_relationship_score(1, 0, sect_sim::relationship::RelationDimension::Romance, 90)
        .unwrap();
    assert_eq!(sect.set_dao_companion(0, 1), Ok(()));
    assert!(sect.disciples[0].has_dao_companion());
    assert!(sect.disciples[1].has_dao_companion());
}

#[test]
fn yearly_update_ages_the_living() {
    let mut sect = Sect::new("Azure Peak".to_string());
    sect.recruit_disciple(Disciple::new(0, "Mu Yun".to_string(), DiscipleType::Outer, Vec::new()));
    sect.yearly_update();
    assert_eq!(sect.year, 1);
    assert_eq!(sect.disciples[0].age, 17);
}

#[test]
fn herb_store_tracks_stacks_exactly() {
    let mut herbs = HerbInventory::new();
    let name = "Spirit Herb".to_string();
    herbs.add(&name, HerbQuality::Common, 3);
    herbs.add(&name, HerbQuality::Common, 2);
    herbs.add(&name, HerbQuality::Rare, 1);
    assert_eq!(herbs.get_count(&name, HerbQuality::Common), 5);
    assert_eq!(herbs.get_count(&name, HerbQuality::Rare), 1);
    assert_eq!(herbs.total_count(), 6);
    assert_eq!(herbs.count_by_quality(HerbQuality::Common), 5);
    assert!(!herbs.consume(&name, HerbQuality::Common, 9));
    assert!(herbs.consume(&name, HerbQuality::Common, 5));
    assert_eq!(herbs.get_count(&name, HerbQuality::Common), 0);
    assert_eq!(herbs.get_all().len(), 1);
}

#[test]
fn pill_store_stocks_consumes_and_crafts() {
    let mut pills = PillInventory::new();
    assert_eq!(pills.get_count(PillType::QiRecovery), 10);
    assert!(pills.consume(PillType::QiRecovery));
    assert_eq!(pills.get_count(PillType::QiRecovery), 9);
    assert_eq!(pills.get_count(PillType::CultivationBoost), 0);
    assert!(!pills.consume(PillType::CultivationBoost));
    let mut resources: u32 = 60;
    // a recovery pill costs 50 to craft
    assert!(pills.craft(PillType::QiRecovery, &mut resources));
    assert_eq!(resources, 10);
    assert_eq!(pills.get_count(PillType::QiRecovery), 10);
    assert!(!pills.craft(PillType::QiRecovery, &mut resources));
    assert_eq!(resources, 10);
}

#[test]
fn pill_names_round_trip() {
    assert_eq!(PillType::from_str(&"QiRecovery".to_string()), Some(PillType::QiRecovery));
    assert_eq!(PillType::from_str(&"VitalityElixir".to_string()), Some(PillType::VitalityElixir));
    assert_eq!(PillType::from_str(&"NoSuchPill".to_string()), None);
    assert_eq!(PillType::BodyStrength.to_string(), "BodyStrength");
    assert_eq!(PillType::QiRecovery.effects().energy_restore, 30);
}

#[test]
fn engine_runs_a_turn_and_feeds_a_pill() {
    let mut game = InteractiveGame::new("Azure Peak".to_string(), ConfigManager::create_default());
    assert_eq!(game.state, GameState::Running);
    assert_eq!(game.sect.disciples.len(), 3);
    game.start_turn();
    assert_eq!(game.sect.year, 1);
    assert!(game.check_game_state());
    let results = game.execute_turn();
    assert_eq!(game.state, GameState::Running);
    let _ = results;
    // drain a member, then feed a recovery pill
    let id = game.sect.disciples[0].id;
    game.sect.disciples[0].energy = 10;
    let (before, after, _, _) = game.use_pill(id, PillType::QiRecovery).unwrap();
    assert_eq!(before, 10);
    assert_eq!(after, 40);
    assert_eq!(game.use_pill(999, PillType::QiRecovery), Err(SectError::MemberMissing));
}

#[test]
fn assigning_through_the_engine_respects_eligibility() {
    let mut game = InteractiveGame::new("Azure Peak".to_string(), ConfigManager::create_default());
    game.start_turn();
    // pick any open task without a position bound; members start at the
    // sect square, so position-bound tasks would refuse them
    let mut target: Option<usize> = None;
    for t in game.current_tasks.iter() {
        if t.position.is_none() {
            target = Some(t.id);
        }
    }
    // tasks drawn from the map are position-bound; an unknown task id is
    // reported as such rather than mutating anything
    assert_eq!(game.assign_disciple_to_task(usize::MAX, 0), None);
    if let Some(task_id) = target {
        let verdict = game.assign_disciple_to_task(task_id, game.sect.disciples[0].id);
        assert!(verdict.is_some());
    }
}

#[test]
fn movement_is_bounded_by_range_and_moves_left() {
    let mut game = InteractiveGame::new("Azure Peak".to_string(), ConfigManager::create_default());
    let id = game.sect.disciples[0].id;
    // lowest tier moves two squares per turn; members start at (10, 10)
    assert_eq!(game.move_disciple(id, 19, 19), Err(SectError::OutOfRange));
    assert_eq!(game.move_disciple(id, 11, 11), Ok(()));
    assert_eq!(game.sect.disciples[0].position.x, 11);
    assert_eq!(game.move_disciple(id, 12, 12), Err(SectError::NoMovesLeft));
}

#[test]
fn location_ids_carry_their_kind_prefix() {
    let config = ConfigManager::create_default();
    let mut map = sect_sim::map::GameMap::new(config);
    map.initialize();
    let mut found_village = false;
    for pe in map.elements.iter() {
        let lid = pe.get_location_id_at();
        if lid == "village_Clearwind Town".to_string() {
            found_village = true;
        }
    }
    assert!(found_village);
}
