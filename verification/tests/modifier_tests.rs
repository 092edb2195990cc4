//! The modifier engine: single rules, stacks, override dominance, ordering
//! and timed aging. Fixed-point values carry three decimal digits, so 50
//! whole units are written 50_000.

use sect_sim::modifier::{
    Modifier, ModifierApplication, ModifierSource, ModifierStack, ModifierTarget,
};

fn named(name: &str, application: ModifierApplication) -> Modifier {
    Modifier::new(
        name.to_string(),
        ModifierTarget::DaoHeart,
        application,
        ModifierSource::Buff,
    )
}

#[test]
fn test_additive_modifier() {
    let modifier = named("Test Buff", ModifierApplication::Additive(10_000));
    assert_eq!(modifier.apply(50_000), 60_000);
}

#[test]
fn test_multiplicative_modifier() {
    // +20%
    let modifier = named("Test Buff", ModifierApplication::Multiplicative(200));
    let result = modifier.apply(50_000);
    assert_eq!(result, 60_000, "Expected 60.0 units, got {}", result);
}

#[test]
fn test_override_modifier() {
    let modifier = Modifier::new(
        "Test Override".to_string(),
        ModifierTarget::DaoHeart,
        ModifierApplication::Override(100_000),
        ModifierSource::System,
    );
    assert_eq!(modifier.apply(50_000), 100_000);
}

#[test]
fn test_modifier_stack_calculate() {
    let mut stack = ModifierStack::new();
    stack.add_modifier(named("Buff 1", ModifierApplication::Additive(10_000)));
    stack.add_modifier(named("Buff 2", ModifierApplication::Multiplicative(200)));
    // native 50, additive first: 50 + 10 = 60, then +20%: 72
    let effective = stack.calculate_effective(&ModifierTarget::DaoHeart, 50_000);
    assert_eq!(effective, 72_000);
}

#[test]
fn test_modifier_stack_override() {
    let mut stack = ModifierStack::new();
    stack.add_modifier(named("Buff 1", ModifierApplication::Additive(10_000)));
    stack.add_modifier(Modifier::new(
        "Override".to_string(),
        ModifierTarget::DaoHeart,
        ModifierApplication::Override(100_000),
        ModifierSource::System,
    ));
    // the override wins outright, whatever else is stacked
    let effective = stack.calculate_effective(&ModifierTarget::DaoHeart, 50_000);
    assert_eq!(effective, 100_000);
}

#[test]
fn test_modifier_duration() {
    let mut stack = ModifierStack::new();
    stack.add_modifier(Modifier::new_temporary(
        "Temp Buff".to_string(),
        ModifierTarget::DaoHeart,
        ModifierApplication::Additive(10_000),
        ModifierSource::Buff,
        2,
    ));
    assert_eq!(stack.len(), 1);
    stack.tick();
    assert_eq!(stack.len(), 1);
    stack.tick();
    assert_eq!(stack.len(), 0);
}

#[test]
fn test_remove_by_source() {
    let mut stack = ModifierStack::new();
    stack.add_modifier(named("Buff", ModifierApplication::Additive(10_000)));
    stack.add_modifier(Modifier::new(
        "Equipment".to_string(),
        ModifierTarget::DaoHeart,
        ModifierApplication::Additive(5_000),
        ModifierSource::Equipment,
    ));
    assert_eq!(stack.len(), 2);
    stack.remove_modifiers_by_source(&ModifierSource::Buff);
    assert_eq!(stack.len(), 1);
}

#[test]
fn override_dominates_any_native() {
    let mut stack = ModifierStack::new();
    stack.add_modifier(named("Plus", ModifierApplication::Additive(42_000)));
    stack.add_modifier(named("Times", ModifierApplication::Multiplicative(900)));
    stack.add_modifier(Modifier::new(
        "Fixed".to_string(),
        ModifierTarget::DaoHeart,
        ModifierApplication::Override(100_000),
        ModifierSource::System,
    ));
    assert_eq!(stack.calculate_effective(&ModifierTarget::DaoHeart, 0), 100_000);
    assert_eq!(stack.calculate_effective(&ModifierTarget::DaoHeart, -3_000_000), 100_000);
    assert_eq!(stack.calculate_effective(&ModifierTarget::DaoHeart, 777_777), 100_000);
}

#[test]
fn additives_apply_before_multiplicatives_in_either_insertion_order() {
    // multiplicative inserted first, additive second: still (50+10)*1.2
    let mut stack = ModifierStack::new();
    stack.add_modifier(named("Times", ModifierApplication::Multiplicative(200)));
    stack.add_modifier(named("Plus", ModifierApplication::Additive(10_000)));
    assert_eq!(stack.calculate_effective(&ModifierTarget::DaoHeart, 50_000), 72_000);
}

#[test]
fn rules_for_other_targets_do_not_interfere() {
    let mut stack = ModifierStack::new();
    stack.add_modifier(Modifier::new(
        "Energy only".to_string(),
        ModifierTarget::Energy,
        ModifierApplication::Additive(30_000),
        ModifierSource::Buff,
    ));
    assert_eq!(stack.calculate_effective(&ModifierTarget::DaoHeart, 50_000), 50_000);
    assert_eq!(stack.calculate_effective(&ModifierTarget::Energy, 50_000), 80_000);
}

#[test]
fn priority_orders_the_stack() {
    let mut stack = ModifierStack::new();
    let low = named("Low", ModifierApplication::Override(1_000)).with_priority(1);
    let high = named("High", ModifierApplication::Override(2_000)).with_priority(9);
    stack.add_modifier(low);
    stack.add_modifier(high);
    // the higher-priority override sorts first and wins
    assert_eq!(stack.calculate_effective(&ModifierTarget::DaoHeart, 0), 2_000);
}

#[test]
fn remove_modifier_by_id_reports_removal() {
    let mut stack = ModifierStack::new();
    let m = named("Buff", ModifierApplication::Additive(1_000));
    let id = m.id.clone();
    stack.add_modifier(m);
    assert!(stack.remove_modifier(&id));
    assert!(!stack.remove_modifier(&id));
    assert!(stack.is_empty());
}

#[test]
fn negative_multiplicative_reduces_value() {
    // -20% of 10 units
    let m = named("Cut", ModifierApplication::Multiplicative(-200));
    assert_eq!(m.apply(10_000), 8_000);
}
