//! End-to-end tests driving the engine through its public surface.
//!
//! Values are fixed-point with three decimal places: `2500` is `2.5`.
use rpg_stat::fixed::{fadd, fdiv_count, fmul, fmul1p, percent_of, SCALE};
use rpg_stat::resource::RPGResource;
use rpg_stat::stat::{RPGStat, Stat};
use rpg_stat::statmod::{
    DeleteStatMod, ModStyle, ModType, MultiplierStyle, ResourceChangeEvent, StatChangeEvent,
    StatValueChange,
};
use rpg_stat::{App, StatPlugin, StatRegisterable, SystemStep};

/// A damage-like stat: AddMul composition, no negative values.
#[derive(Clone, Copy)]
struct Damage;

impl RPGStat for Damage {
    fn spec_can_negative() -> bool {
        false
    }
    fn spec_modstyle() -> ModStyle {
        ModStyle::AddMul
    }
    fn spec_multiplier_style() -> MultiplierStyle {
        MultiplierStyle::Additive
    }

    fn can_negative() -> bool {
        false
    }
    fn modstyle() -> ModStyle {
        ModStyle::AddMul
    }
    fn multiplier_style() -> MultiplierStyle {
        MultiplierStyle::Additive
    }
}

/// The same numeric policy under MulAdd composition.
#[derive(Clone, Copy)]
struct Power;

impl RPGStat for Power {
    fn spec_can_negative() -> bool {
        false
    }
    fn spec_modstyle() -> ModStyle {
        ModStyle::MulAdd
    }
    fn spec_multiplier_style() -> MultiplierStyle {
        MultiplierStyle::Additive
    }

    fn can_negative() -> bool {
        false
    }
    fn modstyle() -> ModStyle {
        ModStyle::MulAdd
    }
    fn multiplier_style() -> MultiplierStyle {
        MultiplierStyle::Additive
    }
}

/// The same numeric policy under SumDifferences composition.
#[derive(Clone, Copy)]
struct Might;

impl RPGStat for Might {
    fn spec_can_negative() -> bool {
        false
    }
    fn spec_modstyle() -> ModStyle {
        ModStyle::SumDifferences
    }
    fn spec_multiplier_style() -> MultiplierStyle {
        MultiplierStyle::Additive
    }

    fn can_negative() -> bool {
        false
    }
    fn modstyle() -> ModStyle {
        ModStyle::SumDifferences
    }
    fn multiplier_style() -> MultiplierStyle {
        MultiplierStyle::Additive
    }
}

/// The same numeric policy under AverageDifferences composition.
#[derive(Clone, Copy)]
struct Focus;

impl RPGStat for Focus {
    fn spec_can_negative() -> bool {
        false
    }
    fn spec_modstyle() -> ModStyle {
        ModStyle::AverageDifferences
    }
    fn spec_multiplier_style() -> MultiplierStyle {
        MultiplierStyle::Additive
    }

    fn can_negative() -> bool {
        false
    }
    fn modstyle() -> ModStyle {
        ModStyle::AverageDifferences
    }
    fn multiplier_style() -> MultiplierStyle {
        MultiplierStyle::Additive
    }
}

/// A stat kind that allows negative values.
#[derive(Clone, Copy)]
struct Temperature;

impl RPGStat for Temperature {
    fn spec_can_negative() -> bool {
        true
    }
    fn spec_modstyle() -> ModStyle {
        ModStyle::AddMul
    }
    fn spec_multiplier_style() -> MultiplierStyle {
        MultiplierStyle::Additive
    }

    fn can_negative() -> bool {
        true
    }
    fn modstyle() -> ModStyle {
        ModStyle::AddMul
    }
    fn multiplier_style() -> MultiplierStyle {
        MultiplierStyle::Additive
    }
}

/// A health-like resource: clamped to `[0, max]`.
#[derive(Clone, Copy)]
struct Health;

impl RPGStat for Health {
    fn spec_can_negative() -> bool {
        false
    }
    fn spec_modstyle() -> ModStyle {
        ModStyle::AddMul
    }
    fn spec_multiplier_style() -> MultiplierStyle {
        MultiplierStyle::Additive
    }

    fn can_negative() -> bool {
        false
    }
    fn modstyle() -> ModStyle {
        ModStyle::AddMul
    }
    fn multiplier_style() -> MultiplierStyle {
        MultiplierStyle::Additive
    }
}

impl RPGResource for Health {
    fn spec_can_overmax() -> bool {
        false
    }

    fn can_overmax() -> bool {
        false
    }
}

/// A resource that may exceed its maximum but not go negative.
#[derive(Clone, Copy)]
struct Rage;

impl RPGStat for Rage {
    fn spec_can_negative() -> bool {
        false
    }
    fn spec_modstyle() -> ModStyle {
        ModStyle::AddMul
    }
    fn spec_multiplier_style() -> MultiplierStyle {
        MultiplierStyle::Additive
    }

    fn can_negative() -> bool {
        false
    }
    fn modstyle() -> ModStyle {
        ModStyle::AddMul
    }
    fn multiplier_style() -> MultiplierStyle {
        MultiplierStyle::Additive
    }
}

impl RPGResource for Rage {
    fn spec_can_overmax() -> bool {
        true
    }

    fn can_overmax() -> bool {
        true
    }
}

#[test]
fn fixed_point_ops_are_exact() {
    assert_eq!(fadd(2500, 1000), 3500);
    assert_eq!(fmul(2500, 500), 1250); // 2.5 * 0.5 == 1.25
    assert_eq!(fmul1p(3500, 500), 5250); // 3.5 * 1.5 == 5.25
    assert_eq!(percent_of(3750, 5000), 750); // 3.75 / 5.0 == 0.75
    assert_eq!(percent_of(1, 0), 0); // zero maximum reads as 0%
    assert_eq!(fdiv_count(-7, 2), -3); // quotients truncate toward zero
    assert_eq!(SCALE, 1000);
}

#[test]
fn fixed_point_ops_saturate() {
    assert_eq!(fadd(i64::MAX, 1), i64::MAX);
    assert_eq!(fadd(i64::MIN, -1), i64::MIN);
    assert_eq!(fmul(i64::MAX, 2000), i64::MAX);
    assert_eq!(fmul(i64::MAX, -2000), i64::MIN);
}

#[test]
fn apply_floors_at_zero_unless_negative_allowed() {
    let harsh = StatValueChange::<Damage>::offset(-3000);
    assert_eq!(harsh.apply(2500), 0); // 2.5 - 3.0 floors at 0

    let harsh = StatValueChange::<Temperature>::offset(-3000);
    assert_eq!(harsh.apply(2500), -500); // the kind allows negatives

    let scale = StatValueChange::<Temperature>::multiplier(-2000);
    assert_eq!(scale.apply(2500), -5000); // 2.5 * -2.0

    let made = StatValueChange::<Damage>::new(500, ModType::Multiplier);
    assert_eq!(made.mod_type, ModType::Multiplier);
    assert_eq!(made.apply(2500), 1250);
}

#[test]
fn addmul_scenario_damage() {
    // Base 2.5 with one +1.0 offset and one +0.5 multiplier: (2.5+1.0)*1.5.
    let mut app = App::<Damage>::new();
    app.register_stat();
    let hero = app.world.spawn_stat(2500);
    let bonus = app.world.spawn_modifier(StatValueChange::offset(1000));
    let fury = app.world.spawn_modifier(StatValueChange::multiplier(500));
    app.world.add_mod_to(hero, bonus);
    app.world.add_mod_to(hero, fury);
    app.tick_stats();
    assert_eq!(app.world.stat_current(hero), Some(5250));
    assert_eq!(app.world.stat_base(hero), Some(2500));
}

#[test]
fn muladd_differs_from_addmul() {
    // Same base and modifiers as the AddMul scenario, opposite order of the
    // two primitives: 2.5*1.5 + 1.0 == 4.75, not 5.25.
    let mut app = App::<Power>::new();
    app.register_stat();
    let hero = app.world.spawn_stat(2500);
    let bonus = app.world.spawn_modifier(StatValueChange::offset(1000));
    let fury = app.world.spawn_modifier(StatValueChange::multiplier(500));
    app.world.add_mod_to(hero, bonus);
    app.world.add_mod_to(hero, fury);
    app.tick_stats();
    assert_eq!(app.world.stat_current(hero), Some(4750));
    assert_ne!(app.world.stat_current(hero), Some(5250));
}

#[test]
fn sumdiff_contributions_do_not_compound() {
    // Offsets against the base, multiplier deltas against the base:
    // (2.5 + 1.0 + 1.0) + (0.5*2.5 + 0.2*2.5) == 6.25.
    let mut app = App::<Might>::new();
    app.register_stat();
    let hero = app.world.spawn_stat(2500);
    let a = app.world.spawn_modifier(StatValueChange::offset(1000));
    let b = app.world.spawn_modifier(StatValueChange::offset(1000));
    let c = app.world.spawn_modifier(StatValueChange::multiplier(500));
    let d = app.world.spawn_modifier(StatValueChange::multiplier(200));
    for m in [a, b, c, d] {
        app.world.add_mod_to(hero, m);
    }
    app.tick_stats();
    assert_eq!(app.world.stat_current(hero), Some(6250));
}

#[test]
fn avediff_divides_by_total_count() {
    // (sum_offsets + multiplier deltas) / count: (3.5 + 1.25) / 2 == 2.375.
    let mut app = App::<Focus>::new();
    app.register_stat();
    let hero = app.world.spawn_stat(2500);
    let bonus = app.world.spawn_modifier(StatValueChange::offset(1000));
    let fury = app.world.spawn_modifier(StatValueChange::multiplier(500));
    app.world.add_mod_to(hero, bonus);
    app.world.add_mod_to(hero, fury);
    app.tick_stats();
    assert_eq!(app.world.stat_current(hero), Some(2375));
}

#[test]
fn avediff_with_one_modifier_matches_sumdiff() {
    let mut ave = App::<Focus>::new();
    ave.register_stat();
    let hero = ave.world.spawn_stat(2500);
    let bonus = ave.world.spawn_modifier(StatValueChange::offset(1000));
    ave.world.add_mod_to(hero, bonus);
    ave.tick_stats();

    let mut sum = App::<Might>::new();
    sum.register_stat();
    let hero2 = sum.world.spawn_stat(2500);
    let bonus2 = sum.world.spawn_modifier(StatValueChange::offset(1000));
    sum.world.add_mod_to(hero2, bonus2);
    sum.tick_stats();

    assert_eq!(ave.world.stat_current(hero), Some(3500));
    assert_eq!(ave.world.stat_current(hero), sum.world.stat_current(hero2));
}

#[test]
fn avediff_counts_stale_references() {
    // A dangling reference contributes no value but still counts in the
    // divisor: (2.5 + 1.0 + 0) / 2 == 1.75.
    let mut app = App::<Focus>::new();
    let plugin = StatPlugin;
    plugin.build(&mut app);
    app.register_stat();
    let hero = app.world.spawn_stat(2500);
    let bonus = app.world.spawn_modifier(StatValueChange::offset(1000));
    let doomed = app.world.spawn_modifier(StatValueChange::offset(9000));
    app.world.add_mod_to(hero, bonus);
    app.world.add_mod_to(hero, doomed);
    app.world.send_delete(DeleteStatMod(doomed));
    app.tick_stats();
    assert_eq!(app.world.stat_current(hero), Some(1750));
}

#[test]
fn avediff_with_no_modifiers_is_zero() {
    // The degenerate division is defined as zero rather than a fault.
    let mut app = App::<Focus>::new();
    app.register_stat();
    let hero = app.world.spawn_stat(2500);
    app.tick_stats();
    assert_eq!(app.world.stat_current(hero), Some(0));
}

#[test]
fn deleted_modifier_is_gone_and_skipped() {
    // Deletion runs before aggregation, so the effect is gone in the same
    // tick, and the stale reference is skipped without fault.
    let mut app = App::<Damage>::new();
    let plugin = StatPlugin;
    plugin.build(&mut app);
    app.register_stat();
    let hero = app.world.spawn_stat(2500);
    let bonus = app.world.spawn_modifier(StatValueChange::offset(1000));
    let fury = app.world.spawn_modifier(StatValueChange::multiplier(500));
    app.world.add_mod_to(hero, bonus);
    app.world.add_mod_to(hero, fury);
    app.tick_stats();
    assert_eq!(app.world.stat_current(hero), Some(5250));

    app.world.send_delete(DeleteStatMod(fury));
    app.tick_stats();
    assert!(!app.world.modifier_exists(fury));
    assert!(app.world.modifier_exists(bonus));

    // Same value as a world where the multiplier was never attached.
    let mut plain = App::<Damage>::new();
    plain.register_stat();
    let hero2 = plain.world.spawn_stat(2500);
    let bonus2 = plain.world.spawn_modifier(StatValueChange::offset(1000));
    plain.world.add_mod_to(hero2, bonus2);
    plain.tick_stats();
    assert_eq!(app.world.stat_current(hero), plain.world.stat_current(hero2));
    assert_eq!(app.world.stat_current(hero), Some(3500));
}

#[test]
fn mismatched_reference_is_ignored() {
    // A reference to an entity that holds no modifier record contributes
    // nothing: it is filtered, never an error.
    let mut app = App::<Damage>::new();
    app.register_stat();
    let hero = app.world.spawn_stat(2500);
    let other = app.world.spawn_stat(100);
    app.world.add_mod_to(hero, other);
    app.tick_stats();
    assert_eq!(app.world.stat_current(hero), Some(2500));
}

#[test]
fn zero_offset_event_changes_nothing() {
    let mut app = App::<Damage>::new();
    app.register_stat();
    let hero = app.world.spawn_stat(2500);
    app.tick_stats();
    app.world.send_stat_change(StatChangeEvent {
        change: StatValueChange::offset(0),
        target: hero,
    });
    app.tick_stats();
    assert_eq!(app.world.stat_base(hero), Some(2500));
    assert_eq!(app.world.stat_current(hero), Some(2500));
}

#[test]
fn stat_change_event_moves_the_base() {
    let mut app = App::<Damage>::new();
    app.register_stat();
    let hero = app.world.spawn_stat(2500);
    app.world.send_stat_change(StatChangeEvent {
        change: StatValueChange::offset(500),
        target: hero,
    });
    app.tick_stats();
    assert_eq!(app.world.stat_base(hero), Some(3000));
    assert_eq!(app.world.stat_current(hero), Some(3000));
    assert_eq!(app.world.stat_events.len(), 0); // drained once consumed
}

#[test]
fn event_for_missing_target_is_dropped() {
    let mut app = App::<Damage>::new();
    app.register_stat();
    let hero = app.world.spawn_stat(2500);
    app.world.send_stat_change(StatChangeEvent {
        change: StatValueChange::offset(500),
        target: 9999,
    });
    app.tick_stats();
    assert_eq!(app.world.stat_base(hero), Some(2500));
    assert_eq!(app.world.stat_events.len(), 0);
}

#[test]
fn health_resource_scenario() {
    // Max 5.0, current 5.0; -1.25 gives 3.75 at 75%; -10 clamps to 0 at 0%.
    let mut app = App::<Health>::new();
    app.register_resource();
    let hero = app.world.spawn_resource(5000);
    app.tick();
    assert_eq!(app.world.resource_state(hero), Some((5000, 1000)));

    app.world.send_resource_change(ResourceChangeEvent {
        change: StatValueChange::offset(-1250),
        target: hero,
    });
    app.tick();
    assert_eq!(app.world.resource_state(hero), Some((3750, 750)));

    app.world.send_resource_change(ResourceChangeEvent {
        change: StatValueChange::offset(-10000),
        target: hero,
    });
    app.tick();
    assert_eq!(app.world.resource_state(hero), Some((0, 0)));
    assert_eq!(app.world.resource_events.len(), 0);
}

#[test]
fn resource_cannot_exceed_maximum() {
    let mut app = App::<Health>::new();
    app.register_resource();
    let hero = app.world.spawn_resource(5000);
    app.world.send_resource_change(ResourceChangeEvent {
        change: StatValueChange::offset(2000),
        target: hero,
    });
    app.tick();
    assert_eq!(app.world.resource_state(hero), Some((5000, 1000)));
}

#[test]
fn overmax_resource_may_exceed_maximum() {
    let mut app = App::<Rage>::new();
    app.register_resource();
    let hero = app.world.spawn_resource(5000);
    app.world.send_resource_change(ResourceChangeEvent {
        change: StatValueChange::offset(2000),
        target: hero,
    });
    app.tick();
    assert_eq!(app.world.resource_state(hero), Some((7000, 1400)));
}

#[test]
fn moving_maximum_drags_resource_down() {
    // The paired stat's derived value is the maximum; when a change event
    // lowers the base, the per-tick cap pulls the resource current with it.
    let mut app = App::<Health>::new();
    app.register_resource();
    let hero = app.world.spawn_resource(5000);
    app.tick();
    app.world.send_stat_change(StatChangeEvent {
        change: StatValueChange::offset(-2000),
        target: hero,
    });
    app.tick();
    assert_eq!(app.world.stat_current(hero), Some(3000));
    assert_eq!(app.world.resource_state(hero), Some((3000, 1000)));
}

#[test]
fn resource_event_for_missing_target_is_dropped() {
    let mut app = App::<Health>::new();
    app.register_resource();
    let hero = app.world.spawn_resource(5000);
    app.world.send_resource_change(ResourceChangeEvent {
        change: StatValueChange::offset(-1000),
        target: 424242,
    });
    app.tick();
    assert_eq!(app.world.resource_state(hero), Some((5000, 1000)));
    assert_eq!(app.world.resource_events.len(), 0);
}

#[test]
fn percent_against_zero_maximum_is_zero() {
    let mut app = App::<Health>::new();
    app.register_resource();
    let hero = app.world.spawn_resource(0);
    app.world.send_resource_change(ResourceChangeEvent {
        change: StatValueChange::offset(0),
        target: hero,
    });
    app.tick();
    assert_eq!(app.world.resource_state(hero), Some((0, 0)));
}

#[test]
fn registration_builds_the_declared_schedule() {
    let mut app = App::<Damage>::new();
    let plugin = StatPlugin;
    plugin.build(&mut app);
    app.register_stat();
    assert_eq!(
        app.schedule,
        vec![
            SystemStep::DeleteStatMods,
            SystemStep::ChangeStats,
            SystemStep::UpdateAddMul,
        ]
    );

    let mut res = App::<Health>::new();
    res.register_resource();
    assert_eq!(
        res.schedule,
        vec![
            SystemStep::ChangeStats,
            SystemStep::UpdateAddMul,
            SystemStep::ChangeResources,
            SystemStep::EnsureMaxStat,
            SystemStep::EnsureMaxStatWithPercentage,
        ]
    );

    let mut ave = App::<Focus>::new();
    ave.register_stat();
    assert_eq!(
        ave.schedule,
        vec![SystemStep::ChangeStats, SystemStep::UpdateAveDiff]
    );

    let mut mul = App::<Power>::new();
    mul.register_stat();
    assert_eq!(
        mul.schedule,
        vec![SystemStep::ChangeStats, SystemStep::UpdateMulAdd]
    );

    let mut sum = App::<Might>::new();
    sum.register_stat();
    assert_eq!(
        sum.schedule,
        vec![SystemStep::ChangeStats, SystemStep::UpdateSumDiff]
    );
}

#[test]
fn registerable_trait_mirrors_inherent_methods() {
    let mut app = App::<Health>::new();
    StatRegisterable::register_stat(&mut app);
    assert_eq!(
        app.schedule,
        vec![SystemStep::ChangeStats, SystemStep::UpdateAddMul]
    );
    let mut res = App::<Health>::new();
    StatRegisterable::register_resource(&mut res);
    assert_eq!(res.schedule.len(), 5);
}

#[test]
fn stat_mod_list_is_front_inserted() {
    let mut stat = Stat::<Damage>::new(1000);
    assert_eq!(stat.current_value(), 1000);
    assert_eq!(stat.mod_count(), 0);
    stat.add_mod(7);
    stat.add_mod(8);
    assert_eq!(stat.mod_count(), 2);
    assert_eq!(stat.mods, vec![8, 7]); // most recently added first
}

#[test]
fn remove_mod_takes_first_match_only() {
    let mut stat = Stat::<Damage>::new(1000);
    stat.add_mod(7);
    stat.add_mod(8);
    stat.add_mod(7);
    stat.remove_mod(7);
    assert_eq!(stat.mods, vec![8, 7]);
    stat.remove_mod(99); // absent: a no-op
    assert_eq!(stat.mods, vec![8, 7]);
    stat.remove_mod(7);
    stat.remove_mod(8);
    assert_eq!(stat.mod_count(), 0);
}

#[test]
fn multiplier_event_scales_resource_current() {
    // A multiplier change scales the current value itself: 5.0 * 0.5 == 2.5.
    let mut app = App::<Health>::new();
    app.register_resource();
    let hero = app.world.spawn_resource(5000);
    app.world.send_resource_change(ResourceChangeEvent {
        change: StatValueChange::multiplier(500),
        target: hero,
    });
    app.tick();
    assert_eq!(app.world.resource_state(hero), Some((2500, 500)));
}

#[test]
fn aggregation_updates_every_entity_independently() {
    let mut app = App::<Damage>::new();
    app.register_stat();
    let hero = app.world.spawn_stat(2500);
    let ally = app.world.spawn_stat(4000);
    let bonus = app.world.spawn_modifier(StatValueChange::offset(1000));
    app.world.add_mod_to(hero, bonus);
    app.tick_stats();
    assert_eq!(app.world.stat_current(hero), Some(3500));
    assert_eq!(app.world.stat_current(ally), Some(4000));
}

#[test]
fn one_modifier_referenced_twice_counts_twice() {
    // The same modifier entity attached twice contributes twice.
    let mut app = App::<Damage>::new();
    app.register_stat();
    let hero = app.world.spawn_stat(2500);
    let bonus = app.world.spawn_modifier(StatValueChange::offset(1000));
    app.world.add_mod_to(hero, bonus);
    app.world.add_mod_to(hero, bonus);
    app.tick_stats();
    assert_eq!(app.world.stat_current(hero), Some(4500));
}

#[test]
fn events_apply_in_arrival_order() {
    // Floor at zero happens per event: (2.5 - 10) floors to 0, then +1.0.
    let mut app = App::<Damage>::new();
    app.register_stat();
    let hero = app.world.spawn_stat(2500);
    app.world.send_stat_change(StatChangeEvent {
        change: StatValueChange::offset(-10000),
        target: hero,
    });
    app.world.send_stat_change(StatChangeEvent {
        change: StatValueChange::offset(1000),
        target: hero,
    });
    app.tick_stats();
    assert_eq!(app.world.stat_base(hero), Some(1000));
}
