//! A stat and resource aggregation engine for tick-based simulations.
//!
//! Numeric attributes ("stats") derive a current value every tick from a base
//! value and an ordered list of modifier references, composed by one of four
//! interchangeable styles. Depletable attributes ("resources") additionally
//! track a current value clamped against the paired stat's derived maximum.
//! Typed change events adjust bases and resource currents once per tick.
//!
//! Registration is an explicit builder: [`StatPlugin`] and the register calls
//! collect the routines a stat kind needs into an [`App`]'s schedule, in the
//! order they must run, and [`App::tick`] executes one deterministic pass.
use vstd::prelude::*;

pub mod fixed;
pub mod resource;
pub mod stat;
pub mod statmod;
pub mod systems;
pub mod world;

pub use resource::RPGResource;
pub use resource::Resource;
pub use stat::RPGStat;
pub use stat::Stat;
pub use statmod::DeleteStatMod;
pub use statmod::ModStyle;
pub use statmod::ResourceChangeEvent;
pub use statmod::StatChangeEvent;

verus! {

use crate::resource::spec_ensure_max;
use crate::resource::spec_ensure_max_pct;
use crate::resource::spec_percent_consistent;
use crate::resource::ensure_max_stat;
use crate::resource::ensure_max_stat_with_percentage;
use crate::stat::spec_aggregated;
use crate::stat::update_modded_stats_addmul;
use crate::stat::update_modded_stats_avediff;
use crate::stat::update_modded_stats_muladd;
use crate::stat::update_modded_stats_sumdiff;
use crate::systems::spec_apply_resource_events;
use crate::systems::spec_apply_stat_events;
use crate::systems::spec_delete_mods;
use crate::systems::spec_stat_current_of;
use crate::systems::change_resource;
use crate::systems::change_stat;
use crate::systems::delete_stat_mod;
use crate::world::ModEntry;
use crate::world::ResourceEntry;
use crate::world::StatEntry;
use crate::world::StatWorld;

/// One registered per-tick routine.
#[derive(Debug, PartialEq, Eq, Structural, Clone, Copy)]
pub enum SystemStep {
    /// Destroy the modifier entities named by queued deletion events.
    DeleteStatMods,
    /// Apply queued base-value changes.
    ChangeStats,
    /// Recompute stat currents under the AddMul style.
    UpdateAddMul,
    /// Recompute stat currents under the MulAdd style.
    UpdateMulAdd,
    /// Recompute stat currents under the SumDifferences style.
    UpdateSumDiff,
    /// Recompute stat currents under the AverageDifferences style.
    UpdateAveDiff,
    /// Apply queued resource-current changes.
    ChangeResources,
    /// Cap resource currents at their paired maxima.
    EnsureMaxStat,
    /// Cap resource currents and refresh their percentages.
    EnsureMaxStatWithPercentage,
}

/// A step that only a resource kind may register.
pub open spec fn spec_is_resource_step(step: SystemStep) -> bool {
    match step {
        SystemStep::ChangeResources => true,
        SystemStep::EnsureMaxStat => true,
        SystemStep::EnsureMaxStatWithPercentage => true,
        _ => false,
    }
}

/// The mathematical state of a [`StatWorld`]: its tables and queues as
/// sequences.
pub ghost struct WorldSnap<T: RPGStat> {
    pub stats: Seq<StatEntry<T>>,
    pub resources: Seq<ResourceEntry<T>>,
    pub mods: Seq<ModEntry<T>>,
    pub stat_events: Seq<StatChangeEvent<T>>,
    pub resource_events: Seq<ResourceChangeEvent<T>>,
    pub delete_events: Seq<DeleteStatMod>,
}

impl<T: RPGStat> StatWorld<T> {
    /// This world's tables and queues as one mathematical value.
    pub open spec fn snap(self) -> WorldSnap<T> {
        WorldSnap {
            stats: self.stats@,
            resources: self.resources@,
            mods: self.mods@,
            stat_events: self.stat_events@,
            resource_events: self.resource_events@,
            delete_events: self.delete_events@,
        }
    }
}

/// The world after one registered routine has run.
pub open spec fn spec_run_step<T: RPGStat>(
    w: WorldSnap<T>,
    step: SystemStep,
    can_negative: bool,
    can_overmax: bool,
) -> WorldSnap<T> {
    match step {
        SystemStep::DeleteStatMods => WorldSnap {
            stats: w.stats,
            resources: w.resources,
            mods: spec_delete_mods(w.mods, w.delete_events),
            stat_events: w.stat_events,
            resource_events: w.resource_events,
            delete_events: Seq::empty(),
        },
        SystemStep::ChangeStats => WorldSnap {
            stats: spec_apply_stat_events(w.stats, w.stat_events, can_negative),
            resources: w.resources,
            mods: w.mods,
            stat_events: Seq::empty(),
            resource_events: w.resource_events,
            delete_events: w.delete_events,
        },
        SystemStep::UpdateAddMul => WorldSnap {
            stats: w.stats.map_values(
                |e: StatEntry<T>| spec_aggregated(e, w.mods, ModStyle::AddMul),
            ),
            resources: w.resources,
            mods: w.mods,
            stat_events: w.stat_events,
            resource_events: w.resource_events,
            delete_events: w.delete_events,
        },
        SystemStep::UpdateMulAdd => WorldSnap {
            stats: w.stats.map_values(
                |e: StatEntry<T>| spec_aggregated(e, w.mods, ModStyle::MulAdd),
            ),
            resources: w.resources,
            mods: w.mods,
            stat_events: w.stat_events,
            resource_events: w.resource_events,
            delete_events: w.delete_events,
        },
        SystemStep::UpdateSumDiff => WorldSnap {
            stats: w.stats.map_values(
                |e: StatEntry<T>| spec_aggregated(e, w.mods, ModStyle::SumDifferences),
            ),
            resources: w.resources,
            mods: w.mods,
            stat_events: w.stat_events,
            resource_events: w.resource_events,
            delete_events: w.delete_events,
        },
        SystemStep::UpdateAveDiff => WorldSnap {
            stats: w.stats.map_values(
                |e: StatEntry<T>| spec_aggregated(e, w.mods, ModStyle::AverageDifferences),
            ),
            resources: w.resources,
            mods: w.mods,
            stat_events: w.stat_events,
            resource_events: w.resource_events,
            delete_events: w.delete_events,
        },
        SystemStep::ChangeResources => WorldSnap {
            stats: w.stats,
            resources: spec_apply_resource_events(
                w.resources,
                w.stats,
                w.resource_events,
                can_negative,
                can_overmax,
            ),
            mods: w.mods,
            stat_events: w.stat_events,
            resource_events: Seq::empty(),
            delete_events: w.delete_events,
        },
        SystemStep::EnsureMaxStat => WorldSnap {
            stats: w.stats,
            resources: w.resources.map_values(
                |r: ResourceEntry<T>| spec_ensure_max(r, w.stats, can_overmax),
            ),
            mods: w.mods,
            stat_events: w.stat_events,
            resource_events: w.resource_events,
            delete_events: w.delete_events,
        },
        SystemStep::EnsureMaxStatWithPercentage => WorldSnap {
            stats: w.stats,
            resources: w.resources.map_values(
                |r: ResourceEntry<T>| spec_ensure_max_pct(r, w.stats, can_overmax),
            ),
            mods: w.mods,
            stat_events: w.stat_events,
            resource_events: w.resource_events,
            delete_events: w.delete_events,
        },
    }
}

/// The world after the scheduled routines have run in order.
pub open spec fn spec_run_schedule<T: RPGStat>(
    w: WorldSnap<T>,
    steps: Seq<SystemStep>,
    can_negative: bool,
    can_overmax: bool,
) -> WorldSnap<T>
    decreases steps.len(),
{
    if steps.len() == 0 {
        w
    } else {
        spec_run_step(
            spec_run_schedule(w, steps.drop_last(), can_negative, can_overmax),
            steps.last(),
            can_negative,
            can_overmax,
        )
    }
}

/// A schedule that ends with the percentage-refreshing cap — as every
/// schedule built by resource registration does — leaves every resource
/// entry with a paired stat holding `percent == current / max`, and, when
/// the kind forbids exceeding the maximum, `current <= max`.
pub proof fn lemma_tick_restores_percent<T: RPGStat>(
    w: WorldSnap<T>,
    steps: Seq<SystemStep>,
    can_negative: bool,
    can_overmax: bool,
)
    requires
        steps.len() > 0,
        steps.last() == SystemStep::EnsureMaxStatWithPercentage,
    ensures
        forall|k: int|
            0 <= k < spec_run_schedule(w, steps, can_negative, can_overmax).resources.len()
                ==> spec_percent_consistent(
                #[trigger] spec_run_schedule(w, steps, can_negative, can_overmax).resources[k],
                spec_run_schedule(w, steps, can_negative, can_overmax).stats,
                can_overmax,
            ),
{
    let prev = spec_run_schedule(w, steps.drop_last(), can_negative, can_overmax);
    let out = spec_run_schedule(w, steps, can_negative, can_overmax);
    assert(out == spec_run_step(prev, SystemStep::EnsureMaxStatWithPercentage, can_negative,
        can_overmax));
    assert forall|k: int| 0 <= k < out.resources.len() implies spec_percent_consistent(
        #[trigger] out.resources[k],
        out.stats,
        can_overmax,
    ) by {
        assert(out.resources[k] == spec_ensure_max_pct(prev.resources[k], prev.stats,
            can_overmax));
    };
}

/// The per-kind engine: a world of entities and the ordered schedule of
/// routines one tick runs. Registration appends routines; their order is the
/// order of the registration calls, so constraints such as "deletion before
/// aggregation" are set by registering in that order.
#[derive(Debug)]
pub struct App<T: RPGStat> {
    pub world: StatWorld<T>,
    pub schedule: Vec<SystemStep>,
}

impl<T: RPGStat> App<T> {
    pub fn new() -> (app: Self)
        ensures
            app.world.wf(),
            app.world.snap().stats.len() == 0,
            app.world.snap().resources.len() == 0,
            app.world.snap().mods.len() == 0,
            app.world.snap().stat_events.len() == 0,
            app.world.snap().resource_events.len() == 0,
            app.world.snap().delete_events.len() == 0,
            app.schedule@ == Seq::<SystemStep>::empty(),
    {
        App { world: StatWorld::new(), schedule: Vec::new() }
    }

    /// Registers the stat kind: consuming its base-change events, then
    /// recomputing currents with the aggregation routine the kind's declared
    /// composition style selects.
    pub fn register_stat(&mut self)
        ensures
            final(self).world == old(self).world,
            final(self).schedule@ == old(self).schedule@.push(SystemStep::ChangeStats).push(
                match T::spec_modstyle() {
                    ModStyle::AddMul => SystemStep::UpdateAddMul,
                    ModStyle::MulAdd => SystemStep::UpdateMulAdd,
                    ModStyle::SumDifferences => SystemStep::UpdateSumDiff,
                    ModStyle::AverageDifferences => SystemStep::UpdateAveDiff,
                },
            ),
    {
        self.schedule.push(SystemStep::ChangeStats);
        match T::modstyle() {
            ModStyle::AddMul => {
                self.schedule.push(SystemStep::UpdateAddMul);
            },
            ModStyle::MulAdd => {
                self.schedule.push(SystemStep::UpdateMulAdd);
            },
            ModStyle::AverageDifferences => {
                self.schedule.push(SystemStep::UpdateAveDiff);
            },
            ModStyle::SumDifferences => {
                self.schedule.push(SystemStep::UpdateSumDiff);
            },
        }
    }

    /// Runs one tick for a kind that registered no resource routine. The
    /// schedule must hold stat routines only; what each routine does is given
    /// by [`spec_run_schedule`], whose overmax flag such a schedule never
    /// reads.
    pub fn tick_stats(&mut self)
        requires
            forall|k: int|
                0 <= k < old(self).schedule@.len() ==> !spec_is_resource_step(
                    #[trigger] old(self).schedule@[k],
                ),
        ensures
            final(self).schedule@ == old(self).schedule@,
            final(self).world.next_entity == old(self).world.next_entity,
            forall|co: bool|
                final(self).world.snap() == spec_run_schedule(
                    old(self).world.snap(),
                    old(self).schedule@,
                    T::spec_can_negative(),
                    co,
                ),
    {
        let ghost orig = self.world.snap();
        let ghost sched = self.schedule@;
        let n = self.schedule.len();
        let mut i: usize = 0;
        while i < n
            invariant
                sched == old(self).schedule@,
                orig == old(self).world.snap(),
                self.schedule@ == sched,
                n == sched.len(),
                0 <= i <= n,
                self.world.next_entity == old(self).world.next_entity,
                forall|k: int| 0 <= k < n ==> !spec_is_resource_step(#[trigger] sched[k]),
                forall|co: bool|
                    self.world.snap() == spec_run_schedule(orig, sched.take(i as int),
                        T::spec_can_negative(), co,
                    ),
            decreases n - i,
        {
            proof {
                assert(sched.take(i + 1).drop_last() =~= sched.take(i as int));
                assert(sched.take(i + 1).last() == sched[i as int]);
            }
            let ghost prev = self.world.snap();
            let step = self.schedule[i];
            match step {
                SystemStep::DeleteStatMods => {
                    delete_stat_mod(&mut self.world.delete_events, &mut self.world.mods);
                    proof {
                        assert(self.world.delete_events@ =~= Seq::<DeleteStatMod>::empty());
                    }
                },
                SystemStep::ChangeStats => {
                    change_stat(&mut self.world.stat_events, &mut self.world.stats);
                    proof {
                        assert(self.world.stat_events@ =~= Seq::<StatChangeEvent<T>>::empty());
                    }
                },
                SystemStep::UpdateAddMul => {
                    update_modded_stats_addmul(&mut self.world.stats, &self.world.mods);
                    proof {
                        assert(self.world.stats@ =~= prev.stats.map_values(
                            |e: StatEntry<T>| spec_aggregated(e, prev.mods, ModStyle::AddMul),
                        ));
                    }
                },
                SystemStep::UpdateMulAdd => {
                    update_modded_stats_muladd(&mut self.world.stats, &self.world.mods);
                    proof {
                        assert(self.world.stats@ =~= prev.stats.map_values(
                            |e: StatEntry<T>| spec_aggregated(e, prev.mods, ModStyle::MulAdd),
                        ));
                    }
                },
                SystemStep::UpdateSumDiff => {
                    update_modded_stats_sumdiff(&mut self.world.stats, &self.world.mods);
                    proof {
                        assert(self.world.stats@ =~= prev.stats.map_values(
                            |e: StatEntry<T>|
                                spec_aggregated(e, prev.mods, ModStyle::SumDifferences),
                        ));
                    }
                },
                SystemStep::UpdateAveDiff => {
                    update_modded_stats_avediff(&mut self.world.stats, &self.world.mods);
                    proof {
                        assert(self.world.stats@ =~= prev.stats.map_values(
                            |e: StatEntry<T>|
                                spec_aggregated(e, prev.mods, ModStyle::AverageDifferences),
                        ));
                    }
                },
                // The precondition keeps resource routines out of this
                // schedule, so these arms cannot be reached.
                SystemStep::ChangeResources => {},
                SystemStep::EnsureMaxStat => {},
                SystemStep::EnsureMaxStatWithPercentage => {},
            }
            proof {
                assert forall|co: bool|
                    self.world.snap() == #[trigger] spec_run_schedule(orig, sched.take(i + 1),
                        T::spec_can_negative(), co,
                    ) by {
                    assert(spec_run_schedule(orig, sched.take(i as int), T::spec_can_negative(),
                        co) == prev);
                    assert(self.world.snap() == spec_run_step(prev, sched[i as int],
                        T::spec_can_negative(), co));
                };
            }
            i += 1;
        }
        proof {
            assert(sched.take(n as int) =~= sched);
        }
    }
}

impl<T: RPGResource> App<T> {
    /// Registers the resource kind: its stat routines first, then resource
    /// change consumption, the maximum cap, and the percentage refresh. A
    /// kind without the resource capabilities cannot request these routines:
    /// the bound rejects the misconfiguration at registration time.
    pub fn register_resource(&mut self)
        ensures
            final(self).world == old(self).world,
            final(self).schedule@ == old(self).schedule@.push(SystemStep::ChangeStats).push(
                match T::spec_modstyle() {
                    ModStyle::AddMul => SystemStep::UpdateAddMul,
                    ModStyle::MulAdd => SystemStep::UpdateMulAdd,
                    ModStyle::SumDifferences => SystemStep::UpdateSumDiff,
                    ModStyle::AverageDifferences => SystemStep::UpdateAveDiff,
                },
            ).push(SystemStep::ChangeResources).push(SystemStep::EnsureMaxStat).push(
                SystemStep::EnsureMaxStatWithPercentage,
            ),
    {
        self.register_stat();
        self.schedule.push(SystemStep::ChangeResources);
        self.schedule.push(SystemStep::EnsureMaxStat);
        self.schedule.push(SystemStep::EnsureMaxStatWithPercentage);
    }

    /// Runs one tick: every registered routine once, in registration order.
    pub fn tick(&mut self)
        ensures
            final(self).schedule@ == old(self).schedule@,
            final(self).world.next_entity == old(self).world.next_entity,
            final(self).world.snap() == spec_run_schedule(
                old(self).world.snap(),
                old(self).schedule@,
                T::spec_can_negative(),
                T::spec_can_overmax(),
            ),
    {
        let ghost orig = self.world.snap();
        let ghost sched = self.schedule@;
        let n = self.schedule.len();
        let mut i: usize = 0;
        while i < n
            invariant
                sched == old(self).schedule@,
                orig == old(self).world.snap(),
                self.schedule@ == sched,
                n == sched.len(),
                0 <= i <= n,
                self.world.next_entity == old(self).world.next_entity,
                self.world.snap() == spec_run_schedule(orig, sched.take(i as int),
                    T::spec_can_negative(), T::spec_can_overmax(),
                ),
            decreases n - i,
        {
            proof {
                assert(sched.take(i + 1).drop_last() =~= sched.take(i as int));
                assert(sched.take(i + 1).last() == sched[i as int]);
            }
            let ghost prev = self.world.snap();
            let step = self.schedule[i];
            match step {
                SystemStep::DeleteStatMods => {
                    delete_stat_mod(&mut self.world.delete_events, &mut self.world.mods);
                    proof {
                        assert(self.world.delete_events@ =~= Seq::<DeleteStatMod>::empty());
                    }
                },
                SystemStep::ChangeStats => {
                    change_stat(&mut self.world.stat_events, &mut self.world.stats);
                    proof {
                        assert(self.world.stat_events@ =~= Seq::<StatChangeEvent<T>>::empty());
                    }
                },
                SystemStep::UpdateAddMul => {
                    update_modded_stats_addmul(&mut self.world.stats, &self.world.mods);
                    proof {
                        assert(self.world.stats@ =~= prev.stats.map_values(
                            |e: StatEntry<T>| spec_aggregated(e, prev.mods, ModStyle::AddMul),
                        ));
                    }
                },
                SystemStep::UpdateMulAdd => {
                    update_modded_stats_muladd(&mut self.world.stats, &self.world.mods);
                    proof {
                        assert(self.world.stats@ =~= prev.stats.map_values(
                            |e: StatEntry<T>| spec_aggregated(e, prev.mods, ModStyle::MulAdd),
                        ));
                    }
                },
                SystemStep::UpdateSumDiff => {
                    update_modded_stats_sumdiff(&mut self.world.stats, &self.world.mods);
                    proof {
                        assert(self.world.stats@ =~= prev.stats.map_values(
                            |e: StatEntry<T>|
                                spec_aggregated(e, prev.mods, ModStyle::SumDifferences),
                        ));
                    }
                },
                SystemStep::UpdateAveDiff => {
                    update_modded_stats_avediff(&mut self.world.stats, &self.world.mods);
                    proof {
                        assert(self.world.stats@ =~= prev.stats.map_values(
                            |e: StatEntry<T>|
                                spec_aggregated(e, prev.mods, ModStyle::AverageDifferences),
                        ));
                    }
                },
                SystemStep::ChangeResources => {
                    change_resource(
                        &mut self.world.resource_events,
                        &mut self.world.resources,
                        &self.world.stats,
                    );
                    proof {
                        assert(self.world.resource_events@ =~= Seq::<
                            ResourceChangeEvent<T>,
                        >::empty());
                    }
                },
                SystemStep::EnsureMaxStat => {
                    ensure_max_stat(&mut self.world.resources, &self.world.stats);
                    proof {
                        assert(self.world.resources@ =~= prev.resources.map_values(
                            |r: ResourceEntry<T>|
                                spec_ensure_max(r, prev.stats, T::spec_can_overmax()),
                        ));
                    }
                },
                SystemStep::EnsureMaxStatWithPercentage => {
                    ensure_max_stat_with_percentage(&mut self.world.resources, &self.world.stats);
                    proof {
                        assert(self.world.resources@ =~= prev.resources.map_values(
                            |r: ResourceEntry<T>|
                                spec_ensure_max_pct(r, prev.stats, T::spec_can_overmax()),
                        ));
                    }
                },
            }
            i += 1;
        }
        proof {
            assert(sched.take(n as int) =~= sched);
        }
    }
}

/// The engine's base plugin: registers the deletion routine that consumes
/// `DeleteStatMod` events. Build it before registering kinds whose tests need
/// "modifier gone implies effect gone" within the same tick: deletion then
/// runs before aggregation.
#[derive(Debug, PartialEq, Eq, Structural, Clone, Copy)]
pub struct StatPlugin;

impl StatPlugin {
    pub fn build<T: RPGStat>(&self, app: &mut App<T>)
        ensures
            final(app).world == old(app).world,
            final(app).schedule@ == old(app).schedule@.push(SystemStep::DeleteStatMods),
    {
        app.schedule.push(SystemStep::DeleteStatMods);
    }
}

/// The registration surface an engine offers to stat kinds, mirrored by
/// [`App`]'s inherent methods, which carry the contracts.
pub trait StatRegisterable {
    fn register_stat(&mut self);

    fn register_resource(&mut self);
}

impl<T: RPGResource> StatRegisterable for App<T> {
    fn register_stat(&mut self) {
        App::register_stat(self);
    }

    fn register_resource(&mut self) {
        App::register_resource(self);
    }
}

} // verus!
