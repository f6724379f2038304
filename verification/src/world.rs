//! The model of the host entity store: an arena of numbered entities carrying
//! stat, resource, or modifier components of one stat kind, plus the event
//! queues drained once per tick.
use vstd::prelude::*;

verus! {

use crate::fixed::SCALE;
use crate::resource::Resource;
use crate::stat::RPGStat;
use crate::stat::Stat;
use crate::systems::find_stat_current;
use crate::systems::spec_resolve;
use crate::systems::spec_stat_current_of;
use crate::systems::lemma_resolve_found;
use crate::systems::lemma_resolve_none;
use crate::statmod::DeleteStatMod;
use crate::statmod::ResourceChangeEvent;
use crate::statmod::StatChangeEvent;
use crate::statmod::StatModifier;
use crate::statmod::StatValueChange;

/// An opaque entity identifier. Destroyed entities never come back: their
/// numbers are not reused, so a stale reference resolves to nothing.
pub type Entity = u64;

/// An entity holding a stat of kind `T`.
#[derive(Debug)]
pub struct StatEntry<T: RPGStat> {
    pub id: Entity,
    pub stat: Stat<T>,
}

/// An entity holding a resource of kind `T`.
#[derive(Debug)]
pub struct ResourceEntry<T: RPGStat> {
    pub id: Entity,
    pub resource: Resource<T>,
}

/// A modifier entity: the pure-modifier marker and the change it contributes.
#[derive(Debug)]
pub struct ModEntry<T: RPGStat> {
    pub id: Entity,
    pub marker: StatModifier,
    pub change: StatValueChange<T>,
}

/// The base value of the first stat entry with this identifier, if any.
pub open spec fn spec_stat_base_of<T: RPGStat>(entries: Seq<StatEntry<T>>, e: Entity) -> Option<
    i64,
>
    decreases entries.len(),
{
    if entries.len() == 0 {
        None
    } else if entries.first().id == e {
        Some(entries.first().stat.base)
    } else {
        spec_stat_base_of(entries.drop_first(), e)
    }
}

proof fn lemma_stat_base_found<T: RPGStat>(entries: Seq<StatEntry<T>>, e: Entity, i: int)
    requires
        0 <= i < entries.len(),
        entries[i].id == e,
        forall|j: int| 0 <= j < i ==> entries[j].id != e,
    ensures
        spec_stat_base_of(entries, e) == Some(entries[i].stat.base),
    decreases entries.len(),
{
    if entries.first().id == e {
        assert(i == 0);
    } else {
        assert(entries.drop_first()[i - 1].id == e);
        assert(forall|j: int| 0 <= j < i - 1 ==> entries.drop_first()[j].id != e);
        lemma_stat_base_found(entries.drop_first(), e, i - 1);
    }
}

proof fn lemma_stat_base_none<T: RPGStat>(entries: Seq<StatEntry<T>>, e: Entity)
    requires
        forall|j: int| 0 <= j < entries.len() ==> entries[j].id != e,
    ensures
        spec_stat_base_of(entries, e) is None,
    decreases entries.len(),
{
    if entries.len() > 0 {
        assert(forall|j: int|
            0 <= j < entries.drop_first().len() ==> entries.drop_first()[j].id != e);
        lemma_stat_base_none(entries.drop_first(), e);
    }
}

/// The current value and percentage of the first resource entry with this
/// identifier, if any.
pub open spec fn spec_resource_state_of<T: RPGStat>(
    entries: Seq<ResourceEntry<T>>,
    e: Entity,
) -> Option<(i64, i64)>
    decreases entries.len(),
{
    if entries.len() == 0 {
        None
    } else if entries.first().id == e {
        Some((entries.first().resource.current, entries.first().resource.percent))
    } else {
        spec_resource_state_of(entries.drop_first(), e)
    }
}

proof fn lemma_resource_state_found<T: RPGStat>(entries: Seq<ResourceEntry<T>>, e: Entity, i: int)
    requires
        0 <= i < entries.len(),
        entries[i].id == e,
        forall|j: int| 0 <= j < i ==> entries[j].id != e,
    ensures
        spec_resource_state_of(entries, e) == Some(
            (entries[i].resource.current, entries[i].resource.percent),
        ),
    decreases entries.len(),
{
    if entries.first().id == e {
        assert(i == 0);
    } else {
        assert(entries.drop_first()[i - 1].id == e);
        assert(forall|j: int| 0 <= j < i - 1 ==> entries.drop_first()[j].id != e);
        lemma_resource_state_found(entries.drop_first(), e, i - 1);
    }
}

proof fn lemma_resource_state_none<T: RPGStat>(entries: Seq<ResourceEntry<T>>, e: Entity)
    requires
        forall|j: int| 0 <= j < entries.len() ==> entries[j].id != e,
    ensures
        spec_resource_state_of(entries, e) is None,
    decreases entries.len(),
{
    if entries.len() > 0 {
        assert(forall|j: int|
            0 <= j < entries.drop_first().len() ==> entries.drop_first()[j].id != e);
        lemma_resource_state_none(entries.drop_first(), e);
    }
}

/// All entities and pending events of one stat kind.
#[derive(Debug)]
pub struct StatWorld<T: RPGStat> {
    pub next_entity: Entity,
    pub stats: Vec<StatEntry<T>>,
    pub resources: Vec<ResourceEntry<T>>,
    pub mods: Vec<ModEntry<T>>,
    pub stat_events: Vec<StatChangeEvent<T>>,
    pub resource_events: Vec<ResourceChangeEvent<T>>,
    pub delete_events: Vec<DeleteStatMod>,
}

impl<T: RPGStat> StatWorld<T> {
    /// Every identifier in use is below the allocator's next number, so a
    /// fresh entity collides with nothing.
    pub open spec fn wf(self) -> bool {
        &&& forall|i: int| 0 <= i < self.stats@.len() ==> self.stats@[i].id < self.next_entity
        &&& forall|i: int|
            0 <= i < self.resources@.len() ==> self.resources@[i].id < self.next_entity
        &&& forall|i: int| 0 <= i < self.mods@.len() ==> self.mods@[i].id < self.next_entity
    }

    pub fn new() -> (w: Self)
        ensures
            w.wf(),
            w.stats@ =~= Seq::<StatEntry<T>>::empty(),
            w.resources@ =~= Seq::<ResourceEntry<T>>::empty(),
            w.mods@ =~= Seq::<ModEntry<T>>::empty(),
            w.stat_events@ =~= Seq::<StatChangeEvent<T>>::empty(),
            w.resource_events@ =~= Seq::<ResourceChangeEvent<T>>::empty(),
            w.delete_events@ =~= Seq::<DeleteStatMod>::empty(),
    {
        Self {
            next_entity: 0,
            stats: Vec::new(),
            resources: Vec::new(),
            mods: Vec::new(),
            stat_events: Vec::new(),
            resource_events: Vec::new(),
            delete_events: Vec::new(),
        }
    }

    /// Spawns an entity holding a stat with the given base value.
    pub fn spawn_stat(&mut self, base: i64) -> (e: Entity)
        requires
            old(self).wf(),
            old(self).next_entity < Entity::MAX,
        ensures
            final(self).wf(),
            e == old(self).next_entity,
            final(self).next_entity == old(self).next_entity + 1,
            final(self).stats@.len() == old(self).stats@.len() + 1,
            final(self).stats@.drop_last() == old(self).stats@,
            final(self).stats@.last().id == e,
            final(self).stats@.last().stat.base == base,
            final(self).stats@.last().stat.current == base,
            final(self).stats@.last().stat.mods@ == Seq::<Entity>::empty(),
            final(self).resources@ == old(self).resources@,
            final(self).mods@ == old(self).mods@,
            final(self).stat_events@ == old(self).stat_events@,
            final(self).resource_events@ == old(self).resource_events@,
            final(self).delete_events@ == old(self).delete_events@,
    {
        let e = self.next_entity;
        self.next_entity = self.next_entity + 1;
        self.stats.push(StatEntry { id: e, stat: Stat::new(base) });
        e
    }

    /// Spawns an entity holding both a resource and the stat that supplies
    /// its maximum, each starting at the given value.
    pub fn spawn_resource(&mut self, value: i64) -> (e: Entity)
        requires
            old(self).wf(),
            old(self).next_entity < Entity::MAX,
        ensures
            final(self).wf(),
            e == old(self).next_entity,
            final(self).next_entity == old(self).next_entity + 1,
            final(self).stats@.len() == old(self).stats@.len() + 1,
            final(self).stats@.drop_last() == old(self).stats@,
            final(self).stats@.last().id == e,
            final(self).stats@.last().stat.base == value,
            final(self).stats@.last().stat.current == value,
            final(self).stats@.last().stat.mods@ == Seq::<Entity>::empty(),
            final(self).resources@.len() == old(self).resources@.len() + 1,
            final(self).resources@.drop_last() == old(self).resources@,
            final(self).resources@.last().id == e,
            final(self).resources@.last().resource.current == value,
            final(self).resources@.last().resource.percent == SCALE,
            final(self).mods@ == old(self).mods@,
            final(self).stat_events@ == old(self).stat_events@,
            final(self).resource_events@ == old(self).resource_events@,
            final(self).delete_events@ == old(self).delete_events@,
    {
        let e = self.next_entity;
        self.next_entity = self.next_entity + 1;
        self.stats.push(StatEntry { id: e, stat: Stat::new(value) });
        self.resources.push(ResourceEntry { id: e, resource: Resource::new(value) });
        e
    }

    /// Spawns a modifier entity carrying the given change.
    pub fn spawn_modifier(&mut self, change: StatValueChange<T>) -> (e: Entity)
        requires
            old(self).wf(),
            old(self).next_entity < Entity::MAX,
        ensures
            final(self).wf(),
            e == old(self).next_entity,
            final(self).next_entity == old(self).next_entity + 1,
            final(self).mods@ == old(self).mods@.push(
                ModEntry { id: e, marker: StatModifier, change },
            ),
            final(self).stats@ == old(self).stats@,
            final(self).resources@ == old(self).resources@,
            final(self).stat_events@ == old(self).stat_events@,
            final(self).resource_events@ == old(self).resource_events@,
            final(self).delete_events@ == old(self).delete_events@,
    {
        let e = self.next_entity;
        self.next_entity = self.next_entity + 1;
        self.mods.push(ModEntry { id: e, marker: StatModifier, change });
        e
    }

    /// Queues a base-value change for the next tick.
    pub fn send_stat_change(&mut self, ev: StatChangeEvent<T>)
        ensures
            final(self).stat_events@ == old(self).stat_events@.push(ev),
            final(self).next_entity == old(self).next_entity,
            final(self).stats@ == old(self).stats@,
            final(self).resources@ == old(self).resources@,
            final(self).mods@ == old(self).mods@,
            final(self).resource_events@ == old(self).resource_events@,
            final(self).delete_events@ == old(self).delete_events@,
            old(self).wf() ==> final(self).wf(),
    {
        self.stat_events.push(ev);
    }

    /// Queues a resource-current change for the next tick.
    pub fn send_resource_change(&mut self, ev: ResourceChangeEvent<T>)
        ensures
            final(self).resource_events@ == old(self).resource_events@.push(ev),
            final(self).next_entity == old(self).next_entity,
            final(self).stats@ == old(self).stats@,
            final(self).resources@ == old(self).resources@,
            final(self).mods@ == old(self).mods@,
            final(self).stat_events@ == old(self).stat_events@,
            final(self).delete_events@ == old(self).delete_events@,
            old(self).wf() ==> final(self).wf(),
    {
        self.resource_events.push(ev);
    }

    /// Attaches a modifier reference to the front of the modifier list of
    /// every stat held by `stat_id`.
    pub fn add_mod_to(&mut self, stat_id: Entity, mod_id: Entity)
        ensures
            final(self).next_entity == old(self).next_entity,
            final(self).resources@ == old(self).resources@,
            final(self).mods@ == old(self).mods@,
            final(self).stat_events@ == old(self).stat_events@,
            final(self).resource_events@ == old(self).resource_events@,
            final(self).delete_events@ == old(self).delete_events@,
            final(self).stats@.len() == old(self).stats@.len(),
            forall|k: int|
                0 <= k < old(self).stats@.len() ==> {
                    let before = #[trigger] old(self).stats@[k];
                    let after = final(self).stats@[k];
                    &&& after.id == before.id
                    &&& after.stat.base == before.stat.base
                    &&& after.stat.current == before.stat.current
                    &&& after.stat.mods@ == (if before.id == stat_id {
                        before.stat.mods@.insert(0, mod_id)
                    } else {
                        before.stat.mods@
                    })
                },
            old(self).wf() ==> final(self).wf(),
    {
        let ghost pre = *self;
        let ghost orig = self.stats@;
        let n = self.stats.len();
        let mut i: usize = 0;
        while i < n
            invariant
                pre == *old(self),
                orig == pre.stats@,
                n == self.stats@.len(),
                n == orig.len(),
                0 <= i <= n,
                self.next_entity == pre.next_entity,
                self.resources@ == pre.resources@,
                self.mods@ == pre.mods@,
                self.stat_events@ == pre.stat_events@,
                self.resource_events@ == pre.resource_events@,
                self.delete_events@ == pre.delete_events@,
                forall|k: int|
                    0 <= k < i ==> {
                        let before = #[trigger] orig[k];
                        let after = self.stats@[k];
                        &&& after.id == before.id
                        &&& after.stat.base == before.stat.base
                        &&& after.stat.current == before.stat.current
                        &&& after.stat.mods@ == (if before.id == stat_id {
                            before.stat.mods@.insert(0, mod_id)
                        } else {
                            before.stat.mods@
                        })
                    },
                forall|k: int| i <= k < n ==> self.stats@[k] == orig[k],
            decreases n - i,
        {
            if self.stats[i].id == stat_id {
                let ghost before = self.stats@;
                let mut entry = self.stats.remove(i);
                entry.stat.add_mod(mod_id);
                self.stats.insert(i, entry);
                proof {
                    assert(self.stats@ =~= before.update(i as int, self.stats@[i as int]));
                }
            }
            i += 1;
        }
        proof {
            if pre.wf() {
                assert forall|k: int|
                    0 <= k < self.stats@.len() implies self.stats@[k].id
                    < self.next_entity by {
                    assert(orig[k].id < pre.next_entity);
                };
            }
        }
    }

    /// The derived current value of the first stat held by `e`, if any.
    pub fn stat_current(&self, e: Entity) -> (r: Option<i64>)
        ensures
            r == spec_stat_current_of(self.stats@, e),
    {
        find_stat_current(&self.stats, e)
    }

    /// The base value of the first stat held by `e`, if any.
    pub fn stat_base(&self, e: Entity) -> (r: Option<i64>)
        ensures
            r == spec_stat_base_of(self.stats@, e),
    {
        let n = self.stats.len();
        let mut i: usize = 0;
        while i < n
            invariant
                n == self.stats@.len(),
                0 <= i <= n,
                forall|j: int| 0 <= j < i ==> self.stats@[j].id != e,
            decreases n - i,
        {
            if self.stats[i].id == e {
                proof {
                    lemma_stat_base_found(self.stats@, e, i as int);
                }
                return Some(self.stats[i].stat.base);
            }
            i += 1;
        }
        proof {
            lemma_stat_base_none(self.stats@, e);
        }
        None
    }

    /// The current and percentage of the first resource held by `e`, if any.
    pub fn resource_state(&self, e: Entity) -> (r: Option<(i64, i64)>)
        ensures
            r == spec_resource_state_of(self.resources@, e),
    {
        let n = self.resources.len();
        let mut i: usize = 0;
        while i < n
            invariant
                n == self.resources@.len(),
                0 <= i <= n,
                forall|j: int| 0 <= j < i ==> self.resources@[j].id != e,
            decreases n - i,
        {
            if self.resources[i].id == e {
                proof {
                    lemma_resource_state_found(self.resources@, e, i as int);
                }
                return Some(
                    (self.resources[i].resource.current, self.resources[i].resource.percent),
                );
            }
            i += 1;
        }
        proof {
            lemma_resource_state_none(self.resources@, e);
        }
        None
    }

    /// Whether a reference still resolves to a live modifier entity.
    pub fn modifier_exists(&self, e: Entity) -> (r: bool)
        ensures
            r == (spec_resolve(self.mods@, e) is Some),
    {
        let n = self.mods.len();
        let mut i: usize = 0;
        while i < n
            invariant
                n == self.mods@.len(),
                0 <= i <= n,
                forall|j: int| 0 <= j < i ==> self.mods@[j].id != e,
            decreases n - i,
        {
            if self.mods[i].id == e {
                proof {
                    lemma_resolve_found(self.mods@, e, i as int);
                }
                return true;
            }
            i += 1;
        }
        proof {
            lemma_resolve_none(self.mods@, e);
        }
        false
    }

    /// Queues the destruction of a modifier entity for the next tick.
    pub fn send_delete(&mut self, ev: DeleteStatMod)
        ensures
            final(self).delete_events@ == old(self).delete_events@.push(ev),
            final(self).next_entity == old(self).next_entity,
            final(self).stats@ == old(self).stats@,
            final(self).resources@ == old(self).resources@,
            final(self).mods@ == old(self).mods@,
            final(self).stat_events@ == old(self).stat_events@,
            final(self).resource_events@ == old(self).resource_events@,
            old(self).wf() ==> final(self).wf(),
    {
        self.delete_events.push(ev);
    }
}

} // verus!
