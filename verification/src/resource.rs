//! Resource kinds and the per-entity depletable resource component.
use vstd::prelude::*;

verus! {

use core::marker::PhantomData;
use crate::fixed::spec_percent;
use crate::fixed::percent_of;
use crate::fixed::SCALE;
use crate::stat::RPGStat;
use crate::systems::spec_stat_current_of;
use crate::systems::find_stat_current;
use crate::world::ResourceEntry;
use crate::world::StatEntry;

/// A resource kind: a stat kind whose holders additionally carry a depletable
/// current value tracked against the paired stat's derived maximum.
pub trait RPGResource: RPGStat {
    /// Whether the resource's current value may exceed the computed maximum.
    spec fn spec_can_overmax() -> bool;

    fn can_overmax() -> (b: bool)
        ensures
            b == Self::spec_can_overmax(),
    ;
}

/// A depletable value paired with a stat of the same kind that supplies its
/// maximum. `percent` is the fixed-point ratio `current / max`, recomputed
/// whenever `current` changes.
#[derive(Debug)]
pub struct Resource<T: RPGStat> {
    pub current: i64,
    pub percent: i64,
    pub _phantom: PhantomData<T>,
}

impl<T: RPGStat> Resource<T> {
    /// A fresh resource, full at its initial value.
    pub fn new(value: i64) -> (r: Self)
        ensures
            r.current == value,
            r.percent == SCALE,
    {
        Self { current: value, percent: SCALE, _phantom: PhantomData }
    }

    pub fn current_value(&self) -> (r: i64)
        ensures
            r == self.current,
    {
        self.current
    }

    pub fn percent_value(&self) -> (r: i64)
        ensures
            r == self.percent,
    {
        self.percent
    }
}

/// The resource entry after the per-tick maximum check: `current` capped at
/// the paired stat's derived value unless the kind allows exceeding it.
/// An entry without a paired stat is left as it is.
pub open spec fn spec_ensure_max<T: RPGStat>(
    r: ResourceEntry<T>,
    stats: Seq<StatEntry<T>>,
    can_overmax: bool,
) -> ResourceEntry<T> {
    match spec_stat_current_of(stats, r.id) {
        None => r,
        Some(max) => if !can_overmax && r.resource.current > max {
            ResourceEntry {
                id: r.id,
                resource: Resource {
                    current: max,
                    percent: r.resource.percent,
                    _phantom: r.resource._phantom,
                },
            }
        } else {
            r
        },
    }
}

/// The resource entry after the per-tick maximum check with its percentage
/// refreshed against the (possibly moved) maximum.
pub open spec fn spec_ensure_max_pct<T: RPGStat>(
    r: ResourceEntry<T>,
    stats: Seq<StatEntry<T>>,
    can_overmax: bool,
) -> ResourceEntry<T> {
    match spec_stat_current_of(stats, r.id) {
        None => r,
        Some(max) => {
            let capped = if !can_overmax && r.resource.current > max {
                max
            } else {
                r.resource.current
            };
            ResourceEntry {
                id: r.id,
                resource: Resource {
                    current: capped,
                    percent: spec_percent(capped as int, max as int) as i64,
                    _phantom: r.resource._phantom,
                },
            }
        },
    }
}

/// A resource entry whose percentage agrees with its current value and its
/// paired stat's derived maximum, and, when the kind forbids exceeding the
/// maximum, whose current lies at or below it. An entry without a paired
/// stat has nothing to agree with.
pub open spec fn spec_percent_consistent<T: RPGStat>(
    r: ResourceEntry<T>,
    stats: Seq<StatEntry<T>>,
    can_overmax: bool,
) -> bool {
    match spec_stat_current_of(stats, r.id) {
        None => true,
        Some(m) => {
            &&& r.resource.percent as int == spec_percent(r.resource.current as int, m as int)
            &&& !can_overmax ==> r.resource.current <= m
        },
    }
}

/// Caps every resource's current at its paired stat's derived maximum, so a
/// maximum that moved down this tick drags the depletable value with it.
pub fn ensure_max_stat<T: RPGResource>(
    resources: &mut Vec<ResourceEntry<T>>,
    stats: &Vec<StatEntry<T>>,
)
    ensures
        final(resources)@.len() == old(resources)@.len(),
        forall|k: int|
            0 <= k < old(resources)@.len() ==> final(resources)@[k] == spec_ensure_max(
                old(resources)@[k],
                stats@,
                T::spec_can_overmax(),
            ),
{
    let ghost orig = resources@;
    let n = resources.len();
    let mut i: usize = 0;
    while i < n
        invariant
            orig == old(resources)@,
            n == resources@.len(),
            n == orig.len(),
            0 <= i <= n,
            forall|k: int|
                0 <= k < i ==> resources@[k] == spec_ensure_max(orig[k], stats@,
                    T::spec_can_overmax(),
                ),
            forall|k: int| i <= k < n ==> resources@[k] == orig[k],
        decreases n - i,
    {
        match find_stat_current(stats, resources[i].id) {
            None => {},
            Some(maxv) => {
                if !T::can_overmax() && resources[i].resource.current > maxv {
                    let ghost before = resources@;
                    let mut entry = resources.remove(i);
                    entry.resource.current = maxv;
                    resources.insert(i, entry);
                    proof {
                        assert(resources@ =~= before.update(i as int, resources@[i as int]));
                    }
                }
            },
        }
        i += 1;
    }
}

/// Caps every resource's current at its paired stat's derived maximum and
/// refreshes its percentage against that maximum.
pub fn ensure_max_stat_with_percentage<T: RPGResource>(
    resources: &mut Vec<ResourceEntry<T>>,
    stats: &Vec<StatEntry<T>>,
)
    ensures
        final(resources)@.len() == old(resources)@.len(),
        forall|k: int|
            0 <= k < old(resources)@.len() ==> final(resources)@[k] == spec_ensure_max_pct(
                old(resources)@[k],
                stats@,
                T::spec_can_overmax(),
            ),
{
    let ghost orig = resources@;
    let n = resources.len();
    let mut i: usize = 0;
    while i < n
        invariant
            orig == old(resources)@,
            n == resources@.len(),
            n == orig.len(),
            0 <= i <= n,
            forall|k: int|
                0 <= k < i ==> resources@[k] == spec_ensure_max_pct(orig[k], stats@,
                    T::spec_can_overmax(),
                ),
            forall|k: int| i <= k < n ==> resources@[k] == orig[k],
        decreases n - i,
    {
        match find_stat_current(stats, resources[i].id) {
            None => {},
            Some(maxv) => {
                let ghost before = resources@;
                let mut entry = resources.remove(i);
                if !T::can_overmax() && entry.resource.current > maxv {
                    entry.resource.current = maxv;
                }
                entry.resource.percent = percent_of(entry.resource.current, maxv);
                resources.insert(i, entry);
                proof {
                    assert(resources@ =~= before.update(i as int, resources@[i as int]));
                }
            },
        }
        i += 1;
    }
}

} // verus!
