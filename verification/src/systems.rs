//! The per-tick routines: modifier aggregation primitives, change-event
//! consumers, and modifier deletion.
use vstd::prelude::*;

verus! {

use crate::fixed::spec_fadd;
use crate::fixed::spec_fmul;
use crate::fixed::spec_fmul1p;
use crate::fixed::spec_percent;
use crate::fixed::fadd;
use crate::fixed::fmul;
use crate::fixed::fmul1p;
use crate::fixed::percent_of;
use crate::resource::RPGResource;
use crate::resource::Resource;
use crate::stat::RPGStat;
use crate::stat::Stat;
use crate::statmod::spec_apply;
use crate::statmod::DeleteStatMod;
use crate::statmod::ModType;
use crate::statmod::ResourceChangeEvent;
use crate::statmod::StatChangeEvent;
use crate::statmod::StatValueChange;
use crate::world::Entity;
use crate::world::ModEntry;
use crate::world::ResourceEntry;
use crate::world::StatEntry;

/// The modifier record a reference resolves to: the first table entry with
/// this identifier, or nothing when the entity is gone from the table.
pub open spec fn spec_resolve<T: RPGStat>(tbl: Seq<ModEntry<T>>, e: Entity) -> Option<
    StatValueChange<T>,
>
    decreases tbl.len(),
{
    if tbl.len() == 0 {
        None
    } else if tbl.first().id == e {
        Some(tbl.first().change)
    } else {
        spec_resolve(tbl.drop_first(), e)
    }
}

/// A forward search that saw no match up to `i`, and a match at `i`, resolves
/// to that entry's change.
pub proof fn lemma_resolve_found<T: RPGStat>(tbl: Seq<ModEntry<T>>, e: Entity, i: int)
    requires
        0 <= i < tbl.len(),
        tbl[i].id == e,
        forall|j: int| 0 <= j < i ==> tbl[j].id != e,
    ensures
        spec_resolve(tbl, e) == Some(tbl[i].change),
    decreases tbl.len(),
{
    if tbl.first().id == e {
        assert(i == 0);
    } else {
        assert(tbl.drop_first()[i - 1].id == e);
        assert(forall|j: int| 0 <= j < i - 1 ==> tbl.drop_first()[j].id != e);
        lemma_resolve_found(tbl.drop_first(), e, i - 1);
    }
}

/// A table without the identifier resolves it to nothing.
pub proof fn lemma_resolve_none<T: RPGStat>(tbl: Seq<ModEntry<T>>, e: Entity)
    requires
        forall|j: int| 0 <= j < tbl.len() ==> tbl[j].id != e,
    ensures
        spec_resolve(tbl, e) is None,
    decreases tbl.len(),
{
    if tbl.len() > 0 {
        assert(forall|j: int| 0 <= j < tbl.drop_first().len() ==> tbl.drop_first()[j].id != e);
        lemma_resolve_none(tbl.drop_first(), e);
    }
}

/// Index of the first table entry a reference resolves to, if any.
fn find_mod<T: RPGStat>(mods: &Vec<ModEntry<T>>, e: Entity) -> (r: Option<usize>)
    ensures
        match r {
            Some(i) => i < mods@.len() && spec_resolve(mods@, e) == Some(mods@[i as int].change),
            None => spec_resolve(mods@, e) is None,
        },
{
    let n = mods.len();
    let mut i: usize = 0;
    while i < n
        invariant
            n == mods@.len(),
            0 <= i <= n,
            forall|j: int| 0 <= j < i ==> mods@[j].id != e,
        decreases n - i,
    {
        if mods[i].id == e {
            proof {
                lemma_resolve_found(mods@, e, i as int);
            }
            return Some(i);
        }
        i += 1;
    }
    proof {
        lemma_resolve_none(mods@, e);
    }
    None
}

/// `base` plus every offset-type modifier value the list resolves to, folded
/// front to back; multiplier-type and unresolved references contribute
/// nothing.
pub open spec fn spec_sum_offsets<T: RPGStat>(
    base: int,
    list: Seq<Entity>,
    tbl: Seq<ModEntry<T>>,
) -> int
    decreases list.len(),
{
    if list.len() == 0 {
        base
    } else {
        let prev = spec_sum_offsets(base, list.drop_last(), tbl);
        match spec_resolve(tbl, list.last()) {
            Some(c) => if c.mod_type == ModType::Offset {
                spec_fadd(prev, c.value as int)
            } else {
                prev
            },
            None => prev,
        }
    }
}

/// `base` scaled by the compounding factor `1 + v` of every multiplier-type
/// modifier value `v` the list resolves to, folded front to back.
pub open spec fn spec_product_multipliers<T: RPGStat>(
    base: int,
    list: Seq<Entity>,
    tbl: Seq<ModEntry<T>>,
) -> int
    decreases list.len(),
{
    if list.len() == 0 {
        base
    } else {
        let prev = spec_product_multipliers(base, list.drop_last(), tbl);
        match spec_resolve(tbl, list.last()) {
            Some(c) => if c.mod_type == ModType::Multiplier {
                spec_fmul1p(prev, c.value as int)
            } else {
                prev
            },
            None => prev,
        }
    }
}

/// Sum of the additive contribution `v * base` of every multiplier-type
/// modifier value `v`, each computed against the unmodified `base`.
pub open spec fn spec_sum_multiplier_deltas<T: RPGStat>(
    base: int,
    list: Seq<Entity>,
    tbl: Seq<ModEntry<T>>,
) -> int
    decreases list.len(),
{
    if list.len() == 0 {
        0
    } else {
        let prev = spec_sum_multiplier_deltas(base, list.drop_last(), tbl);
        match spec_resolve(tbl, list.last()) {
            Some(c) => if c.mod_type == ModType::Multiplier {
                spec_fadd(prev, spec_fmul(c.value as int, base))
            } else {
                prev
            },
            None => prev,
        }
    }
}

/// Adds every offset modifier in `statlist` to `base`.
pub fn add_stats<T: RPGStat>(base: i64, statlist: &Vec<Entity>, mods: &Vec<ModEntry<T>>) -> (r:
    i64)
    ensures
        r as int == spec_sum_offsets(base as int, statlist@, mods@),
{
    let n = statlist.len();
    let mut acc = base;
    let mut i: usize = 0;
    while i < n
        invariant
            n == statlist@.len(),
            0 <= i <= n,
            acc as int == spec_sum_offsets(base as int, statlist@.take(i as int), mods@),
        decreases n - i,
    {
        proof {
            assert(statlist@.take(i + 1).drop_last() =~= statlist@.take(i as int));
            assert(statlist@.take(i + 1).last() == statlist@[i as int]);
        }
        match find_mod(mods, statlist[i]) {
            Some(j) => {
                match mods[j].change.mod_type {
                    ModType::Offset => {
                        acc = fadd(acc, mods[j].change.value);
                    },
                    ModType::Multiplier => {},
                }
            },
            None => {},
        }
        i += 1;
    }
    proof {
        assert(statlist@.take(n as int) =~= statlist@);
    }
    acc
}

/// Compounds every multiplier modifier in `statlist` onto `base`.
pub fn mul_stats<T: RPGStat>(base: i64, statlist: &Vec<Entity>, mods: &Vec<ModEntry<T>>) -> (r:
    i64)
    ensures
        r as int == spec_product_multipliers(base as int, statlist@, mods@),
{
    let n = statlist.len();
    let mut acc = base;
    let mut i: usize = 0;
    while i < n
        invariant
            n == statlist@.len(),
            0 <= i <= n,
            acc as int == spec_product_multipliers(base as int, statlist@.take(i as int), mods@),
        decreases n - i,
    {
        proof {
            assert(statlist@.take(i + 1).drop_last() =~= statlist@.take(i as int));
            assert(statlist@.take(i + 1).last() == statlist@[i as int]);
        }
        match find_mod(mods, statlist[i]) {
            Some(j) => {
                match mods[j].change.mod_type {
                    ModType::Multiplier => {
                        acc = fmul1p(acc, mods[j].change.value);
                    },
                    ModType::Offset => {},
                }
            },
            None => {},
        }
        i += 1;
    }
    proof {
        assert(statlist@.take(n as int) =~= statlist@);
    }
    acc
}

/// Sums the non-compounding contribution of every multiplier modifier in
/// `statlist` against the unmodified `base`.
pub fn mul_diff<T: RPGStat>(base: i64, statlist: &Vec<Entity>, mods: &Vec<ModEntry<T>>) -> (r: i64)
    ensures
        r as int == spec_sum_multiplier_deltas(base as int, statlist@, mods@),
{
    let n = statlist.len();
    let mut acc: i64 = 0;
    let mut i: usize = 0;
    while i < n
        invariant
            n == statlist@.len(),
            0 <= i <= n,
            acc as int == spec_sum_multiplier_deltas(base as int, statlist@.take(i as int), mods@),
        decreases n - i,
    {
        proof {
            assert(statlist@.take(i + 1).drop_last() =~= statlist@.take(i as int));
            assert(statlist@.take(i + 1).last() == statlist@[i as int]);
        }
        match find_mod(mods, statlist[i]) {
            Some(j) => {
                match mods[j].change.mod_type {
                    ModType::Multiplier => {
                        acc = fadd(acc, fmul(mods[j].change.value, base));
                    },
                    ModType::Offset => {},
                }
            },
            None => {},
        }
        i += 1;
    }
    proof {
        assert(statlist@.take(n as int) =~= statlist@);
    }
    acc
}

/// The modifier table with every entry for `id` taken out, order kept.
pub open spec fn spec_remove_id<T: RPGStat>(tbl: Seq<ModEntry<T>>, id: Entity) -> Seq<ModEntry<T>>
    decreases tbl.len(),
{
    if tbl.len() == 0 {
        tbl
    } else {
        let rest = spec_remove_id(tbl.drop_last(), id);
        if tbl.last().id == id {
            rest
        } else {
            rest.push(tbl.last())
        }
    }
}

/// The modifier table after every queued deletion, processed in order.
pub open spec fn spec_delete_mods<T: RPGStat>(
    tbl: Seq<ModEntry<T>>,
    evs: Seq<DeleteStatMod>,
) -> Seq<ModEntry<T>>
    decreases evs.len(),
{
    if evs.len() == 0 {
        tbl
    } else {
        spec_remove_id(spec_delete_mods(tbl, evs.drop_last()), evs.last().0)
    }
}

/// Nothing left in the table carries the removed identifier.
pub proof fn lemma_remove_id_all_different<T: RPGStat>(tbl: Seq<ModEntry<T>>, id: Entity)
    ensures
        forall|j: int|
            0 <= j < spec_remove_id(tbl, id).len() ==> spec_remove_id(tbl, id)[j].id != id,
    decreases tbl.len(),
{
    if tbl.len() > 0 {
        lemma_remove_id_all_different(tbl.drop_last(), id);
    }
}

/// Removing one identifier never brings another back.
pub proof fn lemma_remove_id_keeps_absent<T: RPGStat>(tbl: Seq<ModEntry<T>>, id: Entity, e: Entity)
    requires
        forall|j: int| 0 <= j < tbl.len() ==> tbl[j].id != e,
    ensures
        forall|j: int|
            0 <= j < spec_remove_id(tbl, id).len() ==> spec_remove_id(tbl, id)[j].id != e,
    decreases tbl.len(),
{
    if tbl.len() > 0 {
        assert(forall|j: int| 0 <= j < tbl.drop_last().len() ==> tbl.drop_last()[j].id != e);
        lemma_remove_id_keeps_absent(tbl.drop_last(), id, e);
    }
}

/// After the deletions are processed, an identifier one of them named
/// resolves to nothing.
pub proof fn lemma_deleted_is_gone<T: RPGStat>(
    tbl: Seq<ModEntry<T>>,
    evs: Seq<DeleteStatMod>,
    e: Entity,
)
    requires
        exists|i: int| 0 <= i < evs.len() && evs[i].0 == e,
    ensures
        spec_resolve(spec_delete_mods(tbl, evs), e) is None,
    decreases evs.len(),
{
    let out = spec_delete_mods(tbl, evs);
    let prev = spec_delete_mods(tbl, evs.drop_last());
    if evs.last().0 == e {
        lemma_remove_id_all_different(prev, e);
    } else {
        let i = choose|i: int| 0 <= i < evs.len() && evs[i].0 == e;
        assert(evs.drop_last()[i] == evs[i]);
        lemma_deleted_is_gone(tbl, evs.drop_last(), e);
        lemma_resolve_all_different(prev, e);
        lemma_remove_id_keeps_absent(prev, evs.last().0, e);
    }
    lemma_resolve_none(out, e);
}

/// A reference that resolves to nothing matches no table entry.
pub proof fn lemma_resolve_all_different<T: RPGStat>(tbl: Seq<ModEntry<T>>, e: Entity)
    requires
        spec_resolve(tbl, e) is None,
    ensures
        forall|j: int| 0 <= j < tbl.len() ==> tbl[j].id != e,
    decreases tbl.len(),
{
    if tbl.len() > 0 {
        lemma_resolve_all_different(tbl.drop_first(), e);
        assert forall|j: int| 0 <= j < tbl.len() implies tbl[j].id != e by {
            if j > 0 {
                assert(tbl.drop_first()[j - 1] == tbl[j]);
            }
        }
    }
}

/// Takes every entry for `id` out of the modifier table, in place.
fn remove_mod_entries<T: RPGStat>(mods: &mut Vec<ModEntry<T>>, id: Entity)
    ensures
        final(mods)@ == spec_remove_id(old(mods)@, id),
{
    let ghost orig = mods@;
    let mut i: usize = 0;
    let ghost mut k: int = 0;
    while i < mods.len()
        invariant
            orig == old(mods)@,
            0 <= k <= orig.len(),
            i as int == spec_remove_id(orig.take(k), id).len(),
            mods@ == spec_remove_id(orig.take(k), id) + orig.skip(k),
        decreases orig.len() - k,
    {
        proof {
            assert(orig.take(k + 1).drop_last() =~= orig.take(k));
            assert(orig.take(k + 1).last() == orig[k]);
            assert(mods@[i as int] == orig[k]);
        }
        if mods[i].id == id {
            mods.remove(i);
            proof {
                assert(mods@ =~= spec_remove_id(orig.take(k + 1), id) + orig.skip(k + 1));
                k = k + 1;
            }
        } else {
            i += 1;
            proof {
                assert(mods@ =~= spec_remove_id(orig.take(k + 1), id) + orig.skip(k + 1));
                k = k + 1;
            }
        }
    }
    proof {
        assert(k == orig.len());
        assert(orig.take(k) =~= orig);
        assert(mods@ =~= spec_remove_id(orig, id));
    }
}

/// Consumes every queued `DeleteStatMod`, destroying the named modifier
/// entities. References to them from stats' lists are not scrubbed: stale
/// references are tolerated and skipped by resolution.
pub fn delete_stat_mod<T: RPGStat>(events: &mut Vec<DeleteStatMod>, mods: &mut Vec<ModEntry<T>>)
    ensures
        final(events)@.len() == 0,
        final(mods)@ == spec_delete_mods(old(mods)@, old(events)@),
{
    let ghost orig_mods = mods@;
    let ghost orig_evs = events@;
    let n = events.len();
    let mut i: usize = 0;
    while i < n
        invariant
            orig_mods == old(mods)@,
            orig_evs == old(events)@,
            events@ == orig_evs,
            n == orig_evs.len(),
            0 <= i <= n,
            mods@ == spec_delete_mods(orig_mods, orig_evs.take(i as int)),
        decreases n - i,
    {
        proof {
            assert(orig_evs.take(i + 1).drop_last() =~= orig_evs.take(i as int));
            assert(orig_evs.take(i + 1).last() == orig_evs[i as int]);
        }
        let id = events[i].0;
        remove_mod_entries(mods, id);
        i += 1;
    }
    proof {
        assert(orig_evs.take(n as int) =~= orig_evs);
    }
    events.clear();
}

/// The stat entry after one base-change event: `base` updated through the
/// change when the entry is the target, untouched otherwise. The derived
/// `current` is left for the next aggregation pass.
pub open spec fn spec_stat_changed<T: RPGStat>(
    e: StatEntry<T>,
    ev: StatChangeEvent<T>,
    can_negative: bool,
) -> StatEntry<T> {
    if e.id == ev.target {
        StatEntry {
            id: e.id,
            stat: Stat {
                base: spec_apply(
                    ev.change.mod_type,
                    ev.change.value as int,
                    e.stat.base as int,
                    can_negative,
                ) as i64,
                current: e.stat.current,
                mods: e.stat.mods,
                _phantom: e.stat._phantom,
            },
        }
    } else {
        e
    }
}

/// All stat entries after one base-change event. An event whose target holds
/// no stat changes nothing: it is dropped silently.
pub open spec fn spec_apply_stat_event<T: RPGStat>(
    entries: Seq<StatEntry<T>>,
    ev: StatChangeEvent<T>,
    can_negative: bool,
) -> Seq<StatEntry<T>> {
    entries.map_values(|e: StatEntry<T>| spec_stat_changed(e, ev, can_negative))
}

/// All stat entries after the queued base-change events, applied in order.
pub open spec fn spec_apply_stat_events<T: RPGStat>(
    entries: Seq<StatEntry<T>>,
    evs: Seq<StatChangeEvent<T>>,
    can_negative: bool,
) -> Seq<StatEntry<T>>
    decreases evs.len(),
{
    if evs.len() == 0 {
        entries
    } else {
        spec_apply_stat_event(
            spec_apply_stat_events(entries, evs.drop_last(), can_negative),
            evs.last(),
            can_negative,
        )
    }
}

/// Consumes every queued `StatChangeEvent`, applying each change to the
/// target's base value in order of arrival.
pub fn change_stat<T: RPGStat>(
    events: &mut Vec<StatChangeEvent<T>>,
    stats: &mut Vec<StatEntry<T>>,
)
    ensures
        final(events)@.len() == 0,
        final(stats)@ == spec_apply_stat_events(
            old(stats)@,
            old(events)@,
            T::spec_can_negative(),
        ),
{
    let ghost orig_stats = stats@;
    let ghost orig_evs = events@;
    let n = events.len();
    let mut i: usize = 0;
    while i < n
        invariant
            orig_stats == old(stats)@,
            orig_evs == old(events)@,
            events@ == orig_evs,
            n == orig_evs.len(),
            0 <= i <= n,
            stats@ == spec_apply_stat_events(orig_stats, orig_evs.take(i as int),
                T::spec_can_negative(),
            ),
        decreases n - i,
    {
        proof {
            assert(orig_evs.take(i + 1).drop_last() =~= orig_evs.take(i as int));
            assert(orig_evs.take(i + 1).last() == orig_evs[i as int]);
        }
        let ghost snap = stats@;
        let target = events[i].target;
        let m = stats.len();
        let mut j: usize = 0;
        while j < m
            invariant
                0 <= j <= m,
                m == stats@.len(),
                m == snap.len(),
                events@ == orig_evs,
                n == orig_evs.len(),
                i < n,
                target == orig_evs[i as int].target,
                forall|k: int|
                    0 <= k < j ==> stats@[k] == spec_stat_changed(
                        snap[k],
                        orig_evs[i as int],
                        T::spec_can_negative(),
                    ),
                forall|k: int| j <= k < m ==> stats@[k] == snap[k],
            decreases m - j,
        {
            if stats[j].id == target {
                let ghost before = stats@;
                let mut entry = stats.remove(j);
                let nb = events[i].change.apply(entry.stat.base);
                entry.stat.base = nb;
                stats.insert(j, entry);
                proof {
                    assert(stats@ =~= before.update(j as int, stats@[j as int]));
                }
            }
            j += 1;
        }
        proof {
            assert(stats@ =~= spec_apply_stat_event(snap, orig_evs[i as int],
                T::spec_can_negative(),
            ));
        }
        i += 1;
    }
    proof {
        assert(orig_evs.take(n as int) =~= orig_evs);
    }
    events.clear();
}

/// A zero-valued offset change event leaves every stat entry unchanged.
/// (Entries with a negative base under a kind that forbids negatives are the
/// one exception — the floor would lift them to zero — so they are left out.)
pub proof fn lemma_zero_offset_event_is_identity<T: RPGStat>(
    entries: Seq<StatEntry<T>>,
    ev: StatChangeEvent<T>,
    can_negative: bool,
)
    requires
        ev.change.mod_type == ModType::Offset,
        ev.change.value == 0,
        forall|k: int|
            0 <= k < entries.len() ==> can_negative || (#[trigger] entries[k]).stat.base >= 0,
    ensures
        spec_apply_stat_event(entries, ev, can_negative) == entries,
{
    assert forall|k: int| 0 <= k < entries.len() implies spec_stat_changed(
        entries[k],
        ev,
        can_negative,
    ) == entries[k] by {
        let e = entries[k];
        if e.id == ev.target {
            crate::statmod::lemma_zero_offset_is_identity(e.stat.base as int, can_negative);
            assert(spec_stat_changed(e, ev, can_negative).stat == e.stat);
        }
    };
    assert(spec_apply_stat_event(entries, ev, can_negative) =~= entries);
}

/// The reference list with every occurrence of `e` taken out, order kept.
pub open spec fn spec_without(list: Seq<Entity>, e: Entity) -> Seq<Entity>
    decreases list.len(),
{
    if list.len() == 0 {
        list
    } else {
        let rest = spec_without(list.drop_last(), e);
        if list.last() == e {
            rest
        } else {
            rest.push(list.last())
        }
    }
}

/// A reference that resolves to nothing contributes nothing to the offset
/// sum: the fold gives the same value as if the reference were absent.
pub proof fn lemma_stale_ref_sum_offsets<T: RPGStat>(
    base: int,
    list: Seq<Entity>,
    tbl: Seq<ModEntry<T>>,
    e: Entity,
)
    requires
        spec_resolve(tbl, e) is None,
    ensures
        spec_sum_offsets(base, list, tbl) == spec_sum_offsets(base, spec_without(list, e), tbl),
    decreases list.len(),
{
    if list.len() > 0 {
        lemma_stale_ref_sum_offsets(base, list.drop_last(), tbl, e);
        if list.last() != e {
            let w = spec_without(list.drop_last(), e).push(list.last());
            assert(w.drop_last() =~= spec_without(list.drop_last(), e));
        }
    }
}

/// A reference that resolves to nothing contributes nothing to the
/// compounding multiplier product.
pub proof fn lemma_stale_ref_product_multipliers<T: RPGStat>(
    base: int,
    list: Seq<Entity>,
    tbl: Seq<ModEntry<T>>,
    e: Entity,
)
    requires
        spec_resolve(tbl, e) is None,
    ensures
        spec_product_multipliers(base, list, tbl) == spec_product_multipliers(
            base,
            spec_without(list, e),
            tbl,
        ),
    decreases list.len(),
{
    if list.len() > 0 {
        lemma_stale_ref_product_multipliers(base, list.drop_last(), tbl, e);
        if list.last() != e {
            let w = spec_without(list.drop_last(), e).push(list.last());
            assert(w.drop_last() =~= spec_without(list.drop_last(), e));
        }
    }
}

/// A reference that resolves to nothing contributes nothing to the multiplier
/// delta sum.
pub proof fn lemma_stale_ref_sum_multiplier_deltas<T: RPGStat>(
    base: int,
    list: Seq<Entity>,
    tbl: Seq<ModEntry<T>>,
    e: Entity,
)
    requires
        spec_resolve(tbl, e) is None,
    ensures
        spec_sum_multiplier_deltas(base, list, tbl) == spec_sum_multiplier_deltas(
            base,
            spec_without(list, e),
            tbl,
        ),
    decreases list.len(),
{
    if list.len() > 0 {
        lemma_stale_ref_sum_multiplier_deltas(base, list.drop_last(), tbl, e);
        if list.last() != e {
            let w = spec_without(list.drop_last(), e).push(list.last());
            assert(w.drop_last() =~= spec_without(list.drop_last(), e));
        }
    }
}

/// The derived current value of the first stat entry with this identifier,
/// if any: the maximum a paired resource is clamped against.
pub open spec fn spec_stat_current_of<T: RPGStat>(
    entries: Seq<StatEntry<T>>,
    e: Entity,
) -> Option<i64>
    decreases entries.len(),
{
    if entries.len() == 0 {
        None
    } else if entries.first().id == e {
        Some(entries.first().stat.current)
    } else {
        spec_stat_current_of(entries.drop_first(), e)
    }
}

/// A forward search that saw no match up to `i`, and a match at `i`, finds
/// that entry's current value.
pub proof fn lemma_stat_current_found<T: RPGStat>(entries: Seq<StatEntry<T>>, e: Entity, i: int)
    requires
        0 <= i < entries.len(),
        entries[i].id == e,
        forall|j: int| 0 <= j < i ==> entries[j].id != e,
    ensures
        spec_stat_current_of(entries, e) == Some(entries[i].stat.current),
    decreases entries.len(),
{
    if entries.first().id == e {
        assert(i == 0);
    } else {
        assert(entries.drop_first()[i - 1].id == e);
        assert(forall|j: int| 0 <= j < i - 1 ==> entries.drop_first()[j].id != e);
        lemma_stat_current_found(entries.drop_first(), e, i - 1);
    }
}

/// Entries without the identifier yield no current value for it.
pub proof fn lemma_stat_current_none<T: RPGStat>(entries: Seq<StatEntry<T>>, e: Entity)
    requires
        forall|j: int| 0 <= j < entries.len() ==> entries[j].id != e,
    ensures
        spec_stat_current_of(entries, e) is None,
    decreases entries.len(),
{
    if entries.len() > 0 {
        assert(forall|j: int|
            0 <= j < entries.drop_first().len() ==> entries.drop_first()[j].id != e);
        lemma_stat_current_none(entries.drop_first(), e);
    }
}

/// Current value of the first stat entry for `e`, if any.
pub(crate) fn find_stat_current<T: RPGStat>(stats: &Vec<StatEntry<T>>, e: Entity) -> (r: Option<i64>)
    ensures
        r == spec_stat_current_of(stats@, e),
{
    let n = stats.len();
    let mut i: usize = 0;
    while i < n
        invariant
            n == stats@.len(),
            0 <= i <= n,
            forall|j: int| 0 <= j < i ==> stats@[j].id != e,
        decreases n - i,
    {
        if stats[i].id == e {
            proof {
                lemma_stat_current_found(stats@, e, i as int);
            }
            return Some(stats[i].stat.current);
        }
        i += 1;
    }
    proof {
        lemma_stat_current_none(stats@, e);
    }
    None
}

/// A proposed resource value clamped by the kind's policy: floored at zero
/// unless negatives are allowed, capped at `max` unless overmax is allowed.
pub open spec fn spec_clamp(proposed: int, max: int, can_negative: bool, can_overmax: bool) -> int {
    let floored = if !can_negative && proposed < 0 {
        0
    } else {
        proposed
    };
    if !can_overmax && floored > max {
        max
    } else {
        floored
    }
}

/// The resource entry after one change event against the maximum `max`:
/// the change applied to `current`, the result clamped, and `percent`
/// recomputed, when the entry is the target; untouched otherwise.
pub open spec fn spec_resource_changed<T: RPGStat>(
    r: ResourceEntry<T>,
    ev: ResourceChangeEvent<T>,
    max: int,
    can_negative: bool,
    can_overmax: bool,
) -> ResourceEntry<T> {
    if r.id == ev.target {
        let proposed = spec_apply(
            ev.change.mod_type,
            ev.change.value as int,
            r.resource.current as int,
            can_negative,
        );
        let clamped = spec_clamp(proposed, max, can_negative, can_overmax);
        ResourceEntry {
            id: r.id,
            resource: Resource {
                current: clamped as i64,
                percent: spec_percent(clamped, max) as i64,
                _phantom: r.resource._phantom,
            },
        }
    } else {
        r
    }
}

/// All resource entries after one change event. The event is dropped
/// silently when its target holds no stat to supply a maximum.
pub open spec fn spec_apply_resource_event<T: RPGStat>(
    resources: Seq<ResourceEntry<T>>,
    stats: Seq<StatEntry<T>>,
    ev: ResourceChangeEvent<T>,
    can_negative: bool,
    can_overmax: bool,
) -> Seq<ResourceEntry<T>> {
    match spec_stat_current_of(stats, ev.target) {
        None => resources,
        Some(max) => resources.map_values(
            |r: ResourceEntry<T>|
                spec_resource_changed(r, ev, max as int, can_negative, can_overmax),
        ),
    }
}

/// All resource entries after the queued change events, applied in order.
pub open spec fn spec_apply_resource_events<T: RPGStat>(
    resources: Seq<ResourceEntry<T>>,
    stats: Seq<StatEntry<T>>,
    evs: Seq<ResourceChangeEvent<T>>,
    can_negative: bool,
    can_overmax: bool,
) -> Seq<ResourceEntry<T>>
    decreases evs.len(),
{
    if evs.len() == 0 {
        resources
    } else {
        spec_apply_resource_event(
            spec_apply_resource_events(resources, stats, evs.drop_last(), can_negative,
                can_overmax),
            stats,
            evs.last(),
            can_negative,
            can_overmax,
        )
    }
}

/// A resource entry is in bounds when its current value lies between zero
/// and its paired stat's derived maximum; an entry without a paired stat has
/// no maximum to violate.
pub open spec fn spec_resource_in_bounds<T: RPGStat>(
    r: ResourceEntry<T>,
    stats: Seq<StatEntry<T>>,
) -> bool {
    match spec_stat_current_of(stats, r.id) {
        None => true,
        Some(m) => 0 <= r.resource.current <= m,
    }
}

/// For a kind that forbids both negatives and overmax, one change event
/// lands the targeted resource's current in `[0, max]` and sets its
/// percentage to exactly `current / max`, whatever the change was.
pub proof fn lemma_resource_change_clamped<T: RPGStat>(
    r: ResourceEntry<T>,
    ev: ResourceChangeEvent<T>,
    max: int,
)
    requires
        r.id == ev.target,
        max >= 0,
        i64::MIN <= max <= i64::MAX,
    ensures
        0 <= spec_resource_changed(r, ev, max, false, false).resource.current <= max,
        spec_resource_changed(r, ev, max, false, false).resource.percent as int == spec_percent(
            spec_resource_changed(r, ev, max, false, false).resource.current as int,
            max,
        ),
{
}

/// For a kind that forbids both negatives and overmax, any sequence of
/// change events keeps every resource entry in bounds, provided every
/// derived maximum is nonnegative.
pub proof fn lemma_resource_events_in_bounds<T: RPGStat>(
    resources: Seq<ResourceEntry<T>>,
    stats: Seq<StatEntry<T>>,
    evs: Seq<ResourceChangeEvent<T>>,
)
    requires
        forall|k: int|
            0 <= k < resources.len() ==> spec_resource_in_bounds(#[trigger] resources[k], stats),
        forall|e: Entity|
            #[trigger] spec_stat_current_of(stats, e) is Some ==> spec_stat_current_of(
                stats,
                e,
            )->Some_0 >= 0,
    ensures
        spec_apply_resource_events(resources, stats, evs, false, false).len() == resources.len(),
        forall|k: int|
            0 <= k < resources.len() ==> #[trigger] spec_apply_resource_events(
                resources,
                stats,
                evs,
                false,
                false,
            )[k].id == resources[k].id,
        forall|k: int|
            0 <= k < resources.len() ==> spec_resource_in_bounds(
                #[trigger] spec_apply_resource_events(resources, stats, evs, false, false)[k],
                stats,
            ),
    decreases evs.len(),
{
    if evs.len() > 0 {
        lemma_resource_events_in_bounds(resources, stats, evs.drop_last());
        let prev = spec_apply_resource_events(resources, stats, evs.drop_last(), false, false);
        let ev = evs.last();
        let out = spec_apply_resource_event(prev, stats, ev, false, false);
        match spec_stat_current_of(stats, ev.target) {
            None => {},
            Some(m) => {
                assert forall|k: int| 0 <= k < resources.len() implies out[k].id == prev[k].id
                    && spec_resource_in_bounds(out[k], stats) by {
                    if prev[k].id == ev.target {
                        lemma_resource_change_clamped(prev[k], ev, m as int);
                    }
                };
            },
        }
    }
}

/// Consumes every queued `ResourceChangeEvent`, applying each change to the
/// target's resource current, clamping it against the paired stat's derived
/// value and recomputing the percentage. Events whose target lacks either
/// component are dropped silently.
pub fn change_resource<T: RPGResource>(
    events: &mut Vec<ResourceChangeEvent<T>>,
    resources: &mut Vec<ResourceEntry<T>>,
    stats: &Vec<StatEntry<T>>,
)
    ensures
        final(events)@.len() == 0,
        final(resources)@ == spec_apply_resource_events(
            old(resources)@,
            stats@,
            old(events)@,
            T::spec_can_negative(),
            T::spec_can_overmax(),
        ),
{
    let ghost orig_res = resources@;
    let ghost orig_evs = events@;
    let n = events.len();
    let mut i: usize = 0;
    while i < n
        invariant
            orig_res == old(resources)@,
            orig_evs == old(events)@,
            events@ == orig_evs,
            n == orig_evs.len(),
            0 <= i <= n,
            resources@ == spec_apply_resource_events(orig_res, stats@, orig_evs.take(i as int),
                T::spec_can_negative(), T::spec_can_overmax(),
            ),
        decreases n - i,
    {
        proof {
            assert(orig_evs.take(i + 1).drop_last() =~= orig_evs.take(i as int));
            assert(orig_evs.take(i + 1).last() == orig_evs[i as int]);
        }
        let ghost snap = resources@;
        let target = events[i].target;
        match find_stat_current(stats, target) {
            None => {},
            Some(maxv) => {
                let m = resources.len();
                let mut j: usize = 0;
                while j < m
                    invariant
                        0 <= j <= m,
                        m == resources@.len(),
                        m == snap.len(),
                        events@ == orig_evs,
                        n == orig_evs.len(),
                        i < n,
                        target == orig_evs[i as int].target,
                        Some(maxv) == spec_stat_current_of(stats@, target),
                        forall|k: int|
                            0 <= k < j ==> resources@[k] == spec_resource_changed(
                                snap[k],
                                orig_evs[i as int],
                                maxv as int,
                                T::spec_can_negative(),
                                T::spec_can_overmax(),
                            ),
                        forall|k: int| j <= k < m ==> resources@[k] == snap[k],
                    decreases m - j,
                {
                    if resources[j].id == target {
                        let ghost before = resources@;
                        let mut entry = resources.remove(j);
                        let mut nb = events[i].change.apply(entry.resource.current);
                        if !T::can_negative() {
                            if nb < 0 {
                                nb = 0;
                            }
                        }
                        if !T::can_overmax() {
                            if nb > maxv {
                                nb = maxv;
                            }
                        }
                        entry.resource.current = nb;
                        entry.resource.percent = percent_of(nb, maxv);
                        resources.insert(j, entry);
                        proof {
                            assert(resources@ =~= before.update(j as int,
                                resources@[j as int]));
                        }
                    }
                    j += 1;
                }
                proof {
                    assert(resources@ =~= spec_apply_resource_event(snap, stats@,
                        orig_evs[i as int], T::spec_can_negative(), T::spec_can_overmax(),
                    ));
                }
            },
        }
        i += 1;
    }
    proof {
        assert(orig_evs.take(n as int) =~= orig_evs);
    }
    events.clear();
}

} // verus!
