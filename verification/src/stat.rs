//! Stat kinds and the per-entity stat component.
use vstd::prelude::*;

verus! {

use core::marker::PhantomData;
use crate::fixed::spec_fadd;
use crate::fixed::spec_fdiv_count;
use crate::fixed::fadd;
use crate::fixed::fdiv_count;
use crate::statmod::ModStyle;
use crate::statmod::MultiplierStyle;
use crate::systems::add_stats;
use crate::systems::lemma_stale_ref_product_multipliers;
use crate::systems::lemma_stale_ref_sum_multiplier_deltas;
use crate::systems::lemma_stale_ref_sum_offsets;
use crate::systems::mul_diff;
use crate::systems::mul_stats;
use crate::systems::spec_product_multipliers;
use crate::systems::spec_resolve;
use crate::systems::spec_sum_multiplier_deltas;
use crate::systems::spec_sum_offsets;
use crate::systems::spec_without;
use crate::world::Entity;
use crate::world::ModEntry;
use crate::world::StatEntry;

/// A stat kind: a zero-data marker naming a category of numeric attribute
/// and declaring its static numeric policy. Users implement it for their own
/// marker types; nothing here is proved about those implementations beyond
/// each method returning its declared spec value.
pub trait RPGStat {
    /// Whether the derived or base value may go below zero.
    spec fn spec_can_negative() -> bool;

    /// Which composition style recomputes `current` each tick.
    spec fn spec_modstyle() -> ModStyle;

    /// How multiplier modifiers stack.
    spec fn spec_multiplier_style() -> MultiplierStyle;

    fn can_negative() -> (b: bool)
        ensures
            b == Self::spec_can_negative(),
    ;

    fn modstyle() -> (m: ModStyle)
        ensures
            m == Self::spec_modstyle(),
    ;

    fn multiplier_style() -> (m: MultiplierStyle)
        ensures
            m == Self::spec_multiplier_style(),
    ;
}

/// Index of the first occurrence of `x` in `s`, if any.
pub open spec fn spec_position(s: Seq<Entity>, x: Entity) -> Option<int>
    decreases s.len(),
{
    if s.len() == 0 {
        None
    } else if s.first() == x {
        Some(0int)
    } else {
        match spec_position(s.drop_first(), x) {
            Some(i) => Some(i + 1),
            None => None,
        }
    }
}

/// A forward search that saw no match up to `i`, and a match at `i`, lands on
/// the first occurrence.
pub proof fn lemma_position_found(s: Seq<Entity>, x: Entity, i: int)
    requires
        0 <= i < s.len(),
        s[i] == x,
        forall|j: int| 0 <= j < i ==> s[j] != x,
    ensures
        spec_position(s, x) == Some(i),
    decreases s.len(),
{
    if s.first() == x {
        assert(i == 0);
    } else {
        assert(s.drop_first()[i - 1] == x);
        assert(forall|j: int| 0 <= j < i - 1 ==> s.drop_first()[j] != x);
        lemma_position_found(s.drop_first(), x, i - 1);
    }
}

/// A sequence without `x` has no position for it.
pub proof fn lemma_position_none(s: Seq<Entity>, x: Entity)
    requires
        forall|j: int| 0 <= j < s.len() ==> s[j] != x,
    ensures
        spec_position(s, x) is None,
    decreases s.len(),
{
    if s.len() > 0 {
        assert(forall|j: int| 0 <= j < s.drop_first().len() ==> s.drop_first()[j] != x);
        lemma_position_none(s.drop_first(), x);
    }
}

/// A numeric attribute: a base value, a derived current value recomputed
/// every tick, and the ordered list of modifier-entity references folded into
/// it (most recently added first).
#[derive(Debug)]
pub struct Stat<T: RPGStat> {
    pub base: i64,
    pub current: i64,
    pub mods: Vec<Entity>,
    pub _phantom: PhantomData<T>,
}

impl<T: RPGStat> Stat<T> {
    pub fn new(value: i64) -> (s: Self)
        ensures
            s.base == value,
            s.current == value,
            s.mods@ == Seq::<Entity>::empty(),
    {
        Self { base: value, current: value, _phantom: PhantomData, mods: Vec::new() }
    }

    pub fn current_value(&self) -> (r: i64)
        ensures
            r == self.current,
    {
        self.current
    }

    /// Number of modifier references attached to this stat, stale ones
    /// included.
    pub fn mod_count(&self) -> (n: usize)
        ensures
            n == self.mods@.len(),
    {
        self.mods.len()
    }

    /// Attaches a modifier reference at the front of the list.
    pub fn add_mod(&mut self, new_mod: Entity)
        ensures
            final(self).mods@ == old(self).mods@.insert(0, new_mod),
            final(self).base == old(self).base,
            final(self).current == old(self).current,
    {
        self.mods.insert(0, new_mod);
    }

    /// Detaches the first reference equal to `dead_mod`; a no-op when absent.
    pub fn remove_mod(&mut self, dead_mod: Entity)
        ensures
            final(self).base == old(self).base,
            final(self).current == old(self).current,
            match spec_position(old(self).mods@, dead_mod) {
                Some(i) => final(self).mods@ == old(self).mods@.remove(i),
                None => final(self).mods@ == old(self).mods@,
            },
    {
        let ghost pre = *self;
        let ghost orig = self.mods@;
        let n = self.mods.len();
        let mut i: usize = 0;
        while i < n
            invariant
                n == self.mods@.len(),
                0 <= i <= n,
                pre == *old(self),
                *self == pre,
                self.mods@ == orig,
                forall|j: int| 0 <= j < i ==> self.mods@[j] != dead_mod,
            decreases n - i,
        {
            if self.mods[i] == dead_mod {
                proof {
                    lemma_position_found(orig, dead_mod, i as int);
                }
                self.mods.remove(i);
                return;
            }
            i += 1;
        }
        proof {
            lemma_position_none(orig, dead_mod);
        }
    }
}

/// AddMul: offsets applied first, multipliers compound on the sum.
pub open spec fn spec_addmul<T: RPGStat>(base: int, list: Seq<Entity>, tbl: Seq<ModEntry<T>>) -> int {
    spec_product_multipliers(spec_sum_offsets(base, list, tbl), list, tbl)
}

/// MulAdd: multipliers compound on the raw base, offsets added last.
pub open spec fn spec_muladd<T: RPGStat>(base: int, list: Seq<Entity>, tbl: Seq<ModEntry<T>>) -> int {
    spec_sum_offsets(spec_product_multipliers(base, list, tbl), list, tbl)
}

/// SumDifferences: offset and multiplier contributions computed independently
/// against `base` and summed, with no interaction between the two.
pub open spec fn spec_sumdiff<T: RPGStat>(base: int, list: Seq<Entity>, tbl: Seq<ModEntry<T>>) -> int {
    spec_fadd(spec_sum_offsets(base, list, tbl), spec_sum_multiplier_deltas(base, list, tbl))
}

/// AverageDifferences: the SumDifferences value divided by the total count of
/// attached references, matching ones or not. An empty list yields zero by
/// policy: the degenerate division is defined rather than a fault.
pub open spec fn spec_avediff<T: RPGStat>(base: int, list: Seq<Entity>, tbl: Seq<ModEntry<T>>) -> int {
    if list.len() == 0 {
        0
    } else {
        spec_fdiv_count(spec_sumdiff(base, list, tbl), list.len() as int)
    }
}

/// The derived value of a stat under the given composition style.
pub open spec fn spec_style_value<T: RPGStat>(
    style: ModStyle,
    base: int,
    list: Seq<Entity>,
    tbl: Seq<ModEntry<T>>,
) -> int {
    match style {
        ModStyle::AddMul => spec_addmul(base, list, tbl),
        ModStyle::MulAdd => spec_muladd(base, list, tbl),
        ModStyle::SumDifferences => spec_sumdiff(base, list, tbl),
        ModStyle::AverageDifferences => spec_avediff(base, list, tbl),
    }
}

/// AddMul is the two primitives applied in sequence: the offsets folded into
/// the base first, the multipliers compounded on that sum. (The swapped
/// order is MulAdd, a distinct style: the two differ on most inputs.)
pub proof fn lemma_addmul_composes<T: RPGStat>(base: int, list: Seq<Entity>, tbl: Seq<ModEntry<T>>)
    ensures
        spec_addmul(base, list, tbl) == spec_product_multipliers(
            spec_sum_offsets(base, list, tbl),
            list,
            tbl,
        ),
        spec_muladd(base, list, tbl) == spec_sum_offsets(
            spec_product_multipliers(base, list, tbl),
            list,
            tbl,
        ),
{
}

/// With exactly one modifier reference attached, AverageDifferences and
/// SumDifferences agree: the average divides by the total count, one.
pub proof fn lemma_avediff_single_matches_sumdiff<T: RPGStat>(
    base: int,
    list: Seq<Entity>,
    tbl: Seq<ModEntry<T>>,
)
    requires
        list.len() == 1,
    ensures
        spec_avediff(base, list, tbl) == spec_sumdiff(base, list, tbl),
{
    crate::fixed::lemma_tdiv_by_one(spec_sumdiff(base, list, tbl));
}

/// A stale reference — one that no longer resolves to a modifier — is
/// skipped without fault: aggregation gives the same derived value as if the
/// reference were absent from the list. This holds for every style but
/// AverageDifferences, which divides by the total reference count, stale ones
/// included, so there a stale reference still deflates the average.
pub proof fn lemma_stale_ref_skipped<T: RPGStat>(
    style: ModStyle,
    base: int,
    list: Seq<Entity>,
    tbl: Seq<ModEntry<T>>,
    e: Entity,
)
    requires
        spec_resolve(tbl, e) is None,
        style != ModStyle::AverageDifferences,
    ensures
        spec_style_value(style, base, list, tbl) == spec_style_value(
            style,
            base,
            spec_without(list, e),
            tbl,
        ),
{
    let w = spec_without(list, e);
    match style {
        ModStyle::AddMul => {
            lemma_stale_ref_sum_offsets(base, list, tbl, e);
            lemma_stale_ref_product_multipliers(spec_sum_offsets(base, list, tbl), list, tbl, e);
        },
        ModStyle::MulAdd => {
            lemma_stale_ref_product_multipliers(base, list, tbl, e);
            lemma_stale_ref_sum_offsets(spec_product_multipliers(base, list, tbl), list, tbl, e);
        },
        ModStyle::SumDifferences => {
            lemma_stale_ref_sum_offsets(base, list, tbl, e);
            lemma_stale_ref_sum_multiplier_deltas(base, list, tbl, e);
        },
        ModStyle::AverageDifferences => {},
    }
}

/// The stat entry after one aggregation pass under `style`: `current`
/// recomputed from `base` and the modifier list, everything else kept.
pub open spec fn spec_aggregated<T: RPGStat>(
    e: StatEntry<T>,
    tbl: Seq<ModEntry<T>>,
    style: ModStyle,
) -> StatEntry<T> {
    StatEntry {
        id: e.id,
        stat: Stat {
            base: e.stat.base,
            current: spec_style_value(style, e.stat.base as int, e.stat.mods@, tbl) as i64,
            mods: e.stat.mods,
            _phantom: e.stat._phantom,
        },
    }
}

/// Recomputes every stat's `current` under the AddMul style.
pub fn update_modded_stats_addmul<T: RPGStat>(stats: &mut Vec<StatEntry<T>>, mods: &Vec<ModEntry<T>>)
    ensures
        final(stats)@.len() == old(stats)@.len(),
        forall|k: int|
            0 <= k < old(stats)@.len() ==> final(stats)@[k] == spec_aggregated(
                old(stats)@[k],
                mods@,
                ModStyle::AddMul,
            ),
{
    let ghost orig = stats@;
    let n = stats.len();
    let mut i: usize = 0;
    while i < n
        invariant
            orig == old(stats)@,
            n == stats@.len(),
            n == orig.len(),
            0 <= i <= n,
            forall|k: int| 0 <= k < i ==> stats@[k] == spec_aggregated(orig[k], mods@, ModStyle::AddMul),
            forall|k: int| i <= k < n ==> stats@[k] == orig[k],
        decreases n - i,
    {
        let ghost before = stats@;
        let mut entry = stats.remove(i);
        let v = mul_stats::<T>(
            add_stats::<T>(entry.stat.base, &entry.stat.mods, mods),
            &entry.stat.mods,
            mods,
        );
        entry.stat.current = v;
        stats.insert(i, entry);
        proof {
            assert(stats@ =~= before.update(i as int, stats@[i as int]));
        }
        i += 1;
    }
}

/// Recomputes every stat's `current` under the MulAdd style.
pub fn update_modded_stats_muladd<T: RPGStat>(stats: &mut Vec<StatEntry<T>>, mods: &Vec<ModEntry<T>>)
    ensures
        final(stats)@.len() == old(stats)@.len(),
        forall|k: int|
            0 <= k < old(stats)@.len() ==> final(stats)@[k] == spec_aggregated(
                old(stats)@[k],
                mods@,
                ModStyle::MulAdd,
            ),
{
    let ghost orig = stats@;
    let n = stats.len();
    let mut i: usize = 0;
    while i < n
        invariant
            orig == old(stats)@,
            n == stats@.len(),
            n == orig.len(),
            0 <= i <= n,
            forall|k: int| 0 <= k < i ==> stats@[k] == spec_aggregated(orig[k], mods@, ModStyle::MulAdd),
            forall|k: int| i <= k < n ==> stats@[k] == orig[k],
        decreases n - i,
    {
        let ghost before = stats@;
        let mut entry = stats.remove(i);
        let v = add_stats::<T>(
            mul_stats::<T>(entry.stat.base, &entry.stat.mods, mods),
            &entry.stat.mods,
            mods,
        );
        entry.stat.current = v;
        stats.insert(i, entry);
        proof {
            assert(stats@ =~= before.update(i as int, stats@[i as int]));
        }
        i += 1;
    }
}

/// Recomputes every stat's `current` under the SumDifferences style.
pub fn update_modded_stats_sumdiff<T: RPGStat>(stats: &mut Vec<StatEntry<T>>, mods: &Vec<ModEntry<T>>)
    ensures
        final(stats)@.len() == old(stats)@.len(),
        forall|k: int|
            0 <= k < old(stats)@.len() ==> final(stats)@[k] == spec_aggregated(
                old(stats)@[k],
                mods@,
                ModStyle::SumDifferences,
            ),
{
    let ghost orig = stats@;
    let n = stats.len();
    let mut i: usize = 0;
    while i < n
        invariant
            orig == old(stats)@,
            n == stats@.len(),
            n == orig.len(),
            0 <= i <= n,
            forall|k: int|
                0 <= k < i ==> stats@[k] == spec_aggregated(orig[k], mods@, ModStyle::SumDifferences),
            forall|k: int| i <= k < n ==> stats@[k] == orig[k],
        decreases n - i,
    {
        let ghost before = stats@;
        let mut entry = stats.remove(i);
        let v = fadd(
            add_stats::<T>(entry.stat.base, &entry.stat.mods, mods),
            mul_diff::<T>(entry.stat.base, &entry.stat.mods, mods),
        );
        entry.stat.current = v;
        stats.insert(i, entry);
        proof {
            assert(stats@ =~= before.update(i as int, stats@[i as int]));
        }
        i += 1;
    }
}

/// Recomputes every stat's `current` under the AverageDifferences style.
pub fn update_modded_stats_avediff<T: RPGStat>(stats: &mut Vec<StatEntry<T>>, mods: &Vec<ModEntry<T>>)
    ensures
        final(stats)@.len() == old(stats)@.len(),
        forall|k: int|
            0 <= k < old(stats)@.len() ==> final(stats)@[k] == spec_aggregated(
                old(stats)@[k],
                mods@,
                ModStyle::AverageDifferences,
            ),
{
    let ghost orig = stats@;
    let n = stats.len();
    let mut i: usize = 0;
    while i < n
        invariant
            orig == old(stats)@,
            n == stats@.len(),
            n == orig.len(),
            0 <= i <= n,
            forall|k: int|
                0 <= k < i ==> stats@[k] == spec_aggregated(
                    orig[k],
                    mods@,
                    ModStyle::AverageDifferences,
                ),
            forall|k: int| i <= k < n ==> stats@[k] == orig[k],
        decreases n - i,
    {
        let ghost before = stats@;
        let mut entry = stats.remove(i);
        let count = entry.stat.mods.len();
        let v = if count == 0 {
            0
        } else {
            fdiv_count(
                fadd(
                    add_stats::<T>(entry.stat.base, &entry.stat.mods, mods),
                    mul_diff::<T>(entry.stat.base, &entry.stat.mods, mods),
                ),
                count,
            )
        };
        entry.stat.current = v;
        stats.insert(i, entry);
        proof {
            assert(stats@ =~= before.update(i as int, stats@[i as int]));
        }
        i += 1;
    }
}

} // verus!
