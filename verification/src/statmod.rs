//! Modifier records, capability enums, and the typed change events.
use vstd::prelude::*;

verus! {

use core::marker::PhantomData;
use crate::fixed::spec_fadd;
use crate::fixed::spec_fmul;
use crate::fixed::fadd;
use crate::fixed::fmul;
use crate::stat::RPGStat;
use crate::world::Entity;

/// Composition style: how a stat kind folds its modifiers into `current`.
#[derive(PartialOrd, Ord, Debug, PartialEq, Eq, Structural, Clone, Copy)]
pub enum ModStyle {
    /// Offsets first, multipliers compound on the sum.
    AddMul,
    /// Multipliers compound on the raw base, offsets added last.
    MulAdd,
    /// Offset and multiplier contributions summed independently, divided by
    /// the total modifier count.
    AverageDifferences,
    /// Offset and multiplier contributions summed independently.
    SumDifferences,
}

/// What a modifier does to the value it is applied to.
#[derive(PartialOrd, Ord, Debug, PartialEq, Eq, Structural, Clone, Copy)]
pub enum ModType {
    Offset,
    Multiplier,
}

/// How multiplier modifiers stack (advisory: aggregation compounds either way).
#[derive(PartialOrd, Ord, Debug, PartialEq, Eq, Structural, Clone, Copy)]
pub enum MultiplierStyle {
    Additive,
    Multiplicative,
}

/// How a resource's current value scales when its maximum moves.
#[derive(PartialOrd, Ord, Debug, PartialEq, Eq, Structural, Clone, Copy)]
pub enum ResourceModUpdateStyle {
    ScaleBoth,
    ScaleOnBuff,
    ScaleOnDebuff,
    NoScale,
}

/// A requested value change: an offset added to, or a multiplier scaling,
/// whatever value it is applied to. Tagged with the stat kind it affects.
#[derive(Debug)]
pub struct StatValueChange<T: RPGStat> {
    pub mod_type: ModType,
    pub value: i64,
    pub _phantom: PhantomData<T>,
}

/// The value a change yields on `stat`: `stat + v` for an offset, the
/// rescaled `stat * v` for a multiplier, floored at zero when the stat kind
/// forbids negative values.
pub open spec fn spec_apply(mt: ModType, v: int, stat: int, can_negative: bool) -> int {
    let raw = if mt == ModType::Offset {
        spec_fadd(stat, v)
    } else {
        spec_fmul(stat, v)
    };
    if can_negative {
        raw
    } else if raw < 0 {
        0
    } else {
        raw
    }
}

/// A zero-valued offset change is the identity: applying it leaves the value
/// as it was. (A negative value under a kind that forbids negatives is the
/// one exception — the floor would lift it to zero — so it is left out.)
pub proof fn lemma_zero_offset_is_identity(stat: int, can_negative: bool)
    requires
        i64::MIN <= stat <= i64::MAX,
        can_negative || stat >= 0,
    ensures
        spec_apply(ModType::Offset, 0, stat, can_negative) == stat,
{
}

impl<T: RPGStat> StatValueChange<T> {
    pub fn new(value: i64, mod_type: ModType) -> (c: Self)
        ensures
            c.mod_type == mod_type,
            c.value == value,
    {
        Self { mod_type, value, _phantom: PhantomData }
    }

    pub fn offset(value: i64) -> (c: Self)
        ensures
            c.mod_type == ModType::Offset,
            c.value == value,
    {
        Self { mod_type: ModType::Offset, value, _phantom: PhantomData }
    }

    pub fn multiplier(value: i64) -> (c: Self)
        ensures
            c.mod_type == ModType::Multiplier,
            c.value == value,
    {
        Self { mod_type: ModType::Multiplier, value, _phantom: PhantomData }
    }

    /// Applies this change to `stat` under the stat kind's negativity policy.
    pub fn apply(&self, stat: i64) -> (r: i64)
        ensures
            r as int == spec_apply(self.mod_type, self.value as int, stat as int,
                T::spec_can_negative()),
    {
        match T::can_negative() {
            true => match self.mod_type {
                ModType::Offset => fadd(stat, self.value),
                ModType::Multiplier => fmul(stat, self.value),
            },
            false => match self.mod_type {
                ModType::Offset => {
                    let r = fadd(stat, self.value);
                    if r < 0 {
                        0
                    } else {
                        r
                    }
                },
                ModType::Multiplier => {
                    let r = fmul(stat, self.value);
                    if r < 0 {
                        0
                    } else {
                        r
                    }
                },
            },
        }
    }
}

/// Marker carried by every modifier entity: the entity is a pure modifier,
/// not itself a stat holder.
#[derive(Debug, PartialEq, Eq, Structural, Clone, Copy)]
pub struct StatModifier;

/// Event: destroy the named modifier entity.
#[derive(Debug, PartialEq, Eq, Structural, Clone, Copy)]
pub struct DeleteStatMod(pub Entity);

/// Event: apply `change` to the base value of `target`'s stat.
#[derive(Debug)]
pub struct StatChangeEvent<T: RPGStat> {
    pub change: StatValueChange<T>,
    pub target: Entity,
}

/// Event: apply `change` to the current value of `target`'s resource, then
/// clamp it against the paired stat's derived maximum.
#[derive(Debug)]
pub struct ResourceChangeEvent<T: RPGStat> {
    pub change: StatValueChange<T>,
    pub target: Entity,
}

} // verus!
