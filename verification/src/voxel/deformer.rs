//! How much a damaged block's shape is bent, and with which noise seed.
use vstd::prelude::*;
use crate::arith::{quot, quot_wide};
use crate::battle::damage::DamageEvent;
use crate::voxel::block::SpecialAbility;

verus! {

/// A request to bend the mesh of one block: the bend (thousandths, at most
/// one whole), the noise seed (thousandths), and whether the block resists
/// bending.
#[derive(Debug, Clone, Copy, PartialEq, Eq, Structural)]
pub struct DeformBlockEvent {
    pub cell_entity: u64,
    pub deform_amount: i64,
    pub seed: i64,
    pub resist: bool,
}

/// The bend of a hit: a hundredth of its damage, at most one whole.
pub open spec fn deform_of(damage: i64) -> int {
    if quot(damage as int, 100) > 1000 {
        1000
    } else {
        quot(damage as int, 100)
    }
}

/// The bend request for a hit on a block with a mesh: bend from the
/// damage, seed 7.3 x + 13.1 y + 19.7 z from the cell, resisting if the
/// block resists deformation.  Blocks without a mesh are left alone.
pub fn trigger_deform_from_damage(ev: &DamageEvent) -> (d: Option<DeformBlockEvent>)
    ensures
        ev.cell_entity is None ==> d is None,
        ev.cell_entity matches Some(e) ==> d == Some(
            DeformBlockEvent {
                cell_entity: e,
                deform_amount: deform_of(ev.damage) as i64,
                seed: (ev.target_cell_x * 7300 + ev.target_cell_y * 13100 + ev.target_cell_z * 19700) as i64,
                resist: ev.special == SpecialAbility::ResistDeform,
            },
        ),
{
    match ev.cell_entity {
        None => None,
        Some(e) => {
            let seed: i64 = (ev.target_cell_x as i64) * 7300 + (ev.target_cell_y as i64) * 13100 + (ev.target_cell_z as i64)
                * 19700;
            let q = quot_wide(ev.damage as i128, 100);
            let amount: i64 = if q > 1000 { 1000 } else { q as i64 };
            Some(DeformBlockEvent { cell_entity: e, deform_amount: amount, seed, resist: ev.special == SpecialAbility::ResistDeform })
        },
    }
}

impl DeformBlockEvent {
    /// The bend applied: a fifth of the request for resistant blocks.
    pub fn effective_amount(&self) -> (a: i64)
        ensures
            a == if self.resist { quot(self.deform_amount as int, 5) } else { self.deform_amount as int },
    {
        if self.resist {
            quot_wide(self.deform_amount as i128, 5) as i64
        } else {
            self.deform_amount
        }
    }
}

} // verus!
