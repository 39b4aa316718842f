//! Voxel car bodies: block kinds, the grid, connectivity, building from a
//! genome, deformation, and keeping a body's parts in step after damage.
pub mod block;
pub mod builder;
pub mod connectivity;
pub mod deformer;
pub mod grid;

use vstd::prelude::*;
use crate::arith::Pos;
use crate::physics::car_controller::CarWheels;
use crate::voxel::grid::{
    VoxelGrid, VoxelCell, DetachedPart, CELL_COUNT, GRID_SIZE, cell_index, any_occupied, is_core_rank,
    kept_after_detach, lex_cell, loose_parts_upto, joined_to, collider_upto,
};
use crate::weapons::GridPos;

verus! {

/// A wheel stays on its car while the cell it was mounted at holds a
/// block; wheels with no recorded mount always stay.
pub open spec fn wheel_stays(cells: Seq<Option<VoxelCell>>, at: Option<GridPos>) -> bool {
    match at {
        Some(p) => cells[cell_index(p.x as int, p.y as int, p.z as int)] is Some,
        None => true,
    }
}

/// The wheels among the first `n` that stay (`keep`) or come off (`!keep`).
pub open spec fn wheels_where(ws: Seq<u64>, at: Seq<Option<GridPos>>, cells: Seq<Option<VoxelCell>>, keep: bool, n: int) -> Seq<u64>
    decreases n,
{
    if n <= 0 {
        Seq::empty()
    } else {
        wheels_where(ws, at, cells, keep, n - 1) + if wheel_stays(cells, at[n - 1]) == keep {
            seq![ws[n - 1]]
        } else {
            Seq::empty()
        }
    }
}

/// What keeping a body in step after damage did: the loose parts that
/// broke off, the new collision shape (block centres), and the wheels that
/// came off with their blocks.
#[derive(Debug)]
pub struct GridSync {
    pub detached: Vec<DetachedPart>,
    pub collider: Vec<Pos>,
    pub removed_wheels: Vec<u64>,
}

/// After a body changed: everything no longer joined to its core breaks
/// off, the collision shape is rebuilt from the blocks left, and wheels
/// whose mounting block is gone come off (`attached[i]` is where wheel `i`
/// was mounted, if recorded).
pub fn sync_grid_colliders(grid: &mut VoxelGrid, wheels: &mut CarWheels, attached: &Vec<Option<GridPos>>) -> (s: GridSync)
    requires
        old(grid).wf(),
        attached@.len() == old(wheels).wheels@.len(),
        forall|i: int|
            0 <= i < attached@.len() ==> (#[trigger] attached@[i] matches Some(p) ==> p.x < GRID_SIZE && p.y < GRID_SIZE
                && p.z < GRID_SIZE),
    ensures
        final(grid).wf(),
        !any_occupied(old(grid)@) ==> final(grid)@ == old(grid)@ && s.detached@.len() == 0,
        any_occupied(old(grid)@) ==> exists|cn: int|
            is_core_rank(old(grid)@, cn) && final(grid)@ == kept_after_detach(old(grid)@, lex_cell(cn)) && s.detached@
                == loose_parts_upto(old(grid)@, joined_to(old(grid)@, lex_cell(cn)), CELL_COUNT as int),
        s.collider@ == collider_upto(final(grid)@, CELL_COUNT as int),
        final(wheels).wheels@ == wheels_where(old(wheels).wheels@, attached@, final(grid)@, true, attached@.len() as int),
        s.removed_wheels@ == wheels_where(old(wheels).wheels@, attached@, final(grid)@, false, attached@.len() as int),
{
    let detached = grid.detach_loose_parts();
    let collider = grid.build_compound_collider();
    let mut kept: Vec<u64> = Vec::new();
    let mut removed: Vec<u64> = Vec::new();
    let mut i: usize = 0;
    while i < attached.len()
        invariant
            i <= attached@.len(),
            attached@.len() == wheels.wheels@.len(),
            wheels.wheels@ == old(wheels).wheels@,
            grid.wf(),
            forall|j: int|
                0 <= j < attached@.len() ==> (#[trigger] attached@[j] matches Some(p) ==> p.x < GRID_SIZE && p.y
                    < GRID_SIZE && p.z < GRID_SIZE),
            kept@ =~= wheels_where(wheels.wheels@, attached@, grid@, true, i as int),
            removed@ =~= wheels_where(wheels.wheels@, attached@, grid@, false, i as int),
        decreases attached@.len() - i,
    {
        let stays = match attached[i] {
            Some(p) => grid.get(p.x, p.y, p.z).is_some(),
            None => true,
        };
        if stays {
            kept.push(wheels.wheels[i]);
        } else {
            removed.push(wheels.wheels[i]);
        }
        i = i + 1;
    }
    wheels.wheels = kept;
    GridSync { detached, collider, removed_wheels: removed }
}

} // verus!
