//! The in-game car builder: what is selected, where blocks and weapons
//! go, and the car the player drives away in.
use vstd::prelude::*;
use crate::ai::agent::{CarAgent, DriveMode};
use crate::ai::neat_core::{FeedforwardNet, Genome, compiled_from, initial_nodes};
use crate::arith::Pos;
use crate::voxel::block::{BlockType, block_of_code};
use crate::voxel::builder::WeaponPlacement;
use crate::voxel::grid::{VoxelGrid, new_cell, cell_index, occupied_count, GRID_SIZE};
use crate::weapons::{WeaponType, GridPos, weapon_of_code};

verus! {

/// What the builder places: blocks or weapons.
#[derive(Debug, Clone, Copy, PartialEq, Eq, Structural)]
pub enum MaterialCategory {
    Block,
    Weapon,
}

/// The builder's state: whether it is open, the selected block kind and
/// weapon kind (by number), the car body being built and the camera
/// target before building began (scene ids), and the weapons placed.
#[derive(Debug)]
pub struct BuilderState {
    pub is_open: bool,
    pub category: MaterialCategory,
    pub selected_block_idx: u8,
    pub selected_weapon_idx: u8,
    pub grid_entity: Option<u64>,
    pub previous_follow: Option<u64>,
    pub weapon_placements: Vec<WeaponPlacement>,
}

impl Default for BuilderState {
    /// Closed, placing blocks, with steel and the rocket launcher selected.
    fn default() -> (b: BuilderState)
        ensures
            !b.is_open,
            b.category == MaterialCategory::Block,
            b.selected_block_idx == 1,
            b.selected_weapon_idx == 0,
            b.grid_entity is None,
            b.previous_follow is None,
            b.weapon_placements@.len() == 0,
    {
        BuilderState {
            is_open: false,
            category: MaterialCategory::Block,
            selected_block_idx: 1,
            selected_weapon_idx: 0,
            grid_entity: None,
            previous_follow: None,
            weapon_placements: Vec::new(),
        }
    }
}

/// The selection after one scroll step in direction `up`: the block
/// number cycles through 0..28 and the weapon number through 0..16.
pub open spec fn scrolled(n: u8, count: u8, up: bool) -> u8 {
    if up {
        ((n + 1) % (count as int)) as u8
    } else if n == 0 {
        (count - 1) as u8
    } else {
        (n - 1) as u8
    }
}

/// Within the `count` kinds, one scroll up then one down gives back the
/// selection, and so does one down then one up.
pub proof fn lemma_scroll_round_trip(n: u8, count: u8)
    requires
        n < count,
    ensures
        scrolled(scrolled(n, count, true), count, false) == n,
        scrolled(scrolled(n, count, false), count, true) == n,
        scrolled(n, count, true) < count,
        scrolled(n, count, false) < count,
{
    if n + 1 == count {
        assert((n + 1) % (count as int) == 0) by (nonlinear_arith)
            requires
                n + 1 == count,
                count > 0,
        ;
    } else {
        assert((n + 1) % (count as int) == n + 1) by (nonlinear_arith)
            requires
                n + 1 < count,
                count > 0,
                n >= 0,
        ;
    }
    if n == 0 {
        assert(((count - 1) + 1) % (count as int) == 0) by (nonlinear_arith)
            requires
                count > 0,
        ;
    } else {
        assert(((n - 1) + 1) % (count as int) == n) by (nonlinear_arith)
            requires
                0 < n < count,
        ;
    }
}

/// The grid's centre cell along each axis.
pub open spec fn centre() -> int {
    GRID_SIZE as int / 2
}

impl BuilderState {
    /// Opens a building session on the new body `grid_entity`: the camera
    /// target `follow` is remembered and the camera turns to the new body;
    /// weapons placed earlier are forgotten.
    pub fn begin_session(&mut self, grid_entity: u64, follow: &mut Option<u64>)
        ensures
            final(self).grid_entity == Some(grid_entity),
            final(self).previous_follow == *old(follow),
            *final(follow) == Some(grid_entity),
            final(self).weapon_placements@.len() == 0,
            final(self).is_open == old(self).is_open,
            final(self).category == old(self).category,
            final(self).selected_block_idx == old(self).selected_block_idx,
            final(self).selected_weapon_idx == old(self).selected_weapon_idx,
    {
        self.grid_entity = Some(grid_entity);
        self.previous_follow = *follow;
        *follow = Some(grid_entity);
        self.weapon_placements = Vec::new();
    }

    /// Tab: switches between placing blocks and placing weapons.
    pub fn toggle_category(&mut self)
        ensures
            final(self).category == if old(self).category == MaterialCategory::Block {
                MaterialCategory::Weapon
            } else {
                MaterialCategory::Block
            },
            final(self).selected_block_idx == old(self).selected_block_idx,
            final(self).selected_weapon_idx == old(self).selected_weapon_idx,
    {
        self.category = if self.category == MaterialCategory::Block {
            MaterialCategory::Weapon
        } else {
            MaterialCategory::Block
        };
    }

    /// A scroll of the mouse wheel by `dy`: up selects the next kind of
    /// the current category, down the previous one, wrapping around; no
    /// movement changes nothing.  Scrolling up from selection 255 would
    /// overflow the byte, which `requires` rules out.
    pub fn scroll(&mut self, dy: i32)
        requires
            dy > 0 && old(self).category == MaterialCategory::Block ==> old(self).selected_block_idx < 255,
            dy > 0 && old(self).category == MaterialCategory::Weapon ==> old(self).selected_weapon_idx < 255,
        ensures
            final(self).category == old(self).category,
            dy == 0 ==> final(self).selected_block_idx == old(self).selected_block_idx
                && final(self).selected_weapon_idx == old(self).selected_weapon_idx,
            dy != 0 && old(self).category == MaterialCategory::Block ==> final(self).selected_block_idx == scrolled(
                old(self).selected_block_idx,
                28,
                dy > 0,
            ) && final(self).selected_weapon_idx == old(self).selected_weapon_idx,
            dy != 0 && old(self).category == MaterialCategory::Weapon ==> final(self).selected_weapon_idx == scrolled(
                old(self).selected_weapon_idx,
                16,
                dy > 0,
            ) && final(self).selected_block_idx == old(self).selected_block_idx,
    {
        if dy > 0 {
            if self.category == MaterialCategory::Block {
                self.selected_block_idx = (self.selected_block_idx + 1) % 28;
            } else {
                self.selected_weapon_idx = (self.selected_weapon_idx + 1) % 16;
            }
        } else if dy < 0 {
            if self.category == MaterialCategory::Block {
                self.selected_block_idx = if self.selected_block_idx == 0 { 27 } else { self.selected_block_idx - 1 };
            } else {
                self.selected_weapon_idx = if self.selected_weapon_idx == 0 { 15 } else { self.selected_weapon_idx - 1 };
            }
        }
    }

    /// The block kind selected.
    pub fn selected_block(&self) -> (t: BlockType)
        ensures
            t == block_of_code(self.selected_block_idx),
    {
        BlockType::from_u8(self.selected_block_idx)
    }

    /// The weapon kind selected.
    pub fn selected_weapon(&self) -> (t: WeaponType)
        ensures
            t == weapon_of_code(self.selected_weapon_idx),
    {
        WeaponType::from_u8(self.selected_weapon_idx)
    }

    /// A left click on the body being built: an empty body gets a plasma
    /// core at its centre and, when placing weapons, the selected weapon is
    /// recorded one cell above it.  A body with blocks is left alone.
    pub fn click(&mut self, grid: &mut VoxelGrid)
        requires
            old(grid).wf(),
        ensures
            final(grid).wf(),
            final(self).category == old(self).category,
            final(self).grid_entity == old(self).grid_entity,
            occupied_count(old(grid)@) != 0 ==> final(grid)@ == old(grid)@ && final(self).weapon_placements@
                == old(self).weapon_placements@,
            occupied_count(old(grid)@) == 0 ==> {
                &&& final(grid)@ == old(grid)@.update(
                    cell_index(centre(), centre(), centre()),
                    Some(new_cell(BlockType::PlasmaCore)),
                )
                &&& final(self).weapon_placements@ == if old(self).category == MaterialCategory::Weapon {
                    old(self).weapon_placements@.push(
                        WeaponPlacement {
                            grid_pos: GridPos { x: 5, y: 6, z: 5 },
                            weapon_type: weapon_of_code(old(self).selected_weapon_idx),
                        },
                    )
                } else {
                    old(self).weapon_placements@
                }
            },
    {
        if grid.block_count() == 0 {
            grid.place(GRID_SIZE / 2, GRID_SIZE / 2, GRID_SIZE / 2, BlockType::PlasmaCore);
            if self.category == MaterialCategory::Weapon {
                let w = WeaponType::from_u8(self.selected_weapon_idx);
                self.weapon_placements.push(
                    WeaponPlacement { grid_pos: GridPos { x: GRID_SIZE / 2, y: GRID_SIZE / 2 + 1, z: GRID_SIZE / 2 }, weapon_type: w },
                );
            }
        }
    }
}

/// The agent number the player's car drives under.
pub const PLAYER_AGENT_ID: usize = 31;

/// Where the player's car appears: 15 m above the centre spot.
pub open spec fn player_spawn() -> Pos {
    Pos { x: 0, y: 15000, z: 0 }
}

/// Enter: finishes the body (an empty one gets a plasma core at its
/// centre) and makes the driver of the player's car: agent 31 at the
/// player spawn point, running a bare one-input, one-output network.  The
/// builder closes and forgets the body.
pub fn finish_build(state: &mut BuilderState, grid: &mut VoxelGrid) -> (agent: CarAgent)
    requires
        old(grid).wf(),
    ensures
        final(grid).wf(),
        occupied_count(old(grid)@) != 0 ==> final(grid)@ == old(grid)@,
        occupied_count(old(grid)@) == 0 ==> final(grid)@ == old(grid)@.update(
            cell_index(centre(), centre(), centre()),
            Some(new_cell(BlockType::PlasmaCore)),
        ),
        !final(state).is_open,
        final(state).grid_entity is None,
        final(state).weapon_placements@ == old(state).weapon_placements@,
        agent.agent_id == PLAYER_AGENT_ID,
        agent.spawn_pos == player_spawn(),
        agent.accumulated_reward == 0,
        agent.drive_mode == DriveMode::Semi,
        exists|g: Genome| g.nodes@ == initial_nodes(1, 1) && g.connections@.len() == 1 && compiled_from(agent.net, g),
{
    if grid.block_count() == 0 {
        grid.place(GRID_SIZE / 2, GRID_SIZE / 2, GRID_SIZE / 2, BlockType::PlasmaCore);
    }
    let genome = Genome::new(1, 1);
    assert(genome.nodes@[0].id == 0 && genome.nodes@[1].id == 1);
    let net = FeedforwardNet::new(&genome, 1, 1);
    let agent = CarAgent::new(PLAYER_AGENT_ID, net, Pos { x: 0, y: 15000, z: 0 });
    state.grid_entity = None;
    state.is_open = false;
    agent
}

} // verus!
