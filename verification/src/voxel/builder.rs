//! Turning a genome into a car body.
use vstd::prelude::*;
use crate::random::random_range;
use crate::voxel::block::{BlockType, BlockStats, Rgba, block_stats, block_of_code, is_wheel_kind, BLOCK_KIND_COUNT};
use crate::voxel::connectivity::{connected, flood_fill, reach_within, neighbor, lemma_reach_step};
use crate::voxel::grid::{
    VoxelCell, VoxelGrid, CellEntry, new_cell, cell_coord, cell_index, occupancy, occupied_count, entries_upto,
    CELL_COUNT, GRID_SIZE, lemma_block_mass_bound,
};
use crate::weapons::{WeaponType, GridPos};

verus! {

/// A weapon to mount at a grid cell.
#[derive(Debug, Clone, Copy, PartialEq, Eq, Structural)]
pub struct WeaponPlacement {
    pub grid_pos: GridPos,
    pub weapon_type: WeaponType,
}

/// How many weapons a car may carry.
#[derive(Debug, Clone, Copy, PartialEq, Eq, Structural)]
pub struct CarBuilder {
    pub max_weapons: usize,
}

impl Default for CarBuilder {
    fn default() -> (b: CarBuilder)
        ensures
            b.max_weapons == 3,
    {
        CarBuilder { max_weapons: 3 }
    }
}

/// One genome byte per grid cell.
pub const GENOME_LEN: usize = 1000;

/// Position of the byte for cell (x, y, z) in a genome.
pub fn genome_index(x: usize, y: usize, z: usize) -> (i: usize)
    requires
        x < GRID_SIZE,
        y < GRID_SIZE,
        z < GRID_SIZE,
    ensures
        i == cell_index(x as int, y as int, z as int),
        i < GENOME_LEN,
{
    x + y * 10 + z * 100
}

/// The block a genome byte puts into its cell.
pub open spec fn cell_of_byte(b: u8) -> Option<VoxelCell> {
    if block_of_code(b) == BlockType::Empty {
        None
    } else {
        Some(new_cell(block_of_code(b)))
    }
}

/// The cells a genome spells out, before any pruning.
pub open spec fn genome_cells(g: Seq<u8>) -> Seq<Option<VoxelCell>> {
    Seq::new(CELL_COUNT as nat, |i: int| cell_of_byte(g[i]))
}

/// The occupied cells of the bottom layer (y = 0).
pub open spec fn floor_seed(s: Seq<Option<VoxelCell>>) -> Seq<bool> {
    Seq::new(CELL_COUNT as nat, |i: int| s[i] is Some && cell_coord(i, 1) == 0)
}

/// The cells after every block that is neither a wheel nor joined, face to
/// face, to the bottom layer has been taken away.
pub open spec fn grounded_cells(s: Seq<Option<VoxelCell>>) -> Seq<Option<VoxelCell>> {
    Seq::new(
        CELL_COUNT as nat,
        |i: int|
            if s[i] is Some && !connected(occupancy(s), floor_seed(s), i) && !is_wheel_kind(
                s[i]->0.block_type,
            ) {
                None
            } else {
                s[i]
            },
    )
}

/// Whether cell `i` lies in the fallback chassis: x in 3..7, y in 4..6, z in 2..8.
pub open spec fn in_chassis(i: int) -> bool {
    3 <= cell_coord(i, 0) < 7 && 4 <= cell_coord(i, 1) < 6 && 2 <= cell_coord(i, 2) < 8
}

/// The fallback body: a 4 x 2 x 6 slab of steel.
pub open spec fn default_chassis() -> Seq<Option<VoxelCell>> {
    Seq::new(
        CELL_COUNT as nat,
        |i: int|
            if in_chassis(i) {
                Some(new_cell(BlockType::Steel))
            } else {
                None
            },
    )
}

/// The body a genome builds: its blocks, pruned to those grounded or
/// wheels; a body of fewer than four blocks is replaced by the fallback.
pub open spec fn genome_body(g: Seq<u8>) -> Seq<Option<VoxelCell>> {
    let s = grounded_cells(genome_cells(g));
    if occupied_count(s) < 4 {
        default_chassis()
    } else {
        s
    }
}

/// Reaching a cell from the bottom layer through the blocks of `s` also
/// reaches it through the blocks that stay after grounding.
proof fn lemma_reach_survives_grounding(s: Seq<Option<VoxelCell>>, t: int, k: nat)
    requires
        s.len() == CELL_COUNT,
        reach_within(occupancy(s), floor_seed(s), t, k),
    ensures
        reach_within(occupancy(grounded_cells(s)), floor_seed(grounded_cells(s)), t, k),
    decreases k,
{
    let occ = occupancy(s);
    let seed = floor_seed(s);
    let g = grounded_cells(s);
    let occ2 = occupancy(g);
    let seed2 = floor_seed(g);
    assert(connected(occ, seed, t));
    assert(occ2[t]);
    if seed[t] {
        assert(seed2[t]);
    } else {
        let d: int = if (neighbor(t, 0) matches Some(p) && reach_within(occ, seed, p, (k - 1) as nat)) {
            0
        } else if (neighbor(t, 1) matches Some(p) && reach_within(occ, seed, p, (k - 1) as nat)) {
            1
        } else if (neighbor(t, 2) matches Some(p) && reach_within(occ, seed, p, (k - 1) as nat)) {
            2
        } else if (neighbor(t, 3) matches Some(p) && reach_within(occ, seed, p, (k - 1) as nat)) {
            3
        } else if (neighbor(t, 4) matches Some(p) && reach_within(occ, seed, p, (k - 1) as nat)) {
            4
        } else {
            5
        };
        let p = neighbor(t, d)->0;
        lemma_reach_survives_grounding(s, p, (k - 1) as nat);
        lemma_reach_step(occ2, seed2, t, d, p, (k - 1) as nat);
    }
}

/// Grounding a second time changes nothing: every block that stays is a
/// wheel or is joined, through blocks that stay, to the bottom layer.
pub proof fn lemma_grounding_idempotent(s: Seq<Option<VoxelCell>>)
    requires
        s.len() == CELL_COUNT,
    ensures
        grounded_cells(grounded_cells(s)) == grounded_cells(s),
{
    let g = grounded_cells(s);
    let g2 = grounded_cells(g);
    assert forall|i: int| 0 <= i < CELL_COUNT implies g2[i] == g[i] by {
        if g[i] is Some && !is_wheel_kind(g[i]->0.block_type) {
            let k = choose|k: nat| #[trigger] reach_within(occupancy(s), floor_seed(s), i, k);
            lemma_reach_survives_grounding(s, i, k);
            assert(connected(occupancy(g), floor_seed(g), i));
        }
    }
    assert(g2 =~= g);
}

/// A sequence with blocks at the strictly increasing positions `idx` has at
/// least as many blocks as there are positions.
proof fn lemma_blocks_at_least(s: Seq<Option<VoxelCell>>, idx: Seq<int>)
    requires
        forall|j: int| 0 <= j < idx.len() ==> 0 <= #[trigger] idx[j] < s.len() && s[idx[j]] is Some,
        forall|a: int, b: int| 0 <= a < b < idx.len() ==> #[trigger] idx[a] < #[trigger] idx[b],
    ensures
        occupied_count(s) >= idx.len(),
    decreases s.len(),
{
    if s.len() == 0 {
        if idx.len() > 0 {
            assert(0 <= idx[0] < s.len());
        }
    } else {
        let n = s.len() - 1;
        let s0 = s.drop_last();
        if idx.len() > 0 && idx.last() == n {
            let i0 = idx.drop_last();
            assert forall|j: int| 0 <= j < i0.len() implies 0 <= #[trigger] i0[j] < s0.len() && s0[i0[j]] is Some by {
                assert(idx[j] < idx[idx.len() - 1]);
            }
            lemma_blocks_at_least(s0, i0);
        } else {
            assert forall|j: int| 0 <= j < idx.len() implies 0 <= #[trigger] idx[j] < s0.len() && s0[idx[j]] is Some by {
                if idx[j] == n {
                    assert(idx.len() > 0);
                    if j < idx.len() - 1 {
                        assert(idx[j] < idx[idx.len() - 1]);
                    }
                }
            }
            lemma_blocks_at_least(s0, idx);
        }
    }
}

/// Every body a genome builds has at least four blocks, and is either the
/// fallback slab or a body whose every block is a wheel or is joined, face
/// to face through its own blocks, to its bottom layer.
pub proof fn lemma_genome_body_sound(g: Seq<u8>)
    requires
        g.len() == GENOME_LEN,
    ensures
        occupied_count(genome_body(g)) >= 4,
        genome_body(g) == default_chassis() || grounded_cells(genome_body(g)) == genome_body(g),
{
    let s = grounded_cells(genome_cells(g));
    if occupied_count(s) < 4 {
        let d = default_chassis();
        let idx = seq![243int, 244, 245, 246];
        assert(in_chassis(243) && in_chassis(244) && in_chassis(245) && in_chassis(246));
        lemma_blocks_at_least(d, idx);
    } else {
        lemma_grounding_idempotent(genome_cells(g));
    }
}

/// Takes away every block that is neither a wheel nor joined, face to face,
/// to a block of the bottom layer.
fn enforce_connectivity(grid: &mut VoxelGrid)
    requires
        old(grid).wf(),
    ensures
        final(grid).wf(),
        final(grid)@ == grounded_cells(old(grid)@),
{
    let mut occ: Vec<bool> = Vec::new();
    let mut seed: Vec<bool> = Vec::new();
    let mut i: usize = 0;
    while i < CELL_COUNT
        invariant
            i <= CELL_COUNT,
            grid.wf(),
            occ@ =~= occupancy(grid@).take(i as int),
            seed@ =~= floor_seed(grid@).take(i as int),
        decreases CELL_COUNT - i,
    {
        proof {
            crate::voxel::connectivity::lemma_index_of_coords(i as int);
        }
        assert(cell_index((i % 10) as int, ((i / 10) % 10) as int, (i / 100) as int) == i);
        let here = grid.get(i % 10, (i / 10) % 10, i / 100).is_some();
        assert(here == (grid@[i as int] is Some));
        occ.push(here);
        seed.push(here && (i / 10) % 10 == 0);
        i = i + 1;
    }
    assert(occ@ =~= occupancy(grid@));
    assert(seed@ =~= floor_seed(grid@));
    let visited = flood_fill(&occ, &seed);
    let ghost s = grid@;
    let mut x: usize = 0;
    while x < CELL_COUNT
        invariant
            x <= CELL_COUNT,
            grid.wf(),
            visited@.len() == CELL_COUNT,
            forall|t: int| 0 <= t < CELL_COUNT ==> (visited@[t] <==> connected(occupancy(s), floor_seed(s), t)),
            forall|t: int| 0 <= t < x ==> grid@[t] == grounded_cells(s)[t],
            forall|t: int| x <= t < CELL_COUNT ==> grid@[t] == s[t],
        decreases CELL_COUNT - x,
    {
        proof {
            crate::voxel::connectivity::lemma_index_of_coords(x as int);
        }
        let remove = match grid.get(x % 10, (x / 10) % 10, x / 100) {
            Some(c) => !visited[x] && !c.block_type.is_wheel(),
            None => false,
        };
        if remove {
            grid.remove(x % 10, (x / 10) % 10, x / 100);
        }
        x = x + 1;
    }
    assert(grid@ =~= grounded_cells(s));
}

/// Fills the grid with the fallback body, a 4 x 2 x 6 slab of steel.
fn build_default_chassis(grid: &mut VoxelGrid)
    ensures
        final(grid).wf(),
        final(grid)@ == default_chassis(),
{
    *grid = VoxelGrid::new();
    let mut x: usize = 3;
    while x < 7
        invariant
            3 <= x <= 7,
            grid.wf(),
            forall|i: int|
                0 <= i < CELL_COUNT ==> grid@[i] == if in_chassis(i) && cell_coord(i, 0) < x {
                    Some(new_cell(BlockType::Steel))
                } else {
                    None::<VoxelCell>
                },
        decreases 7 - x,
    {
        let mut y: usize = 4;
        while y < 6
            invariant
                3 <= x < 7,
                4 <= y <= 6,
                grid.wf(),
                forall|i: int|
                    0 <= i < CELL_COUNT ==> grid@[i] == if in_chassis(i) && (cell_coord(i, 0) < x || (
                    cell_coord(i, 0) == x && cell_coord(i, 1) < y)) {
                        Some(new_cell(BlockType::Steel))
                    } else {
                        None::<VoxelCell>
                    },
            decreases 6 - y,
        {
            let mut z: usize = 2;
            while z < 8
                invariant
                    3 <= x < 7,
                    4 <= y < 6,
                    2 <= z <= 8,
                    grid.wf(),
                    forall|i: int|
                        0 <= i < CELL_COUNT ==> grid@[i] == if in_chassis(i) && (cell_coord(i, 0) < x
                            || (cell_coord(i, 0) == x && cell_coord(i, 1) < y) || (cell_coord(i, 0)
                            == x && cell_coord(i, 1) == y && cell_coord(i, 2) < z)) {
                            Some(new_cell(BlockType::Steel))
                        } else {
                            None::<VoxelCell>
                        },
                decreases 8 - z,
            {
                let ghost before = grid@;
                grid.place(x, y, z, BlockType::Steel);
                proof {
                    crate::voxel::connectivity::lemma_coords_of_index(x as int, y as int, z as int);
                    assert forall|i: int| 0 <= i < CELL_COUNT implies grid@[i] == if in_chassis(i) && (
                    cell_coord(i, 0) < x || (cell_coord(i, 0) == x && cell_coord(i, 1) < y) || (
                    cell_coord(i, 0) == x && cell_coord(i, 1) == y && cell_coord(i, 2) < z + 1)) {
                        Some(new_cell(BlockType::Steel))
                    } else {
                        None::<VoxelCell>
                    } by {
                        if i != cell_index(x as int, y as int, z as int) {
                            crate::voxel::connectivity::lemma_index_of_coords(i);
                        }
                    }
                }
                z = z + 1;
            }
            y = y + 1;
        }
        x = x + 1;
    }
    assert(grid@ =~= default_chassis());
}

/// Rebuilds the grid from a genome: one block per byte (bytes past the
/// catalogue leave the cell empty), then every block that is neither a wheel
/// nor joined to the bottom layer is taken away; if fewer than four blocks
/// remain the fallback steel slab is built instead.
pub fn apply_genome(grid: &mut VoxelGrid, genome: &[u8; GENOME_LEN], _weapons: &[WeaponPlacement])
    ensures
        final(grid).wf(),
        final(grid)@ == genome_body(genome@),
{
    let mut cells: Vec<Option<VoxelCell>> = Vec::new();
    let mut i: usize = 0;
    while i < CELL_COUNT
        invariant
            i <= CELL_COUNT,
            genome@.len() == GENOME_LEN,
            cells@ =~= genome_cells(genome@).take(i as int),
            crate::voxel::grid::cells_sound(cells@),
        decreases CELL_COUNT - i,
    {
        let t = BlockType::from_u8(genome[i]);
        proof {
            lemma_block_mass_bound(t);
        }
        if t == BlockType::Empty {
            cells.push(None);
        } else {
            cells.push(Some(VoxelCell::new(t)));
        }
        i = i + 1;
    }
    assert(cells@ =~= genome_cells(genome@));
    *grid = VoxelGrid::new();
    grid.replace_cells(cells);
    enforce_connectivity(grid);
    if grid.block_count() < 4 {
        build_default_chassis(grid);
    }
}

/// The genome byte made from the draws: empty (0) when `empty_draw` is
/// below 6 (of ten), otherwise the block kind `kind_draw`.
pub open spec fn genome_byte_of(empty_draw: int, kind_draw: int) -> int {
    if empty_draw < 6 {
        0
    } else {
        kind_draw
    }
}

/// Some empty draw in [0, 10) and kind draw in [1, 28) give byte `b`.
pub open spec fn drawn_genome_byte(b: u8) -> bool {
    exists|e: int, k: int| 0 <= e < 10 && 1 <= k < 28 && b == #[trigger] genome_byte_of(e, k)
}

/// The genome byte for the given draws (see `genome_byte_of`).
pub fn genome_byte(empty_draw: i64, kind_draw: i64) -> (b: u8)
    requires
        empty_draw < 6 || 0 <= kind_draw <= 255,
    ensures
        b == genome_byte_of(empty_draw as int, kind_draw as int),
{
    if empty_draw < 6 {
        0
    } else {
        kind_draw as u8
    }
}

/// A random genome: each byte is empty with probability 0.6 and otherwise
/// a uniformly drawn non-empty block kind.
pub fn random_genome() -> (g: [u8; GENOME_LEN])
    ensures
        forall|i: int| 0 <= i < GENOME_LEN ==> #[trigger] drawn_genome_byte(g@[i]),
        forall|i: int| 0 <= i < GENOME_LEN ==> g@[i] < BLOCK_KIND_COUNT,
{
    let mut genome = [0u8; 1000];
    let mut i: usize = 0;
    assert(genome_byte_of(0, 1) == 0);
    while i < GENOME_LEN
        invariant
            i <= GENOME_LEN,
            forall|j: int| 0 <= j < GENOME_LEN ==> #[trigger] drawn_genome_byte(genome@[j]),
            forall|j: int| 0 <= j < GENOME_LEN ==> genome@[j] < BLOCK_KIND_COUNT,
        decreases GENOME_LEN - i,
    {
        let e = random_range(0, 10);
        let k: i64 = if e < 6 {
            1
        } else {
            random_range(1, 28)
        };
        let b = genome_byte(e, k);
        assert(b == genome_byte_of(e as int, k as int));
        genome[i] = b;
        i = i + 1;
    }
    genome
}

/// Between one and `max` random weapons, each at a random cell with x and z
/// in 2..8 and y in 5..10.
pub fn random_weapons(max: usize) -> (ws: Vec<WeaponPlacement>)
    requires
        1 <= max < 0x7fff_ffff_ffff_ffff,
    ensures
        1 <= ws@.len() <= max,
        forall|k: int|
            0 <= k < ws@.len() ==> {
                let p = #[trigger] ws@[k].grid_pos;
                2 <= p.x < 8 && 5 <= p.y < 10 && 2 <= p.z < 8
            },
{
    let count = random_range(1, max as i64 + 1) as usize;
    let mut ws: Vec<WeaponPlacement> = Vec::new();
    let mut k: usize = 0;
    while k < count
        invariant
            k <= count,
            count <= max,
            ws@.len() == k,
            forall|j: int|
                0 <= j < ws@.len() ==> {
                    let p = #[trigger] ws@[j].grid_pos;
                    2 <= p.x < 8 && 5 <= p.y < 10 && 2 <= p.z < 8
                },
        decreases count - k,
    {
        let x = random_range(2, 8) as usize;
        let y = random_range(5, 10) as usize;
        let z = random_range(2, 8) as usize;
        let t = WeaponType::from_u8(random_range(0, 16) as u8);
        ws.push(WeaponPlacement { grid_pos: GridPos { x, y, z }, weapon_type: t });
        k = k + 1;
    }
    ws
}

/// How a block kind is drawn: its colour, a glow thirty times as bright
/// (opaque), metallic finish (thousandths: 0.6 for armour above 0.3, else
/// 0.1), roughness one half, and blending for see-through kinds.
#[derive(Debug, Clone, Copy, PartialEq, Eq, Structural)]
pub struct BlockMaterial {
    pub base_color: Rgba,
    pub emissive: Rgba,
    pub metallic: u32,
    pub roughness: u32,
    pub blend: bool,
}

/// The drawing material of block kind `t`.
pub open spec fn material_of(t: BlockType) -> BlockMaterial {
    let st = block_stats(t);
    BlockMaterial {
        base_color: st.color,
        emissive: Rgba { r: (st.color.r * 30) as u32, g: (st.color.g * 30) as u32, b: (st.color.b * 30) as u32, a: 1000 },
        metallic: if st.armor > 300 { 600 } else { 100 },
        roughness: 500,
        blend: st.color.a < 1000,
    }
}

/// The drawing material of a block kind, computed.
pub fn block_material(t: BlockType) -> (m: BlockMaterial)
    ensures
        m == material_of(t),
{
    let st = BlockStats::get(t);
    proof {
        crate::voxel::block::lemma_block_colors_bounded(t);
    }
    BlockMaterial {
        base_color: st.color,
        emissive: Rgba { r: st.color.r * 30, g: st.color.g * 30, b: st.color.b * 30, a: 1000 },
        metallic: if st.armor > 300 { 600 } else { 100 },
        roughness: 500,
        blend: st.color.a < 1000,
    }
}

/// The non-wheel blocks among the listed cells: the ones drawn as cubes
/// (wheels get bodies of their own).
pub open spec fn cube_cells_upto(es: Seq<CellEntry>, n: int) -> Seq<CellEntry>
    decreases n,
{
    if n <= 0 {
        Seq::empty()
    } else {
        cube_cells_upto(es, n - 1) + if !is_wheel_kind(es[n - 1].cell.block_type) {
            seq![es[n - 1]]
        } else {
            Seq::empty()
        }
    }
}

/// The blocks of a body drawn as cubes, in x-major order of their cells.
pub fn spawn_block_visuals(grid: &VoxelGrid) -> (cubes: Vec<CellEntry>)
    requires
        grid.wf(),
    ensures
        cubes@ == cube_cells_upto(entries_upto(grid@, CELL_COUNT as int), entries_upto(grid@, CELL_COUNT as int).len() as int),
{
    let es = grid.iter_cells();
    let mut cubes: Vec<CellEntry> = Vec::new();
    let mut k: usize = 0;
    while k < es.len()
        invariant
            k <= es@.len(),
            cubes@ =~= cube_cells_upto(es@, k as int),
        decreases es@.len() - k,
    {
        if !es[k].cell.block_type.is_wheel() {
            cubes.push(es[k]);
        }
        k = k + 1;
    }
    cubes
}

} // verus!
