//! The 10 x 10 x 10 voxel grid a car body is made of.
use vstd::prelude::*;
use crate::arith::{Pos, floor_sqrt, isqrt};
use crate::battle::damage::DamageEvent;
use crate::random::random_range;
use crate::weapons::GridPos;
use crate::voxel::block::{BlockType, BlockStats, SpecialAbility, block_stats, is_wheel_kind};
use crate::voxel::connectivity::{connected, flood_fill, reach_within, neighbor, lemma_reach_step};

verus! {

/// Cells along each edge of the grid.
pub const GRID_SIZE: usize = 10;
/// Cells in the whole grid.
pub const CELL_COUNT: usize = 1000;
/// Edge length of one voxel, in millimetres.
pub const BLOCK_SIZE_MM: i64 = 400;

/// One occupied voxel.  Health is in thousandths of a hit point; `entity`
/// is the id of the scene object that draws the block, once it has one.
#[derive(Debug, Clone, Copy, PartialEq, Eq, Structural)]
pub struct VoxelCell {
    pub block_type: BlockType,
    pub current_health: i64,
    pub max_health: i64,
    pub absorbed_first_hit: bool,
    pub repair_accum: i64,
    pub entity: Option<u64>,
}

/// A freshly placed, undamaged block of kind `t`.
pub open spec fn new_cell(t: BlockType) -> VoxelCell {
    VoxelCell {
        block_type: t,
        current_health: block_stats(t).max_health,
        max_health: block_stats(t).max_health,
        absorbed_first_hit: false,
        repair_accum: 0,
        entity: None,
    }
}

/// Remaining health as a fraction of full health, in thousandths (rounded
/// toward zero); 0 for a block without health.
pub open spec fn health_frac_of(c: VoxelCell) -> int {
    if c.max_health > 0 {
        if c.current_health >= 0 {
            (c.current_health * 1000) / (c.max_health as int)
        } else {
            -(((-c.current_health) * 1000) / (c.max_health as int))
        }
    } else {
        0
    }
}

impl VoxelCell {
    /// A fresh block of kind `t` at full health.
    pub fn new(t: BlockType) -> (c: VoxelCell)
        ensures
            c == new_cell(t),
    {
        let s = BlockStats::get(t);
        VoxelCell {
            block_type: t,
            current_health: s.max_health,
            max_health: s.max_health,
            absorbed_first_hit: false,
            repair_accum: 0,
            entity: None,
        }
    }

    /// Remaining health fraction, in thousandths.
    pub fn health_frac(&self) -> (f: i64)
        requires
            -1_000_000_000_000_000 <= self.current_health <= 1_000_000_000_000_000,
        ensures
            f == health_frac_of(*self),
    {
        if self.max_health > 0 {
            if self.current_health >= 0 {
                (self.current_health * 1000) / self.max_health
            } else {
                -(((-self.current_health) * 1000) / self.max_health)
            }
        } else {
            0
        }
    }

    /// Whether the block still has health left.
    pub fn is_alive(&self) -> (b: bool)
        ensures
            b == (self.current_health > 0),
    {
        self.current_health > 0
    }
}

/// Index of the cell at grid coordinates (x, y, z).
pub open spec fn cell_index(x: int, y: int, z: int) -> int {
    x + 10 * y + 100 * z
}

/// Coordinate `axis` (0 = x, 1 = y, 2 = z) of the cell with index `i`.
pub open spec fn cell_coord(i: int, axis: int) -> int {
    if axis == 0 {
        i % 10
    } else if axis == 1 {
        (i / 10) % 10
    } else {
        i / 100
    }
}

/// The `n`-th cell visited when the grid is scanned x-major (x outermost,
/// then y, then z).
pub open spec fn lex_cell(n: int) -> int {
    cell_index(n / 100, (n / 10) % 10, n % 10)
}

/// Position, in millimetres from the grid centre, of the centre of the cells
/// with coordinate `c` along one axis.
pub open spec fn pos_mm(c: int) -> int {
    400 * c - 1800
}

/// Mass, in kilograms, held in one cell.
pub open spec fn cell_mass(c: Option<VoxelCell>) -> nat {
    match c {
        Some(v) => block_stats(v.block_type).mass as nat,
        None => 0,
    }
}

/// Number of occupied cells.
pub open spec fn occupied_count(s: Seq<Option<VoxelCell>>) -> nat
    decreases s.len(),
{
    if s.len() == 0 {
        0
    } else {
        occupied_count(s.drop_last()) + if s.last() is Some { 1nat } else { 0nat }
    }
}

/// Total mass of the occupied cells, in kilograms.
pub open spec fn mass_sum(s: Seq<Option<VoxelCell>>) -> nat
    decreases s.len(),
{
    if s.len() == 0 {
        0
    } else {
        mass_sum(s.drop_last()) + cell_mass(s.last())
    }
}

/// First moment of mass along `axis` (kilogram-millimetres about the grid centre).
pub open spec fn moment_sum(s: Seq<Option<VoxelCell>>, axis: int) -> int
    decreases s.len(),
{
    if s.len() == 0 {
        0
    } else {
        moment_sum(s.drop_last(), axis) + cell_mass(s.last()) * pos_mm(
            cell_coord(s.len() - 1, axis),
        )
    }
}

/// Every block in the cells is alive, with at most 200 hit points of
/// health and of full health.
pub open spec fn cells_sound(s: Seq<Option<VoxelCell>>) -> bool {
    forall|i: int|
        0 <= i < s.len() && #[trigger] s[i] is Some ==> 0 < s[i]->0.current_health <= 200_000 && 0
            <= s[i]->0.max_health <= 200_000
}

/// Two cell sequences hold blocks of the same kinds in the same places.
pub open spec fn same_shape(a: Seq<Option<VoxelCell>>, b: Seq<Option<VoxelCell>>) -> bool {
    &&& a.len() == b.len()
    &&& forall|i: int|
        0 <= i < a.len() ==> (#[trigger] a[i] is Some) == (b[i] is Some) && (a[i] is Some
            ==> a[i]->0.block_type == b[i]->0.block_type)
}

/// Count, mass and moments depend only on which kinds of block stand where.
pub proof fn lemma_totals_same_shape(a: Seq<Option<VoxelCell>>, b: Seq<Option<VoxelCell>>)
    requires
        same_shape(a, b),
    ensures
        occupied_count(a) == occupied_count(b),
        mass_sum(a) == mass_sum(b),
        forall|axis: int| moment_sum(a, axis) == moment_sum(b, axis),
    decreases a.len(),
{
    if a.len() > 0 {
        let n = a.len() - 1;
        assert(a[n] is Some == b[n] is Some);
        lemma_totals_same_shape(a.drop_last(), b.drop_last());
        assert(cell_mass(a.last()) == cell_mass(b.last()));
        assert forall|axis: int| #[trigger] moment_sum(a, axis) == moment_sum(b, axis) by {
            assert(moment_sum(a.drop_last(), axis) == moment_sum(b.drop_last(), axis));
        }
    } else {
        assert forall|axis: int| #[trigger] moment_sum(a, axis) == moment_sum(b, axis) by {}
    }
}

/// Every block kind weighs at most 40 kg.
pub proof fn lemma_block_mass_bound(t: BlockType)
    ensures
        block_stats(t).mass <= 40,
        block_stats(t).max_health <= 200_000,
        0 <= block_stats(t).max_health,
        block_stats(t).armor <= 1000,
        t != BlockType::Empty ==> block_stats(t).max_health > 0,
{
}

/// Occupied-cell count, total mass and the three moments of a cell sequence.
fn grid_totals(cells: &Vec<Option<VoxelCell>>) -> (r: (usize, u64, i64, i64, i64))
    requires
        cells@.len() == CELL_COUNT,
    ensures
        r.0 == occupied_count(cells@),
        r.1 == mass_sum(cells@),
        r.2 == moment_sum(cells@, 0),
        r.3 == moment_sum(cells@, 1),
        r.4 == moment_sum(cells@, 2),
{
    let mut count: usize = 0;
    let mut mass: u64 = 0;
    let mut mx: i64 = 0;
    let mut my: i64 = 0;
    let mut mz: i64 = 0;
    let mut i: usize = 0;
    while i < CELL_COUNT
        invariant
            i <= CELL_COUNT,
            cells@.len() == CELL_COUNT,
            count == occupied_count(cells@.take(i as int)),
            mass == mass_sum(cells@.take(i as int)),
            mx == moment_sum(cells@.take(i as int), 0),
            my == moment_sum(cells@.take(i as int), 1),
            mz == moment_sum(cells@.take(i as int), 2),
            count <= i,
            mass <= 40 * i,
            -72000 * i <= mx <= 72000 * i,
            -72000 * i <= my <= 72000 * i,
            -72000 * i <= mz <= 72000 * i,
        decreases CELL_COUNT - i,
    {
        let ghost s = cells@;
        assert(s.take(i as int + 1).drop_last() =~= s.take(i as int));
        assert(s.take(i as int + 1).last() == s[i as int]);
        match cells[i] {
            Some(c) => {
                let m = BlockStats::get(c.block_type).mass;
                proof {
                    lemma_block_mass_bound(c.block_type);
                }
                let px: i64 = 400 * ((i % 10) as i64) - 1800;
                let py: i64 = 400 * (((i / 10) % 10) as i64) - 1800;
                let pz: i64 = 400 * ((i / 100) as i64) - 1800;
                assert(-1800 <= px <= 1800 && -1800 <= py <= 1800 && -1800 <= pz <= 1800);
                let mi = m as i64;
                assert(-72000 <= mi * px <= 72000) by (nonlinear_arith)
                    requires
                        0 <= mi <= 40,
                        -1800 <= px <= 1800,
                ;
                assert(-72000 <= mi * py <= 72000) by (nonlinear_arith)
                    requires
                        0 <= mi <= 40,
                        -1800 <= py <= 1800,
                ;
                assert(-72000 <= mi * pz <= 72000) by (nonlinear_arith)
                    requires
                        0 <= mi <= 40,
                        -1800 <= pz <= 1800,
                ;
                count = count + 1;
                mass = mass + m;
                mx = mx + mi * px;
                my = my + mi * py;
                mz = mz + mi * pz;
            },
            None => {},
        }
        i = i + 1;
    }
    assert(cells@.take(CELL_COUNT as int) =~= cells@);
    (count, mass, mx, my, mz)
}

/// Which cells hold a block.
pub open spec fn occupancy(s: Seq<Option<VoxelCell>>) -> Seq<bool> {
    Seq::new(s.len(), |i: int| s[i] is Some)
}

/// Squared distance, in cells, from the `n`-th cell of the x-major scan to
/// the grid's middle point (5, 5, 5).
pub open spec fn scan_dist(n: int) -> int {
    (n / 100 - 5) * (n / 100 - 5) + ((n / 10) % 10 - 5) * ((n / 10) % 10 - 5) + (n % 10 - 5) * (
    n % 10 - 5)
}

/// The `cn`-th cell of the x-major scan is the core: the occupied cell
/// nearest the middle, the first one scanned among equally near ones.
pub open spec fn is_core_rank(s: Seq<Option<VoxelCell>>, cn: int) -> bool {
    &&& 0 <= cn < CELL_COUNT
    &&& s[lex_cell(cn)] is Some
    &&& forall|n: int|
        0 <= n < CELL_COUNT && #[trigger] s[lex_cell(n)] is Some ==> scan_dist(cn) < scan_dist(n) || (
        scan_dist(cn) == scan_dist(n) && cn <= n)
}

/// Only cell `c` is a seed.
pub open spec fn single_seed(c: int) -> Seq<bool> {
    Seq::new(CELL_COUNT as nat, |i: int| i == c)
}

/// The cells of `s` that stay after every block not joined to cell `c`
/// has been taken away.
pub open spec fn kept_after_detach(s: Seq<Option<VoxelCell>>, c: int) -> Seq<Option<VoxelCell>> {
    Seq::new(
        CELL_COUNT as nat,
        |i: int|
            if connected(occupancy(s), single_seed(c), i) {
                s[i]
            } else {
                None
            },
    )
}

/// A block that came loose: where it was (millimetres from the grid
/// centre), its kind, and the scene object that drew it.
#[derive(Debug, Clone, Copy, PartialEq, Eq, Structural)]
pub struct DetachedPart {
    pub pos: Pos,
    pub block_type: BlockType,
    pub entity: Option<u64>,
}

/// The loose part that the block `c` in cell `i` becomes.
pub open spec fn part_of(i: int, c: VoxelCell) -> DetachedPart {
    DetachedPart {
        pos: Pos {
            x: pos_mm(cell_coord(i, 0)) as i64,
            y: pos_mm(cell_coord(i, 1)) as i64,
            z: pos_mm(cell_coord(i, 2)) as i64,
        },
        block_type: c.block_type,
        entity: c.entity,
    }
}

/// Loose parts among the first `n` cells of the x-major scan: the occupied
/// cells of `s` that `keep` does not keep, in scan order.
pub open spec fn loose_parts_upto(s: Seq<Option<VoxelCell>>, keep: Seq<bool>, n: int) -> Seq<
    DetachedPart,
>
    decreases n,
{
    if n <= 0 {
        Seq::empty()
    } else {
        let i = lex_cell(n - 1);
        loose_parts_upto(s, keep, n - 1) + if s[i] is Some && !keep[i] {
            seq![part_of(i, s[i]->0)]
        } else {
            Seq::empty()
        }
    }
}

/// Which cells are joined to cell `c`.
pub open spec fn joined_to(s: Seq<Option<VoxelCell>>, c: int) -> Seq<bool> {
    Seq::new(CELL_COUNT as nat, |i: int| connected(occupancy(s), single_seed(c), i))
}

/// The x-major scan visits only cells of the grid.
proof fn lemma_lex_cell_bound(n: int)
    requires
        0 <= n < CELL_COUNT,
    ensures
        0 <= lex_cell(n) < CELL_COUNT,
{
    assert(0 <= n / 100 < 10 && 0 <= (n / 10) % 10 < 10 && 0 <= n % 10 < 10) by (nonlinear_arith)
        requires
            0 <= n < 1000,
    ;
}

/// Each of the loose parts among the first `n` scanned cells comes from an
/// occupied cell that `keep` does not keep.
proof fn lemma_loose_part_source(s: Seq<Option<VoxelCell>>, keep: Seq<bool>, n: int, k: int) -> (i: int)
    requires
        0 <= n <= CELL_COUNT,
        0 <= k < loose_parts_upto(s, keep, n).len(),
    ensures
        0 <= i < CELL_COUNT,
        s[i] is Some,
        !keep[i],
        loose_parts_upto(s, keep, n)[k] == part_of(i, s[i]->0),
    decreases n,
{
    let c = lex_cell(n - 1);
    let prev = loose_parts_upto(s, keep, n - 1);
    lemma_lex_cell_bound(n - 1);
    if k < prev.len() {
        lemma_loose_part_source(s, keep, n - 1, k)
    } else {
        c
    }
}

/// Every loose part a detach hands back is a block that the detach took
/// out: a cell that held a block before is empty after it, and the part
/// carries that block's kind and scene object and the cell's centre
/// (400 mm per cell, the grid centred on 0).
pub proof fn lemma_detached_parts_are_removed_blocks(s: Seq<Option<VoxelCell>>, c: int, k: int)
    requires
        s.len() == CELL_COUNT,
        0 <= k < loose_parts_upto(s, joined_to(s, c), CELL_COUNT as int).len(),
    ensures
        exists|i: int|
            0 <= i < CELL_COUNT && #[trigger] s[i] is Some && kept_after_detach(s, c)[i] is None && {
                let part = loose_parts_upto(s, joined_to(s, c), CELL_COUNT as int)[k];
                let b = s[i]->0;
                &&& part.entity == b.entity
                &&& part.block_type == b.block_type
                &&& part.pos.x == 400 * (i % 10) - 1800
                &&& part.pos.y == 400 * ((i / 10) % 10) - 1800
                &&& part.pos.z == 400 * (i / 100) - 1800
            },
{
    let i = lemma_loose_part_source(s, joined_to(s, c), CELL_COUNT as int, k);
    assert(0 <= i % 10 < 10 && 0 <= (i / 10) % 10 < 10 && 0 <= i / 100 < 10) by (nonlinear_arith)
        requires
            0 <= i < 1000,
    ;
    assert(s[i] is Some);
}

/// Some cell holds a block.
pub open spec fn any_occupied(s: Seq<Option<VoxelCell>>) -> bool {
    exists|i: int| 0 <= i < CELL_COUNT && #[trigger] s[i] is Some
}

/// The cell of the x-major scan at position `n`, computed.
fn scan_cell(n: usize) -> (i: usize)
    requires
        n < CELL_COUNT,
    ensures
        i == lex_cell(n as int),
        i < CELL_COUNT,
{
    n / 100 + 10 * ((n / 10) % 10) + 100 * (n % 10)
}

/// Every cell is visited by the x-major scan.
pub proof fn lemma_scan_covers(i: int)
    requires
        0 <= i < CELL_COUNT,
    ensures
        lex_cell(cell_coord(i, 0) * 100 + cell_coord(i, 1) * 10 + cell_coord(i, 2)) == i,
        0 <= cell_coord(i, 0) * 100 + cell_coord(i, 1) * 10 + cell_coord(i, 2) < CELL_COUNT,
{
    let x = i % 10;
    let y = (i / 10) % 10;
    let z = i / 100;
    let n = x * 100 + y * 10 + z;
    assert(0 <= x < 10 && 0 <= y < 10 && 0 <= z < 10 && i == x + 10 * y + 100 * z) by {
        vstd::arithmetic::div_mod::lemma_fundamental_div_mod(i, 10);
        vstd::arithmetic::div_mod::lemma_fundamental_div_mod(i / 10, 10);
        vstd::arithmetic::div_mod::lemma_div_denominator(i, 10, 10);
    }
    vstd::arithmetic::div_mod::lemma_fundamental_div_mod_converse(n, 100, x, y * 10 + z);
    vstd::arithmetic::div_mod::lemma_fundamental_div_mod_converse(n, 10, x * 10 + y, z);
    vstd::arithmetic::div_mod::lemma_fundamental_div_mod_converse(x * 10 + y, 10, x, y);
}

/// Reaching a cell through the blocks of `s` also reaches it through the
/// blocks that stay after detaching everything not joined to `c`.
proof fn lemma_reach_survives_detach(s: Seq<Option<VoxelCell>>, c: int, t: int, k: nat)
    requires
        s.len() == CELL_COUNT,
        reach_within(occupancy(s), single_seed(c), t, k),
    ensures
        reach_within(occupancy(kept_after_detach(s, c)), single_seed(c), t, k),
    decreases k,
{
    let occ = occupancy(s);
    let occ2 = occupancy(kept_after_detach(s, c));
    let seed = single_seed(c);
    assert(connected(occ, seed, t));
    assert(occ2[t]);
    if !seed[t] {
        let d: int = if (neighbor(t, 0) matches Some(p) && reach_within(occ, seed, p, (k - 1) as nat)) {
            0
        } else if (neighbor(t, 1) matches Some(p) && reach_within(occ, seed, p, (k - 1) as nat)) {
            1
        } else if (neighbor(t, 2) matches Some(p) && reach_within(occ, seed, p, (k - 1) as nat)) {
            2
        } else if (neighbor(t, 3) matches Some(p) && reach_within(occ, seed, p, (k - 1) as nat)) {
            3
        } else if (neighbor(t, 4) matches Some(p) && reach_within(occ, seed, p, (k - 1) as nat)) {
            4
        } else {
            5
        };
        let p = neighbor(t, d)->0;
        lemma_reach_survives_detach(s, c, p, (k - 1) as nat);
        lemma_reach_step(occ2, seed, t, d, p, (k - 1) as nat);
    }
}

/// After loose parts are detached, every remaining block is joined, face to
/// face through remaining blocks, to the core block.
pub proof fn lemma_detached_grid_is_joined(s: Seq<Option<VoxelCell>>, c: int)
    requires
        s.len() == CELL_COUNT,
    ensures
        forall|i: int|
            0 <= i < CELL_COUNT && #[trigger] kept_after_detach(s, c)[i] is Some ==> connected(
                occupancy(kept_after_detach(s, c)),
                single_seed(c),
                i,
            ),
{
    assert forall|i: int|
        0 <= i < CELL_COUNT && #[trigger] kept_after_detach(s, c)[i] is Some implies connected(
            occupancy(kept_after_detach(s, c)),
            single_seed(c),
            i,
        ) by {
        let k = choose|k: nat| #[trigger] reach_within(occupancy(s), single_seed(c), i, k);
        lemma_reach_survives_detach(s, c, i, k);
    }
}

/// Detaching loose parts a second time changes nothing: the core stays the
/// core and every remaining block stays.
pub proof fn lemma_detach_idempotent(s: Seq<Option<VoxelCell>>, cn: int)
    requires
        s.len() == CELL_COUNT,
        is_core_rank(s, cn),
    ensures
        is_core_rank(kept_after_detach(s, lex_cell(cn)), cn),
        kept_after_detach(kept_after_detach(s, lex_cell(cn)), lex_cell(cn)) == kept_after_detach(
            s,
            lex_cell(cn),
        ),
{
    let c = lex_cell(cn);
    let s2 = kept_after_detach(s, c);
    assert(reach_within(occupancy(s), single_seed(c), c, 0));
    assert(s2[c] is Some);
    assert forall|n: int|
        0 <= n < CELL_COUNT && #[trigger] s2[lex_cell(n)] is Some implies scan_dist(cn) < scan_dist(
            n,
        ) || (scan_dist(cn) == scan_dist(n) && cn <= n) by {
        assert(s[lex_cell(n)] is Some);
    }
    lemma_detached_grid_is_joined(s, c);
    let s3 = kept_after_detach(s2, c);
    assert forall|i: int| 0 <= i < CELL_COUNT implies s3[i] == s2[i] by {
        if s2[i] is Some {
            assert(connected(occupancy(s2), single_seed(c), i));
        }
    }
    assert(s3 =~= s2);
}

/// Squared distance, in square millimetres, from `p` to the centre of cell `i`.
pub open spec fn dist_sq(p: Pos, i: int) -> int {
    (p.x - pos_mm(cell_coord(i, 0))) * (p.x - pos_mm(cell_coord(i, 0))) + (p.y - pos_mm(
        cell_coord(i, 1),
    )) * (p.y - pos_mm(cell_coord(i, 1))) + (p.z - pos_mm(cell_coord(i, 2))) * (p.z - pos_mm(
        cell_coord(i, 2),
    ))
}

/// Damage (thousandths) a blast of `base` at squared distance `d2` inside
/// radius `r` deals to a block with armour `armor`: the base damage, falling
/// off linearly to nothing at the rim, divided by one plus the armour.
pub open spec fn blast_damage(base: int, r: int, d2: int, armor: int) -> int {
    if r == 0 {
        0
    } else {
        (base * (r - floor_sqrt(d2 as nat)) * 1000) / (r * (1000 + armor))
    }
}

/// Whether cell content `c` is a bouncy block.
pub open spec fn cell_bouncy(c: Option<VoxelCell>) -> bool {
    c matches Some(v) && block_stats(v.block_type).special == SpecialAbility::ProjectileBounce
}

/// Whether a blast bounces off a block for the roll `roll` (of ten): a
/// bouncy block deflects it when the roll is below 4.
pub open spec fn bounce_rolled(bouncy: bool, roll: int) -> bool {
    bouncy && roll < 4
}

/// Some roll in [0, 10) gives `b` for cell content `c`.
pub open spec fn bounce_drawn(c: Option<VoxelCell>, b: bool) -> bool {
    exists|roll: int| 0 <= roll < 10 && b == #[trigger] bounce_rolled(cell_bouncy(c), roll)
}

/// Whether a blast bounces off a block for the roll `roll` (see
/// `bounce_rolled`).
pub fn bounce_of(is_bouncy: bool, roll: i64) -> (b: bool)
    ensures
        b == bounce_rolled(is_bouncy, roll as int),
{
    is_bouncy && roll < 4
}

/// What a blast centred at `p` with base damage `base` and radius `r` does
/// to the content `c` of cell `i`: the new content, and the damage event if
/// the block was hurt.  `bounced` says whether a bouncy block deflected it.
pub open spec fn hit_cell(
    c: Option<VoxelCell>,
    i: int,
    p: Pos,
    base: u64,
    r: u32,
    attacker: u64,
    bounced: bool,
) -> (Option<VoxelCell>, Option<DamageEvent>) {
    match c {
        None => (None, None),
        Some(v) => {
            let st = block_stats(v.block_type);
            if dist_sq(p, i) > (r as int) * (r as int) || v.current_health <= 0 {
                (c, None)
            } else if st.special == SpecialAbility::AbsorbFirstHit && !v.absorbed_first_hit {
                (Some(VoxelCell { absorbed_first_hit: true, ..v }), None)
            } else if st.special == SpecialAbility::ProjectileBounce && bounced {
                (c, None)
            } else {
                let raw = blast_damage(base as int, r as int, dist_sq(p, i), st.armor as int);
                let reduced = if st.special == SpecialAbility::DamageReduction {
                    raw / 2
                } else {
                    raw
                };
                let brittle = st.special == SpecialAbility::Brittle && !v.absorbed_first_hit;
                let dmg = if brittle {
                    reduced * 3
                } else {
                    reduced
                };
                let health = v.current_health - dmg;
                let ev = DamageEvent {
                    target_cell_x: cell_coord(i, 0) as u8,
                    target_cell_y: cell_coord(i, 1) as u8,
                    target_cell_z: cell_coord(i, 2) as u8,
                    damage: dmg as i64,
                    attacker,
                    died: health <= 0,
                    cell_entity: v.entity,
                    special: st.special,
                };
                if health <= 0 {
                    (None, Some(ev))
                } else {
                    (
                        Some(
                            VoxelCell {
                                current_health: health as i64,
                                absorbed_first_hit: v.absorbed_first_hit || brittle,
                                ..v
                            },
                        ),
                        Some(ev),
                    )
                }
            }
        },
    }
}

/// The cells after a blast.
pub open spec fn blasted_cells(
    s: Seq<Option<VoxelCell>>,
    p: Pos,
    base: u64,
    r: u32,
    attacker: u64,
    bounced: Seq<bool>,
) -> Seq<Option<VoxelCell>> {
    Seq::new(s.len(), |i: int| hit_cell(s[i], i, p, base, r, attacker, bounced[i]).0)
}

/// The damage events of a blast among the first `n` cells of the x-major scan.
pub open spec fn blast_events_upto(
    s: Seq<Option<VoxelCell>>,
    p: Pos,
    base: u64,
    r: u32,
    attacker: u64,
    bounced: Seq<bool>,
    n: int,
) -> Seq<DamageEvent>
    decreases n,
{
    if n <= 0 {
        Seq::empty()
    } else {
        let i = lex_cell(n - 1);
        blast_events_upto(s, p, base, r, attacker, bounced, n - 1) + match hit_cell(
            s[i],
            i,
            p,
            base,
            r,
            attacker,
            bounced[i],
        ).1 {
            Some(e) => seq![e],
            None => Seq::empty(),
        }
    }
}

/// Within its radius a blast hurts no less closer in than farther out,
/// and never heals.
pub proof fn lemma_blast_falls_off(base: int, r: int, d_near: int, d_far: int, armor: int)
    requires
        base >= 0,
        r > 0,
        armor >= 0,
        0 <= d_near <= d_far <= r * r,
    ensures
        blast_damage(base, r, d_near, armor) >= blast_damage(base, r, d_far, armor) >= 0,
{
    crate::arith::lemma_floor_sqrt_monotone(d_near as nat, d_far as nat);
    crate::arith::lemma_floor_sqrt_exists(d_far as nat);
    let sn = floor_sqrt(d_near as nat) as int;
    let sf = floor_sqrt(d_far as nat) as int;
    assert(sf <= r) by (nonlinear_arith)
        requires
            sf >= 0,
            r > 0,
            sf * sf <= d_far,
            d_far <= r * r,
    ;
    let den = r * (1000 + armor);
    assert(den > 0) by (nonlinear_arith)
        requires
            r > 0,
            armor >= 0,
            den == r * (1000 + armor),
    ;
    assert(base * (r - sn) * 1000 >= base * (r - sf) * 1000 >= 0) by (nonlinear_arith)
        requires
            base >= 0,
            sn <= sf,
            sf <= r,
    ;
    vstd::arithmetic::div_mod::lemma_div_is_ordered(base * (r - sf) * 1000, base * (r - sn) * 1000, den);
    vstd::arithmetic::div_mod::lemma_div_is_ordered(0, base * (r - sf) * 1000, den);
}

/// A blast never heals a block, never changes its kind and never puts a
/// block into an empty cell.
pub proof fn lemma_blast_never_heals(
    s: Seq<Option<VoxelCell>>,
    p: Pos,
    base: u64,
    r: u32,
    attacker: u64,
    bounced: Seq<bool>,
)
    requires
        bounced.len() == s.len(),
    ensures
        forall|i: int|
            0 <= i < s.len() && #[trigger] blasted_cells(s, p, base, r, attacker, bounced)[i] is Some ==> {
                let after = blasted_cells(s, p, base, r, attacker, bounced)[i]->0;
                &&& s[i] is Some
                &&& after.block_type == s[i]->0.block_type
                &&& after.current_health <= s[i]->0.current_health
            },
{
    assert forall|i: int|
        0 <= i < s.len() && #[trigger] blasted_cells(s, p, base, r, attacker, bounced)[i] is Some implies {
            let after = blasted_cells(s, p, base, r, attacker, bounced)[i]->0;
            &&& s[i] is Some
            &&& after.block_type == s[i]->0.block_type
            &&& after.current_health <= s[i]->0.current_health
        } by {
        match s[i] {
            Some(v) => {
                let st = block_stats(v.block_type);
                if dist_sq(p, i) <= (r as int) * (r as int) && v.current_health > 0 && r > 0 {
                    assert(dist_sq(p, i) >= 0) by (nonlinear_arith);
                    lemma_blast_falls_off(base as int, r as int, dist_sq(p, i), dist_sq(p, i), st.armor as int);
                }
            },
            None => {},
        }
    }
}

/// How a blast that reaches a living block (within the radius) treats it,
/// with `raw` the damage it deals to a plain block of the same armour:
/// reactive armour that has not yet soaked a hit soaks this one unhurt; a
/// bouncy block that deflects the blast is untouched; a shield takes half
/// of `raw`, rounded down; ceramic takes three times `raw` on its first
/// hit and `raw` afterwards; any other block takes `raw`.  A hurt block
/// loses that much health and is destroyed (its cell emptied) exactly when
/// none is left, and the event names the attacker and the block's scene
/// object.
pub proof fn lemma_blast_hit_rules(
    v: VoxelCell,
    i: int,
    p: Pos,
    base: u64,
    r: u32,
    attacker: u64,
    bounced: bool,
)
    requires
        dist_sq(p, i) <= (r as int) * (r as int),
        v.current_health > 0,
        base <= MAX_BLAST_DAMAGE,
    ensures
        ({
            let special = block_stats(v.block_type).special;
            let raw = blast_damage(base as int, r as int, dist_sq(p, i), block_stats(v.block_type).armor as int);
            let res = hit_cell(Some(v), i, p, base, r, attacker, bounced);
            &&& special == SpecialAbility::AbsorbFirstHit && !v.absorbed_first_hit ==> res.1 is None
                && res.0 == Some(VoxelCell { absorbed_first_hit: true, ..v })
            &&& special == SpecialAbility::ProjectileBounce && bounced ==> res.1 is None && res.0 == Some(v)
            &&& special == SpecialAbility::DamageReduction ==> res.1 is Some && res.1->0.damage == (raw / 2) as i64
            &&& special == SpecialAbility::Brittle && !v.absorbed_first_hit ==> res.1 is Some && res.1->0.damage == (
            raw * 3) as i64
            &&& special == SpecialAbility::Brittle && v.absorbed_first_hit ==> res.1 is Some && res.1->0.damage
                == raw as i64
            &&& (!(special == SpecialAbility::AbsorbFirstHit || special == SpecialAbility::ProjectileBounce
                || special == SpecialAbility::DamageReduction || special == SpecialAbility::Brittle) || (special
                == SpecialAbility::AbsorbFirstHit && v.absorbed_first_hit) || (special
                == SpecialAbility::ProjectileBounce && !bounced)) ==> res.1 is Some && res.1->0.damage == raw as i64
            &&& res.1 matches Some(ev) ==> {
                &&& ev.attacker == attacker
                &&& ev.cell_entity == v.entity
                &&& ev.died == (v.current_health - ev.damage <= 0)
                &&& ev.died ==> res.0 is None
                &&& !ev.died ==> (res.0 matches Some(w) && w.current_health == v.current_health - ev.damage
                    && w.block_type == v.block_type && w.entity == v.entity)
            }
        }),
{
    let st = block_stats(v.block_type);
    assert(dist_sq(p, i) >= 0) by (nonlinear_arith);
    lemma_blast_bounded(base as int, r as int, dist_sq(p, i), st.armor as int);
}

/// A blast within its radius deals at least nothing and at most its base
/// damage.
pub proof fn lemma_blast_bounded(base: int, r: int, d2: int, armor: int)
    requires
        base >= 0,
        r >= 0,
        armor >= 0,
        0 <= d2 <= r * r,
    ensures
        0 <= blast_damage(base, r, d2, armor) <= base,
{
    if r > 0 {
        crate::arith::lemma_floor_sqrt_exists(d2 as nat);
        let fs = floor_sqrt(d2 as nat) as int;
        assert(fs <= r) by (nonlinear_arith)
            requires
                fs >= 0,
                r > 0,
                fs * fs <= d2,
                d2 <= r * r,
        ;
        let num = base * (r - fs) * 1000;
        let den = r * (1000 + armor);
        assert(0 <= num <= base * den && den > 0) by (nonlinear_arith)
            requires
                base >= 0,
                0 <= fs <= r,
                r > 0,
                armor >= 0,
                num == base * (r - fs) * 1000,
                den == r * (1000 + armor),
        ;
        vstd::arithmetic::div_mod::lemma_div_is_ordered(num, base * den, den);
        vstd::arithmetic::div_mod::lemma_div_is_ordered(0, num, den);
        vstd::arithmetic::div_mod::lemma_div_multiples_vanish(base, den);
    }
}

/// Largest base damage a blast may carry (thousandths of a hit point).
pub const MAX_BLAST_DAMAGE: u64 = 1_000_000_000_000_000;

/// Applies the blast to the content of cell `i`, computed.
fn hit_cell_exec(
    c: Option<VoxelCell>,
    i: usize,
    p: Pos,
    base: u64,
    r: u32,
    attacker: u64,
    bounced: bool,
) -> (res: (Option<VoxelCell>, Option<DamageEvent>))
    requires
        i < CELL_COUNT,
        base <= MAX_BLAST_DAMAGE,
        c matches Some(v) ==> 0 < v.current_health <= 200_000 && 0 <= v.max_health <= 200_000,
    ensures
        res == hit_cell(c, i as int, p, base, r, attacker, bounced),
        res.0 matches Some(v) ==> 0 < v.current_health <= 200_000 && 0 <= v.max_health <= 200_000,
{
    match c {
        None => (None, None),
        Some(v) => {
            let st = BlockStats::get(v.block_type);
            proof {
                crate::voxel::grid::lemma_block_mass_bound(v.block_type);
            }
            let (cx, cy, cz) = VoxelGrid::cell_local_pos(i % 10, (i / 10) % 10, i / 100);
            let dx: i128 = (p.x as i128) - (cx as i128);
            let dy: i128 = (p.y as i128) - (cy as i128);
            let dz: i128 = (p.z as i128) - (cz as i128);
            let rr: i128 = r as i128;
            let ghost d2 = dist_sq(p, i as int);
            if dx > rr || dx < -rr || dy > rr || dy < -rr || dz > rr || dz < -rr {
                assert(d2 > (r as int) * (r as int)) by (nonlinear_arith)
                    requires
                        d2 == dx * dx + dy * dy + dz * dz,
                        dx > rr || dx < -rr || dy > rr || dy < -rr || dz > rr || dz < -rr,
                        rr == r,
                        rr >= 0,
                ;
                return (c, None);
            }
            assert(dx * dx <= rr * rr && dy * dy <= rr * rr && dz * dz <= rr * rr) by (nonlinear_arith)
                requires
                    -rr <= dx <= rr,
                    -rr <= dy <= rr,
                    -rr <= dz <= rr,
            ;
            assert(rr * rr <= 0x1_0000_0000 * 0x1_0000_0000) by (nonlinear_arith)
                requires
                    0 <= rr < 0x1_0000_0000,
            ;
            assert(0 <= dx * dx <= 0x1_0000_0000_0000_0000 && 0 <= dy * dy <= 0x1_0000_0000_0000_0000
                && 0 <= dz * dz <= 0x1_0000_0000_0000_0000) by (nonlinear_arith)
                requires
                    -rr <= dx <= rr,
                    -rr <= dy <= rr,
                    -rr <= dz <= rr,
                    0 <= rr < 0x1_0000_0000,
            ;
            let ax: i128 = dx * dx;
            let ay: i128 = dy * dy;
            let az: i128 = dz * dz;
            let d2e: i128 = ax + ay + az;
            assert(d2e == d2);
            assert(0 <= ax && 0 <= ay && 0 <= az) by (nonlinear_arith)
                requires
                    ax == dx * dx,
                    ay == dy * dy,
                    az == dz * dz,
            ;
            if d2e > rr * rr || v.current_health <= 0 {
                return (c, None);
            }
            if st.special == SpecialAbility::AbsorbFirstHit && !v.absorbed_first_hit {
                return (Some(VoxelCell { absorbed_first_hit: true, ..v }), None);
            }
            if st.special == SpecialAbility::ProjectileBounce && bounced {
                return (c, None);
            }
            let raw: i64 = if r == 0 {
                0
            } else {
                let dist = isqrt(d2e as u128);
                assert((dist as int) <= (r as int)) by (nonlinear_arith)
                    requires
                        (dist as int) * (dist as int) <= d2,
                        d2 <= (r as int) * (r as int),
                        dist >= 0,
                        r >= 0,
                ;
                let span: u128 = (r as u128) - (dist as u128);
                let b: u128 = base as u128;
                assert(0 < (r as u128) * (1000 + st.armor as u128) <= 0x1_0000_0000 * 2000) by (nonlinear_arith)
                    requires
                        0 < r < 0x1_0000_0000,
                        st.armor <= 1000,
                ;
                let den: u128 = (r as u128) * (1000 + st.armor as u128);
                assert(b * span <= b * (r as u128)) by (nonlinear_arith)
                    requires
                        span <= r,
                ;
                assert(b * (r as u128) <= 1_000_000_000_000_000 * 0x1_0000_0000) by (nonlinear_arith)
                    requires
                        b <= 1_000_000_000_000_000,
                        r < 0x1_0000_0000,
                ;
                let num: u128 = b * span * 1000;
                let q = num / den;
                assert(q <= b) by (nonlinear_arith)
                    requires
                        q == num / den,
                        num == b * span * 1000,
                        den == (r as u128) * (1000 + st.armor as u128),
                        span <= r,
                        r > 0,
                ;
                q as i64
            };
            let reduced: i64 = if st.special == SpecialAbility::DamageReduction {
                raw / 2
            } else {
                raw
            };
            let brittle = st.special == SpecialAbility::Brittle && !v.absorbed_first_hit;
            let dmg: i64 = if brittle {
                reduced * 3
            } else {
                reduced
            };
            let health: i64 = v.current_health - dmg;
            let ev = DamageEvent {
                target_cell_x: (i % 10) as u8,
                target_cell_y: ((i / 10) % 10) as u8,
                target_cell_z: (i / 100) as u8,
                damage: dmg,
                attacker,
                died: health <= 0,
                cell_entity: v.entity,
                special: st.special,
            };
            if health <= 0 {
                (None, Some(ev))
            } else {
                (
                    Some(
                        VoxelCell {
                            current_health: health,
                            absorbed_first_hit: v.absorbed_first_hit || brittle,
                            ..v
                        },
                    ),
                    Some(ev),
                )
            }
        },
    }
}

/// An occupied cell with its grid coordinates.
#[derive(Debug, Clone, Copy, PartialEq, Eq, Structural)]
pub struct CellEntry {
    pub x: usize,
    pub y: usize,
    pub z: usize,
    pub cell: VoxelCell,
}

/// Grid coordinates of cell `i`.
pub open spec fn grid_pos_of(i: int) -> GridPos {
    GridPos { x: cell_coord(i, 0) as usize, y: cell_coord(i, 1) as usize, z: cell_coord(i, 2) as usize }
}

/// Centre of cell `i`, millimetres from the grid centre.
pub open spec fn cell_center(i: int) -> Pos {
    Pos {
        x: pos_mm(cell_coord(i, 0)) as i64,
        y: pos_mm(cell_coord(i, 1)) as i64,
        z: pos_mm(cell_coord(i, 2)) as i64,
    }
}

/// The occupied cells among the first `n` of the x-major scan, in scan order.
pub open spec fn entries_upto(s: Seq<Option<VoxelCell>>, n: int) -> Seq<CellEntry>
    decreases n,
{
    if n <= 0 {
        Seq::empty()
    } else {
        let i = lex_cell(n - 1);
        entries_upto(s, n - 1) + match s[i] {
            Some(c) => seq![
                CellEntry {
                    x: cell_coord(i, 0) as usize,
                    y: cell_coord(i, 1) as usize,
                    z: cell_coord(i, 2) as usize,
                    cell: c,
                },
            ],
            None => Seq::empty(),
        }
    }
}

/// Every listed block has health within the sound range.
pub proof fn lemma_entries_sound(s: Seq<Option<VoxelCell>>, n: int)
    requires
        s.len() == CELL_COUNT,
        cells_sound(s),
        n <= CELL_COUNT,
    ensures
        forall|j: int|
            0 <= j < entries_upto(s, n).len() ==> 0 < (#[trigger] entries_upto(s, n)[j]).cell.current_health <= 200_000
                && 0 <= entries_upto(s, n)[j].cell.max_health <= 200_000,
    decreases n,
{
    if n > 0 {
        lemma_entries_sound(s, n - 1);
        let i = lex_cell(n - 1);
        assert(0 <= i < CELL_COUNT);
        if s[i] is Some {
            assert(0 < s[i]->0.current_health <= 200_000);
        }
    }
}

/// Centres of the occupied non-wheel cells among the first `n` of the
/// x-major scan: the pieces of the body's collision shape.
pub open spec fn collider_upto(s: Seq<Option<VoxelCell>>, n: int) -> Seq<Pos>
    decreases n,
{
    if n <= 0 {
        Seq::empty()
    } else {
        let i = lex_cell(n - 1);
        collider_upto(s, n - 1) + if s[i] is Some && !is_wheel_kind(s[i]->0.block_type) {
            seq![cell_center(i)]
        } else {
            Seq::empty()
        }
    }
}

/// Where and how a wheel is mounted: its cell, its kind, whether it is a
/// front wheel (z past the middle) and its joint anchor, 50 mm below the
/// cell centre.
#[derive(Debug, Clone, Copy, PartialEq, Eq, Structural)]
pub struct WheelMount {
    pub grid_pos: GridPos,
    pub block_type: BlockType,
    pub is_front: bool,
    pub anchor: Pos,
}

/// The wheel mount for the wheel in cell `i`.
pub open spec fn mount_of(i: int, t: BlockType) -> WheelMount {
    WheelMount {
        grid_pos: grid_pos_of(i),
        block_type: t,
        is_front: cell_coord(i, 2) > 5,
        anchor: Pos {
            x: pos_mm(cell_coord(i, 0)) as i64,
            y: (pos_mm(cell_coord(i, 1)) - 50) as i64,
            z: pos_mm(cell_coord(i, 2)) as i64,
        },
    }
}

/// Wheel mounts among the first `n` cells of the x-major scan.
pub open spec fn mounts_upto(s: Seq<Option<VoxelCell>>, n: int) -> Seq<WheelMount>
    decreases n,
{
    if n <= 0 {
        Seq::empty()
    } else {
        let i = lex_cell(n - 1);
        mounts_upto(s, n - 1) + if s[i] is Some && is_wheel_kind(s[i]->0.block_type) {
            seq![mount_of(i, s[i]->0.block_type)]
        } else {
            Seq::empty()
        }
    }
}

/// Sum over the first `n` cells of those in layer `y` of current (when
/// `current`) or full health.
pub open spec fn layer_health_sum(s: Seq<Option<VoxelCell>>, y: int, n: int, current: bool) -> int
    decreases n,
{
    if n <= 0 {
        0
    } else {
        layer_health_sum(s, y, n - 1, current) + if s[n - 1] is Some && cell_coord(n - 1, 1) == y {
            if current {
                s[n - 1]->0.current_health as int
            } else {
                s[n - 1]->0.max_health as int
            }
        } else {
            0
        }
    }
}

/// A car body: a 10 x 10 x 10 grid of optional blocks, with its block count,
/// total mass and first moments of mass kept up to date.
#[derive(Debug)]
pub struct VoxelGrid {
    cells: Vec<Option<VoxelCell>>,
    block_count: usize,
    total_mass: u64,
    moment_x: i64,
    moment_y: i64,
    moment_z: i64,
}

impl View for VoxelGrid {
    type V = Seq<Option<VoxelCell>>;

    closed spec fn view(&self) -> Seq<Option<VoxelCell>> {
        self.cells@
    }
}

/// A grid with no blocks.
pub open spec fn empty_cells() -> Seq<Option<VoxelCell>> {
    Seq::new(CELL_COUNT as nat, |i: int| None)
}

impl VoxelGrid {
    /// The grid has all its cells, every block is alive, and the
    /// bookkeeping matches the cells.
    pub open spec fn wf(&self) -> bool {
        &&& self@.len() == CELL_COUNT
        &&& cells_sound(self@)
        &&& self.totals_match()
    }

    /// Block count, mass and moments match the cells.
    pub closed spec fn totals_match(&self) -> bool {
        &&& self.block_count == occupied_count(self.cells@)
        &&& self.total_mass == mass_sum(self.cells@)
        &&& self.moment_x == moment_sum(self.cells@, 0)
        &&& self.moment_y == moment_sum(self.cells@, 1)
        &&& self.moment_z == moment_sum(self.cells@, 2)
    }

    /// A grid with the given cells and freshly computed bookkeeping.
    fn from_cells(cells: Vec<Option<VoxelCell>>) -> (g: VoxelGrid)
        requires
            cells@.len() == CELL_COUNT,
            cells_sound(cells@),
        ensures
            g.wf(),
            g@ == cells@,
    {
        let (count, mass, mx, my, mz) = grid_totals(&cells);
        VoxelGrid { cells, block_count: count, total_mass: mass, moment_x: mx, moment_y: my, moment_z: mz }
    }

    /// Replaces the cells and brings the bookkeeping up to date.
    fn set_cells(&mut self, cells: Vec<Option<VoxelCell>>)
        requires
            cells@.len() == CELL_COUNT,
            cells_sound(cells@),
        ensures
            final(self).wf(),
            final(self)@ == cells@,
    {
        *self = VoxelGrid::from_cells(cells);
    }

    /// An empty grid.
    pub fn new() -> (g: VoxelGrid)
        ensures
            g.wf(),
            g@ == empty_cells(),
    {
        let mut cells: Vec<Option<VoxelCell>> = Vec::new();
        let mut i: usize = 0;
        while i < CELL_COUNT
            invariant
                i <= CELL_COUNT,
                cells@ =~= Seq::new(i as nat, |j: int| None::<VoxelCell>),
            decreases CELL_COUNT - i,
        {
            cells.push(None);
            i = i + 1;
        }
        VoxelGrid::from_cells(cells)
    }

    /// Number of blocks in the grid.
    pub fn block_count(&self) -> (n: usize)
        requires
            self.wf(),
        ensures
            n == occupied_count(self@),
    {
        self.block_count
    }

    /// Total mass of the blocks, in kilograms.
    pub fn total_mass(&self) -> (m: u64)
        requires
            self.wf(),
        ensures
            m == mass_sum(self@),
    {
        self.total_mass
    }

    /// First moments of mass about the grid centre (kilogram-millimetres);
    /// divided by the total mass they give the centre of mass.
    pub fn mass_moment(&self) -> (m: (i64, i64, i64))
        requires
            self.wf(),
        ensures
            m.0 == moment_sum(self@, 0),
            m.1 == moment_sum(self@, 1),
            m.2 == moment_sum(self@, 2),
    {
        (self.moment_x, self.moment_y, self.moment_z)
    }

    /// Whether signed coordinates fall inside the grid.
    pub fn in_bounds(x: i32, y: i32, z: i32) -> (b: bool)
        ensures
            b == (0 <= x < 10 && 0 <= y < 10 && 0 <= z < 10),
    {
        x >= 0 && x < 10 && y >= 0 && y < 10 && z >= 0 && z < 10
    }

    /// Centre of cell (x, y, z) relative to the grid centre, in millimetres.
    pub fn cell_local_pos(x: usize, y: usize, z: usize) -> (p: (i64, i64, i64))
        requires
            x < GRID_SIZE,
            y < GRID_SIZE,
            z < GRID_SIZE,
        ensures
            p.0 == pos_mm(x as int),
            p.1 == pos_mm(y as int),
            p.2 == pos_mm(z as int),
    {
        (400 * (x as i64) - 1800, 400 * (y as i64) - 1800, 400 * (z as i64) - 1800)
    }

    /// The block at (x, y, z), if any.
    pub fn get(&self, x: usize, y: usize, z: usize) -> (r: Option<&VoxelCell>)
        requires
            self.wf(),
            x < GRID_SIZE,
            y < GRID_SIZE,
            z < GRID_SIZE,
        ensures
            match r {
                Some(c) => self@[cell_index(x as int, y as int, z as int)] == Some(*c),
                None => self@[cell_index(x as int, y as int, z as int)] is None,
            },
    {
        self.cells[x + 10 * y + 100 * z].as_ref()
    }

    /// Records the scene object drawing the block at (x, y, z); an empty
    /// cell stays empty.
    pub fn set_entity(&mut self, x: usize, y: usize, z: usize, entity: Option<u64>)
        requires
            old(self).wf(),
            x < GRID_SIZE,
            y < GRID_SIZE,
            z < GRID_SIZE,
        ensures
            final(self).wf(),
            final(self)@ == match old(self)@[cell_index(x as int, y as int, z as int)] {
                Some(c) => old(self)@.update(
                    cell_index(x as int, y as int, z as int),
                    Some(VoxelCell { entity, ..c }),
                ),
                None => old(self)@,
            },
    {
        let i = x + 10 * y + 100 * z;
        match self.cells[i] {
            Some(c) => {
                let ghost before = self.cells@;
                self.cells.set(i, Some(VoxelCell { entity, ..c }));
                proof {
                    assert(same_shape(before, self.cells@));
                    lemma_totals_same_shape(before, self.cells@);
                }
            },
            None => {},
        }
    }

    /// Puts a fresh block of kind `t` at (x, y, z), replacing what was
    /// there; placing `Empty` clears the cell.
    pub fn place(&mut self, x: usize, y: usize, z: usize, t: BlockType)
        requires
            old(self).wf(),
            x < GRID_SIZE,
            y < GRID_SIZE,
            z < GRID_SIZE,
        ensures
            final(self).wf(),
            final(self)@ == old(self)@.update(
                cell_index(x as int, y as int, z as int),
                if t == BlockType::Empty { None } else { Some(new_cell(t)) },
            ),
    {
        if t == BlockType::Empty {
            self.remove(x, y, z);
            return;
        }
        proof {
            lemma_block_mass_bound(t);
        }
        self.cells.set(x + 10 * y + 100 * z, Some(VoxelCell::new(t)));
        self.recalculate_mass();
    }

    /// Takes the block at (x, y, z) out of the grid and returns it.
    pub fn remove(&mut self, x: usize, y: usize, z: usize) -> (r: Option<VoxelCell>)
        requires
            old(self).wf(),
            x < GRID_SIZE,
            y < GRID_SIZE,
            z < GRID_SIZE,
        ensures
            final(self).wf(),
            r == old(self)@[cell_index(x as int, y as int, z as int)],
            final(self)@ == old(self)@.update(cell_index(x as int, y as int, z as int), None),
    {
        let i = x + 10 * y + 100 * z;
        let r = self.cells[i];
        self.cells.set(i, None);
        self.recalculate_mass();
        r
    }

    /// The occupancy of the cells, computed.
    fn occupancy_vec(&self) -> (occ: Vec<bool>)
        requires
            self.wf(),
        ensures
            occ@ == occupancy(self@),
    {
        let mut occ: Vec<bool> = Vec::new();
        let mut i: usize = 0;
        while i < CELL_COUNT
            invariant
                i <= CELL_COUNT,
                self.wf(),
                occ@ =~= Seq::new(i as nat, |j: int| self@[j] is Some),
            decreases CELL_COUNT - i,
        {
            occ.push(self.cells[i].is_some());
            i = i + 1;
        }
        occ
    }

    /// Scan position of the core cell: the occupied cell nearest the middle
    /// of the grid, the first one scanned among equally near ones.
    fn core_rank(&self) -> (r: Option<usize>)
        requires
            self.wf(),
        ensures
            match r {
                Some(cn) => is_core_rank(self@, cn as int),
                None => !any_occupied(self@),
            },
    {
        let mut best: Option<usize> = None;
        let mut best_dist: usize = 0;
        let mut n: usize = 0;
        while n < CELL_COUNT
            invariant
                n <= CELL_COUNT,
                self.wf(),
                match best {
                    Some(cn) => {
                        &&& cn < n
                        &&& self@[lex_cell(cn as int)] is Some
                        &&& best_dist == scan_dist(cn as int)
                        &&& forall|m: int|
                            0 <= m < n && #[trigger] self@[lex_cell(m)] is Some ==> scan_dist(cn as int)
                                < scan_dist(m) || (scan_dist(cn as int) == scan_dist(m) && cn <= m)
                    },
                    None => forall|m: int| 0 <= m < n ==> #[trigger] self@[lex_cell(m)] is None,
                },
            decreases CELL_COUNT - n,
        {
            let i = scan_cell(n);
            if self.cells[i].is_some() {
                let x = n / 100;
                let y = (n / 10) % 10;
                let z = n % 10;
                assert(x < 10 && y < 10 && z < 10);
                let dx: usize = if x >= 5 { x - 5 } else { 5 - x };
                let dy: usize = if y >= 5 { y - 5 } else { 5 - y };
                let dz: usize = if z >= 5 { z - 5 } else { 5 - z };
                assert(dx * dx <= 25 && dy * dy <= 25 && dz * dz <= 25) by (nonlinear_arith)
                    requires
                        dx <= 5,
                        dy <= 5,
                        dz <= 5,
                ;
                let dist = dx * dx + dy * dy + dz * dz;
                assert(dist == scan_dist(n as int)) by (nonlinear_arith)
                    requires
                        dx == (if x >= 5 { x - 5 } else { 5 - x }),
                        dy == (if y >= 5 { y - 5 } else { 5 - y }),
                        dz == (if z >= 5 { z - 5 } else { 5 - z }),
                        x == n / 100,
                        y == (n / 10) % 10,
                        z == n % 10,
                        dist == dx * dx + dy * dy + dz * dz,
                ;
                match best {
                    Some(_) => {
                        if dist < best_dist {
                            best = Some(n);
                            best_dist = dist;
                        }
                    },
                    None => {
                        best = Some(n);
                        best_dist = dist;
                    },
                }
            }
            n = n + 1;
        }
        proof {
            if best is None {
                assert forall|i: int| 0 <= i < CELL_COUNT implies !(#[trigger] self@[i] is Some) by {
                    lemma_scan_covers(i);
                    let m = cell_coord(i, 0) * 100 + cell_coord(i, 1) * 10 + cell_coord(i, 2);
                    assert(self@[lex_cell(m)] is None);
                }
            }
        }
        best
    }

    /// Takes away every block that is no longer joined, face to face, to
    /// the core block (the block nearest the middle of the grid), and
    /// returns the loose blocks in x-major scan order.
    pub fn detach_loose_parts(&mut self) -> (parts: Vec<DetachedPart>)
        requires
            old(self).wf(),
        ensures
            final(self).wf(),
            !any_occupied(old(self)@) ==> final(self)@ == old(self)@ && parts@.len() == 0,
            any_occupied(old(self)@) ==> exists|cn: int|
                is_core_rank(old(self)@, cn) && final(self)@ == kept_after_detach(
                    old(self)@,
                    lex_cell(cn),
                ) && parts@ == loose_parts_upto(
                    old(self)@,
                    joined_to(old(self)@, lex_cell(cn)),
                    CELL_COUNT as int,
                ),
    {
        let cn = match self.core_rank() {
            Some(cn) => cn,
            None => {
                return Vec::new();
            },
        };
        let core = scan_cell(cn);
        let occ = self.occupancy_vec();
        let mut seed: Vec<bool> = Vec::new();
        let mut i: usize = 0;
        while i < CELL_COUNT
            invariant
                i <= CELL_COUNT,
                seed@ =~= Seq::new(i as nat, |j: int| j == core),
            decreases CELL_COUNT - i,
        {
            seed.push(i == core);
            i = i + 1;
        }
        assert(seed@ =~= single_seed(core as int));
        let visited = flood_fill(&occ, &seed);
        let ghost keep = joined_to(self@, core as int);
        assert(visited@ =~= keep);
        let mut kept: Vec<Option<VoxelCell>> = Vec::new();
        let mut i: usize = 0;
        while i < CELL_COUNT
            invariant
                i <= CELL_COUNT,
                self.wf(),
                visited@ == keep,
                visited@.len() == CELL_COUNT,
                keep == joined_to(self@, core as int),
                kept@ =~= kept_after_detach(self@, core as int).take(i as int),
            decreases CELL_COUNT - i,
        {
            if visited[i] {
                kept.push(self.cells[i]);
            } else {
                kept.push(None);
            }
            i = i + 1;
        }
        let mut parts: Vec<DetachedPart> = Vec::new();
        let mut n: usize = 0;
        while n < CELL_COUNT
            invariant
                n <= CELL_COUNT,
                self.wf(),
                visited@ == keep,
                visited@.len() == CELL_COUNT,
                parts@ =~= loose_parts_upto(self@, keep, n as int),
            decreases CELL_COUNT - n,
        {
            let i = scan_cell(n);
            match self.cells[i] {
                Some(c) => {
                    if !visited[i] {
                        let (px, py, pz) = VoxelGrid::cell_local_pos(i % 10, (i / 10) % 10, i / 100);
                        parts.push(DetachedPart { pos: Pos { x: px, y: py, z: pz }, block_type: c.block_type, entity: c.entity });
                    }
                },
                None => {},
            }
            n = n + 1;
        }
        assert(kept@ =~= kept_after_detach(self@, core as int));
        self.set_cells(kept);
        parts
    }

    /// Deals a blast centred at `local_pos` (millimetres from the grid
    /// centre) to every living block within `radius`, given for each cell
    /// whether a bouncy block there deflects it; destroyed blocks are taken
    /// out.  Returns the damage events in x-major scan order.
    pub fn apply_damage_rolled(
        &mut self,
        local_pos: Pos,
        base_damage: u64,
        radius: u32,
        attacker: u64,
        bounced: &Vec<bool>,
    ) -> (events: Vec<DamageEvent>)
        requires
            old(self).wf(),
            base_damage <= MAX_BLAST_DAMAGE,
            bounced@.len() == CELL_COUNT,
        ensures
            final(self).wf(),
            final(self)@ == blasted_cells(old(self)@, local_pos, base_damage, radius, attacker, bounced@),
            events@ == blast_events_upto(
                old(self)@,
                local_pos,
                base_damage,
                radius,
                attacker,
                bounced@,
                CELL_COUNT as int,
            ),
    {
        let mut cells: Vec<Option<VoxelCell>> = Vec::new();
        let mut i: usize = 0;
        while i < CELL_COUNT
            invariant
                i <= CELL_COUNT,
                self.wf(),
                base_damage <= MAX_BLAST_DAMAGE,
                bounced@.len() == CELL_COUNT,
                cells@ =~= blasted_cells(self@, local_pos, base_damage, radius, attacker, bounced@).take(
                    i as int,
                ),
                cells_sound(cells@),
            decreases CELL_COUNT - i,
        {
            let (c, _) = hit_cell_exec(self.cells[i], i, local_pos, base_damage, radius, attacker, bounced[i]);
            cells.push(c);
            i = i + 1;
        }
        let mut events: Vec<DamageEvent> = Vec::new();
        let mut n: usize = 0;
        while n < CELL_COUNT
            invariant
                n <= CELL_COUNT,
                self.wf(),
                base_damage <= MAX_BLAST_DAMAGE,
                bounced@.len() == CELL_COUNT,
                events@ =~= blast_events_upto(self@, local_pos, base_damage, radius, attacker, bounced@, n as int),
            decreases CELL_COUNT - n,
        {
            let i = scan_cell(n);
            let (_, e) = hit_cell_exec(self.cells[i], i, local_pos, base_damage, radius, attacker, bounced[i]);
            match e {
                Some(ev) => events.push(ev),
                None => {},
            }
            n = n + 1;
        }
        assert(cells@ =~= blasted_cells(self@, local_pos, base_damage, radius, attacker, bounced@));
        self.set_cells(cells);
        events
    }

    /// Deals a blast centred at `local_pos` to every living block within
    /// `radius`: reactive armour soaks its first hit, bouncy blocks deflect
    /// the blast four times in ten (at random), shields halve the damage and
    /// ceramic takes triple damage on its first hit.  Destroyed blocks are
    /// taken out.  Returns the damage events in x-major scan order.
    pub fn apply_damage_local(&mut self, local_pos: Pos, base_damage: u64, radius: u32, attacker: u64) -> (events: Vec<DamageEvent>)
        requires
            old(self).wf(),
            base_damage <= MAX_BLAST_DAMAGE,
        ensures
            final(self).wf(),
            exists|bounced: Seq<bool>|
                bounced.len() == CELL_COUNT && (forall|i: int|
                    0 <= i < CELL_COUNT ==> bounce_drawn(old(self)@[i], #[trigger] bounced[i]))
                    && final(self)@ == blasted_cells(
                    old(self)@,
                    local_pos,
                    base_damage,
                    radius,
                    attacker,
                    bounced,
                ) && events@ == blast_events_upto(
                    old(self)@,
                    local_pos,
                    base_damage,
                    radius,
                    attacker,
                    bounced,
                    CELL_COUNT as int,
                ),
    {
        let mut bounced: Vec<bool> = Vec::new();
        let mut i: usize = 0;
        while i < CELL_COUNT
            invariant
                i <= CELL_COUNT,
                self.wf(),
                self@ == old(self)@,
                bounced@.len() == i,
                forall|j: int| 0 <= j < i ==> bounce_drawn(self@[j], #[trigger] bounced@[j]),
            decreases CELL_COUNT - i,
        {
            let bouncy = match self.cells[i] {
                Some(c) => BlockStats::get(c.block_type).special == SpecialAbility::ProjectileBounce,
                None => false,
            };
            assert(bouncy == cell_bouncy(self@[i as int]));
            let roll: i64 = if bouncy {
                random_range(0, 10)
            } else {
                0
            };
            let b = bounce_of(bouncy, roll);
            assert(b == bounce_rolled(cell_bouncy(self@[i as int]), roll as int));
            bounced.push(b);
            i = i + 1;
        }
        self.apply_damage_rolled(local_pos, base_damage, radius, attacker, &bounced)
    }

    /// Replaces every cell and brings the bookkeeping up to date.
    pub fn replace_cells(&mut self, cells: Vec<Option<VoxelCell>>)
        requires
            cells@.len() == CELL_COUNT,
            cells_sound(cells@),
        ensures
            final(self).wf(),
            final(self)@ == cells@,
    {
        self.set_cells(cells);
    }

    /// The occupied cells with their coordinates, in x-major scan order.
    pub fn iter_cells(&self) -> (r: Vec<CellEntry>)
        requires
            self.wf(),
        ensures
            r@ == entries_upto(self@, CELL_COUNT as int),
    {
        let mut r: Vec<CellEntry> = Vec::new();
        let mut n: usize = 0;
        while n < CELL_COUNT
            invariant
                n <= CELL_COUNT,
                self.wf(),
                r@ =~= entries_upto(self@, n as int),
            decreases CELL_COUNT - n,
        {
            let i = scan_cell(n);
            match self.cells[i] {
                Some(c) => r.push(CellEntry { x: i % 10, y: (i / 10) % 10, z: i / 100, cell: c }),
                None => {},
            }
            n = n + 1;
        }
        r
    }

    /// Centres of the occupied non-wheel cells, in x-major scan order: one
    /// box of the body's compound collision shape each.  Wheels collide as
    /// bodies of their own.
    pub fn build_compound_collider(&self) -> (r: Vec<Pos>)
        requires
            self.wf(),
        ensures
            r@ == collider_upto(self@, CELL_COUNT as int),
    {
        let mut r: Vec<Pos> = Vec::new();
        let mut n: usize = 0;
        while n < CELL_COUNT
            invariant
                n <= CELL_COUNT,
                self.wf(),
                r@ =~= collider_upto(self@, n as int),
            decreases CELL_COUNT - n,
        {
            let i = scan_cell(n);
            match self.cells[i] {
                Some(c) => {
                    if !c.block_type.is_wheel() {
                        let (px, py, pz) = VoxelGrid::cell_local_pos(i % 10, (i / 10) % 10, i / 100);
                        r.push(Pos { x: px, y: py, z: pz });
                    }
                },
                None => {},
            }
            n = n + 1;
        }
        r
    }

    /// The wheels to mount, in x-major scan order.
    pub fn wheel_mounts(&self) -> (r: Vec<WheelMount>)
        requires
            self.wf(),
        ensures
            r@ == mounts_upto(self@, CELL_COUNT as int),
    {
        let mut r: Vec<WheelMount> = Vec::new();
        let mut n: usize = 0;
        while n < CELL_COUNT
            invariant
                n <= CELL_COUNT,
                self.wf(),
                r@ =~= mounts_upto(self@, n as int),
            decreases CELL_COUNT - n,
        {
            let i = scan_cell(n);
            match self.cells[i] {
                Some(c) => {
                    if c.block_type.is_wheel() {
                        let (px, py, pz) = VoxelGrid::cell_local_pos(i % 10, (i / 10) % 10, i / 100);
                        r.push(
                            WheelMount {
                                grid_pos: GridPos { x: i % 10, y: (i / 10) % 10, z: i / 100 },
                                block_type: c.block_type,
                                is_front: i / 100 > 5,
                                anchor: Pos { x: px, y: py - 50, z: pz },
                            },
                        );
                    }
                },
                None => {},
            }
            n = n + 1;
        }
        r
    }

    /// Health of layer `y` as a fraction of its full health, in thousandths
    /// (0 for an empty layer).
    pub fn layer_health_frac(&self, y: usize) -> (f: u64)
        requires
            self.wf(),
            y < GRID_SIZE,
        ensures
            layer_health_sum(self@, y as int, CELL_COUNT as int, false) > 0 ==> f == layer_health_sum(
                self@,
                y as int,
                CELL_COUNT as int,
                true,
            ) * 1000 / layer_health_sum(self@, y as int, CELL_COUNT as int, false),
            layer_health_sum(self@, y as int, CELL_COUNT as int, false) <= 0 ==> f == 0,
    {
        let mut cur: u64 = 0;
        let mut max: u64 = 0;
        let mut i: usize = 0;
        while i < CELL_COUNT
            invariant
                i <= CELL_COUNT,
                self.wf(),
                cur == layer_health_sum(self@, y as int, i as int, true),
                max == layer_health_sum(self@, y as int, i as int, false),
                cur <= 200_000 * i,
                max <= 200_000 * i,
            decreases CELL_COUNT - i,
        {
            match self.cells[i] {
                Some(c) => {
                    if (i / 10) % 10 == y {
                        proof {
                            lemma_block_mass_bound(c.block_type);
                        }
                        cur = cur + c.current_health as u64;
                        max = max + c.max_health as u64;
                    }
                },
                None => {},
            }
            i = i + 1;
        }
        if max > 0 {
            cur * 1000 / max
        } else {
            0
        }
    }

    /// Recomputes block count, mass and moments from the cells.
    pub fn recalculate_mass(&mut self)
        requires
            old(self)@.len() == CELL_COUNT,
            cells_sound(old(self)@),
        ensures
            final(self).wf(),
            final(self)@ == old(self)@,
    {
        let (count, mass, mx, my, mz) = grid_totals(&self.cells);
        self.block_count = count;
        self.total_mass = mass;
        self.moment_x = mx;
        self.moment_y = my;
        self.moment_z = mz;
    }
}

impl Clone for VoxelGrid {
    fn clone(&self) -> (g: VoxelGrid)
        ensures
            self.wf() ==> g.wf() && g@ == self@,
    {
        let mut cells: Vec<Option<VoxelCell>> = Vec::new();
        let mut i: usize = 0;
        while i < self.cells.len()
            invariant
                i <= self.cells@.len(),
                cells@ =~= self.cells@.take(i as int),
            decreases self.cells@.len() - i,
        {
            cells.push(self.cells[i]);
            i = i + 1;
        }
        assert(cells@ =~= self.cells@);
        VoxelGrid {
            cells,
            block_count: self.block_count,
            total_mass: self.total_mass,
            moment_x: self.moment_x,
            moment_y: self.moment_y,
            moment_z: self.moment_z,
        }
    }
}

impl Default for VoxelGrid {
    fn default() -> (g: VoxelGrid)
        ensures
            g.wf(),
            g@ == empty_cells(),
    {
        VoxelGrid::new()
    }
}

} // verus!
