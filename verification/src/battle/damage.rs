//! Damage bookkeeping: splash damage on car bodies, who is rewarded or
//! penalised for it, and the blasts that contacts and dying blocks set off.
use vstd::prelude::*;
use crate::ai::agent::CarAgent;
use crate::arith::{Pos, clamp_i64, clamp_wide};
use crate::random::random_range;
use crate::voxel::block::{BlockType, SpecialAbility};
use crate::voxel::grid::{
    VoxelGrid, VoxelCell, CellEntry, CELL_COUNT, MAX_BLAST_DAMAGE, blasted_cells, blast_events_upto, entries_upto,
    health_frac_of,
};

verus! {

/// One block took damage.  `damage` is in thousandths of a hit point;
/// `attacker` is the car that dealt it.
#[derive(Debug, Clone, Copy, PartialEq, Eq, Structural)]
pub struct DamageEvent {
    pub target_cell_x: u8,
    pub target_cell_y: u8,
    pub target_cell_z: u8,
    pub damage: i64,
    pub attacker: u64,
    pub died: bool,
    pub cell_entity: Option<u64>,
    pub special: SpecialAbility,
}

/// A blast: centre (millimetres, world frame), radius (millimetres), base
/// damage (thousandths of a hit point) and the car that caused it.
#[derive(Debug, Clone, Copy, PartialEq, Eq, Structural)]
pub struct SplashDamageRequest {
    pub world_pos: Pos,
    pub radius: u32,
    pub base_damage: u64,
    pub attacker: u64,
}

/// A car body a blast may reach: its id, the blast centre in the body's
/// own frame, and its blocks.
#[derive(Debug)]
pub struct SplashTarget {
    pub entity: u64,
    pub local_pos: Pos,
    pub grid: VoxelGrid,
}

/// Blocks `after` and events `events` are what the blast `req`, centred at
/// `p` in the body's frame, makes of blocks `before`, for some outcome of
/// the bouncy blocks' deflection rolls.
pub open spec fn splash_result(
    before: Seq<Option<VoxelCell>>,
    after: Seq<Option<VoxelCell>>,
    events: Seq<DamageEvent>,
    p: Pos,
    req: SplashDamageRequest,
) -> bool {
    exists|bounced: Seq<bool>|
        bounced.len() == CELL_COUNT && after == blasted_cells(
            before,
            p,
            req.base_damage,
            req.radius,
            req.attacker,
            bounced,
        ) && events == blast_events_upto(
            before,
            p,
            req.base_damage,
            req.radius,
            req.attacker,
            bounced,
            CELL_COUNT as int,
        )
}

/// Applies a blast to every car body but the attacker's.  The events come
/// body by body, in the order of `targets`.
pub fn process_splash_damage(req: &SplashDamageRequest, targets: &mut Vec<SplashTarget>) -> (events: Vec<DamageEvent>)
    requires
        req.base_damage <= MAX_BLAST_DAMAGE,
        forall|j: int| 0 <= j < old(targets)@.len() ==> (#[trigger] old(targets)@[j]).grid.wf(),
    ensures
        final(targets)@.len() == old(targets)@.len(),
        forall|j: int|
            0 <= j < final(targets)@.len() ==> {
                &&& (#[trigger] final(targets)@[j]).grid.wf()
                &&& final(targets)@[j].entity == old(targets)@[j].entity
                &&& final(targets)@[j].local_pos == old(targets)@[j].local_pos
            },
        exists|parts: Seq<Seq<DamageEvent>>|
            parts.len() == old(targets)@.len() && events@ == parts.flatten() && forall|j: int|
                0 <= j < parts.len() ==> if old(targets)@[j].entity == req.attacker {
                    final(targets)@[j].grid@ == old(targets)@[j].grid@ && (#[trigger] parts[j]).len() == 0
                } else {
                    splash_result(
                        old(targets)@[j].grid@,
                        final(targets)@[j].grid@,
                        parts[j],
                        old(targets)@[j].local_pos,
                        *req,
                    )
                },
{
    let ghost t0 = targets@;
    let ghost mut parts: Seq<Seq<DamageEvent>> = Seq::empty();
    let mut events: Vec<DamageEvent> = Vec::new();
    let n = targets.len();
    let mut j: usize = 0;
    while j < n
        invariant
            j <= n,
            n == t0.len(),
            t0 == old(targets)@,
            targets@.len() == n,
            req.base_damage <= MAX_BLAST_DAMAGE,
            parts.len() == j,
            events@ == parts.flatten(),
            forall|k: int| j <= k < n ==> #[trigger] targets@[k] == t0[k],
            forall|k: int| 0 <= k < n ==> (#[trigger] t0[k]).grid.wf(),
            forall|k: int|
                0 <= k < j ==> {
                    &&& (#[trigger] targets@[k]).grid.wf()
                    &&& targets@[k].entity == t0[k].entity
                    &&& targets@[k].local_pos == t0[k].local_pos
                    &&& if t0[k].entity == req.attacker {
                        targets@[k].grid@ == t0[k].grid@ && parts[k].len() == 0
                    } else {
                        splash_result(t0[k].grid@, targets@[k].grid@, parts[k], t0[k].local_pos, *req)
                    }
                },
        decreases n - j,
    {
        let mut t = targets.remove(j);
        assert(t == t0[j as int]);
        let ghost before = t.grid@;
        let mut evs: Vec<DamageEvent> = Vec::new();
        if t.entity != req.attacker {
            evs = t.grid.apply_damage_local(t.local_pos, req.base_damage, req.radius, req.attacker);
        }
        proof {
            parts.lemma_flatten_push(evs@);
            parts = parts.push(evs@);
        }
        let mut k: usize = 0;
        let ghost ev0 = events@;
        while k < evs.len()
            invariant
                k <= evs@.len(),
                events@ == ev0 + evs@.take(k as int),
            decreases evs@.len() - k,
        {
            events.push(evs[k]);
            k = k + 1;
            assert(evs@.take(k as int) =~= evs@.take((k - 1) as int).push(evs@[k - 1]));
        }
        assert(evs@.take(evs@.len() as int) =~= evs@);
        targets.insert(j, t);
        j = j + 1;
    }
    events
}

/// The attacker of a blast earns its base damage.
pub fn splash_reward(req: &SplashDamageRequest, agent: &mut CarAgent)
    requires
        req.base_damage <= MAX_BLAST_DAMAGE,
    ensures
        final(agent).accumulated_reward == clamp_i64(old(agent).accumulated_reward + req.base_damage),
        final(agent).agent_id == old(agent).agent_id,
{
    agent.add_reward(req.base_damage as i64);
}

/// Points, in thousandths, for destroying a block.
pub const KILL_BONUS: i64 = 200_000;

/// What a damage event does to the drivers' rewards: the attacker gains
/// `attacker_gain`; the car `victim`, if any, loses `victim_loss`.
#[derive(Debug, Clone, Copy, PartialEq, Eq, Structural)]
pub struct RewardChanges {
    pub attacker: u64,
    pub attacker_gain: i128,
    pub victim: Option<u64>,
    pub victim_loss: i128,
}

/// The car a damage event penalises: the car `victim` the hit block
/// belongs to, when the block has a scene body and the car is not the
/// attacker itself.
pub open spec fn penalised_car(ev: DamageEvent, victim: Option<u64>) -> Option<u64> {
    if ev.cell_entity is Some && victim is Some && victim->0 != ev.attacker {
        victim
    } else {
        None
    }
}

/// The reward changes of a damage event: the attacker earns the damage
/// dealt, plus 200 points when the block was destroyed; the penalised car
/// loses five times the damage.
pub open spec fn rewards_of(ev: DamageEvent, victim: Option<u64>) -> RewardChanges {
    RewardChanges {
        attacker: ev.attacker,
        attacker_gain: (ev.damage + if ev.died { KILL_BONUS as int } else { 0 }) as i128,
        victim: penalised_car(ev, victim),
        victim_loss: if penalised_car(ev, victim) is Some { (5 * ev.damage) as i128 } else { 0 },
    }
}

/// The reward changes of damage event `ev` on a block of car `victim`
/// (see `rewards_of`).
pub fn damage_rewards(ev: &DamageEvent, victim: Option<u64>) -> (r: RewardChanges)
    ensures
        r == rewards_of(*ev, victim),
{
    let bonus: i128 = if ev.died {
        KILL_BONUS as i128
    } else {
        0
    };
    let penalised = match (ev.cell_entity, victim) {
        (Some(_), Some(v)) => if v != ev.attacker {
            Some(v)
        } else {
            None
        },
        _ => None,
    };
    let loss: i128 = if penalised.is_some() {
        5 * (ev.damage as i128)
    } else {
        0
    };
    RewardChanges { attacker: ev.attacker, attacker_gain: ev.damage as i128 + bonus, victim: penalised, victim_loss: loss }
}

/// The attacker of a hit earns the damage dealt, and a 200-point bonus if
/// the block was destroyed (`rewards_of`'s gain, saturating).
pub fn reward_attacker(agent: &mut CarAgent, ev: &DamageEvent)
    ensures
        final(agent).accumulated_reward == clamp_i64(old(agent).accumulated_reward + rewards_of(
            *ev,
            None,
        ).attacker_gain),
        final(agent).agent_id == old(agent).agent_id,
{
    let ch = damage_rewards(ev, None);
    agent.accumulated_reward = clamp_wide(agent.accumulated_reward as i128 + ch.attacker_gain);
}

/// The car `victim` that took a hit loses five times the damage, unless it
/// dealt the hit itself.
pub fn penalise_victim(agent: &mut CarAgent, victim: u64, ev: &DamageEvent)
    ensures
        final(agent).accumulated_reward == if victim != ev.attacker {
            clamp_i64(old(agent).accumulated_reward - 5 * ev.damage)
        } else {
            old(agent).accumulated_reward
        },
        final(agent).agent_id == old(agent).agent_id,
{
    if victim != ev.attacker {
        agent.accumulated_reward = clamp_wide(agent.accumulated_reward as i128 - 5 * (ev.damage as i128));
    }
}

/// The blast a destroyed exploding block sets off where it stood: 80
/// damage within 1.5 m, credited to the attacker.  Nothing when the block
/// survived, has no scene body, its position is unknown, or it does not
/// explode.
pub fn death_explosion(ev: &DamageEvent, cell_pos: Option<Pos>) -> (req: Option<SplashDamageRequest>)
    ensures
        req == if ev.died && ev.cell_entity is Some && ev.special == SpecialAbility::ExplodeOnDeath
            && cell_pos is Some {
            Some(SplashDamageRequest { world_pos: cell_pos->0, radius: 1500, base_damage: 80000, attacker: ev.attacker })
        } else {
            None
        },
{
    if ev.died && ev.cell_entity.is_some() && ev.special == SpecialAbility::ExplodeOnDeath {
        match cell_pos {
            Some(p) => Some(SplashDamageRequest { world_pos: p, radius: 1500, base_damage: 80000, attacker: ev.attacker }),
            None => None,
        }
    } else {
        None
    }
}

/// One and a half times `c`, rounded toward zero.
pub open spec fn three_halves(c: int) -> int {
    if c >= 0 {
        c * 3 / 2
    } else {
        -((-c) * 3 / 2)
    }
}

/// The kick for the drawn vector (`x`, `y`, `z`): one and a half times it,
/// each part rounded toward zero.
pub open spec fn impulse_spec(x: int, y: int, z: int) -> Pos {
    Pos { x: three_halves(x) as i64, y: three_halves(y) as i64, z: three_halves(z) as i64 }
}

/// Some vector with sideways parts in [-1000, 1000) and upward part in
/// [500, 2000) gives the kick `v`.
pub open spec fn impulse_drawn(v: Pos) -> bool {
    exists|x: int, y: int, z: int|
        -1000 <= x < 1000 && 500 <= y < 2000 && -1000 <= z < 1000 && v == #[trigger] impulse_spec(x, y, z)
}

/// One and a half times `c`, rounded toward zero.
fn three_halves_of(c: i64) -> (r: i64)
    requires
        -3_000_000_000_000_000_000 <= c <= 3_000_000_000_000_000_000,
    ensures
        r == three_halves(c as int),
{
    if c >= 0 {
        c * 3 / 2
    } else {
        -((-c) * 3 / 2)
    }
}

/// The kick for the drawn vector (see `impulse_spec`).
pub fn impulse_of(x: i64, y: i64, z: i64) -> (v: Pos)
    requires
        -3_000_000_000_000_000_000 <= x <= 3_000_000_000_000_000_000,
        -3_000_000_000_000_000_000 <= y <= 3_000_000_000_000_000_000,
        -3_000_000_000_000_000_000 <= z <= 3_000_000_000_000_000_000,
    ensures
        v == impulse_spec(x as int, y as int, z as int),
{
    Pos { x: three_halves_of(x), y: three_halves_of(y), z: three_halves_of(z) }
}

/// The kick a destroyed block flies off with, in thousandths: one and a
/// half times a random vector with sideways parts in [-1, 1) and upward
/// part in [0.5, 2).
pub fn fragment_impulse() -> (v: Pos)
    ensures
        impulse_drawn(v),
        -1500 <= v.x < 1500,
        750 <= v.y < 3000,
        -1500 <= v.z < 1500,
{
    let x = random_range(-1000, 1000);
    let y = random_range(500, 2000);
    let z = random_range(-1000, 1000);
    let v = impulse_of(x, y, z);
    assert(v == impulse_spec(x as int, y as int, z as int));
    v
}

/// Contact damage of a wheel kind: spiked 15, heavy 20, any other 5.
pub open spec fn wheel_contact_damage(t: BlockType) -> u64 {
    match t {
        BlockType::WheelSpiked => 15000,
        BlockType::WheelHeavy => 20000,
        _ => 5000,
    }
}

/// The blast a wheel sets off when it touches a car body: its contact
/// damage within 1 m of the wheel, credited to the wheel's car.  Nothing
/// when the other body is not a car body, is the wheel's own car, or the
/// wheel's position is unknown.
pub fn wheel_contact_splash(
    wheel_type: BlockType,
    owner: u64,
    other: u64,
    other_is_grid: bool,
    wheel_pos: Option<Pos>,
) -> (req: Option<SplashDamageRequest>)
    ensures
        req == if other_is_grid && owner != other && wheel_pos is Some {
            Some(
                SplashDamageRequest {
                    world_pos: wheel_pos->0,
                    radius: 1000,
                    base_damage: wheel_contact_damage(wheel_type),
                    attacker: owner,
                },
            )
        } else {
            None
        },
{
    if other_is_grid && owner != other {
        match wheel_pos {
            Some(p) => {
                let damage: u64 = match wheel_type {
                    BlockType::WheelSpiked => 15000,
                    BlockType::WheelHeavy => 20000,
                    _ => 5000,
                };
                Some(SplashDamageRequest { world_pos: p, radius: 1000, base_damage: damage, attacker: owner })
            },
            None => None,
        }
    } else {
        None
    }
}

/// Fastest speed, in millimetres per second, a ram is judged at.
pub const MAX_RAM_SPEED: u64 = 1_000_000_000;

/// The result of two cars ramming: the faster one earns `damage`
/// thousandths, the slower one loses as much, and a blast of that damage
/// goes off where the faster one is.
#[derive(Debug, Clone, Copy, PartialEq, Eq, Structural)]
pub struct RamOutcome {
    pub faster: u64,
    pub slower: u64,
    pub damage: u64,
    pub splash: SplashDamageRequest,
}

/// Two cars collided, with speeds in millimetres per second.  Bumps with
/// a speed difference under 5 m/s do nothing; otherwise the damage is
/// twice the difference, and the blast has a 2 m radius.
pub fn ram_damage_system(e1: u64, speed1: u64, pos1: Pos, e2: u64, speed2: u64, pos2: Pos) -> (r: Option<RamOutcome>)
    requires
        speed1 <= MAX_RAM_SPEED,
        speed2 <= MAX_RAM_SPEED,
    ensures
        ({
            let diff: int = if speed1 > speed2 { speed1 - speed2 } else { speed2 - speed1 };
            &&& diff < 5000 ==> r is None
            &&& diff >= 5000 ==> r == Some(
                RamOutcome {
                    faster: if speed1 > speed2 { e1 } else { e2 },
                    slower: if speed1 > speed2 { e2 } else { e1 },
                    damage: (2 * diff) as u64,
                    splash: SplashDamageRequest {
                        world_pos: if speed1 > speed2 { pos1 } else { pos2 },
                        radius: 2000,
                        base_damage: (2 * diff) as u64,
                        attacker: if speed1 > speed2 { e1 } else { e2 },
                    },
                },
            )
        }),
{
    let diff: u64 = if speed1 > speed2 { speed1 - speed2 } else { speed2 - speed1 };
    if diff < 5000 {
        return None;
    }
    let damage = 2 * diff;
    let (faster, slower, pos) = if speed1 > speed2 { (e1, e2, pos1) } else { (e2, e1, pos2) };
    Some(RamOutcome {
        faster,
        slower,
        damage,
        splash: SplashDamageRequest { world_pos: pos, radius: 2000, base_damage: damage, attacker: faster },
    })
}

impl RamOutcome {
    /// Settles the ram for the car `entity`: the faster car earns the
    /// damage, the slower loses it, any other car is untouched.
    pub fn settle(&self, agent: &mut CarAgent, entity: u64)
        requires
            self.damage <= 2 * MAX_RAM_SPEED,
        ensures
            final(agent).accumulated_reward == if entity == self.slower {
                if entity == self.faster {
                    clamp_i64(clamp_i64(old(agent).accumulated_reward - self.damage) + self.damage)
                } else {
                    clamp_i64(old(agent).accumulated_reward - self.damage)
                }
            } else if entity == self.faster {
                clamp_i64(old(agent).accumulated_reward + self.damage)
            } else {
                old(agent).accumulated_reward
            },
            final(agent).agent_id == old(agent).agent_id,
    {
        if entity == self.slower {
            agent.add_reward(-(self.damage as i64));
        }
        if entity == self.faster {
            agent.add_reward(self.damage as i64);
        }
    }
}

/// The size a damaged block is drawn at, in thousandths: from three tenths
/// at no health to full size; only blocks with some but not all of their
/// health are resized.
pub fn crumple_scale(cell: &VoxelCell) -> (s: Option<i64>)
    requires
        -1_000_000_000_000_000 <= cell.current_health <= 1_000_000_000_000_000,
    ensures
        s == if 0 < health_frac_of(*cell) < 1000 {
            Some((300 + 700 * health_frac_of(*cell) / 1000) as i64)
        } else {
            None
        },
{
    let f = cell.health_frac();
    if 0 < f && f < 1000 {
        Some(300 + 700 * f / 1000)
    } else {
        None
    }
}

/// What a damage event sets in motion: the reward changes, the victim car
/// to penalise, and, for a destroyed block with a scene body,
/// whether it flies off as a fragment (its position known) or simply
/// vanishes, and the blast of an exploding block.
#[derive(Debug, Clone, Copy, PartialEq, Eq, Structural)]
pub struct DamageReaction {
    pub rewards: RewardChanges,
    pub penalise: Option<u64>,
    pub fragment: bool,
    pub despawn_cell: bool,
    pub explosion: Option<SplashDamageRequest>,
}

/// The reaction to a damage event on a block whose car is `victim` (when
/// the block is attached to one) and whose position is `cell_pos` (when
/// known).  A car does not penalise itself.
pub fn react_to_damage(ev: &DamageEvent, victim: Option<u64>, cell_pos: Option<Pos>) -> (r: DamageReaction)
    ensures
        r.rewards == rewards_of(*ev, victim),
        r.penalise == penalised_car(*ev, victim),
        r.fragment == (ev.died && ev.cell_entity is Some && cell_pos is Some),
        r.despawn_cell == (ev.died && ev.cell_entity is Some && cell_pos is None),
        r.explosion == if ev.died && ev.cell_entity is Some && ev.special == SpecialAbility::ExplodeOnDeath
            && cell_pos is Some {
            Some(SplashDamageRequest { world_pos: cell_pos->0, radius: 1500, base_damage: 80000, attacker: ev.attacker })
        } else {
            None
        },
{
    let penalise = match (ev.cell_entity, victim) {
        (Some(_), Some(v)) => if v != ev.attacker { Some(v) } else { None },
        _ => None,
    };
    let has_cell = ev.cell_entity.is_some();
    let known = cell_pos.is_some();
    DamageReaction {
        rewards: damage_rewards(ev, victim),
        penalise,
        fragment: ev.died && has_cell && known,
        despawn_cell: ev.died && has_cell && !known,
        explosion: death_explosion(ev, cell_pos),
    }
}

/// A wheel body: its block kind and its car.
#[derive(Debug, Clone, Copy, PartialEq, Eq, Structural)]
pub struct WheelInfo {
    pub kind: BlockType,
    pub owner: u64,
}

/// One side of a contact: the body, what is known of it as a wheel, whether
/// it is a car body, and its position if known.
#[derive(Debug, Clone, Copy, PartialEq, Eq, Structural)]
pub struct ContactSide {
    pub entity: u64,
    pub wheel: Option<WheelInfo>,
    pub is_grid: bool,
    pub pos: Option<Pos>,
}

/// The blast side `w` sets off by touching side `o`, if `w` is a wheel.
pub open spec fn side_splash(w: ContactSide, o: ContactSide) -> Seq<SplashDamageRequest> {
    match w.wheel {
        Some(info) => if o.is_grid && info.owner != o.entity && w.pos is Some {
            seq![
                SplashDamageRequest {
                    world_pos: w.pos->0,
                    radius: 1000,
                    base_damage: wheel_contact_damage(info.kind),
                    attacker: info.owner,
                },
            ]
        } else {
            Seq::empty()
        },
        None => Seq::empty(),
    }
}

/// A contact between two bodies: each of them that is a wheel touching
/// another car's body sets off its contact blast, the first side's first.
pub fn wheel_contact_damage_system(a: &ContactSide, b: &ContactSide) -> (reqs: Vec<SplashDamageRequest>)
    ensures
        reqs@ == side_splash(*a, *b) + side_splash(*b, *a),
{
    let mut reqs: Vec<SplashDamageRequest> = Vec::new();
    match a.wheel {
        Some(info) => match wheel_contact_splash(info.kind, info.owner, b.entity, b.is_grid, a.pos) {
            Some(r) => reqs.push(r),
            None => {},
        },
        None => {},
    }
    let ghost first = reqs@;
    match b.wheel {
        Some(info) => match wheel_contact_splash(info.kind, info.owner, a.entity, a.is_grid, b.pos) {
            Some(r) => reqs.push(r),
            None => {},
        },
        None => {},
    }
    assert(reqs@ =~= side_splash(*a, *b) + side_splash(*b, *a));
    reqs
}

/// The drawn size of a block's scene body, in thousandths.
#[derive(Debug, Clone, Copy, PartialEq, Eq, Structural)]
pub struct CrumpleScale {
    pub entity: u64,
    pub scale: i64,
}

/// The resizes among the first `n` listed blocks: each block with a scene
/// body and some but not all of its health.
pub open spec fn crumples_upto(es: Seq<CellEntry>, n: int) -> Seq<CrumpleScale>
    decreases n,
{
    if n <= 0 {
        Seq::empty()
    } else {
        let c = es[n - 1].cell;
        crumples_upto(es, n - 1) + if c.entity is Some && 0 < health_frac_of(c) < 1000 {
            seq![CrumpleScale { entity: c.entity->0, scale: (300 + 700 * health_frac_of(c) / 1000) as i64 }]
        } else {
            Seq::empty()
        }
    }
}

/// The block resizes of one car, in the x-major order of its cells.
pub fn block_crumple_visuals_system(grid: &VoxelGrid) -> (r: Vec<CrumpleScale>)
    requires
        grid.wf(),
    ensures
        r@ == crumples_upto(entries_upto(grid@, CELL_COUNT as int), entries_upto(grid@, CELL_COUNT as int).len() as int),
{
    let es = grid.iter_cells();
    proof {
        crate::voxel::grid::lemma_entries_sound(grid@, CELL_COUNT as int);
    }
    let mut r: Vec<CrumpleScale> = Vec::new();
    let mut k: usize = 0;
    while k < es.len()
        invariant
            k <= es@.len(),
            forall|j: int| 0 <= j < es@.len() ==> -1_000_000_000_000_000 <= (#[trigger] es@[j]).cell.current_health <= 1_000_000_000_000_000,
            r@ =~= crumples_upto(es@, k as int),
        decreases es@.len() - k,
    {
        let c = es[k].cell;
        match c.entity {
            Some(e) => match crumple_scale(&c) {
                Some(sc) => r.push(CrumpleScale { entity: e, scale: sc }),
                None => {},
            },
            None => {},
        }
        k = k + 1;
    }
    r
}

} // verus!
