//! A driving agent: its reward bookkeeping and how it turns network outputs
//! into driving and firing commands.
use vstd::prelude::*;
use crate::arith::{Pos, dist2, dist2_exec, in_world, lemma_dist2_bound, floor_sqrt, isqrt, clamp_i64, sat_add};
use crate::ai::neat::ACTION_DIM;
use crate::ai::neat_core::FeedforwardNet;
use crate::voxel::grid::{VoxelGrid, occupied_count};
use crate::weapons::targeting::{Body, bodies_in_world, nearest_upto, nearest_enemy};

verus! {

/// How much of the driving the network does itself.
#[derive(Debug, Clone, Copy, PartialEq, Eq, Structural)]
pub enum DriveMode {
    Auto,
    Semi,
    Manual,
}

/// Reward multiplier of a drive mode, in thousandths.
pub open spec fn mode_multiplier(m: DriveMode) -> int {
    match m {
        DriveMode::Manual => 10000,
        DriveMode::Semi => 1000,
        DriveMode::Auto => 250,
    }
}

/// The drive mode a network asks for through its sixth output (thousandths).
pub open spec fn wanted_mode(a5: i64) -> DriveMode {
    if a5 > 600 {
        DriveMode::Manual
    } else if a5 < 400 {
        DriveMode::Auto
    } else {
        DriveMode::Semi
    }
}

/// Distance moved since the last step, in millimetres, capped at 10 m.
pub open spec fn moved_of(a: Pos, b: Pos) -> int {
    if dist2(a, b) >= 100_000_000 {
        10000
    } else {
        floor_sqrt(dist2(a, b) as nat) as int
    }
}

/// Reward for moving `moved` millimetres: 0.8 per metre, scaled by the
/// mode multiplier; a penalty of the same size while the agent has earned
/// no more than its 50-point starting gift (plus a hair).
pub open spec fn motion_reward(reward: i64, mode: DriveMode, moved: int) -> int {
    let base = moved * 4 / 5 * mode_multiplier(mode) / 1000;
    if reward <= 50100 {
        -base
    } else {
        base
    }
}

/// Reward for flying: above 5 m, a tenth of the height (capped at 150 m)
/// per second plus a tenth of the speed per second, scaled by the mode
/// multiplier.
pub open spec fn flight_reward(y: i64, speed: Option<u64>, mode: DriveMode, dt: u32) -> int {
    if y > 5000 {
        let ey: int = if y > 150000 { 150000 } else { y as int };
        ey * (dt as int) * mode_multiplier(mode) / 10_000_000 + match speed {
            Some(s) => (s as int) * (dt as int) * mode_multiplier(mode) / 10_000_000,
            None => 0,
        }
    } else {
        0
    }
}

/// The position lies outside the arena.
pub open spec fn out_of_bounds(p: Pos) -> bool {
    p.x > 305000 || p.x < -305000 || p.z > 605000 || p.z < -605000 || p.y < -10000
}

/// The arena is the box 305 m either side of the centre across (x), 605 m
/// either side along (z), and no lower than 10 m below ground (y): a car is
/// out of bounds exactly when it lies outside that box, beyond either end
/// of either axis or below the floor.
pub proof fn lemma_arena_box(p: Pos)
    ensures
        out_of_bounds(p) <==> !(-305000 <= p.x <= 305000 && -605000 <= p.z <= 605000 && -10000 <= p.y),
        p.z > 605000 || p.z < -605000 ==> out_of_bounds(p),
        p.x > 305000 || p.x < -305000 ==> out_of_bounds(p),
        p.y < -10000 ==> out_of_bounds(p),
{
}

/// The sixth network output picks the drive mode in three bands: above 0.6
/// manual, below 0.4 automatic, and from 0.4 to 0.6 (inclusive)
/// semi-automatic.
pub proof fn lemma_mode_bands(a5: i64)
    ensures
        a5 > 600 ==> wanted_mode(a5) == DriveMode::Manual,
        a5 < 400 ==> wanted_mode(a5) == DriveMode::Auto,
        400 <= a5 <= 600 ==> wanted_mode(a5) == DriveMode::Semi,
        wanted_mode(a5) == DriveMode::Semi ==> 400 <= a5 <= 600,
{
}

/// Largest speed, in millimetres per second, a flight reward is computed for.
pub const MAX_SPEED: u64 = 1_000_000_000;

/// Largest step, in milliseconds.
pub const MAX_STEP: u32 = 1_000_000;

/// What the network asks of the car this step.
#[derive(Debug, Clone, PartialEq, Eq)]
pub struct DriveCommand {
    /// Throttle and steering, in thousandths within [-1000, 1000].
    pub throttle: i64,
    pub steer: i64,
    /// The weapons to fire.
    pub fire: Vec<u64>,
    pub nitro: bool,
}

/// A driver.  Reward is in thousandths of a point, positions in millimetres,
/// timers in milliseconds, actions in thousandths.
#[derive(Debug)]
pub struct CarAgent {
    pub agent_id: usize,
    pub accumulated_reward: i64,
    pub spawn_pos: Pos,
    pub last_position: Pos,
    pub weapons_disabled: bool,
    pub weapon_disable_t: i64,
    pub immobile_timer: i64,
    pub out_of_bounds_timer: i64,
    pub anchor_pos: Pos,
    pub anchor_timer: i64,
    pub current_action: Vec<i64>,
    pub drive_mode: DriveMode,
    pub mode_lock_timer: i64,
    pub net: FeedforwardNet,
}

/// Throttle or steering in thousandths from a network output in
/// thousandths: twice it less one, held to [-1000, 1000].
pub open spec fn steer_of(a: i64) -> i64 {
    if 2 * a - 1000 > 1000 {
        1000i64
    } else if 2 * a - 1000 < -1000 {
        -1000i64
    } else {
        (2 * a - 1000) as i64
    }
}

/// The weapons among the first `n` of the first three slots whose trigger
/// output (outputs 2, 3, 4) is above one half.
pub open spec fn fired_upto(action: Seq<i64>, weapons: Seq<u64>, n: int) -> Seq<u64>
    decreases n,
{
    if n <= 0 {
        Seq::empty()
    } else {
        fired_upto(action, weapons, n - 1) + if action[2 + n - 1] > 500 {
            seq![weapons[n - 1]]
        } else {
            Seq::empty()
        }
    }
}

impl CarAgent {
    /// A fresh agent at `spawn_pos`, in semi-automatic mode, with no reward.
    pub fn new(id: usize, net: FeedforwardNet, spawn_pos: Pos) -> (a: CarAgent)
        ensures
            a.agent_id == id,
            a.accumulated_reward == 0,
            a.spawn_pos == spawn_pos,
            a.last_position == spawn_pos,
            a.anchor_pos == spawn_pos,
            !a.weapons_disabled,
            a.weapon_disable_t == 0,
            a.immobile_timer == 0,
            a.out_of_bounds_timer == 0,
            a.anchor_timer == 0,
            a.current_action@ == Seq::new(ACTION_DIM as nat, |i: int| 0i64),
            a.drive_mode == DriveMode::Semi,
            a.mode_lock_timer == 0,
            a.net == net,
    {
        let mut action: Vec<i64> = Vec::new();
        let mut i: usize = 0;
        while i < ACTION_DIM
            invariant
                i <= ACTION_DIM,
                action@ =~= Seq::new(i as nat, |j: int| 0i64),
            decreases ACTION_DIM - i,
        {
            action.push(0);
            i = i + 1;
        }
        CarAgent {
            agent_id: id,
            accumulated_reward: 0,
            spawn_pos,
            last_position: spawn_pos,
            weapons_disabled: false,
            weapon_disable_t: 0,
            immobile_timer: 0,
            out_of_bounds_timer: 0,
            anchor_pos: spawn_pos,
            anchor_timer: 0,
            current_action: action,
            drive_mode: DriveMode::Semi,
            mode_lock_timer: 0,
            net,
        }
    }

    /// The car still has blocks.
    pub fn is_alive(&self, grid: &VoxelGrid) -> (b: bool)
        requires
            grid.wf(),
        ensures
            b == (occupied_count(grid@) > 0),
    {
        grid.block_count() > 0
    }

    /// Adds `delta` thousandths of a point to the reward (saturating).
    pub fn add_reward(&mut self, delta: i64)
        ensures
            final(self).accumulated_reward == clamp_i64(old(self).accumulated_reward + delta),
            final(self).agent_id == old(self).agent_id,
            final(self).drive_mode == old(self).drive_mode,
    {
        self.accumulated_reward = sat_add(self.accumulated_reward, delta);
    }

    /// Takes in the network's outputs (thousandths): keeps the first 30
    /// (missing ones read 0) as the current action, and switches to the
    /// drive mode output 5 asks for, unless a switch happened in the last
    /// three seconds; a switch locks the mode for three seconds.
    pub fn take_outputs(&mut self, outputs: &Vec<i64>)
        ensures
            final(self).current_action@.len() == ACTION_DIM,
            forall|i: int|
                0 <= i < ACTION_DIM ==> #[trigger] final(self).current_action@[i] == if i < outputs@.len() {
                    outputs@[i]
                } else {
                    0
                },
            old(self).mode_lock_timer <= 0 && old(self).drive_mode != wanted_mode(
                final(self).current_action@[5],
            ) ==> final(self).drive_mode == wanted_mode(final(self).current_action@[5])
                && final(self).mode_lock_timer == 3000,
            !(old(self).mode_lock_timer <= 0 && old(self).drive_mode != wanted_mode(
                final(self).current_action@[5],
            )) ==> final(self).drive_mode == old(self).drive_mode && final(self).mode_lock_timer == old(
                self,
            ).mode_lock_timer,
            final(self).accumulated_reward == old(self).accumulated_reward,
            final(self).agent_id == old(self).agent_id,
            final(self).weapons_disabled == old(self).weapons_disabled,
    {
        let mut action: Vec<i64> = Vec::new();
        let mut i: usize = 0;
        while i < ACTION_DIM
            invariant
                i <= ACTION_DIM,
                action@.len() == i,
                forall|j: int| 0 <= j < i ==> #[trigger] action@[j] == if j < outputs@.len() {
                    outputs@[j]
                } else {
                    0
                },
            decreases ACTION_DIM - i,
        {
            if i < outputs.len() {
                action.push(outputs[i]);
            } else {
                action.push(0);
            }
            i = i + 1;
        }
        let a5 = action[5];
        let wants = if a5 > 600 {
            DriveMode::Manual
        } else if a5 < 400 {
            DriveMode::Auto
        } else {
            DriveMode::Semi
        };
        if self.mode_lock_timer <= 0 && self.drive_mode != wants {
            self.drive_mode = wants;
            self.mode_lock_timer = 3000;
        }
        self.current_action = action;
    }

    /// The driving commands for the current action: throttle and steering
    /// from outputs 0 and 1, nitro from output 6, and, unless the weapons
    /// are disabled, a shot from each of the first three weapons whose
    /// trigger output (2, 3, 4) is above one half.
    pub fn apply_action(&self, weapon_ents: &Vec<u64>) -> (cmd: DriveCommand)
        requires
            self.current_action@.len() == ACTION_DIM,
            forall|i: int| 0 <= i < ACTION_DIM ==> -1_000_000_000 <= #[trigger] self.current_action@[i] <= 1_000_000_000,
        ensures
            cmd.throttle == steer_of(self.current_action@[0]),
            cmd.steer == steer_of(self.current_action@[1]),
            cmd.nitro == (self.current_action@[6] > 500),
            self.weapons_disabled ==> cmd.fire@.len() == 0,
            !self.weapons_disabled ==> cmd.fire@ == fired_upto(
                self.current_action@,
                weapon_ents@,
                if weapon_ents@.len() < 3 { weapon_ents@.len() as int } else { 3 },
            ),
    {
        let t = steer_from(self.current_action[0]);
        let s = steer_from(self.current_action[1]);
        let mut fire: Vec<u64> = Vec::new();
        if !self.weapons_disabled {
            let n: usize = if weapon_ents.len() < 3 { weapon_ents.len() } else { 3 };
            let mut k: usize = 0;
            while k < n
                invariant
                    k <= n,
                    n <= 3,
                    n <= weapon_ents@.len(),
                    self.current_action@.len() == ACTION_DIM,
                    fire@ =~= fired_upto(self.current_action@, weapon_ents@, k as int),
                decreases n - k,
            {
                if self.current_action[2 + k] > 500 {
                    fire.push(weapon_ents[k]);
                }
                k = k + 1;
            }
        }
        DriveCommand { throttle: t, steer: s, fire, nitro: self.current_action[6] > 500 }
    }

    /// One step of reward bookkeeping with the car now at `pos`, moving at
    /// `speed` (millimetres per second, when known), after `dt` milliseconds.
    ///
    /// Moving earns 0.8 points per metre (at most 10 m per step), a penalty
    /// instead while the agent holds no more than its starting gift; flying
    /// above 5 m earns height and speed rewards; all of these are scaled by
    /// the drive mode.  Every second the car is checked against where it was
    /// a second earlier: staying within 2 m counts a second of idling, and
    /// idling for more than two seconds costs 15 points a second.  A car out
    /// of the arena for more than five seconds is sent back to its spawn
    /// point (the result is then true and the rest of the step is skipped).
    /// EMP and mode-lock timers run down.
    #[verifier::rlimit(50)]
    pub fn step_reward(&mut self, pos: Pos, speed: Option<u64>, dt: u32) -> (teleport: bool)
        requires
            in_world(pos),
            in_world(old(self).last_position),
            in_world(old(self).anchor_pos),
            speed matches Some(s) ==> s <= MAX_SPEED,
            dt <= MAX_STEP,
        ensures
            ({
                let o = *old(self);
                let f = *final(self);
                let r1 = clamp_i64(o.accumulated_reward + motion_reward(o.accumulated_reward, o.drive_mode, moved_of(pos, o.last_position)));
                let r2 = clamp_i64(r1 + flight_reward(pos.y, speed, o.drive_mode, dt));
                let at = clamp_i64(o.anchor_timer + dt);
                let check = at >= 1000;
                let idle = dist2(pos, o.anchor_pos) < 4_000_000;
                let imm = if !check { o.immobile_timer } else if idle { clamp_i64(o.immobile_timer + 1000) } else { 0 };
                let r3 = if check && idle && imm > 2000 { clamp_i64(r2 - 15000) } else { r2 };
                let oob = if out_of_bounds(pos) { clamp_i64(o.out_of_bounds_timer + dt) } else { 0 };
                &&& f.accumulated_reward == r3
                &&& teleport == (oob > 5000)
                &&& f.agent_id == o.agent_id
                &&& f.spawn_pos == o.spawn_pos
                &&& f.drive_mode == o.drive_mode
                &&& f.current_action@ == o.current_action@
                &&& teleport ==> {
                    &&& f.immobile_timer == 0
                    &&& f.out_of_bounds_timer == 0
                    &&& f.last_position == o.spawn_pos
                    &&& f.anchor_pos == o.spawn_pos
                    &&& f.anchor_timer == 0
                    &&& f.weapons_disabled == o.weapons_disabled
                    &&& f.weapon_disable_t == o.weapon_disable_t
                    &&& f.mode_lock_timer == o.mode_lock_timer
                }
                &&& !teleport ==> {
                    &&& f.immobile_timer == imm
                    &&& f.out_of_bounds_timer == oob
                    &&& f.anchor_pos == if check { pos } else { o.anchor_pos }
                    &&& f.anchor_timer == if check { 0 } else { at }
                    &&& f.last_position == pos
                    &&& f.weapon_disable_t == if o.weapons_disabled { clamp_i64(o.weapon_disable_t - dt) } else { o.weapon_disable_t }
                    &&& f.weapons_disabled == (o.weapons_disabled && clamp_i64(o.weapon_disable_t - dt) > 0)
                    &&& f.mode_lock_timer == if o.mode_lock_timer > 0 { clamp_i64(o.mode_lock_timer - dt) } else { o.mode_lock_timer }
                }
            }),
    {
        let mult: u128 = match self.drive_mode {
            DriveMode::Manual => 10000,
            DriveMode::Semi => 1000,
            DriveMode::Auto => 250,
        };
        proof {
            lemma_dist2_bound(pos, self.last_position);
            lemma_dist2_bound(pos, self.anchor_pos);
        }
        let d2 = dist2_exec(pos, self.last_position);
        let moved: u64 = if d2 >= 100_000_000 {
            10000
        } else {
            isqrt(d2)
        };
        assert(moved <= 10000) by (nonlinear_arith)
            requires
                moved == 10000 || (moved * moved <= d2 && d2 < 100_000_000),
        ;
        let base: u128 = (moved as u128) * 4 / 5 * mult / 1000;
        let delta: i64 = if self.accumulated_reward <= 50100 { -(base as i64) } else { base as i64 };
        self.accumulated_reward = sat_add(self.accumulated_reward, delta);
        if pos.y > 5000 {
            let ey: u128 = if pos.y > 150000 { 150000 } else { pos.y as u128 };
            assert(ey * (dt as u128) <= 150000 * 1_000_000 && ey * (dt as u128) * mult <= 150000 * 1_000_000 * 10000)
                by (nonlinear_arith)
                requires
                    ey <= 150000,
                    dt <= 1_000_000,
                    mult <= 10000,
            ;
            let mut fly: u128 = ey * (dt as u128) * mult / 10_000_000;
            match speed {
                Some(s) => {
                    assert((s as u128) * (dt as u128) <= 1_000_000_000 * 1_000_000 && (s as u128) * (dt as u128) * mult
                        <= 1_000_000_000 * 1_000_000 * 10000) by (nonlinear_arith)
                        requires
                            s <= 1_000_000_000,
                            dt <= 1_000_000,
                            mult <= 10000,
                    ;
                    fly = fly + (s as u128) * (dt as u128) * mult / 10_000_000;
                },
                None => {},
            }
            self.accumulated_reward = sat_add(self.accumulated_reward, fly as i64);
        }
        self.anchor_timer = sat_add(self.anchor_timer, dt as i64);
        if self.anchor_timer >= 1000 {
            let da = dist2_exec(pos, self.anchor_pos);
            if da < 4_000_000 {
                self.immobile_timer = sat_add(self.immobile_timer, 1000);
                if self.immobile_timer > 2000 {
                    self.accumulated_reward = sat_add(self.accumulated_reward, -15000);
                }
            } else {
                self.immobile_timer = 0;
            }
            self.anchor_pos = pos;
            self.anchor_timer = 0;
        }
        if pos.x > 305000 || pos.x < -305000 || pos.z > 605000 || pos.z < -605000 || pos.y < -10000 {
            self.out_of_bounds_timer = sat_add(self.out_of_bounds_timer, dt as i64);
            if self.out_of_bounds_timer > 5000 {
                self.immobile_timer = 0;
                self.out_of_bounds_timer = 0;
                self.last_position = self.spawn_pos;
                self.anchor_pos = self.spawn_pos;
                self.anchor_timer = 0;
                return true;
            }
        } else {
            self.out_of_bounds_timer = 0;
        }
        if self.weapons_disabled {
            self.weapon_disable_t = sat_add(self.weapon_disable_t, -(dt as i64));
            if self.weapon_disable_t <= 0 {
                self.weapons_disabled = false;
            }
        }
        if self.mode_lock_timer > 0 {
            self.mode_lock_timer = sat_add(self.mode_lock_timer, -(dt as i64));
        }
        self.last_position = pos;
        false
    }
}

/// Where a driver aims: in automatic mode at the nearest other car (the
/// first of equally near ones); otherwise, or with no other car, straight
/// ahead (`None`).
pub fn auto_aim_target(mode: DriveMode, from: Pos, self_entity: u64, cars: &Vec<Body>) -> (aim: Option<Pos>)
    requires
        in_world(from),
        bodies_in_world(cars@),
    ensures
        mode != DriveMode::Auto ==> aim is None,
        mode == DriveMode::Auto ==> match nearest_upto(cars@, from, self_entity, cars@.len() as int) {
            Some(k) => aim == Some(cars@[k].pos),
            None => aim is None,
        },
{
    if mode != DriveMode::Auto {
        return None;
    }
    match nearest_enemy(from, self_entity, cars) {
        Some((_, p, _)) => Some(p),
        None => None,
    }
}

/// Throttle or steering from a network output, both in thousandths.
pub(crate) fn steer_from(a: i64) -> (s: i64)
    requires
        -1_000_000_000 <= a <= 1_000_000_000,
    ensures
        s == steer_of(a),
{
    let v = 2 * a - 1000;
    if v > 1000 {
        1000
    } else if v < -1000 {
        -1000
    } else {
        v
    }
}

} // verus!
