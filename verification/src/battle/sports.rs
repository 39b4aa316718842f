//! The arena's side games: a football scored into goal nets, and discuses
//! that cars pick up, spin and throw at each other.
use vstd::prelude::*;
use crate::ai::agent::CarAgent;
use crate::arith::{Pos, clamp_i64, clamp_wide};
use crate::voxel::block::Rgba;
use crate::random::random_range;

verus! {

/// The football, and the car that touched it last.
#[derive(Debug, Clone, Copy, PartialEq, Eq, Structural)]
pub struct Football {
    pub last_touch: Option<u64>,
}

/// A goal net, in its team's colour.
#[derive(Debug, Clone, Copy, PartialEq, Eq, Structural)]
pub struct GoalNet {
    pub team_color: Rgba,
}

/// Points, in thousandths, for scoring a goal.
pub const GOAL_REWARD: i64 = 10_000_000;

/// Points, in thousandths, for hitting another car with a thrown discus.
pub const DISCUS_HIT_REWARD: i64 = 5_000_000;

/// A goal: the car credited with it, if the ball had been touched.
#[derive(Debug, Clone, Copy, PartialEq, Eq, Structural)]
pub struct Goal {
    pub scorer: Option<u64>,
}

/// Where the ball is put back after a goal: 20 m above the centre spot.
pub open spec fn ball_spawn_spec() -> Pos {
    Pos { x: 0, y: 20000, z: 0 }
}

/// Where the ball is put back after a goal, computed.
pub fn ball_spawn() -> (p: Pos)
    ensures
        p == ball_spawn_spec(),
{
    Pos { x: 0, y: 20000, z: 0 }
}

/// The ball touched the body `other`.  A car touching it becomes its last
/// toucher; touching a goal net scores for the last toucher, and the ball
/// then starts afresh, untouched.
pub fn football_system(ball: &mut Football, other: u64, other_is_car: bool, other_is_net: bool) -> (goal: Option<Goal>)
    ensures
        ({
            let touched = if other_is_car { Some(other) } else { old(ball).last_touch };
            if other_is_net {
                goal == Some(Goal { scorer: touched }) && final(ball).last_touch is None
            } else {
                goal is None && final(ball).last_touch == touched
            }
        }),
{
    if other_is_car {
        ball.last_touch = Some(other);
    }
    if other_is_net {
        let scorer = ball.last_touch;
        ball.last_touch = None;
        Some(Goal { scorer })
    } else {
        None
    }
}

/// The scorer of a goal earns 10000 points.
pub fn reward_goal(agent: &mut CarAgent)
    ensures
        final(agent).accumulated_reward == clamp_i64(old(agent).accumulated_reward + GOAL_REWARD),
        final(agent).agent_id == old(agent).agent_id,
{
    agent.add_reward(GOAL_REWARD);
}

/// A discus: lying free, held by a car (with its spin, in thousandths of
/// a radian per second), or flying after a throw.
#[derive(Debug, Clone, Copy, PartialEq, Eq, Structural)]
pub enum DiscusState {
    Idle,
    Held { owner: u64, spin: i64 },
    Thrown { owner: u64 },
}

/// What a discus touching car `car` does: a free discus is picked up
/// with no spin; a thrown one hitting a car other than its thrower falls
/// free and the thrower is named for the hit reward.
pub open spec fn discus_after_contact(s: DiscusState, car: u64) -> (DiscusState, Option<u64>) {
    match s {
        DiscusState::Idle => (DiscusState::Held { owner: car, spin: 0 }, None),
        DiscusState::Thrown { owner } => if owner != car {
            (DiscusState::Idle, Some(owner))
        } else {
            (s, None)
        },
        DiscusState::Held { .. } => (s, None),
    }
}

/// A car touched the discus.  Returns the thrower to reward for a hit.
pub fn discus_contact(state: &mut DiscusState, car: u64) -> (hit_by: Option<u64>)
    ensures
        (*final(state), hit_by) == discus_after_contact(*old(state), car),
{
    match *state {
        DiscusState::Idle => {
            *state = DiscusState::Held { owner: car, spin: 0 };
            None
        },
        DiscusState::Thrown { owner } => {
            if owner != car {
                *state = DiscusState::Idle;
                Some(owner)
            } else {
                None
            }
        },
        DiscusState::Held { .. } => None,
    }
}

/// The thrower of a discus that hit another car earns 5000 points.
pub fn reward_discus_hit(agent: &mut CarAgent)
    ensures
        final(agent).accumulated_reward == clamp_i64(old(agent).accumulated_reward + DISCUS_HIT_REWARD),
        final(agent).agent_id == old(agent).agent_id,
{
    agent.add_reward(DISCUS_HIT_REWARD);
}

/// What to do with a held discus this step: keep it on top of its owner,
/// turn it by `turn` thousandths of a radian, and throw it forward at
/// `throw_speed` millimetres per second.
#[derive(Debug, Clone, Copy, PartialEq, Eq, Structural)]
pub struct DiscusMotion {
    pub follow_owner: bool,
    pub turn: Option<i64>,
    pub throw_speed: Option<i64>,
}

/// One step of a discus that is not being touched.  A held discus whose
/// owner is gone falls free.  Otherwise it rides 4 m above its owner; if
/// the owner's driver has at least nine outputs, output 7 above one half
/// spins it up by 10 rad/s per second (and turns it by 5 rad/s plus its
/// spin), and output 8 above one half throws it forward at 20 m/s plus
/// five times its spin.  Free and thrown discuses are left alone.
pub fn discus_held_step(state: &mut DiscusState, owner_present: bool, owner_action: &Vec<i64>, dt: u32) -> (m: DiscusMotion)
    ensures
        match *old(state) {
            DiscusState::Held { owner, spin } => if !owner_present {
                *final(state) == DiscusState::Idle && m == (DiscusMotion { follow_owner: false, turn: None, throw_speed: None })
            } else if owner_action@.len() < 9 {
                *final(state) == *old(state) && m == (DiscusMotion { follow_owner: true, turn: None, throw_speed: None })
            } else {
                let spins = owner_action@[7] > 500;
                let new_spin = if spins { clamp_i64(spin + 10 * dt) } else { spin };
                let throws = owner_action@[8] > 500;
                &&& m.follow_owner
                &&& m.turn == if spins { Some(clamp_i64(5 * dt + new_spin * dt / 1000)) } else { None }
                &&& m.throw_speed == if throws { Some(clamp_i64(20000 + 5 * new_spin)) } else { None }
                &&& *final(state) == if throws {
                    DiscusState::Thrown { owner }
                } else {
                    DiscusState::Held { owner, spin: new_spin }
                }
            },
            _ => *final(state) == *old(state) && m == (DiscusMotion { follow_owner: false, turn: None, throw_speed: None }),
        },
{
    match *state {
        DiscusState::Held { owner, spin } => {
            if !owner_present {
                *state = DiscusState::Idle;
                return DiscusMotion { follow_owner: false, turn: None, throw_speed: None };
            }
            if owner_action.len() < 9 {
                return DiscusMotion { follow_owner: true, turn: None, throw_speed: None };
            }
            let mut s = spin;
            let mut turn: Option<i64> = None;
            if owner_action[7] > 500 {
                s = clamp_wide(spin as i128 + 10 * (dt as i128));
                assert(-0x8000_0000_0000_0000_0000_0000 <= (s as i128) * (dt as i128) <= 0x8000_0000_0000_0000_0000_0000)
                    by (nonlinear_arith)
                    requires
                        -0x8000_0000_0000_0000 <= s <= 0x8000_0000_0000_0000,
                        0 <= dt <= 0x1_0000_0000,
                ;
                let p: i128 = (s as i128) * (dt as i128);
                turn = Some(clamp_wide(5 * (dt as i128) + floor_div_1000(p)));
            }
            let mut throw_speed: Option<i64> = None;
            if owner_action[8] > 500 {
                throw_speed = Some(clamp_wide(20000 + 5 * (s as i128)));
                *state = DiscusState::Thrown { owner };
            } else {
                *state = DiscusState::Held { owner, spin: s };
            }
            DiscusMotion { follow_owner: true, turn, throw_speed }
        },
        _ => DiscusMotion { follow_owner: false, turn: None, throw_speed: None },
    }
}

/// `p / 1000` rounded down, as the specification's division is.
fn floor_div_1000(p: i128) -> (q: i128)
    requires
        -0x8000_0000_0000_0000_0000_0000 <= p <= 0x8000_0000_0000_0000_0000_0000,
    ensures
        q == p / 1000,
{
    if p >= 0 {
        p / 1000
    } else {
        let a: i128 = -p;
        let q0: i128 = a / 1000;
        if q0 * 1000 == a {
            -q0
        } else {
            -q0 - 1
        }
    }
}

/// `n` places to lay discuses at the start: half a metre up, anywhere
/// within 250 m across and 550 m along the arena, at random.
pub fn random_discus_spots(n: usize) -> (spots: Vec<Pos>)
    ensures
        spots@.len() == n,
        forall|k: int|
            0 <= k < n ==> {
                let p = #[trigger] spots@[k];
                -250000 <= p.x < 250000 && p.y == 500 && -550000 <= p.z < 550000
            },
{
    let mut spots: Vec<Pos> = Vec::new();
    let mut k: usize = 0;
    while k < n
        invariant
            k <= n,
            spots@.len() == k,
            forall|j: int|
                0 <= j < k ==> {
                    let p = #[trigger] spots@[j];
                    -250000 <= p.x < 250000 && p.y == 500 && -550000 <= p.z < 550000
                },
        decreases n - k,
    {
        let x = random_range(-250000, 250000);
        let z = random_range(-550000, 550000);
        spots.push(Pos { x, y: 500, z });
        k = k + 1;
    }
    spots
}

} // verus!
