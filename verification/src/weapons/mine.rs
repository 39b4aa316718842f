//! Proximity mines: the arming delay and when a mine goes off.
use vstd::prelude::*;
use crate::arith::{Pos, clamp_i64, sat_add};
use crate::battle::damage::SplashDamageRequest;
use crate::battle::manager::total_time;

verus! {

/// A mine laid by a car: armed or still arming (`arm_timer` milliseconds
/// to go), with its blast damage (thousandths of a hit point) and radius
/// (millimetres), and the car credited with its blast.
#[derive(Debug, Clone, Copy, PartialEq, Eq, Structural)]
pub struct MineState {
    pub armed: bool,
    pub arm_timer: i64,
    pub damage: u64,
    pub radius: u32,
    pub attacker: u64,
}

/// A freshly laid mine: unarmed for 1.5 s, 80 damage within 3 m.
pub open spec fn fresh_mine(attacker: u64) -> MineState {
    MineState { armed: false, arm_timer: 1500, damage: 80000, radius: 3000, attacker }
}

/// The mine after `dt` milliseconds: an unarmed mine's timer runs down,
/// and it arms once the timer is out.
pub open spec fn armed_after(m: MineState, dt: u32) -> MineState {
    if m.armed {
        m
    } else {
        let t = clamp_i64(m.arm_timer - dt);
        MineState { arm_timer: t, armed: t <= 0, ..m }
    }
}

/// The mine after a run of steps.
pub open spec fn mine_after_steps(m: MineState, dts: Seq<u32>) -> MineState
    decreases dts.len(),
{
    if dts.len() == 0 {
        m
    } else {
        mine_after_steps(armed_after(m, dts[0]), dts.drop_first())
    }
}

impl MineState {
    /// A freshly laid mine of car `attacker`.
    pub fn new(attacker: u64) -> (m: MineState)
        ensures
            m == fresh_mine(attacker),
    {
        MineState { armed: false, arm_timer: 1500, damage: 80000, radius: 3000, attacker }
    }

    /// Lets `dt` milliseconds pass.
    pub fn arm_tick(&mut self, dt: u32)
        ensures
            *final(self) == armed_after(*old(self), dt),
    {
        if !self.armed {
            self.arm_timer = sat_add(self.arm_timer, -(dt as i64));
            if self.arm_timer <= 0 {
                self.armed = true;
            }
        }
    }
}

/// A fresh mine is armed exactly once the steps since it was laid add up
/// to 1.5 s.
pub proof fn lemma_mine_arms_after_delay(attacker: u64, dts: Seq<u32>)
    ensures
        mine_after_steps(fresh_mine(attacker), dts).armed == (total_time(dts) >= 1500),
{
    lemma_mine_steps(fresh_mine(attacker), dts);
}

/// An arming mine with `t` milliseconds to go is armed after a run of
/// steps exactly when they add up to `t`; an armed one stays armed.
proof fn lemma_mine_steps(m: MineState, dts: Seq<u32>)
    requires
        m.armed || 0 < m.arm_timer <= 1500,
    ensures
        m.armed ==> mine_after_steps(m, dts).armed,
        !m.armed ==> mine_after_steps(m, dts).armed == (total_time(dts) >= m.arm_timer),
    decreases dts.len(),
{
    if dts.len() > 0 {
        let m1 = armed_after(m, dts[0]);
        lemma_mine_steps(m1, dts.drop_first());
        if !m.armed && !m1.armed {
            assert(m1.arm_timer == m.arm_timer - dts[0]);
        }
        if !m.armed && m1.armed {
            assert(total_time(dts) >= dts[0]) by {
                lemma_total_time_nonneg(dts.drop_first());
            }
        }
    }
}

/// A run of steps takes no negative time.
proof fn lemma_total_time_nonneg(dts: Seq<u32>)
    ensures
        total_time(dts) >= 0,
    decreases dts.len(),
{
    if dts.len() > 0 {
        lemma_total_time_nonneg(dts.drop_first());
    }
}

/// A mine at `mine_pos` touched body `other`: an armed mine goes off when
/// the body is a car other than the one that laid it.
pub fn mine_trigger_system(mine: &MineState, mine_pos: Pos, other: u64, other_is_grid: bool) -> (req: Option<SplashDamageRequest>)
    ensures
        req == if mine.armed && other_is_grid && other != mine.attacker {
            Some(SplashDamageRequest { world_pos: mine_pos, radius: mine.radius, base_damage: mine.damage, attacker: mine.attacker })
        } else {
            None
        },
{
    if mine.armed && other_is_grid && other != mine.attacker {
        Some(SplashDamageRequest { world_pos: mine_pos, radius: mine.radius, base_damage: mine.damage, attacker: mine.attacker })
    } else {
        None
    }
}

/// Every mine's arming delay runs down by `dt` milliseconds.
pub fn mine_arm_system(mines: &mut Vec<MineState>, dt: u32)
    ensures
        final(mines)@ == Seq::new(old(mines)@.len(), |i: int| armed_after(old(mines)@[i], dt)),
{
    let mut i: usize = 0;
    while i < mines.len()
        invariant
            i <= mines@.len(),
            mines@.len() == old(mines)@.len(),
            forall|j: int| 0 <= j < i ==> #[trigger] mines@[j] == armed_after(old(mines)@[j], dt),
            forall|j: int| i <= j < mines@.len() ==> #[trigger] mines@[j] == old(mines)@[j],
        decreases mines@.len() - i,
    {
        let mut m = mines[i];
        m.arm_tick(dt);
        mines.set(i, m);
        i = i + 1;
    }
    assert(mines@ =~= Seq::new(old(mines)@.len(), |i: int| armed_after(old(mines)@[i], dt)));
}

} // verus!
