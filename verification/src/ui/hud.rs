//! What the heads-up display shows: simulation speed, the car list order,
//! following a car from the list, and each genome's fitness.
use vstd::prelude::*;
use crate::ai::neat::NeatManager;
use crate::arith::{is_ranking, rank_desc};

verus! {

/// The simulation speed chosen on the slider, in thousandths (1x to 10x).
#[derive(Debug, Clone, Copy, PartialEq, Eq, Structural)]
pub struct SimSpeedState {
    pub speed: u32,
}

impl Default for SimSpeedState {
    fn default() -> (s: SimSpeedState)
        ensures
            s.speed == 1000,
    {
        SimSpeedState { speed: 1000 }
    }
}

impl SimSpeedState {
    /// The slider moved to `speed`, held to 1x..10x.
    pub fn set(&mut self, speed: u32)
        ensures
            final(self).speed == if speed < 1000 { 1000 } else if speed > 10000 { 10000 } else { speed },
    {
        self.speed = if speed < 1000 { 1000 } else if speed > 10000 { 10000 } else { speed };
    }
}

/// Rows shown in the car list.
pub const MAX_BARS: usize = 15;

/// The negated agent numbers, so that ranking them highest first puts
/// the smallest agent number first.
pub open spec fn neg_ids(ids: Seq<usize>) -> Seq<i64> {
    Seq::new(ids.len(), |i: int| -(ids[i] as int) as i64)
}

/// The order the car list shows cars in: by agent number, smallest first,
/// cars with equal numbers in the order given.
pub fn hud_order(agent_ids: &Vec<usize>) -> (order: Vec<usize>)
    requires
        forall|i: int| 0 <= i < agent_ids@.len() ==> #[trigger] agent_ids@[i] <= i64::MAX,
    ensures
        is_ranking(neg_ids(agent_ids@), order@),
{
    let mut keys: Vec<i64> = Vec::new();
    let mut i: usize = 0;
    while i < agent_ids.len()
        invariant
            i <= agent_ids@.len(),
            forall|j: int| 0 <= j < agent_ids@.len() ==> #[trigger] agent_ids@[j] <= i64::MAX,
            keys@ =~= neg_ids(agent_ids@).take(i as int),
        decreases agent_ids@.len() - i,
    {
        keys.push(-(agent_ids[i] as i64));
        i = i + 1;
    }
    assert(keys@ =~= neg_ids(agent_ids@));
    rank_desc(&keys)
}

/// Clicking a car's row: the camera stops following that car if it was,
/// and follows it otherwise.
pub fn toggle_follow(follow: Option<u64>, car: u64) -> (f: Option<u64>)
    ensures
        f == if follow == Some(car) { None } else { Some(car) },
{
    match follow {
        Some(c) => if c == car { None } else { Some(car) },
        None => Some(car),
    }
}

/// The fitness shown for agent `agent_id`: its genome's, or 0 past the
/// population.
pub fn fitness_of(neat_mgr: &NeatManager, agent_id: usize) -> (f: i64)
    ensures
        f == if agent_id < neat_mgr.population@.len() { neat_mgr.population@[agent_id as int].fitness } else { 0 },
{
    if agent_id < neat_mgr.population.len() {
        neat_mgr.population[agent_id].fitness
    } else {
        0
    }
}

} // verus!
