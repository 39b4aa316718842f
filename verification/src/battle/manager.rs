//! The episode cycle (Reset, Build, Battle), car spawning and retirement,
//! and the arena's reward platforms.
use vstd::prelude::*;
use crate::arith::{Pos, in_world, clamp_i64, sat_add, clamp_wide};
use crate::ai::agent::{CarAgent, DriveMode};
use crate::ai::neat::{NeatManager, POPULATION_SIZE, OBS_DIM, ACTION_DIM, fitness_keys, from_top_half, bred_from};
use crate::ai::neat_core::{FeedforwardNet, compiled_from};
use crate::arith::is_ranking;
use crate::physics::car_controller::CarInput;
use crate::voxel::block::BLOCK_KIND_COUNT;
use crate::voxel::builder::{apply_genome, random_genome, random_weapons, genome_body, WeaponPlacement, GENOME_LEN};
use crate::voxel::grid::VoxelGrid;
use crate::weapons::MountedWeapons;
use crate::weapons::fire::FireWeaponEvent;

verus! {

/// The phase of an episode.
#[derive(Debug, Clone, Copy, PartialEq, Eq, Hash, Structural)]
pub enum EpisodeState {
    Reset,
    Build,
    Battle,
}

impl Default for EpisodeState {
    fn default() -> (s: EpisodeState)
        ensures
            s == EpisodeState::Reset,
    {
        EpisodeState::Reset
    }
}

/// Episode bookkeeping; `phase_timer` is the time left in the phase, in
/// milliseconds.
#[derive(Debug, Clone, Copy, PartialEq, Eq, Structural)]
pub struct EpisodeInfo {
    pub episode: u32,
    pub phase_timer: i64,
    pub agent_count: usize,
    pub next_spawn_idx: usize,
    pub build_frame_counter: usize,
}

impl Default for EpisodeInfo {
    fn default() -> (i: EpisodeInfo)
        ensures
            i == (EpisodeInfo {
                episode: 0,
                phase_timer: 0,
                agent_count: 0,
                next_spawn_idx: 0,
                build_frame_counter: 0,
            }),
    {
        EpisodeInfo { episode: 0, phase_timer: 0, agent_count: 0, next_spawn_idx: 0, build_frame_counter: 0 }
    }
}

/// Length of the build phase, in milliseconds.
pub const BUILD_TIME: i64 = 8000;
/// Longest a battle lasts, in milliseconds.
pub const BATTLE_TIMEOUT: i64 = 60000;
/// Pause between a battle and the next build, in milliseconds.
pub const RESET_PAUSE: i64 = 2000;
/// Most cars on the field at once.
pub const MAX_ACTIVE_CARS: usize = 20;
/// A car is spawned every this many build frames.
pub const SPAWN_EVERY_FRAMES: usize = 15;

/// The phase that follows `s`.
pub open spec fn successor(s: EpisodeState) -> EpisodeState {
    match s {
        EpisodeState::Reset => EpisodeState::Build,
        EpisodeState::Build => EpisodeState::Battle,
        EpisodeState::Battle => EpisodeState::Reset,
    }
}

/// The timer a phase starts with.
pub open spec fn phase_length(s: EpisodeState) -> i64 {
    match s {
        EpisodeState::Reset => RESET_PAUSE,
        EpisodeState::Build => BUILD_TIME,
        EpisodeState::Battle => BATTLE_TIMEOUT,
    }
}

/// Phase `s` ends with the timer at `timer`: the time is up, or, in battle,
/// every genome has had its car and at most one car is left.
pub open spec fn phase_over(s: EpisodeState, info: EpisodeInfo, timer: i64) -> bool {
    match s {
        EpisodeState::Battle => (info.next_spawn_idx >= POPULATION_SIZE && info.agent_count <= 1) || timer <= 0,
        _ => timer <= 0,
    }
}

/// The phase after a step of `dt` milliseconds in phase `s`.
pub open spec fn next_state(s: EpisodeState, info: EpisodeInfo, dt: u32) -> EpisodeState {
    if phase_over(s, info, clamp_i64(info.phase_timer - dt)) {
        successor(s)
    } else {
        s
    }
}

/// The bookkeeping after a step of `dt` milliseconds in phase `s`: the
/// timer runs down; a phase change restarts it, and entering a build counts
/// a new episode.
pub open spec fn next_info(s: EpisodeState, info: EpisodeInfo, dt: u32) -> EpisodeInfo {
    let t = clamp_i64(info.phase_timer - dt);
    if phase_over(s, info, t) {
        EpisodeInfo {
            phase_timer: phase_length(successor(s)),
            episode: if s == EpisodeState::Reset {
                (info.episode + 1) as u32
            } else {
                info.episode
            },
            ..info
        }
    } else {
        EpisodeInfo { phase_timer: t, ..info }
    }
}

/// One step of the episode cycle: runs the phase timer down by `dt`
/// milliseconds and returns the phase to be in next.
pub fn episode_state_machine(state: EpisodeState, info: &mut EpisodeInfo, dt: u32) -> (next: EpisodeState)
    requires
        state == EpisodeState::Reset && clamp_i64(old(info).phase_timer - dt) <= 0 ==> old(info).episode < u32::MAX,
    ensures
        next == next_state(state, *old(info), dt),
        *final(info) == next_info(state, *old(info), dt),
{
    info.phase_timer = sat_add(info.phase_timer, -(dt as i64));
    match state {
        EpisodeState::Reset => {
            if info.phase_timer <= 0 {
                info.phase_timer = BUILD_TIME;
                info.episode = info.episode + 1;
                EpisodeState::Build
            } else {
                EpisodeState::Reset
            }
        },
        EpisodeState::Build => {
            if info.phase_timer <= 0 {
                info.phase_timer = BATTLE_TIMEOUT;
                EpisodeState::Battle
            } else {
                EpisodeState::Build
            }
        },
        EpisodeState::Battle => {
            if (info.next_spawn_idx >= POPULATION_SIZE && info.agent_count <= 1) || info.phase_timer <= 0 {
                info.phase_timer = RESET_PAUSE;
                EpisodeState::Reset
            } else {
                EpisodeState::Battle
            }
        },
    }
}

/// Total of a run of step lengths.
pub open spec fn total_time(dts: Seq<u32>) -> int
    decreases dts.len(),
{
    if dts.len() == 0 {
        0
    } else {
        dts[0] + total_time(dts.drop_first())
    }
}

/// The battle goes on through every step of `dts`.
pub open spec fn battle_holds(info: EpisodeInfo, dts: Seq<u32>) -> bool
    decreases dts.len(),
{
    dts.len() == 0 || (next_state(EpisodeState::Battle, info, dts[0]) == EpisodeState::Battle && battle_holds(
        next_info(EpisodeState::Battle, info, dts[0]),
        dts.drop_first(),
    ))
}

/// A battle never outlasts its timer: once steps adding up to the time
/// left have passed, the battle has ended.
pub proof fn lemma_battle_times_out(info: EpisodeInfo, dts: Seq<u32>)
    requires
        dts.len() > 0,
        total_time(dts) >= info.phase_timer,
    ensures
        !battle_holds(info, dts),
    decreases dts.len(),
{
    let t = clamp_i64(info.phase_timer - dts[0]);
    if next_state(EpisodeState::Battle, info, dts[0]) == EpisodeState::Battle {
        assert(t > 0);
        assert(t == info.phase_timer - dts[0]);
        let rest = dts.drop_first();
        if rest.len() == 0 {
            assert(total_time(rest) == 0);
        } else {
            lemma_battle_times_out(next_info(EpisodeState::Battle, info, dts[0]), rest);
        }
    }
}

/// Entering the build phase: spawning starts over.
pub fn on_enter_build(info: &mut EpisodeInfo)
    ensures
        *final(info) == (EpisodeInfo { next_spawn_idx: 0, build_frame_counter: 0, ..*old(info) }),
{
    info.next_spawn_idx = 0;
    info.build_frame_counter = 0;
}

/// One frame of the build phase: counts the frame and, every fifteenth
/// frame while genomes and room are left, names the next agent to spawn.
/// Outside the build phase nothing happens.
pub fn sequential_build_system(state: EpisodeState, info: &mut EpisodeInfo) -> (spawn: Option<usize>)
    requires
        state == EpisodeState::Build ==> old(info).build_frame_counter < usize::MAX,
    ensures
        state != EpisodeState::Build ==> spawn is None && *final(info) == *old(info),
        state == EpisodeState::Build ==> {
            let c = (old(info).build_frame_counter + 1) as usize;
            if c % 15 == 0 && old(info).next_spawn_idx < POPULATION_SIZE && old(info).agent_count < 20 {
                &&& spawn == Some(old(info).next_spawn_idx)
                &&& *final(info) == (EpisodeInfo {
                    build_frame_counter: c,
                    next_spawn_idx: (old(info).next_spawn_idx + 1) as usize,
                    agent_count: (old(info).agent_count + 1) as usize,
                    ..*old(info)
                })
            } else {
                &&& spawn is None
                &&& *final(info) == (EpisodeInfo { build_frame_counter: c, ..*old(info) })
            }
        },
{
    if state != EpisodeState::Build {
        return None;
    }
    info.build_frame_counter = info.build_frame_counter + 1;
    if info.build_frame_counter % SPAWN_EVERY_FRAMES == 0 && info.next_spawn_idx < POPULATION_SIZE
        && info.agent_count < MAX_ACTIVE_CARS {
        let id = info.next_spawn_idx;
        info.next_spawn_idx = id + 1;
        info.agent_count = info.agent_count + 1;
        Some(id)
    } else {
        None
    }
}

/// The spawn point of agent `id`: a grid of five columns 35 m apart,
/// rows 35 m apart, 15 m up.
pub open spec fn spawn_point(id: int) -> Pos {
    Pos { x: ((id % 5) * 35000 - 70000) as i64, y: 15000, z: ((id / 5) * 35000 - 35000) as i64 }
}

/// The spawn point of agent `agent_id`, computed.
pub fn spawn_position(agent_id: usize) -> (p: Pos)
    requires
        agent_id <= 1_000_000,
    ensures
        p == spawn_point(agent_id as int),
        in_world(p),
{
    let col = (agent_id % 5) as i64;
    let row = (agent_id / 5) as i64;
    Pos { x: col * 35000 - 70000, y: 15000, z: row * 35000 - 35000 }
}

/// Everything a newly spawned car is made of.
#[derive(Debug)]
pub struct CarSpawn {
    pub position: Pos,
    pub grid: VoxelGrid,
    pub weapons: Vec<WeaponPlacement>,
    pub agent: CarAgent,
}

/// A new car for agent `agent_id`: a random genome built into a body, one
/// to three random weapons, and a driver running the agent's genome, at
/// the agent's spawn point.
pub fn spawn_single_car(neat_mgr: &NeatManager, agent_id: usize) -> (c: CarSpawn)
    requires
        neat_mgr.wf(),
        agent_id < POPULATION_SIZE,
    ensures
        c.position == spawn_point(agent_id as int),
        c.grid.wf(),
        exists|g: Seq<u8>|
            g.len() == GENOME_LEN && (forall|i: int| 0 <= i < GENOME_LEN ==> #[trigger] g[i] < BLOCK_KIND_COUNT)
                && c.grid@ == genome_body(g),
        1 <= c.weapons@.len() <= 3,
        forall|k: int|
            0 <= k < c.weapons@.len() ==> {
                let p = #[trigger] c.weapons@[k].grid_pos;
                2 <= p.x < 8 && 5 <= p.y < 10 && 2 <= p.z < 8
            },
        c.agent.agent_id == agent_id,
        c.agent.accumulated_reward == 0,
        c.agent.spawn_pos == c.position,
        c.agent.last_position == c.position,
        c.agent.anchor_pos == c.position,
        c.agent.drive_mode == DriveMode::Semi,
        !c.agent.weapons_disabled,
        c.agent.current_action@ == Seq::new(ACTION_DIM as nat, |i: int| 0i64),
        compiled_from(c.agent.net, neat_mgr.population@[agent_id as int]),
{
    let pos = spawn_position(agent_id);
    let genome = random_genome();
    let weapons = random_weapons(3);
    let mut grid = VoxelGrid::new();
    apply_genome(&mut grid, &genome, weapons.as_slice());
    proof {
        assert(neat_mgr.population@[agent_id as int].wf());
        assert(crate::ai::neat::node_ids_below(neat_mgr.population@[agent_id as int], neat_mgr.global_node_id));
    }
    let net = FeedforwardNet::new(&neat_mgr.population[agent_id], OBS_DIM, ACTION_DIM);
    let agent = CarAgent::new(agent_id, net, pos);
    CarSpawn { position: pos, grid, weapons, agent }
}

/// What the arena knows of one car when retiring cars.
#[derive(Debug, Clone, Copy, PartialEq, Eq, Structural)]
pub struct CarStatus {
    pub agent_id: usize,
    pub block_count: usize,
    pub reward: i64,
}

/// The fitness genome `id` ends up with, starting from `f`, after the
/// first `n` cars hand in their rewards (the last car of that agent wins);
/// with `dead_only`, only cars without blocks hand theirs in.
pub open spec fn fitness_after(f: i64, cars: Seq<CarStatus>, id: int, dead_only: bool, n: int) -> i64
    decreases n,
{
    if n <= 0 {
        f
    } else if cars[n - 1].agent_id == id && (!dead_only || cars[n - 1].block_count == 0) {
        cars[n - 1].reward
    } else {
        fitness_after(f, cars, id, dead_only, n - 1)
    }
}

/// The positions, among the first `n` cars, of those without blocks.
pub open spec fn dead_indices(cars: Seq<CarStatus>, n: int) -> Seq<usize>
    decreases n,
{
    if n <= 0 {
        Seq::empty()
    } else {
        dead_indices(cars, n - 1) + if cars[n - 1].block_count == 0 {
            seq![(n - 1) as usize]
        } else {
            Seq::empty()
        }
    }
}

/// How many new cars a battle takes in with `active` cars on the field and
/// agent `next` the next to spawn.
pub open spec fn spawn_room(active: int, next: int) -> int {
    if active < 20 && next < POPULATION_SIZE {
        if 20 - active < POPULATION_SIZE - next {
            20 - active
        } else {
            POPULATION_SIZE - next
        }
    } else {
        0
    }
}

/// What a lifecycle pass decided: which cars (positions in the list) to
/// remove, and which agents to spawn, in order.
#[derive(Debug, Clone, PartialEq, Eq)]
pub struct Lifecycle {
    pub despawn: Vec<usize>,
    pub spawn: Vec<usize>,
}

/// The genomes keep their genes, and their fitness follows `fit`.
pub open spec fn genes_kept_fitness(old_pop: Seq<crate::ai::neat_core::Genome>, new_pop: Seq<crate::ai::neat_core::Genome>, fit: spec_fn(int) -> i64) -> bool {
    forall|i: int|
        0 <= i < POPULATION_SIZE ==> (#[trigger] new_pop[i]).nodes@ == old_pop[i].nodes@
            && new_pop[i].connections@ == old_pop[i].connections@ && new_pop[i].fitness == fit(i)
}

/// The manager's bookkeeping other than its population is unchanged.
pub open spec fn same_books(a: NeatManager, b: NeatManager) -> bool {
    &&& a.generation == b.generation
    &&& a.global_innovation == b.global_innovation
    &&& a.global_node_id == b.global_node_id
    &&& a.innovation_history@ == b.innovation_history@
    &&& a.fitnesses@ == b.fitnesses@
}

/// Hands in the rewards of the first `n` cars as fitness (with
/// `dead_only`, of the cars without blocks only).
fn hand_in_rewards(neat_mgr: &mut NeatManager, cars: &Vec<CarStatus>, dead_only: bool)
    requires
        old(neat_mgr).wf(),
    ensures
        final(neat_mgr).wf(),
        same_books(*final(neat_mgr), *old(neat_mgr)),
        genes_kept_fitness(
            old(neat_mgr).population@,
            final(neat_mgr).population@,
            |i: int| fitness_after(old(neat_mgr).population@[i].fitness, cars@, i, dead_only, cars@.len() as int),
        ),
{
    let ghost pop0 = neat_mgr.population@;
    let mut k: usize = 0;
    while k < cars.len()
        invariant
            k <= cars@.len(),
            neat_mgr.wf(),
            same_books(*neat_mgr, *old(neat_mgr)),
            pop0 == old(neat_mgr).population@,
            forall|i: int|
                0 <= i < POPULATION_SIZE ==> (#[trigger] neat_mgr.population@[i]).nodes@ == pop0[i].nodes@
                    && neat_mgr.population@[i].connections@ == pop0[i].connections@ && neat_mgr.population@[i].fitness
                    == fitness_after(pop0[i].fitness, cars@, i, dead_only, k as int),
        decreases cars@.len() - k,
    {
        let c = cars[k];
        if !dead_only || c.block_count == 0 {
            neat_mgr.set_fitness(c.agent_id, c.reward);
        }
        k = k + 1;
    }
}

/// One lifecycle pass over the cars on the field.  Outside the reset
/// phase, each car without blocks hands its reward in as its genome's
/// fitness and is removed; in battle, new cars are then spawned, in agent
/// order, while fewer than twenty are active and genomes are left.  The
/// active count is recorded.
pub fn car_lifecycle_system(
    state: EpisodeState,
    info: &mut EpisodeInfo,
    neat_mgr: &mut NeatManager,
    cars: &Vec<CarStatus>,
) -> (out: Lifecycle)
    requires
        old(neat_mgr).wf(),
    ensures
        final(neat_mgr).wf(),
        same_books(*final(neat_mgr), *old(neat_mgr)),
        state == EpisodeState::Reset ==> {
            &&& *final(info) == *old(info)
            &&& out.despawn@.len() == 0
            &&& out.spawn@.len() == 0
            &&& final(neat_mgr).population@ == old(neat_mgr).population@
        },
        state != EpisodeState::Reset ==> {
            let active = cars@.len() - out.despawn@.len();
            let room = if state == EpisodeState::Battle {
                spawn_room(active, old(info).next_spawn_idx as int)
            } else {
                0
            };
            &&& out.despawn@ == dead_indices(cars@, cars@.len() as int)
            &&& genes_kept_fitness(
                old(neat_mgr).population@,
                final(neat_mgr).population@,
                |i: int| fitness_after(old(neat_mgr).population@[i].fitness, cars@, i, true, cars@.len() as int),
            )
            &&& out.spawn@ == Seq::new(room as nat, |j: int| (old(info).next_spawn_idx + j) as usize)
            &&& *final(info) == (EpisodeInfo {
                next_spawn_idx: (old(info).next_spawn_idx + room) as usize,
                agent_count: (active + room) as usize,
                ..*old(info)
            })
        },
{
    let mut despawn: Vec<usize> = Vec::new();
    let mut spawn: Vec<usize> = Vec::new();
    if state == EpisodeState::Reset {
        return Lifecycle { despawn, spawn };
    }
    hand_in_rewards(neat_mgr, cars, true);
    let mut active: usize = 0;
    let mut k: usize = 0;
    while k < cars.len()
        invariant
            k <= cars@.len(),
            despawn@ =~= dead_indices(cars@, k as int),
            active + despawn@.len() == k,
        decreases cars@.len() - k,
    {
        if cars[k].block_count == 0 {
            despawn.push(k);
        } else {
            active = active + 1;
        }
        k = k + 1;
    }
    let ghost active0 = active as int;
    let ghost next0 = info.next_spawn_idx as int;
    if state == EpisodeState::Battle {
        while active < MAX_ACTIVE_CARS && info.next_spawn_idx < POPULATION_SIZE
            invariant
                active - active0 == info.next_spawn_idx - next0,
                active0 <= active,
                next0 <= info.next_spawn_idx,
                spawn_room(active0, next0) == (active - active0) + spawn_room(
                    active as int,
                    info.next_spawn_idx as int,
                ),
                spawn@ =~= Seq::new((active - active0) as nat, |j: int| (next0 + j) as usize),
                info.episode == old(info).episode,
                info.phase_timer == old(info).phase_timer,
                info.build_frame_counter == old(info).build_frame_counter,
            decreases POPULATION_SIZE - info.next_spawn_idx,
        {
            spawn.push(info.next_spawn_idx);
            info.next_spawn_idx = info.next_spawn_idx + 1;
            active = active + 1;
        }
    }
    info.agent_count = active;
    Lifecycle { despawn, spawn }
}

/// Drives the player's car from the W, S, A and D keys: W and S push the
/// throttle forward and back, A and D steer left and right; the brake is
/// left as it was.
pub fn player_control_system(input: &mut CarInput, w: bool, s: bool, a: bool, d: bool)
    ensures
        final(input).throttle == (if w { 1000int } else { 0 }) - (if s { 1000int } else { 0 }),
        final(input).steer == (if a { 1000int } else { 0 }) - (if d { 1000int } else { 0 }),
        final(input).brake == old(input).brake,
{
    let mut throttle: i64 = 0;
    let mut steer: i64 = 0;
    if w {
        throttle = throttle + 1000;
    }
    if s {
        throttle = throttle - 1000;
    }
    if a {
        steer = steer + 1000;
    }
    if d {
        steer = steer - 1000;
    }
    input.throttle = throttle;
    input.steer = steer;
}

/// The fitness each genome holds once every car on the field (with any
/// block count) has handed in its reward.
pub open spec fn handed_in_keys(pop: Seq<crate::ai::neat_core::Genome>, cars: Seq<CarStatus>) -> Seq<i64> {
    Seq::new(pop.len(), |i: int| fitness_after(pop[i].fitness, cars, i, false, cars.len() as int))
}

/// Entering the reset phase: every car on the field hands its reward in as
/// its genome's fitness, then the population evolves one generation.
pub fn on_enter_reset(neat_mgr: &mut NeatManager, cars: &Vec<CarStatus>)
    requires
        old(neat_mgr).wf(),
        old(neat_mgr).generation < usize::MAX,
        old(neat_mgr).global_innovation + 3 * POPULATION_SIZE < usize::MAX,
        old(neat_mgr).global_node_id + POPULATION_SIZE < 0x7fff_ffff_ffff_ffff,
        old(neat_mgr).global_node_id + POPULATION_SIZE < usize::MAX,
    ensures
        final(neat_mgr).wf(),
        final(neat_mgr).generation == old(neat_mgr).generation + 1,
        exists|order: Seq<usize>|
            is_ranking(handed_in_keys(old(neat_mgr).population@, cars@), order) && {
                let p0 = old(neat_mgr).population@[order[0] as int];
                let p1 = old(neat_mgr).population@[order[1] as int];
                let keys = handed_in_keys(old(neat_mgr).population@, cars@);
                &&& final(neat_mgr).population@[0].nodes@ == p0.nodes@
                &&& final(neat_mgr).population@[0].connections@ == p0.connections@
                &&& final(neat_mgr).population@[0].fitness == keys[order[0] as int]
                &&& final(neat_mgr).population@[1].nodes@ == p1.nodes@
                &&& final(neat_mgr).population@[1].connections@ == p1.connections@
                &&& final(neat_mgr).population@[1].fitness == keys[order[1] as int]
                &&& forall|i: int|
                    2 <= i < POPULATION_SIZE ==> from_top_half(
                        #[trigger] final(neat_mgr).population@[i],
                        old(neat_mgr).population@,
                        order,
                        old(neat_mgr).global_node_id,
                    )
            },
        forall|i: int| 2 <= i < POPULATION_SIZE ==> (#[trigger] final(neat_mgr).population@[i]).fitness == 0,
{
    hand_in_rewards(neat_mgr, cars, false);
    let ghost mid = neat_mgr.population@;
    let ghost pop0 = old(neat_mgr).population@;
    assert(fitness_keys(mid) =~= handed_in_keys(pop0, cars@));
    neat_mgr.evolve();
    proof {
        assert forall|k: int| 0 <= k < POPULATION_SIZE implies #[trigger] mid[k].nodes@ == pop0[k].nodes@
            && mid[k].connections@ == pop0[k].connections@ by {}
    }
}

/// A loose block flying off a car; it disappears when its lifetime (in
/// milliseconds) runs out.
#[derive(Debug, Clone, Copy, PartialEq, Eq, Structural)]
pub struct FragmentMarker {
    pub lifetime: i64,
}

impl FragmentMarker {
    /// A fresh fragment, lasting three seconds.
    pub fn new() -> (f: FragmentMarker)
        ensures
            f.lifetime == 3000,
    {
        FragmentMarker { lifetime: 3000 }
    }

    /// A loose piece broken off a car body, lasting six seconds.
    pub fn debris() -> (f: FragmentMarker)
        ensures
            f.lifetime == 6000,
    {
        FragmentMarker { lifetime: 6000 }
    }

    /// Lets `dt` milliseconds pass; returns whether the fragment is gone.
    pub fn tick(&mut self, dt: u32) -> (gone: bool)
        ensures
            final(self).lifetime == clamp_i64(old(self).lifetime - dt),
            gone == (final(self).lifetime <= 0),
    {
        self.lifetime = sat_add(self.lifetime, -(dt as i64));
        self.lifetime <= 0
    }
}

/// The positions, among the first `n` fragments, of those whose time is up.
pub open spec fn gone_upto(fs: Seq<FragmentMarker>, n: int) -> Seq<usize>
    decreases n,
{
    if n <= 0 {
        Seq::empty()
    } else {
        gone_upto(fs, n - 1) + if fs[n - 1].lifetime <= 0 { seq![(n - 1) as usize] } else { Seq::empty() }
    }
}

/// The positions of finished fragments depend on the fragments up to them.
proof fn lemma_gone_prefix(a: Seq<FragmentMarker>, b: Seq<FragmentMarker>, n: int)
    requires
        n <= a.len(),
        n <= b.len(),
        forall|j: int| 0 <= j < n ==> a[j] == b[j],
    ensures
        gone_upto(a, n) == gone_upto(b, n),
    decreases n,
{
    if n > 0 {
        lemma_gone_prefix(a, b, n - 1);
    }
}

/// Every fragment's lifetime runs down by `dt` milliseconds; returns the
/// positions of those whose time is up, to be removed.
pub fn fragment_lifetime_system(frags: &mut Vec<FragmentMarker>, dt: u32) -> (gone: Vec<usize>)
    ensures
        final(frags)@ == Seq::new(
            old(frags)@.len(),
            |i: int| FragmentMarker { lifetime: clamp_i64(old(frags)@[i].lifetime - dt) },
        ),
        gone@ == gone_upto(final(frags)@, final(frags)@.len() as int),
{
    let mut gone: Vec<usize> = Vec::new();
    let mut i: usize = 0;
    while i < frags.len()
        invariant
            i <= frags@.len(),
            frags@.len() == old(frags)@.len(),
            forall|j: int|
                0 <= j < i ==> #[trigger] frags@[j] == (FragmentMarker { lifetime: clamp_i64(old(frags)@[j].lifetime - dt) }),
            forall|j: int| i <= j < frags@.len() ==> #[trigger] frags@[j] == old(frags)@[j],
            gone@ == gone_upto(frags@, i as int),
        decreases frags@.len() - i,
    {
        let mut f = frags[i];
        let g = f.tick(dt);
        let ghost before = frags@;
        frags.set(i, f);
        proof {
            lemma_gone_prefix(before, frags@, i as int);
        }
        if g {
            gone.push(i);
        }
        i = i + 1;
    }
    assert(frags@ =~= Seq::new(
        old(frags)@.len(),
        |i: int| FragmentMarker { lifetime: clamp_i64(old(frags)@[i].lifetime - dt) },
    ));
    gone
}

/// Marks a car body.
#[derive(Debug, Clone, Copy, PartialEq, Eq, Structural)]
pub struct CarMarker;

/// Marks the car the player drives.
#[derive(Debug, Clone, Copy, PartialEq, Eq, Structural)]
pub struct PlayerControlled;

/// Where the aim point of the opening shot lies: 1 km straight ahead.
pub open spec fn opening_aim() -> Pos {
    Pos { x: 0, y: 0, z: 1_000_000 }
}

/// The start of a battle for one car: a 50-point starting gift, and a shot
/// straight ahead from its first weapon, if it has one.
pub fn on_enter_battle(agent: &mut CarAgent, weapons: &MountedWeapons) -> (shot: Option<FireWeaponEvent>)
    ensures
        final(agent).accumulated_reward == clamp_i64(old(agent).accumulated_reward + 50000),
        final(agent).agent_id == old(agent).agent_id,
        final(agent).drive_mode == old(agent).drive_mode,
        weapons.weapon_entities@.len() == 0 ==> shot is None,
        weapons.weapon_entities@.len() > 0 ==> shot == Some(
            FireWeaponEvent { weapon_entity: weapons.weapon_entities@[0], aim_target: opening_aim() },
        ),
{
    agent.add_reward(50000);
    if weapons.weapon_entities.len() > 0 {
        Some(FireWeaponEvent { weapon_entity: weapons.weapon_entities[0], aim_target: Pos { x: 0, y: 0, z: 1_000_000 } })
    } else {
        None
    }
}

/// A reward platform: the leading car on it earns `fitness_boost`
/// thousandths a second, once its reward reaches `min_reward`.
#[derive(Debug, Clone, Copy, PartialEq, Eq, Structural)]
pub struct HexPlatform {
    pub min_reward: i64,
    pub fitness_boost: i64,
}

/// A platform and where it stands.
#[derive(Debug, Clone, Copy, PartialEq, Eq, Structural)]
pub struct PlatformSite {
    pub platform: HexPlatform,
    pub pos: Pos,
}

/// The arena's three reward platforms, each higher, harder to qualify
/// for and richer than the last: 40 m up at the centre (300 points, 20 a
/// second), 80 m up (600, 40) and 120 m up (1000, 100).
pub open spec fn arena_platform_sites() -> Seq<PlatformSite> {
    seq![
        PlatformSite { platform: HexPlatform { min_reward: 300000, fitness_boost: 20000 }, pos: Pos { x: 0, y: 40000, z: 0 } },
        PlatformSite { platform: HexPlatform { min_reward: 600000, fitness_boost: 40000 }, pos: Pos { x: 25000, y: 80000, z: -25000i64 } },
        PlatformSite { platform: HexPlatform { min_reward: 1000000, fitness_boost: 100000 }, pos: Pos { x: -25000i64, y: 120000, z: 25000 } },
    ]
}

/// The arena's reward platforms, computed.
pub fn arena_platforms() -> (v: Vec<PlatformSite>)
    ensures
        v@ == arena_platform_sites(),
{
    let v = vec![
        PlatformSite { platform: HexPlatform { min_reward: 300000, fitness_boost: 20000 }, pos: Pos { x: 0, y: 40000, z: 0 } },
        PlatformSite { platform: HexPlatform { min_reward: 600000, fitness_boost: 40000 }, pos: Pos { x: 25000, y: 80000, z: -25000 } },
        PlatformSite { platform: HexPlatform { min_reward: 1000000, fitness_boost: 100000 }, pos: Pos { x: -25000, y: 120000, z: 25000 } },
    ];
    assert(v@ =~= arena_platform_sites());
    v
}

/// A car at `a` is on the platform at `p`: within 15 m across and 10 m up
/// or down.
pub open spec fn on_platform(p: Pos, a: Pos) -> bool {
    (a.x - p.x) * (a.x - p.x) + (a.z - p.z) * (a.z - p.z) < 15000 * 15000 && -10000 < a.y - p.y < 10000
}

/// Among the first `n` cars, the first one on the platform at `p` with the
/// highest reward.
pub open spec fn platform_best_upto(p: Pos, pos: Seq<Pos>, rew: Seq<i64>, n: int) -> Option<int>
    decreases n,
{
    if n <= 0 {
        None
    } else {
        let b = platform_best_upto(p, pos, rew, n - 1);
        if on_platform(p, pos[n - 1]) && (b matches Some(j) ==> rew[n - 1] > rew[j]) {
            Some(n - 1)
        } else {
            b
        }
    }
}

/// What `boost` thousandths a second come to over `dt` milliseconds,
/// rounded toward zero.
pub open spec fn boost_over(boost: i64, dt: u32) -> int {
    if boost * dt >= 0 {
        boost * dt / 1000
    } else {
        -((-(boost * dt)) / 1000)
    }
}

/// The reward of a platform leader after `dt` milliseconds on it.
pub open spec fn boosted(pl: HexPlatform, reward: i64, dt: u32) -> i64 {
    if reward >= pl.min_reward {
        clamp_i64(reward + boost_over(pl.fitness_boost, dt))
    } else {
        reward
    }
}

/// The rewards after the first `k` platforms have paid their leaders.
pub open spec fn rewards_after_platforms(
    sites: Seq<PlatformSite>,
    pos: Seq<Pos>,
    rew: Seq<i64>,
    dt: u32,
    k: int,
) -> Seq<i64>
    decreases k,
{
    if k <= 0 {
        rew
    } else {
        let r = rewards_after_platforms(sites, pos, rew, dt, k - 1);
        match platform_best_upto(sites[k - 1].pos, pos, r, pos.len() as int) {
            Some(j) => r.update(j, boosted(sites[k - 1].platform, r[j], dt)),
            None => r,
        }
    }
}

/// The car on the platform at `plat` with the highest reward (the first
/// of equals), if any car is on it.
pub fn platform_winner(plat: Pos, positions: &Vec<Pos>, rewards: &Vec<i64>) -> (w: Option<usize>)
    requires
        in_world(plat),
        positions@.len() == rewards@.len(),
        forall|i: int| 0 <= i < positions@.len() ==> in_world(#[trigger] positions@[i]),
    ensures
        w matches Some(j) ==> platform_best_upto(plat, positions@, rewards@, positions@.len() as int) == Some(j as int)
            && j < positions@.len(),
        w is None ==> platform_best_upto(plat, positions@, rewards@, positions@.len() as int) is None,
{
    let mut best: Option<usize> = None;
    let mut k: usize = 0;
    while k < positions.len()
        invariant
            k <= positions@.len(),
            in_world(plat),
            positions@.len() == rewards@.len(),
            forall|i: int| 0 <= i < positions@.len() ==> in_world(#[trigger] positions@[i]),
            best matches Some(j) ==> platform_best_upto(plat, positions@, rewards@, k as int) == Some(j as int) && j < k,
            best is None ==> platform_best_upto(plat, positions@, rewards@, k as int) is None,
        decreases positions@.len() - k,
    {
        let a = positions[k];
        let dx: i128 = a.x as i128 - plat.x as i128;
        let dz: i128 = a.z as i128 - plat.z as i128;
        let dy: i128 = a.y as i128 - plat.y as i128;
        assert(0 <= dx * dx <= 0x4_0000_0000_0000_0000_0000 && 0 <= dz * dz <= 0x4_0000_0000_0000_0000_0000) by (nonlinear_arith)
            requires
                -0x200_0000_0000 <= dx <= 0x200_0000_0000,
                -0x200_0000_0000 <= dz <= 0x200_0000_0000,
        ;
        let on = dx * dx + dz * dz < 15000 * 15000 && -10000 < dy && dy < 10000;
        if on {
            let better = match best {
                Some(j) => rewards[k] > rewards[j],
                None => true,
            };
            if better {
                best = Some(k);
            }
        }
        k = k + 1;
    }
    best
}

/// The platform step: each platform in turn finds its leader, who earns
/// the platform's boost for `dt` milliseconds if its reward has reached
/// the platform's threshold.
pub fn platform_fitness_system(sites: &Vec<PlatformSite>, positions: &Vec<Pos>, rewards: &mut Vec<i64>, dt: u32)
    requires
        positions@.len() == old(rewards)@.len(),
        forall|i: int| 0 <= i < positions@.len() ==> in_world(#[trigger] positions@[i]),
        forall|i: int| 0 <= i < sites@.len() ==> in_world(#[trigger] sites@[i].pos),
    ensures
        final(rewards)@ == rewards_after_platforms(sites@, positions@, old(rewards)@, dt, sites@.len() as int),
{
    let mut k: usize = 0;
    while k < sites.len()
        invariant
            k <= sites@.len(),
            positions@.len() == rewards@.len(),
            forall|i: int| 0 <= i < positions@.len() ==> in_world(#[trigger] positions@[i]),
            forall|i: int| 0 <= i < sites@.len() ==> in_world(#[trigger] sites@[i].pos),
            rewards@ == rewards_after_platforms(sites@, positions@, old(rewards)@, dt, k as int),
        decreases sites@.len() - k,
    {
        let site = sites[k];
        match platform_winner(site.pos, positions, rewards) {
            Some(j) => {
                let r = rewards[j];
                if r >= site.platform.min_reward {
                    assert(-0x8000_0000_0000_0000_0000_0000 <= (site.platform.fitness_boost as i128) * (dt as i128)
                        <= 0x8000_0000_0000_0000_0000_0000) by (nonlinear_arith)
                        requires
                            -0x8000_0000_0000_0000 <= site.platform.fitness_boost <= 0x8000_0000_0000_0000,
                            0 <= dt <= 0x1_0000_0000,
                    ;
                    let p: i128 = (site.platform.fitness_boost as i128) * (dt as i128);
                    let add: i128 = if p >= 0 { p / 1000 } else { -((-p) / 1000) };
                    let nr = clamp_wide(r as i128 + add);
                    rewards.set(j, nr);
                }
            },
            None => {},
        }
        k = k + 1;
    }
}

} // verus!
