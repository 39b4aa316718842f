//! Projectiles: lifetime and what a hit sets off.
use vstd::prelude::*;
use crate::arith::{Pos, clamp_i64, sat_add};
use crate::battle::damage::SplashDamageRequest;

verus! {

/// A projectile in flight: milliseconds left, blast radius (millimetres),
/// base damage (thousandths of a hit point) and the car that fired it.
#[derive(Debug, Clone, Copy, PartialEq, Eq, Structural)]
pub struct Projectile {
    pub lifetime: i64,
    pub radius: u32,
    pub damage: u64,
    pub attacker: u64,
}

/// A projectile about to be launched: where from and how fast
/// (millimetres, millimetres per second), and its gravity scale in
/// thousandths.
#[derive(Debug, Clone, Copy, PartialEq, Eq, Structural)]
pub struct ProjectileBundle {
    pub projectile: Projectile,
    pub origin: Pos,
    pub velocity: Pos,
    pub gravity: u32,
}

impl ProjectileBundle {
    /// Puts a launch together.
    pub fn new(origin: Pos, vel: Pos, damage: u64, radius: u32, lifetime: i64, attacker: u64, gravity: u32) -> (b: ProjectileBundle)
        ensures
            b == (ProjectileBundle {
                projectile: Projectile { lifetime, radius, damage, attacker },
                origin,
                velocity: vel,
                gravity,
            }),
    {
        ProjectileBundle { projectile: Projectile { lifetime, radius, damage, attacker }, origin, velocity: vel, gravity }
    }
}

impl Projectile {
    /// Lets `dt` milliseconds pass; returns whether the projectile is spent.
    pub fn tick(&mut self, dt: u32) -> (spent: bool)
        ensures
            *final(self) == (Projectile { lifetime: clamp_i64(old(self).lifetime - dt), ..*old(self) }),
            spent == (final(self).lifetime <= 0),
    {
        self.lifetime = sat_add(self.lifetime, -(dt as i64));
        self.lifetime <= 0
    }
}

/// A projectile struck something.
#[derive(Debug, Clone, Copy, PartialEq, Eq, Structural)]
pub struct ProjectileHitEvent {
    pub projectile_entity: u64,
    pub world_pos: Pos,
    pub radius: u32,
    pub damage: u64,
    pub attacker: u64,
}

/// The body `hit` is the car `attacker` itself or one of its parts (a part
/// names its car as owner).
pub open spec fn owner_or_part(hit: u64, attacker: u64, hit_owner: Option<u64>) -> bool {
    hit == attacker || hit_owner == Some(attacker)
}

/// Whether `hit` is the car `attacker` or one of its parts, computed.
pub fn is_owner_or_part(hit: u64, attacker: u64, hit_owner: Option<u64>) -> (b: bool)
    ensures
        b == owner_or_part(hit, attacker, hit_owner),
{
    if hit == attacker {
        return true;
    }
    match hit_owner {
        Some(o) => o == attacker,
        None => false,
    }
}

/// Projectile `proj_entity`, at `pos`, touched body `other`: unless that
/// is its own car or part of it, the projectile bursts, setting off its
/// blast there.
pub fn projectile_collision_system(proj: &Projectile, proj_entity: u64, pos: Pos, other: u64, other_owner: Option<u64>) -> (r: Option<(SplashDamageRequest, ProjectileHitEvent)>)
    ensures
        owner_or_part(other, proj.attacker, other_owner) ==> r is None,
        !owner_or_part(other, proj.attacker, other_owner) ==> r == Some((
            SplashDamageRequest { world_pos: pos, radius: proj.radius, base_damage: proj.damage, attacker: proj.attacker },
            ProjectileHitEvent { projectile_entity: proj_entity, world_pos: pos, radius: proj.radius, damage: proj.damage, attacker: proj.attacker },
        )),
{
    if is_owner_or_part(other, proj.attacker, other_owner) {
        return None;
    }
    Some((
        SplashDamageRequest { world_pos: pos, radius: proj.radius, base_damage: proj.damage, attacker: proj.attacker },
        ProjectileHitEvent { projectile_entity: proj_entity, world_pos: pos, radius: proj.radius, damage: proj.damage, attacker: proj.attacker },
    ))
}

/// The positions, among the first `n` projectiles, of the spent ones.
pub open spec fn spent_upto(ps: Seq<Projectile>, n: int) -> Seq<usize>
    decreases n,
{
    if n <= 0 {
        Seq::empty()
    } else {
        spent_upto(ps, n - 1) + if ps[n - 1].lifetime <= 0 { seq![(n - 1) as usize] } else { Seq::empty() }
    }
}

/// The positions of spent projectiles depend on the projectiles up to them.
proof fn lemma_spent_prefix(a: Seq<Projectile>, b: Seq<Projectile>, n: int)
    requires
        n <= a.len(),
        n <= b.len(),
        forall|j: int| 0 <= j < n ==> a[j] == b[j],
    ensures
        spent_upto(a, n) == spent_upto(b, n),
    decreases n,
{
    if n > 0 {
        lemma_spent_prefix(a, b, n - 1);
    }
}

/// Every projectile's lifetime runs down by `dt` milliseconds; returns the
/// positions of the spent ones, to be removed.
pub fn projectile_lifetime_system(projs: &mut Vec<Projectile>, dt: u32) -> (spent: Vec<usize>)
    ensures
        final(projs)@ == Seq::new(
            old(projs)@.len(),
            |i: int| Projectile { lifetime: clamp_i64(old(projs)@[i].lifetime - dt), ..old(projs)@[i] },
        ),
        spent@ == spent_upto(final(projs)@, final(projs)@.len() as int),
{
    let mut spent: Vec<usize> = Vec::new();
    let mut i: usize = 0;
    while i < projs.len()
        invariant
            i <= projs@.len(),
            projs@.len() == old(projs)@.len(),
            forall|j: int|
                0 <= j < i ==> #[trigger] projs@[j] == (Projectile {
                    lifetime: clamp_i64(old(projs)@[j].lifetime - dt),
                    ..old(projs)@[j]
                }),
            forall|j: int| i <= j < projs@.len() ==> #[trigger] projs@[j] == old(projs)@[j],
            spent@ == spent_upto(projs@, i as int),
        decreases projs@.len() - i,
    {
        let mut p = projs[i];
        let gone = p.tick(dt);
        let ghost before = projs@;
        projs.set(i, p);
        proof {
            lemma_spent_prefix(before, projs@, i as int);
        }
        if gone {
            spent.push(i);
        }
        i = i + 1;
    }
    assert(projs@ =~= Seq::new(
        old(projs)@.len(),
        |i: int| Projectile { lifetime: clamp_i64(old(projs)@[i].lifetime - dt), ..old(projs)@[i] },
    ));
    spent
}

} // verus!
