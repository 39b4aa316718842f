//! What each weapon does when it fires.
use vstd::prelude::*;
use crate::weapons::{WeaponType, WeaponState, base_cooldown_ms};
use crate::arith::{Pos, clamp_i64, sat_add, clamp_wide};
use crate::battle::damage::SplashDamageRequest;
use crate::weapons::projectile::{owner_or_part, is_owner_or_part};

verus! {

/// A request to fire one weapon at a point (millimetres, world frame).
#[derive(Debug, Clone, Copy, PartialEq, Eq, Structural)]
pub struct FireWeaponEvent {
    pub weapon_entity: u64,
    pub aim_target: Pos,
}

/// A projectile's launch figures: speed in millimetres per second, base
/// damage in thousandths of a hit point, blast radius in millimetres,
/// lifetime in milliseconds and gravity scale in thousandths.
#[derive(Debug, Clone, Copy, PartialEq, Eq, Structural)]
pub struct ProjectileSpec {
    pub speed: u32,
    pub damage: u64,
    pub radius: u32,
    pub lifetime: u32,
    pub gravity: u32,
}

/// The effect of one trigger pull.
#[derive(Debug, Clone, Copy, PartialEq, Eq, Structural)]
pub enum FirePlan {
    /// A projectile flying along the aim line.
    Straight { spec: ProjectileSpec },
    /// A projectile thrown in an arc: horizontal speed along the aim
    /// direction and upward speed, both in millimetres per second.
    Lobbed { horizontal: u32, upward: u32, spec: ProjectileSpec },
    /// A projectile aimed at the nearest enemy body instead of the aim point.
    AutoAimed { spec: ProjectileSpec },
    /// A projectile that steers itself onto the nearest enemy body.
    Homing { spec: ProjectileSpec },
    /// `rays` hitscan rays scattered within `spread_deg` of the aim line,
    /// each dealing `damage` within `radius` of its hit point.
    RayBurst { rays: u32, spread_deg: u32, range: u32, radius: u32, damage: u64 },
    /// Damage per second to every enemy body within `reach` and within
    /// `half_angle_deg` of the aim line.
    Cone { reach: u32, half_angle_deg: u32, radius: u32, damage_per_s: u64 },
    /// Disables the weapons of every other car within `radius` for `duration` ms.
    Pulse { radius: u32, duration: u32 },
    /// A continuous beam: damage per second at the first hit.
    Beam { range: u32, radius: u32, damage_per_s: u64 },
    /// A ray that pierces up to `max_hits` bodies; the k-th hit (from 0)
    /// takes `damage` less `falloff` thousandths per earlier hit.
    Pierce { range: u32, max_hits: u32, radius: u32, damage: u64, falloff: u64 },
    /// Drops a mine `drop_back` millimetres behind the muzzle.
    Mine { drop_back: u32 },
    /// Lightning jumping to up to `max_links` enemies, each within
    /// `link_radius` of the previous one.
    Chain { link_radius: u32, max_links: u32, radius: u32, damage: u64, falloff: u64 },
    /// A bomb that sticks to what it touches and then goes off.
    Sticky { speed: u32, fuse: u32, damage: u64, radius: u32 },
    /// Arms the contact drill: damage per second while touching an enemy body.
    Drill { damage_per_s: u64 },
}

/// What weapon kind `t` does when fired.
pub open spec fn fire_plan_of(t: WeaponType) -> FirePlan {
    match t {
        WeaponType::Rpg => FirePlan::Straight {
            spec: ProjectileSpec { speed: 28000, damage: 80000, radius: 3000, lifetime: 4000, gravity: 1000 },
        },
        WeaponType::Minigun => FirePlan::RayBurst { rays: 3, spread_deg: 4, range: 80000, radius: 100, damage: 8000 },
        WeaponType::SelfAimingTurret => FirePlan::AutoAimed {
            spec: ProjectileSpec { speed: 22000, damage: 20000, radius: 200, lifetime: 5000, gravity: 200 },
        },
        WeaponType::Flamethrower => FirePlan::Cone { reach: 6000, half_angle_deg: 25, radius: 500, damage_per_s: 30000 },
        WeaponType::EmpCannon => FirePlan::Pulse { radius: 8000, duration: 4000 },
        WeaponType::LaserBeam => FirePlan::Beam { range: 200000, radius: 50, damage_per_s: 40000 },
        WeaponType::GrenadeLauncher => FirePlan::Lobbed {
            horizontal: 20000,
            upward: 12000,
            spec: ProjectileSpec { speed: 0, damage: 65000, radius: 2500, lifetime: 3500, gravity: 1000 },
        },
        WeaponType::Shotgun => FirePlan::RayBurst { rays: 12, spread_deg: 18, range: 20000, radius: 150, damage: 10000 },
        WeaponType::SniperRailGun => FirePlan::Pierce { range: 500000, max_hits: 4, radius: 50, damage: 120000, falloff: 200 },
        WeaponType::HomingMissile => FirePlan::Homing {
            spec: ProjectileSpec { speed: 10000, damage: 60000, radius: 2000, lifetime: 8000, gravity: 0 },
        },
        WeaponType::MineLayer => FirePlan::Mine { drop_back: 1200 },
        WeaponType::TeslaCoil => FirePlan::Chain { link_radius: 5000, max_links: 4, radius: 500, damage: 35000, falloff: 200 },
        WeaponType::PlasmaCannon => FirePlan::Straight {
            spec: ProjectileSpec { speed: 8000, damage: 150000, radius: 4500, lifetime: 12000, gravity: 150 },
        },
        WeaponType::Mortar => FirePlan::Lobbed {
            horizontal: 12679,
            upward: 27189,
            spec: ProjectileSpec { speed: 30000, damage: 90000, radius: 3500, lifetime: 6000, gravity: 1000 },
        },
        WeaponType::StickyBomb => FirePlan::Sticky { speed: 18000, fuse: 5000, damage: 70000, radius: 2800 },
        WeaponType::Drill => FirePlan::Drill { damage_per_s: 60000 },
    }
}

/// Whether weapon kind `t` needs an enemy body to aim at before it can fire.
pub open spec fn needs_target(t: WeaponType) -> bool {
    t == WeaponType::SelfAimingTurret || t == WeaponType::HomingMissile
}

/// Whether firing weapon kind `t` starts its cooldown (continuous and
/// passive weapons never cool down).
pub open spec fn cools_down(t: WeaponType) -> bool {
    !(t == WeaponType::Flamethrower || t == WeaponType::LaserBeam || t == WeaponType::Drill)
}

/// What weapon kind `t` does when fired.
pub fn fire_plan(t: WeaponType) -> (p: FirePlan)
    ensures
        p == fire_plan_of(t),
{
    match t {
        WeaponType::Rpg => FirePlan::Straight {
            spec: ProjectileSpec { speed: 28000, damage: 80000, radius: 3000, lifetime: 4000, gravity: 1000 },
        },
        WeaponType::Minigun => FirePlan::RayBurst { rays: 3, spread_deg: 4, range: 80000, radius: 100, damage: 8000 },
        WeaponType::SelfAimingTurret => FirePlan::AutoAimed {
            spec: ProjectileSpec { speed: 22000, damage: 20000, radius: 200, lifetime: 5000, gravity: 200 },
        },
        WeaponType::Flamethrower => FirePlan::Cone { reach: 6000, half_angle_deg: 25, radius: 500, damage_per_s: 30000 },
        WeaponType::EmpCannon => FirePlan::Pulse { radius: 8000, duration: 4000 },
        WeaponType::LaserBeam => FirePlan::Beam { range: 200000, radius: 50, damage_per_s: 40000 },
        WeaponType::GrenadeLauncher => FirePlan::Lobbed {
            horizontal: 20000,
            upward: 12000,
            spec: ProjectileSpec { speed: 0, damage: 65000, radius: 2500, lifetime: 3500, gravity: 1000 },
        },
        WeaponType::Shotgun => FirePlan::RayBurst { rays: 12, spread_deg: 18, range: 20000, radius: 150, damage: 10000 },
        WeaponType::SniperRailGun => FirePlan::Pierce { range: 500000, max_hits: 4, radius: 50, damage: 120000, falloff: 200 },
        WeaponType::HomingMissile => FirePlan::Homing {
            spec: ProjectileSpec { speed: 10000, damage: 60000, radius: 2000, lifetime: 8000, gravity: 0 },
        },
        WeaponType::MineLayer => FirePlan::Mine { drop_back: 1200 },
        WeaponType::TeslaCoil => FirePlan::Chain { link_radius: 5000, max_links: 4, radius: 500, damage: 35000, falloff: 200 },
        WeaponType::PlasmaCannon => FirePlan::Straight {
            spec: ProjectileSpec { speed: 8000, damage: 150000, radius: 4500, lifetime: 12000, gravity: 150 },
        },
        WeaponType::Mortar => FirePlan::Lobbed {
            horizontal: 12679,
            upward: 27189,
            spec: ProjectileSpec { speed: 30000, damage: 90000, radius: 3500, lifetime: 6000, gravity: 1000 },
        },
        WeaponType::StickyBomb => FirePlan::Sticky { speed: 18000, fuse: 5000, damage: 70000, radius: 2800 },
        WeaponType::Drill => FirePlan::Drill { damage_per_s: 60000 },
    }
}

/// What a trigger pull on weapon `ws` does, with `has_target` telling
/// whether an enemy body is there to aim at: nothing while it cools down or
/// when it needs a target and has none; otherwise it fires its plan and
/// starts its cooldown (if its kind cools down).
pub open spec fn trigger_pulled(ws: WeaponState, has_target: bool) -> (Option<FirePlan>, WeaponState) {
    if ws.cooldown != 0 || (needs_target(ws.weapon_type) && !has_target) {
        (None, ws)
    } else {
        (
            Some(fire_plan_of(ws.weapon_type)),
            WeaponState {
                cooldown: if cools_down(ws.weapon_type) {
                    base_cooldown_ms(ws.weapon_type)
                } else {
                    0
                },
                ..ws
            },
        )
    }
}

/// A trigger pull on a weapon: nothing happens while it cools down, or when
/// it needs an enemy to aim at and `has_target` is false; otherwise it fires
/// its plan and, unless continuous or passive, starts its cooldown.
pub fn pull_trigger(ws: &mut WeaponState, has_target: bool) -> (p: Option<FirePlan>)
    ensures
        (p, *final(ws)) == trigger_pulled(*old(ws), has_target),
        old(ws).cooldown != 0 || (needs_target(old(ws).weapon_type) && !has_target) ==> p is None
            && *final(ws) == *old(ws),
        old(ws).cooldown == 0 && !(needs_target(old(ws).weapon_type) && !has_target) ==> p == Some(
            fire_plan_of(old(ws).weapon_type),
        ) && *final(ws) == (WeaponState {
            cooldown: if cools_down(old(ws).weapon_type) {
                base_cooldown_ms(old(ws).weapon_type)
            } else {
                0
            },
            ..*old(ws)
        }),
{
    if !ws.is_ready() {
        return None;
    }
    let t = ws.weapon_type;
    if (t == WeaponType::SelfAimingTurret || t == WeaponType::HomingMissile) && !has_target {
        return None;
    }
    if !(t == WeaponType::Flamethrower || t == WeaponType::LaserBeam || t == WeaponType::Drill) {
        ws.reset_cooldown();
    }
    Some(fire_plan(t))
}

/// Every weapon kind but the flamethrower, the laser beam and the drill
/// starts a cooldown when it fires, and that cooldown is a positive time;
/// those three never cool down.
pub proof fn lemma_which_weapons_cool_down(t: WeaponType)
    ensures
        (t == WeaponType::Flamethrower || t == WeaponType::LaserBeam || t == WeaponType::Drill) ==> !cools_down(t),
        !(t == WeaponType::Flamethrower || t == WeaponType::LaserBeam || t == WeaponType::Drill) ==> cools_down(t)
            && base_cooldown_ms(t) > 0,
{
}

/// Two trigger pulls in a row on a ready weapon that has what it needs to
/// fire: the first fires its plan, and the second fires again only for
/// the flamethrower, the laser beam and the drill; any other weapon is then
/// cooling down for its base time and the second pull does nothing.
pub proof fn lemma_trigger_twice(ws: WeaponState, has_target: bool)
    requires
        ws.cooldown == 0,
        !(needs_target(ws.weapon_type) && !has_target),
    ensures
        ({
            let t = ws.weapon_type;
            let first = trigger_pulled(ws, has_target);
            let second = trigger_pulled(first.1, has_target);
            &&& first.0 == Some(fire_plan_of(t))
            &&& (t == WeaponType::Flamethrower || t == WeaponType::LaserBeam || t == WeaponType::Drill) ==> second.0
                == Some(fire_plan_of(t))
            &&& !(t == WeaponType::Flamethrower || t == WeaponType::LaserBeam || t == WeaponType::Drill) ==> second.0
                is None && first.1.cooldown == base_cooldown_ms(t) && first.1.cooldown > 0
        }),
{
    lemma_which_weapons_cool_down(ws.weapon_type);
}

/// The damage the `k`-th hit (counting from 0) of a piercing or chaining
/// shot deals: the base damage less `falloff` thousandths of it per earlier
/// hit, and never below zero.
pub open spec fn falloff_damage(damage: u64, falloff: u64, k: int) -> int {
    if falloff * k >= 1000 {
        0
    } else {
        damage * (1000 - falloff * k) / 1000
    }
}

/// The damage of the `k`-th hit of a piercing or chaining shot.
pub fn hit_damage(damage: u64, falloff: u64, k: u32) -> (d: u64)
    requires
        damage <= 1_000_000_000_000_000,
        falloff <= 1000,
    ensures
        d == falloff_damage(damage, falloff, k as int),
{
    assert(falloff * (k as u64) <= 1000 * 0x1_0000_0000) by (nonlinear_arith)
        requires
            falloff <= 1000,
            k < 0x1_0000_0000,
    ;
    let fk: u64 = falloff * (k as u64);
    if fk >= 1000 {
        0
    } else {
        assert(damage * (1000 - fk) <= 1_000_000_000_000_000 * 1000) by (nonlinear_arith)
            requires
                damage <= 1_000_000_000_000_000,
                fk < 1000,
        ;
        damage * (1000 - fk) / 1000
    }
}

/// Damage a continuous weapon (damage per second `damage_per_s`) deals in a
/// frame of `dt_ms` milliseconds, rounded down.
pub fn frame_damage(damage_per_s: u64, dt_ms: u32) -> (d: u64)
    requires
        damage_per_s <= 1_000_000_000_000,
    ensures
        d == damage_per_s * dt_ms / 1000,
{
    assert((damage_per_s as int) * (dt_ms as int) <= 1_000_000_000_000 * 0xffff_ffff) by (nonlinear_arith)
        requires
            damage_per_s <= 1_000_000_000_000,
            dt_ms <= 0xffff_ffff,
    ;
    ((damage_per_s as u128) * (dt_ms as u128) / 1000) as u64
}

/// Damage of each of the first up-to-`max_hits` hits of a piercing shot
/// that struck `hits` bodies (nearest first).
pub fn pierce_damages(hits: usize, max_hits: u32, damage: u64, falloff: u64) -> (ds: Vec<u64>)
    requires
        damage <= 1_000_000_000_000_000,
        falloff <= 1000,
    ensures
        ds@.len() == if hits < max_hits { hits as int } else { max_hits as int },
        forall|k: int| 0 <= k < ds@.len() ==> ds@[k] == falloff_damage(damage, falloff, k),
{
    let n: usize = if hits < max_hits as usize { hits } else { max_hits as usize };
    let mut ds: Vec<u64> = Vec::new();
    let mut k: usize = 0;
    while k < n
        invariant
            k <= n,
            n <= max_hits,
            damage <= 1_000_000_000_000_000,
            falloff <= 1000,
            ds@.len() == k,
            forall|j: int| 0 <= j < k ==> ds@[j] == falloff_damage(damage, falloff, j),
        decreases n - k,
    {
        ds.push(hit_damage(damage, falloff, k as u32));
        k = k + 1;
    }
    ds
}

/// A sticky bomb: milliseconds of fuse left, blast damage (thousandths of
/// a hit point) and radius (millimetres), its car, and what it stuck to,
/// at which offset (millimetres) from that body.
#[derive(Debug, Clone, Copy, PartialEq, Eq, Structural)]
pub struct StickyBomb {
    pub fuse: i64,
    pub damage: u64,
    pub radius: u32,
    pub attacker: u64,
    pub stuck: bool,
    pub stuck_target: Option<u64>,
    pub stuck_offset: Pos,
}

/// `a - b` coordinate by coordinate, each held to the range of `i64`.
pub open spec fn offset_of(a: Pos, b: Pos) -> Pos {
    Pos { x: clamp_i64(a.x - b.x), y: clamp_i64(a.y - b.y), z: clamp_i64(a.z - b.z) }
}

/// `a + b` coordinate by coordinate, each held to the range of `i64`.
pub open spec fn shifted(a: Pos, b: Pos) -> Pos {
    Pos { x: clamp_i64(a.x + b.x), y: clamp_i64(a.y + b.y), z: clamp_i64(a.z + b.z) }
}

impl StickyBomb {
    /// The bomb at `bomb_pos` touched body `other` (found at `target_pos`,
    /// if it has a position).  A loose bomb sticks to any body but its own
    /// car and that car's parts: it records the body and its offset and
    /// its fuse restarts at three seconds.  Returns whether it stuck.
    pub fn stick(&mut self, other: u64, other_owner: Option<u64>, target_pos: Option<Pos>, bomb_pos: Pos) -> (stuck: bool)
        ensures
            stuck == (!old(self).stuck && !owner_or_part(other, old(self).attacker, other_owner) && target_pos is Some),
            stuck ==> *final(self) == (StickyBomb {
                stuck: true,
                fuse: 3000,
                stuck_target: Some(other),
                stuck_offset: offset_of(bomb_pos, target_pos->0),
                ..*old(self)
            }),
            !stuck ==> *final(self) == *old(self),
    {
        if self.stuck || is_owner_or_part(other, self.attacker, other_owner) {
            return false;
        }
        match target_pos {
            Some(tp) => {
                self.stuck = true;
                self.fuse = 3000;
                self.stuck_target = Some(other);
                self.stuck_offset = Pos {
                    x: clamp_wide(bomb_pos.x as i128 - tp.x as i128),
                    y: clamp_wide(bomb_pos.y as i128 - tp.y as i128),
                    z: clamp_wide(bomb_pos.z as i128 - tp.z as i128),
                };
                true
            },
            None => false,
        }
    }

    /// A bomb just thrown by car `attacker`: loose, with a five-second
    /// fuse, 70 damage within 2.8 m.
    pub fn launched(attacker: u64) -> (b: StickyBomb)
        ensures
            b == (StickyBomb {
                fuse: 5000,
                damage: 70000,
                radius: 2800,
                attacker,
                stuck: false,
                stuck_target: None,
                stuck_offset: Pos { x: 0, y: 0, z: 0 },
            }),
    {
        StickyBomb {
            fuse: 5000,
            damage: 70000,
            radius: 2800,
            attacker,
            stuck: false,
            stuck_target: None,
            stuck_offset: Pos { x: 0, y: 0, z: 0 },
        }
    }

    /// Lets `dt` milliseconds pass; returns whether the bomb goes off.
    pub fn fuse_tick(&mut self, dt: u32) -> (boom: bool)
        ensures
            *final(self) == (StickyBomb { fuse: clamp_i64(old(self).fuse - dt), ..*old(self) }),
            boom == (final(self).fuse <= 0),
    {
        self.fuse = sat_add(self.fuse, -(dt as i64));
        self.fuse <= 0
    }

    /// The blast of the bomb going off: at its offset from the body it
    /// stuck to, when that body's position `target_pos` is known, and at
    /// the world origin otherwise.
    pub fn detonation(&self, target_pos: Option<Pos>) -> (req: SplashDamageRequest)
        ensures
            req == (SplashDamageRequest {
                world_pos: if self.stuck_target is Some && target_pos is Some {
                    shifted(target_pos->0, self.stuck_offset)
                } else {
                    Pos { x: 0, y: 0, z: 0 }
                },
                radius: self.radius,
                base_damage: self.damage,
                attacker: self.attacker,
            }),
    {
        let p = match (self.stuck_target, target_pos) {
            (Some(_), Some(tp)) => Pos {
                x: sat_add(tp.x, self.stuck_offset.x),
                y: sat_add(tp.y, self.stuck_offset.y),
                z: sat_add(tp.z, self.stuck_offset.z),
            },
            _ => Pos { x: 0, y: 0, z: 0 },
        };
        SplashDamageRequest { world_pos: p, radius: self.radius, base_damage: self.damage, attacker: self.attacker }
    }
}

/// A contact drill: its car, damage per second (thousandths of a hit
/// point) and contact time gathered so far (milliseconds).
#[derive(Debug, Clone, Copy, PartialEq, Eq, Structural)]
pub struct DrillWeapon {
    pub attacker: u64,
    pub dps: u64,
    pub accum: i64,
}

impl DrillWeapon {
    /// The drill of car `attacker`, armed: 60 damage a second.
    pub fn armed(attacker: u64) -> (d: DrillWeapon)
        ensures
            d == (DrillWeapon { attacker, dps: 60000, accum: 0 }),
    {
        DrillWeapon { attacker, dps: 60000, accum: 0 }
    }
}

/// Largest drill damage per second, in thousandths of a hit point.
pub const MAX_DRILL_DPS: u64 = 1_000_000_000_000;

/// The drill at `drill_pos` touches body `other` for `dt` milliseconds:
/// against a car body other than its own car and that car's parts it sets
/// off a half-metre blast of its damage for that time.
pub fn drill_contact_system(
    drill: &DrillWeapon,
    other: u64,
    other_owner: Option<u64>,
    other_is_grid: bool,
    drill_pos: Option<Pos>,
    dt: u32,
) -> (req: Option<SplashDamageRequest>)
    requires
        drill.dps <= MAX_DRILL_DPS,
    ensures
        req == if !owner_or_part(other, drill.attacker, other_owner) && other_is_grid && drill_pos is Some {
            Some(
                SplashDamageRequest {
                    world_pos: drill_pos->0,
                    radius: 500,
                    base_damage: (drill.dps * dt / 1000) as u64,
                    attacker: drill.attacker,
                },
            )
        } else {
            None
        },
{
    if is_owner_or_part(other, drill.attacker, other_owner) || !other_is_grid {
        return None;
    }
    match drill_pos {
        Some(p) => {
            assert(drill.dps * dt <= 1_000_000_000_000 * 0x1_0000_0000) by (nonlinear_arith)
                requires
                    drill.dps <= 1_000_000_000_000,
                    dt <= 0xffff_ffff,
            ;
            let d: u64 = ((drill.dps as u128) * (dt as u128) / 1000) as u64;
            Some(SplashDamageRequest { world_pos: p, radius: 500, base_damage: d, attacker: drill.attacker })
        },
        None => None,
    }
}

/// One step of a sticky bomb: its fuse runs down by `dt` milliseconds and,
/// once out, it goes off (see [`StickyBomb::detonation`]; `target_pos` is
/// where the body it stuck to now is, if known).
pub fn sticky_bomb_system(bomb: &mut StickyBomb, dt: u32, target_pos: Option<Pos>) -> (blast: Option<SplashDamageRequest>)
    ensures
        *final(bomb) == (StickyBomb { fuse: clamp_i64(old(bomb).fuse - dt), ..*old(bomb) }),
        final(bomb).fuse <= 0 ==> blast == Some(
            SplashDamageRequest {
                world_pos: if old(bomb).stuck_target is Some && target_pos is Some {
                    shifted(target_pos->0, old(bomb).stuck_offset)
                } else {
                    Pos { x: 0, y: 0, z: 0 }
                },
                radius: old(bomb).radius,
                base_damage: old(bomb).damage,
                attacker: old(bomb).attacker,
            },
        ),
        final(bomb).fuse > 0 ==> blast is None,
{
    if bomb.fuse_tick(dt) {
        Some(bomb.detonation(target_pos))
    } else {
        None
    }
}

} // verus!
