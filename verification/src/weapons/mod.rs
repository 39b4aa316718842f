//! Weapon kinds, per-weapon cooldown state and timed weapon effects.
pub mod fire;
pub mod mine;
pub mod projectile;
pub mod targeting;

use vstd::prelude::*;

verus! {

/// The sixteen weapon kinds; `to_u8` gives each its number 0..=15.
#[derive(Debug, Clone, Copy, PartialEq, Eq, Hash, Structural)]
pub enum WeaponType {
    Rpg,
    Minigun,
    SelfAimingTurret,
    Flamethrower,
    EmpCannon,
    LaserBeam,
    GrenadeLauncher,
    Shotgun,
    SniperRailGun,
    HomingMissile,
    MineLayer,
    TeslaCoil,
    PlasmaCannon,
    Mortar,
    StickyBomb,
    Drill,
}

/// The number of a weapon kind.
pub open spec fn weapon_code(t: WeaponType) -> u8 {
    match t {
        WeaponType::Rpg => 0,
        WeaponType::Minigun => 1,
        WeaponType::SelfAimingTurret => 2,
        WeaponType::Flamethrower => 3,
        WeaponType::EmpCannon => 4,
        WeaponType::LaserBeam => 5,
        WeaponType::GrenadeLauncher => 6,
        WeaponType::Shotgun => 7,
        WeaponType::SniperRailGun => 8,
        WeaponType::HomingMissile => 9,
        WeaponType::MineLayer => 10,
        WeaponType::TeslaCoil => 11,
        WeaponType::PlasmaCannon => 12,
        WeaponType::Mortar => 13,
        WeaponType::StickyBomb => 14,
        WeaponType::Drill => 15,
    }
}

/// The weapon kind a number stands for; numbers past 14 mean the drill.
pub open spec fn weapon_of_code(v: u8) -> WeaponType {
    if v == 0 { WeaponType::Rpg }
    else if v == 1 { WeaponType::Minigun }
    else if v == 2 { WeaponType::SelfAimingTurret }
    else if v == 3 { WeaponType::Flamethrower }
    else if v == 4 { WeaponType::EmpCannon }
    else if v == 5 { WeaponType::LaserBeam }
    else if v == 6 { WeaponType::GrenadeLauncher }
    else if v == 7 { WeaponType::Shotgun }
    else if v == 8 { WeaponType::SniperRailGun }
    else if v == 9 { WeaponType::HomingMissile }
    else if v == 10 { WeaponType::MineLayer }
    else if v == 11 { WeaponType::TeslaCoil }
    else if v == 12 { WeaponType::PlasmaCannon }
    else if v == 13 { WeaponType::Mortar }
    else if v == 14 { WeaponType::StickyBomb }
    else { WeaponType::Drill }
}

/// Base time between shots, in milliseconds (0 for continuous or passive weapons).
pub open spec fn base_cooldown_ms(t: WeaponType) -> u32 {
    match t {
        WeaponType::Rpg => 1500,
        WeaponType::Minigun => 50,
        WeaponType::SelfAimingTurret => 600,
        WeaponType::Flamethrower => 0,
        WeaponType::EmpCannon => 5000,
        WeaponType::LaserBeam => 0,
        WeaponType::GrenadeLauncher => 1200,
        WeaponType::Shotgun => 900,
        WeaponType::SniperRailGun => 2500,
        WeaponType::HomingMissile => 2000,
        WeaponType::MineLayer => 2000,
        WeaponType::TeslaCoil => 800,
        WeaponType::PlasmaCannon => 2000,
        WeaponType::Mortar => 1800,
        WeaponType::StickyBomb => 1500,
        WeaponType::Drill => 0,
    }
}

impl WeaponType {
    /// Base time between shots, in milliseconds.
    pub fn base_cooldown(self) -> (ms: u32)
        ensures
            ms == base_cooldown_ms(self),
    {
        match self {
            WeaponType::Rpg => 1500,
            WeaponType::Minigun => 50,
            WeaponType::SelfAimingTurret => 600,
            WeaponType::Flamethrower => 0,
            WeaponType::EmpCannon => 5000,
            WeaponType::LaserBeam => 0,
            WeaponType::GrenadeLauncher => 1200,
            WeaponType::Shotgun => 900,
            WeaponType::SniperRailGun => 2500,
            WeaponType::HomingMissile => 2000,
            WeaponType::MineLayer => 2000,
            WeaponType::TeslaCoil => 800,
            WeaponType::PlasmaCannon => 2000,
            WeaponType::Mortar => 1800,
            WeaponType::StickyBomb => 1500,
            WeaponType::Drill => 0,
        }
    }

    /// The weapon kind for a number; numbers past 14 mean the drill.
    pub fn from_u8(v: u8) -> (t: WeaponType)
        ensures
            t == weapon_of_code(v),
    {
        match v {
            0 => WeaponType::Rpg,
            1 => WeaponType::Minigun,
            2 => WeaponType::SelfAimingTurret,
            3 => WeaponType::Flamethrower,
            4 => WeaponType::EmpCannon,
            5 => WeaponType::LaserBeam,
            6 => WeaponType::GrenadeLauncher,
            7 => WeaponType::Shotgun,
            8 => WeaponType::SniperRailGun,
            9 => WeaponType::HomingMissile,
            10 => WeaponType::MineLayer,
            11 => WeaponType::TeslaCoil,
            12 => WeaponType::PlasmaCannon,
            13 => WeaponType::Mortar,
            14 => WeaponType::StickyBomb,
            _ => WeaponType::Drill,
        }
    }

    /// The number of this weapon kind.
    pub fn to_u8(&self) -> (v: u8)
        ensures
            v == weapon_code(*self),
            v < 16,
    {
        match self {
            WeaponType::Rpg => 0,
            WeaponType::Minigun => 1,
            WeaponType::SelfAimingTurret => 2,
            WeaponType::Flamethrower => 3,
            WeaponType::EmpCannon => 4,
            WeaponType::LaserBeam => 5,
            WeaponType::GrenadeLauncher => 6,
            WeaponType::Shotgun => 7,
            WeaponType::SniperRailGun => 8,
            WeaponType::HomingMissile => 9,
            WeaponType::MineLayer => 10,
            WeaponType::TeslaCoil => 11,
            WeaponType::PlasmaCannon => 12,
            WeaponType::Mortar => 13,
            WeaponType::StickyBomb => 14,
            WeaponType::Drill => 15,
        }
    }
}

/// Reading a weapon kind's number back gives the same kind.
pub proof fn lemma_weapon_code_round_trip(t: WeaponType)
    ensures
        weapon_of_code(weapon_code(t)) == t,
{
}

/// The cooldown state of one mounted weapon.  `cooldown` is the time, in
/// milliseconds, until it may fire again.
#[derive(Debug, Clone, Copy, PartialEq, Eq, Structural)]
pub struct WeaponState {
    pub cooldown: u32,
    pub weapon_type: WeaponType,
    pub grid_pos: GridPos,
}

/// Grid coordinates of a cell.
#[derive(Debug, Clone, Copy, PartialEq, Eq, Structural)]
pub struct GridPos {
    pub x: usize,
    pub y: usize,
    pub z: usize,
}

/// Cooldown as a fraction of the base cooldown, in thousandths, clamped to
/// [0, 1000]; 0 for weapons without a cooldown.
pub open spec fn cooldown_frac_of(ws: WeaponState) -> int {
    let base = base_cooldown_ms(ws.weapon_type) as int;
    if base == 0 {
        0
    } else if (ws.cooldown as int) * 1000 / base > 1000 {
        1000
    } else {
        (ws.cooldown as int) * 1000 / base
    }
}

impl WeaponState {
    /// A weapon of kind `weapon_type` at `grid_pos`, ready to fire.
    pub fn new(weapon_type: WeaponType, grid_pos: GridPos) -> (ws: WeaponState)
        ensures
            ws == (WeaponState { cooldown: 0, weapon_type, grid_pos }),
    {
        WeaponState { cooldown: 0, weapon_type, grid_pos }
    }

    /// Whether the weapon may fire.
    pub fn is_ready(&self) -> (b: bool)
        ensures
            b == (self.cooldown == 0),
    {
        self.cooldown == 0
    }

    /// Starts the cooldown after a shot.
    pub fn reset_cooldown(&mut self)
        ensures
            *final(self) == (WeaponState { cooldown: base_cooldown_ms(old(self).weapon_type), ..*old(self) }),
    {
        self.cooldown = self.weapon_type.base_cooldown();
    }

    /// Cooldown as a fraction of the base cooldown, in thousandths:
    /// 0 = ready, 1000 = just fired.
    pub fn cooldown_frac(&self) -> (f: u32)
        ensures
            f == cooldown_frac_of(*self),
            f <= 1000,
    {
        let base = self.weapon_type.base_cooldown();
        if base == 0 {
            return 0;
        }
        let f = (self.cooldown as u64) * 1000 / (base as u64);
        if f > 1000 {
            1000
        } else {
            f as u32
        }
    }

    /// Lets `dt` milliseconds pass: the cooldown runs down, stopping at zero.
    pub fn tick(&mut self, dt: u32)
        ensures
            *final(self) == (WeaponState {
                cooldown: if old(self).cooldown > dt { (old(self).cooldown - dt) as u32 } else { 0 },
                ..*old(self)
            }),
    {
        if self.cooldown > dt {
            self.cooldown = self.cooldown - dt;
        } else {
            self.cooldown = 0;
        }
    }
}

/// After a shot, a weapon is ready again exactly when as much time as its
/// base cooldown has passed.
pub proof fn lemma_ready_after_base_cooldown(ws: WeaponState, dt: u32)
    ensures
        ({
            let fired = WeaponState { cooldown: base_cooldown_ms(ws.weapon_type), ..ws };
            let later = WeaponState {
                cooldown: if fired.cooldown > dt { (fired.cooldown - dt) as u32 } else { 0 },
                ..fired
            };
            (later.cooldown == 0) == (dt >= base_cooldown_ms(ws.weapon_type))
        }),
{
}

/// The scene ids of the weapons mounted on one car.
#[derive(Debug)]
pub struct MountedWeapons {
    pub weapon_entities: Vec<u64>,
}

/// Time left, in milliseconds, for which an EMP hit keeps a car's weapons off.
#[derive(Debug, Clone, Copy, PartialEq, Eq, Structural)]
pub struct EmpDisabledTimer(pub u32);

impl EmpDisabledTimer {
    /// Lets `dt` milliseconds pass; returns whether the effect has run out.
    pub fn tick(&mut self, dt: u32) -> (expired: bool)
        ensures
            final(self).0 == if old(self).0 > dt { (old(self).0 - dt) as u32 } else { 0 },
            expired == (final(self).0 == 0),
    {
        if self.0 > dt {
            self.0 = self.0 - dt;
        } else {
            self.0 = 0;
        }
        self.0 == 0
    }
}

/// The cooldown of one weapon after `dt` milliseconds.
pub open spec fn cooled(ws: WeaponState, dt: u32) -> WeaponState {
    WeaponState { cooldown: if ws.cooldown > dt { (ws.cooldown - dt) as u32 } else { 0 }, ..ws }
}

/// Every weapon's cooldown runs down by `dt` milliseconds.
pub fn weapon_cooldown_system(states: &mut Vec<WeaponState>, dt: u32)
    ensures
        final(states)@ == Seq::new(old(states)@.len(), |i: int| cooled(old(states)@[i], dt)),
{
    let mut i: usize = 0;
    while i < states.len()
        invariant
            i <= states@.len(),
            states@.len() == old(states)@.len(),
            forall|j: int| 0 <= j < i ==> #[trigger] states@[j] == cooled(old(states)@[j], dt),
            forall|j: int| i <= j < states@.len() ==> #[trigger] states@[j] == old(states)@[j],
        decreases states@.len() - i,
    {
        let mut ws = states[i];
        ws.tick(dt);
        states.set(i, ws);
        i = i + 1;
    }
    assert(states@ =~= Seq::new(old(states)@.len(), |i: int| cooled(old(states)@[i], dt)));
}

/// The EMP time left after `dt` milliseconds.
pub open spec fn emp_after(t: EmpDisabledTimer, dt: u32) -> EmpDisabledTimer {
    EmpDisabledTimer(if t.0 > dt { (t.0 - dt) as u32 } else { 0 })
}

/// The positions, among the first `n` timers, of those that have run out.
pub open spec fn expired_upto(ts: Seq<EmpDisabledTimer>, n: int) -> Seq<usize>
    decreases n,
{
    if n <= 0 {
        Seq::empty()
    } else {
        expired_upto(ts, n - 1) + if ts[n - 1].0 == 0 { seq![(n - 1) as usize] } else { Seq::empty() }
    }
}

/// Every EMP effect runs down by `dt` milliseconds; returns the positions
/// of those that ran out, whose cars get their weapons back.
pub fn emp_decay_system(timers: &mut Vec<EmpDisabledTimer>, dt: u32) -> (expired: Vec<usize>)
    ensures
        final(timers)@ == Seq::new(old(timers)@.len(), |i: int| emp_after(old(timers)@[i], dt)),
        expired@ == expired_upto(final(timers)@, final(timers)@.len() as int),
{
    let mut expired: Vec<usize> = Vec::new();
    let mut i: usize = 0;
    while i < timers.len()
        invariant
            i <= timers@.len(),
            timers@.len() == old(timers)@.len(),
            forall|j: int| 0 <= j < i ==> #[trigger] timers@[j] == emp_after(old(timers)@[j], dt),
            forall|j: int| i <= j < timers@.len() ==> #[trigger] timers@[j] == old(timers)@[j],
            expired@ == expired_upto(timers@, i as int),
        decreases timers@.len() - i,
    {
        let mut t = timers[i];
        let gone = t.tick(dt);
        let ghost before = timers@;
        timers.set(i, t);
        assert(expired_upto(timers@, i as int) == expired_upto(before, i as int)) by {
            lemma_expired_prefix(before, timers@, i as int);
        }
        if gone {
            expired.push(i);
        }
        i = i + 1;
    }
    assert(timers@ =~= Seq::new(old(timers)@.len(), |i: int| emp_after(old(timers)@[i], dt)));
    expired
}

/// The run-out positions among the first `n` timers depend on those
/// timers alone.
proof fn lemma_expired_prefix(a: Seq<EmpDisabledTimer>, b: Seq<EmpDisabledTimer>, n: int)
    requires
        n <= a.len(),
        n <= b.len(),
        forall|j: int| 0 <= j < n ==> a[j] == b[j],
    ensures
        expired_upto(a, n) == expired_upto(b, n),
    decreases n,
{
    if n > 0 {
        lemma_expired_prefix(a, b, n - 1);
    }
}

} // verus!
