//! Driving decisions: nitro fuel, the manual / chassis drive split, and the
//! per-wheel pushes a manual driver asks for.
use vstd::prelude::*;
use crate::ai::agent::steer_of;
use crate::voxel::block::BlockType;
use crate::weapons::GridPos;

verus! {

/// Driver controls, in thousandths within [-1000, 1000].
#[derive(Debug, Clone, Copy, PartialEq, Eq, Structural)]
pub struct CarInput {
    pub throttle: i64,
    pub steer: i64,
    pub brake: i64,
}

impl Default for CarInput {
    fn default() -> (c: CarInput)
        ensures
            c == (CarInput { throttle: 0, steer: 0, brake: 0 }),
    {
        CarInput { throttle: 0, steer: 0, brake: 0 }
    }
}

/// Full tank, in thousandths of a fuel unit.
pub const NITRO_CAPACITY: i64 = 100_000;

/// Nitro fuel (thousandths of a unit, 100 units when full) and whether the
/// driver holds the nitro button.
#[derive(Debug, Clone, Copy, PartialEq, Eq, Structural)]
pub struct Nitro {
    pub fuel: i64,
    pub active: bool,
}

impl Default for Nitro {
    fn default() -> (n: Nitro)
        ensures
            n == (Nitro { fuel: NITRO_CAPACITY, active: false }),
    {
        Nitro { fuel: NITRO_CAPACITY, active: false }
    }
}

/// Nitro burns this step: the button is held and fuel is left.
pub open spec fn nitro_boosting(n: Nitro) -> bool {
    n.active && n.fuel > 0
}

impl Nitro {
    /// Lets `dt` milliseconds pass.  Burning nitro (held, with fuel left)
    /// uses 20 units a second and doubles the drive force; otherwise the
    /// tank refills by 10 units a second up to 100.  Returns the force
    /// multiplier in thousandths.
    pub fn tick(&mut self, dt: u32) -> (mult: u32)
        requires
            old(self).fuel <= NITRO_CAPACITY,
        ensures
            final(self).active == old(self).active,
            final(self).fuel <= NITRO_CAPACITY,
            nitro_boosting(*old(self)) ==> mult == 2000 && final(self).fuel == old(self).fuel - 20 * dt,
            !nitro_boosting(*old(self)) ==> mult == 1000 && final(self).fuel == if old(self).fuel + 10 * dt
                > NITRO_CAPACITY {
                NITRO_CAPACITY as int
            } else {
                old(self).fuel + 10 * dt
            },
    {
        if self.active && self.fuel > 0 {
            self.fuel = self.fuel - 20 * (dt as i64);
            2000
        } else {
            let f = self.fuel + 10 * (dt as i64);
            self.fuel = if f > NITRO_CAPACITY { NITRO_CAPACITY } else { f };
            1000
        }
    }
}

/// Measured motion of a car body: forward speed in millimetres per second,
/// and whether it stands on something.
#[derive(Debug, Clone, Copy, PartialEq, Eq, Structural)]
pub struct CarDriveState {
    pub speed: i64,
    pub is_grounded: bool,
}

impl Default for CarDriveState {
    fn default() -> (s: CarDriveState)
        ensures
            s == (CarDriveState { speed: 0, is_grounded: false }),
    {
        CarDriveState { speed: 0, is_grounded: false }
    }
}

/// The wheel bodies of one car, by scene id.
#[derive(Debug)]
pub struct CarWheels {
    pub wheels: Vec<u64>,
}

/// Marks a wheel body; front wheels sit in the front half of the grid.
#[derive(Debug, Clone, Copy, PartialEq, Eq, Structural)]
pub struct WheelMarker {
    pub is_front: bool,
}

/// The grid cell a wheel body was mounted at.
#[derive(Debug, Clone, Copy, PartialEq, Eq, Structural)]
pub struct AttachedWheel {
    pub grid_pos: GridPos,
}

/// The block kind a wheel body was made from.
#[derive(Debug, Clone, Copy, PartialEq, Eq, Structural)]
pub struct WheelTypeMarker(pub BlockType);

/// The car a part belongs to.
#[derive(Debug, Clone, Copy, PartialEq, Eq, Structural)]
pub struct Owner(pub u64);

/// The driver steers each wheel itself: output 5 above six tenths.
pub open spec fn manual_of(action: Seq<i64>) -> bool {
    action.len() >= 6 && action[5] > 600
}

/// Whether the network drives the wheels one by one this step.
pub fn is_manual(action: &Vec<i64>) -> (b: bool)
    ensures
        b == manual_of(action@),
{
    action.len() >= 6 && action[5] > 600
}

/// A push on one wheel: throttle in thousandths within [-1000, 1000] along
/// the car's forward axis, and lift in thousandths along its up axis.
#[derive(Debug, Clone, Copy, PartialEq, Eq, Structural)]
pub struct WheelPush {
    pub wheel: u64,
    pub throttle: i64,
    pub lift: i64,
}

/// How the car is driven this step.
#[derive(Debug, Clone, PartialEq, Eq)]
pub enum DrivePlan {
    /// Manual driving: one push per wheel that has an output.
    Wheels { pushes: Vec<WheelPush> },
    /// Assisted driving: the chassis is pushed along its forward axis with
    /// `throttle` and turned with `steer` (both thousandths).
    Chassis { throttle: i64, steer: i64 },
}

/// The magnitude of an output.
pub open spec fn abs_of(a: i64) -> i64 {
    if a < 0 {
        (-a) as i64
    } else {
        a
    }
}

/// The pushes for the first `n` wheels: wheel `i` reads output `7 + i`
/// (outputs past the action leave the wheel alone).
pub open spec fn wheel_pushes_upto(action: Seq<i64>, wheels: Seq<u64>, n: int) -> Seq<WheelPush>
    decreases n,
{
    if n <= 0 {
        Seq::empty()
    } else {
        wheel_pushes_upto(action, wheels, n - 1) + if 7 + n - 1 < action.len() {
            seq![WheelPush { wheel: wheels[n - 1], throttle: steer_of(action[7 + n - 1]), lift: abs_of(action[7 + n - 1]) }]
        } else {
            Seq::empty()
        }
    }
}

/// Outputs are kept within a billion thousandths.
pub open spec fn outputs_bounded(action: Seq<i64>) -> bool {
    forall|i: int| 0 <= i < action.len() ==> -1_000_000_000 <= #[trigger] action[i] <= 1_000_000_000
}

/// The drive plan for this step.  A manual driver pushes each wheel with
/// throttle twice its output less one (held to [-1, 1]) and lift the
/// output's magnitude.  Otherwise the chassis is driven by the inputs; a
/// throttle under a tenth counts as full throttle.
pub fn drive_plan(action: &Vec<i64>, input: &CarInput, wheels: &CarWheels) -> (p: DrivePlan)
    requires
        outputs_bounded(action@),
        -1_000_000_000 <= input.throttle <= 1_000_000_000,
    ensures
        manual_of(action@) ==> (p matches DrivePlan::Wheels { pushes } && pushes@ == wheel_pushes_upto(
            action@,
            wheels.wheels@,
            wheels.wheels@.len() as int,
        )),
        !manual_of(action@) ==> p == (DrivePlan::Chassis {
            throttle: if -100 < input.throttle < 100 {
                1000
            } else {
                input.throttle
            },
            steer: input.steer,
        }),
{
    if is_manual(action) {
        let mut pushes: Vec<WheelPush> = Vec::new();
        let mut i: usize = 0;
        while i < wheels.wheels.len()
            invariant
                i <= wheels.wheels@.len(),
                outputs_bounded(action@),
                pushes@ =~= wheel_pushes_upto(action@, wheels.wheels@, i as int),
            decreases wheels.wheels@.len() - i,
        {
            if action.len() > 7 && i < action.len() - 7 {
                let a = action[7 + i];
                let lift: i64 = if a < 0 { -a } else { a };
                pushes.push(WheelPush { wheel: wheels.wheels[i], throttle: crate::ai::agent::steer_from(a), lift });
            }
            i = i + 1;
        }
        DrivePlan::Wheels { pushes }
    } else {
        let t = if -100 < input.throttle && input.throttle < 100 { 1000 } else { input.throttle };
        DrivePlan::Chassis { throttle: t, steer: input.steer }
    }
}

/// One driving step of a car: nitro burns or refills over `dt`
/// milliseconds, giving the force multiplier (thousandths), and the drive
/// plan follows the driver's outputs and inputs.
pub fn car_drive_system(action: &Vec<i64>, input: &CarInput, wheels: &CarWheels, nitro: &mut Nitro, dt: u32) -> (r: (u32, DrivePlan))
    requires
        outputs_bounded(action@),
        -1_000_000_000 <= input.throttle <= 1_000_000_000,
        old(nitro).fuel <= NITRO_CAPACITY,
    ensures
        final(nitro).active == old(nitro).active,
        nitro_boosting(*old(nitro)) ==> r.0 == 2000 && final(nitro).fuel == old(nitro).fuel - 20 * dt,
        !nitro_boosting(*old(nitro)) ==> r.0 == 1000 && final(nitro).fuel == if old(nitro).fuel + 10 * dt > NITRO_CAPACITY {
            NITRO_CAPACITY as int
        } else {
            old(nitro).fuel + 10 * dt
        },
        manual_of(action@) ==> (r.1 matches DrivePlan::Wheels { pushes } && pushes@ == wheel_pushes_upto(
            action@,
            wheels.wheels@,
            wheels.wheels@.len() as int,
        )),
        !manual_of(action@) ==> r.1 == (DrivePlan::Chassis {
            throttle: if -100 < input.throttle < 100 {
                1000
            } else {
                input.throttle
            },
            steer: input.steer,
        }),
{
    let mult = nitro.tick(dt);
    let plan = drive_plan(action, input, wheels);
    (mult, plan)
}

} // verus!
