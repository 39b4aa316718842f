//! The block catalogue: every kind of voxel a car can be built from.
use vstd::prelude::*;

verus! {

/// A kind of voxel.  Its number (see `to_u8`) is its place in the catalogue.
#[derive(Debug, Clone, Copy, PartialEq, Eq, Hash, Structural)]
pub enum BlockType {
    Empty,
    Steel,
    Titanium,
    Wood,
    Explosive,
    Shield,
    Rubber,
    CarbonFiber,
    Glass,
    Lead,
    Ceramic,
    ReactiveArmor,
    NanoComposite,
    Magnet,
    Spikes,
    Foam,
    Gold,
    Ice,
    Concrete,
    Mesh,
    PlasmaCore,
    DepletedUranium,
    Honeycomb,
    WheelSpiked,
    WheelBig,
    WheelAero,
    WheelHeavy,
    WheelBouncy,
}

/// What a block does beyond soaking up damage.
#[derive(Debug, Clone, Copy, PartialEq, Eq, Hash, Structural)]
pub enum SpecialAbility {
    NoAbility,
    Flammable,
    ExplodeOnDeath,
    DamageReduction,
    ProjectileBounce,
    SelfRepair,
    DeflectMetal,
    ContactDamage,
    ReduceFallDamage,
    ReflectLaser,
    Slippery,
    PartialPenetration,
    AdjacencyDamage,
    ResistDeform,
    AbsorbFirstHit,
    Brittle,
}

/// The catalogue number of a block kind.
pub open spec fn block_code(t: BlockType) -> u8 {
    match t {
        BlockType::Empty => 0,
        BlockType::Steel => 1,
        BlockType::Titanium => 2,
        BlockType::Wood => 3,
        BlockType::Explosive => 4,
        BlockType::Shield => 5,
        BlockType::Rubber => 6,
        BlockType::CarbonFiber => 7,
        BlockType::Glass => 8,
        BlockType::Lead => 9,
        BlockType::Ceramic => 10,
        BlockType::ReactiveArmor => 11,
        BlockType::NanoComposite => 12,
        BlockType::Magnet => 13,
        BlockType::Spikes => 14,
        BlockType::Foam => 15,
        BlockType::Gold => 16,
        BlockType::Ice => 17,
        BlockType::Concrete => 18,
        BlockType::Mesh => 19,
        BlockType::PlasmaCore => 20,
        BlockType::DepletedUranium => 21,
        BlockType::Honeycomb => 22,
        BlockType::WheelSpiked => 23,
        BlockType::WheelBig => 24,
        BlockType::WheelAero => 25,
        BlockType::WheelHeavy => 26,
        BlockType::WheelBouncy => 27,
    }
}

/// The block kind a genome byte stands for: its catalogue number, or
/// `Empty` for any byte past the catalogue.
pub open spec fn block_of_code(v: u8) -> BlockType {
    if v == 1 { BlockType::Steel }
    else if v == 2 { BlockType::Titanium }
    else if v == 3 { BlockType::Wood }
    else if v == 4 { BlockType::Explosive }
    else if v == 5 { BlockType::Shield }
    else if v == 6 { BlockType::Rubber }
    else if v == 7 { BlockType::CarbonFiber }
    else if v == 8 { BlockType::Glass }
    else if v == 9 { BlockType::Lead }
    else if v == 10 { BlockType::Ceramic }
    else if v == 11 { BlockType::ReactiveArmor }
    else if v == 12 { BlockType::NanoComposite }
    else if v == 13 { BlockType::Magnet }
    else if v == 14 { BlockType::Spikes }
    else if v == 15 { BlockType::Foam }
    else if v == 16 { BlockType::Gold }
    else if v == 17 { BlockType::Ice }
    else if v == 18 { BlockType::Concrete }
    else if v == 19 { BlockType::Mesh }
    else if v == 20 { BlockType::PlasmaCore }
    else if v == 21 { BlockType::DepletedUranium }
    else if v == 22 { BlockType::Honeycomb }
    else if v == 23 { BlockType::WheelSpiked }
    else if v == 24 { BlockType::WheelBig }
    else if v == 25 { BlockType::WheelAero }
    else if v == 26 { BlockType::WheelHeavy }
    else if v == 27 { BlockType::WheelBouncy }
    else { BlockType::Empty }
}

/// Whether a block kind is one of the five wheels.
pub open spec fn is_wheel_kind(t: BlockType) -> bool {
    t == BlockType::WheelSpiked || t == BlockType::WheelBig || t == BlockType::WheelAero
        || t == BlockType::WheelHeavy || t == BlockType::WheelBouncy
}

/// Number of block kinds in the catalogue, `Empty` included.
pub const BLOCK_KIND_COUNT: u8 = 28;

impl BlockType {
    /// The block kind for a genome byte; bytes past the catalogue mean `Empty`.
    pub fn from_u8(v: u8) -> (t: BlockType)
        ensures
            t == block_of_code(v),
    {
        match v {
            1 => BlockType::Steel,
            2 => BlockType::Titanium,
            3 => BlockType::Wood,
            4 => BlockType::Explosive,
            5 => BlockType::Shield,
            6 => BlockType::Rubber,
            7 => BlockType::CarbonFiber,
            8 => BlockType::Glass,
            9 => BlockType::Lead,
            10 => BlockType::Ceramic,
            11 => BlockType::ReactiveArmor,
            12 => BlockType::NanoComposite,
            13 => BlockType::Magnet,
            14 => BlockType::Spikes,
            15 => BlockType::Foam,
            16 => BlockType::Gold,
            17 => BlockType::Ice,
            18 => BlockType::Concrete,
            19 => BlockType::Mesh,
            20 => BlockType::PlasmaCore,
            21 => BlockType::DepletedUranium,
            22 => BlockType::Honeycomb,
            23 => BlockType::WheelSpiked,
            24 => BlockType::WheelBig,
            25 => BlockType::WheelAero,
            26 => BlockType::WheelHeavy,
            27 => BlockType::WheelBouncy,
            _ => BlockType::Empty,
        }
    }

    /// The catalogue number of this block kind.
    pub fn to_u8(&self) -> (v: u8)
        ensures
            v == block_code(*self),
            v < BLOCK_KIND_COUNT,
    {
        match self {
            BlockType::Empty => 0,
            BlockType::Steel => 1,
            BlockType::Titanium => 2,
            BlockType::Wood => 3,
            BlockType::Explosive => 4,
            BlockType::Shield => 5,
            BlockType::Rubber => 6,
            BlockType::CarbonFiber => 7,
            BlockType::Glass => 8,
            BlockType::Lead => 9,
            BlockType::Ceramic => 10,
            BlockType::ReactiveArmor => 11,
            BlockType::NanoComposite => 12,
            BlockType::Magnet => 13,
            BlockType::Spikes => 14,
            BlockType::Foam => 15,
            BlockType::Gold => 16,
            BlockType::Ice => 17,
            BlockType::Concrete => 18,
            BlockType::Mesh => 19,
            BlockType::PlasmaCore => 20,
            BlockType::DepletedUranium => 21,
            BlockType::Honeycomb => 22,
            BlockType::WheelSpiked => 23,
            BlockType::WheelBig => 24,
            BlockType::WheelAero => 25,
            BlockType::WheelHeavy => 26,
            BlockType::WheelBouncy => 27,
        }
    }

    /// Whether this block is a wheel (mounted as a separate rolling body).
    pub fn is_wheel(&self) -> (b: bool)
        ensures
            b == is_wheel_kind(*self),
    {
        match self {
            BlockType::WheelSpiked | BlockType::WheelBig | BlockType::WheelAero
            | BlockType::WheelHeavy | BlockType::WheelBouncy => true,
            _ => false,
        }
    }

    /// Number of block kinds, `Empty` included.
    pub fn count() -> (n: u8)
        ensures
            n == BLOCK_KIND_COUNT,
    {
        BLOCK_KIND_COUNT
    }
}

/// A linear RGBA colour, each channel in thousandths.
#[derive(Debug, Clone, Copy, PartialEq, Eq, Structural)]
pub struct Rgba {
    pub r: u32,
    pub g: u32,
    pub b: u32,
    pub a: u32,
}

/// The fixed properties of a block kind.  Mass is in kilograms, health in
/// thousandths of a hit point, thresholds, armour and colour channels in
/// thousandths.
#[derive(Debug, Clone, Copy, PartialEq, Eq, Structural)]
pub struct BlockStats {
    pub block_type: BlockType,
    pub mass: u64,
    pub max_health: i64,
    /// Health fraction (thousandths) below which the block starts to deform.
    pub deform_threshold: u32,
    /// Armour factor (thousandths): effective damage = raw / (1 + armour).
    pub armor: u32,
    pub special: SpecialAbility,
    /// Linear RGBA colour, each channel in thousandths.
    pub color: Rgba,
}

/// The catalogue entry of a block kind.
pub open spec fn block_stats(t: BlockType) -> BlockStats {
    match t {
        BlockType::Empty =>
            BlockStats { block_type: BlockType::Empty, mass: 0, max_health: 0, deform_threshold: 0, armor: 0, special: SpecialAbility::NoAbility, color: Rgba { r: 0, g: 0, b: 0, a: 0 } },
        BlockType::Steel =>
            BlockStats { block_type: BlockType::Steel, mass: 5, max_health: 100000, deform_threshold: 500, armor: 200, special: SpecialAbility::NoAbility, color: Rgba { r: 550, g: 600, b: 650, a: 1000 } },
        BlockType::Titanium =>
            BlockStats { block_type: BlockType::Titanium, mass: 8, max_health: 200000, deform_threshold: 400, armor: 500, special: SpecialAbility::NoAbility, color: Rgba { r: 750, g: 800, b: 880, a: 1000 } },
        BlockType::Wood =>
            BlockStats { block_type: BlockType::Wood, mass: 2, max_health: 50000, deform_threshold: 600, armor: 0, special: SpecialAbility::Flammable, color: Rgba { r: 550, g: 350, b: 150, a: 1000 } },
        BlockType::Explosive =>
            BlockStats { block_type: BlockType::Explosive, mass: 3, max_health: 40000, deform_threshold: 700, armor: 0, special: SpecialAbility::ExplodeOnDeath, color: Rgba { r: 1000, g: 400, b: 0, a: 1000 } },
        BlockType::Shield =>
            BlockStats { block_type: BlockType::Shield, mass: 6, max_health: 150000, deform_threshold: 300, armor: 600, special: SpecialAbility::DamageReduction, color: Rgba { r: 200, g: 500, b: 900, a: 1000 } },
        BlockType::Rubber =>
            BlockStats { block_type: BlockType::Rubber, mass: 2, max_health: 60000, deform_threshold: 800, armor: 100, special: SpecialAbility::ProjectileBounce, color: Rgba { r: 150, g: 150, b: 150, a: 1000 } },
        BlockType::CarbonFiber =>
            BlockStats { block_type: BlockType::CarbonFiber, mass: 4, max_health: 80000, deform_threshold: 500, armor: 200, special: SpecialAbility::NoAbility, color: Rgba { r: 100, g: 100, b: 120, a: 1000 } },
        BlockType::Glass =>
            BlockStats { block_type: BlockType::Glass, mass: 1, max_health: 20000, deform_threshold: 900, armor: 0, special: SpecialAbility::NoAbility, color: Rgba { r: 700, g: 900, b: 1000, a: 500 } },
        BlockType::Lead =>
            BlockStats { block_type: BlockType::Lead, mass: 12, max_health: 120000, deform_threshold: 300, armor: 400, special: SpecialAbility::NoAbility, color: Rgba { r: 350, g: 350, b: 380, a: 1000 } },
        BlockType::Ceramic =>
            BlockStats { block_type: BlockType::Ceramic, mass: 3, max_health: 90000, deform_threshold: 100, armor: 300, special: SpecialAbility::Brittle, color: Rgba { r: 950, g: 920, b: 850, a: 1000 } },
        BlockType::ReactiveArmor =>
            BlockStats { block_type: BlockType::ReactiveArmor, mass: 7, max_health: 110000, deform_threshold: 500, armor: 700, special: SpecialAbility::AbsorbFirstHit, color: Rgba { r: 600, g: 500, b: 200, a: 1000 } },
        BlockType::NanoComposite =>
            BlockStats { block_type: BlockType::NanoComposite, mass: 5, max_health: 130000, deform_threshold: 400, armor: 300, special: SpecialAbility::SelfRepair, color: Rgba { r: 400, g: 800, b: 600, a: 1000 } },
        BlockType::Magnet =>
            BlockStats { block_type: BlockType::Magnet, mass: 4, max_health: 70000, deform_threshold: 500, armor: 100, special: SpecialAbility::DeflectMetal, color: Rgba { r: 700, g: 200, b: 200, a: 1000 } },
        BlockType::Spikes =>
            BlockStats { block_type: BlockType::Spikes, mass: 3, max_health: 60000, deform_threshold: 600, armor: 0, special: SpecialAbility::ContactDamage, color: Rgba { r: 500, g: 500, b: 550, a: 1000 } },
        BlockType::Foam =>
            BlockStats { block_type: BlockType::Foam, mass: 1, max_health: 30000, deform_threshold: 900, armor: 0, special: SpecialAbility::ReduceFallDamage, color: Rgba { r: 1000, g: 900, b: 500, a: 1000 } },
        BlockType::Gold =>
            BlockStats { block_type: BlockType::Gold, mass: 10, max_health: 100000, deform_threshold: 400, armor: 200, special: SpecialAbility::ReflectLaser, color: Rgba { r: 1000, g: 840, b: 0, a: 1000 } },
        BlockType::Ice =>
            BlockStats { block_type: BlockType::Ice, mass: 2, max_health: 45000, deform_threshold: 700, armor: 0, special: SpecialAbility::Slippery, color: Rgba { r: 800, g: 950, b: 1000, a: 1000 } },
        BlockType::Concrete =>
            BlockStats { block_type: BlockType::Concrete, mass: 9, max_health: 160000, deform_threshold: 300, armor: 400, special: SpecialAbility::NoAbility, color: Rgba { r: 600, g: 600, b: 600, a: 1000 } },
        BlockType::Mesh =>
            BlockStats { block_type: BlockType::Mesh, mass: 2, max_health: 55000, deform_threshold: 600, armor: 0, special: SpecialAbility::PartialPenetration, color: Rgba { r: 500, g: 500, b: 500, a: 1000 } },
        BlockType::PlasmaCore =>
            BlockStats { block_type: BlockType::PlasmaCore, mass: 6, max_health: 80000, deform_threshold: 500, armor: 100, special: SpecialAbility::AdjacencyDamage, color: Rgba { r: 300, g: 900, b: 1000, a: 1000 } },
        BlockType::DepletedUranium =>
            BlockStats { block_type: BlockType::DepletedUranium, mass: 15, max_health: 180000, deform_threshold: 200, armor: 800, special: SpecialAbility::NoAbility, color: Rgba { r: 250, g: 300, b: 200, a: 1000 } },
        BlockType::Honeycomb =>
            BlockStats { block_type: BlockType::Honeycomb, mass: 3, max_health: 95000, deform_threshold: 300, armor: 300, special: SpecialAbility::ResistDeform, color: Rgba { r: 1000, g: 750, b: 200, a: 1000 } },
        BlockType::WheelSpiked =>
            BlockStats { block_type: BlockType::WheelSpiked, mass: 12, max_health: 90000, deform_threshold: 900, armor: 100, special: SpecialAbility::ContactDamage, color: Rgba { r: 600, g: 100, b: 100, a: 1000 } },
        BlockType::WheelBig =>
            BlockStats { block_type: BlockType::WheelBig, mass: 25, max_health: 150000, deform_threshold: 900, armor: 200, special: SpecialAbility::NoAbility, color: Rgba { r: 200, g: 200, b: 200, a: 1000 } },
        BlockType::WheelAero =>
            BlockStats { block_type: BlockType::WheelAero, mass: 8, max_health: 60000, deform_threshold: 900, armor: 0, special: SpecialAbility::NoAbility, color: Rgba { r: 100, g: 500, b: 900, a: 1000 } },
        BlockType::WheelHeavy =>
            BlockStats { block_type: BlockType::WheelHeavy, mass: 40, max_health: 200000, deform_threshold: 900, armor: 500, special: SpecialAbility::NoAbility, color: Rgba { r: 300, g: 300, b: 350, a: 1000 } },
        BlockType::WheelBouncy =>
            BlockStats { block_type: BlockType::WheelBouncy, mass: 10, max_health: 80000, deform_threshold: 900, armor: 100, special: SpecialAbility::ProjectileBounce, color: Rgba { r: 200, g: 800, b: 200, a: 1000 } },
    }
}

/// Every colour channel of the catalogue lies within one whole.
pub proof fn lemma_block_colors_bounded(t: BlockType)
    ensures
        block_stats(t).color.r <= 1000,
        block_stats(t).color.g <= 1000,
        block_stats(t).color.b <= 1000,
        block_stats(t).color.a <= 1000,
{
}

/// The name shown for a block kind.
pub open spec fn block_name_of(t: BlockType) -> Seq<char> {
    match t {
        BlockType::Empty => "Empty"@,
        BlockType::Steel => "Steel"@,
        BlockType::Titanium => "Titanium"@,
        BlockType::Wood => "Wood"@,
        BlockType::Explosive => "Explosive"@,
        BlockType::Shield => "Shield"@,
        BlockType::Rubber => "Rubber"@,
        BlockType::CarbonFiber => "Carbon Fiber"@,
        BlockType::Glass => "Glass"@,
        BlockType::Lead => "Lead"@,
        BlockType::Ceramic => "Ceramic"@,
        BlockType::ReactiveArmor => "Reactive Armor"@,
        BlockType::NanoComposite => "Nano-Composite"@,
        BlockType::Magnet => "Magnet"@,
        BlockType::Spikes => "Spikes"@,
        BlockType::Foam => "Foam"@,
        BlockType::Gold => "Gold"@,
        BlockType::Ice => "Ice"@,
        BlockType::Concrete => "Concrete"@,
        BlockType::Mesh => "Mesh"@,
        BlockType::PlasmaCore => "Plasma Core"@,
        BlockType::DepletedUranium => "Depleted Uranium"@,
        BlockType::Honeycomb => "Honeycomb"@,
        BlockType::WheelSpiked => "Spiked Wheel"@,
        BlockType::WheelBig => "Big Wheel"@,
        BlockType::WheelAero => "Aero Wheel"@,
        BlockType::WheelHeavy => "Heavy Wheel"@,
        BlockType::WheelBouncy => "Bouncy Wheel"@,
    }
}

impl BlockStats {
    /// The catalogue entry of a block kind.
    pub fn get(t: BlockType) -> (s: BlockStats)
        ensures
            s == block_stats(t),
    {
        match t {
            BlockType::Empty =>
                BlockStats { block_type: BlockType::Empty, mass: 0, max_health: 0, deform_threshold: 0, armor: 0, special: SpecialAbility::NoAbility, color: Rgba { r: 0, g: 0, b: 0, a: 0 } },
            BlockType::Steel =>
                BlockStats { block_type: BlockType::Steel, mass: 5, max_health: 100000, deform_threshold: 500, armor: 200, special: SpecialAbility::NoAbility, color: Rgba { r: 550, g: 600, b: 650, a: 1000 } },
            BlockType::Titanium =>
                BlockStats { block_type: BlockType::Titanium, mass: 8, max_health: 200000, deform_threshold: 400, armor: 500, special: SpecialAbility::NoAbility, color: Rgba { r: 750, g: 800, b: 880, a: 1000 } },
            BlockType::Wood =>
                BlockStats { block_type: BlockType::Wood, mass: 2, max_health: 50000, deform_threshold: 600, armor: 0, special: SpecialAbility::Flammable, color: Rgba { r: 550, g: 350, b: 150, a: 1000 } },
            BlockType::Explosive =>
                BlockStats { block_type: BlockType::Explosive, mass: 3, max_health: 40000, deform_threshold: 700, armor: 0, special: SpecialAbility::ExplodeOnDeath, color: Rgba { r: 1000, g: 400, b: 0, a: 1000 } },
            BlockType::Shield =>
                BlockStats { block_type: BlockType::Shield, mass: 6, max_health: 150000, deform_threshold: 300, armor: 600, special: SpecialAbility::DamageReduction, color: Rgba { r: 200, g: 500, b: 900, a: 1000 } },
            BlockType::Rubber =>
                BlockStats { block_type: BlockType::Rubber, mass: 2, max_health: 60000, deform_threshold: 800, armor: 100, special: SpecialAbility::ProjectileBounce, color: Rgba { r: 150, g: 150, b: 150, a: 1000 } },
            BlockType::CarbonFiber =>
                BlockStats { block_type: BlockType::CarbonFiber, mass: 4, max_health: 80000, deform_threshold: 500, armor: 200, special: SpecialAbility::NoAbility, color: Rgba { r: 100, g: 100, b: 120, a: 1000 } },
            BlockType::Glass =>
                BlockStats { block_type: BlockType::Glass, mass: 1, max_health: 20000, deform_threshold: 900, armor: 0, special: SpecialAbility::NoAbility, color: Rgba { r: 700, g: 900, b: 1000, a: 500 } },
            BlockType::Lead =>
                BlockStats { block_type: BlockType::Lead, mass: 12, max_health: 120000, deform_threshold: 300, armor: 400, special: SpecialAbility::NoAbility, color: Rgba { r: 350, g: 350, b: 380, a: 1000 } },
            BlockType::Ceramic =>
                BlockStats { block_type: BlockType::Ceramic, mass: 3, max_health: 90000, deform_threshold: 100, armor: 300, special: SpecialAbility::Brittle, color: Rgba { r: 950, g: 920, b: 850, a: 1000 } },
            BlockType::ReactiveArmor =>
                BlockStats { block_type: BlockType::ReactiveArmor, mass: 7, max_health: 110000, deform_threshold: 500, armor: 700, special: SpecialAbility::AbsorbFirstHit, color: Rgba { r: 600, g: 500, b: 200, a: 1000 } },
            BlockType::NanoComposite =>
                BlockStats { block_type: BlockType::NanoComposite, mass: 5, max_health: 130000, deform_threshold: 400, armor: 300, special: SpecialAbility::SelfRepair, color: Rgba { r: 400, g: 800, b: 600, a: 1000 } },
            BlockType::Magnet =>
                BlockStats { block_type: BlockType::Magnet, mass: 4, max_health: 70000, deform_threshold: 500, armor: 100, special: SpecialAbility::DeflectMetal, color: Rgba { r: 700, g: 200, b: 200, a: 1000 } },
            BlockType::Spikes =>
                BlockStats { block_type: BlockType::Spikes, mass: 3, max_health: 60000, deform_threshold: 600, armor: 0, special: SpecialAbility::ContactDamage, color: Rgba { r: 500, g: 500, b: 550, a: 1000 } },
            BlockType::Foam =>
                BlockStats { block_type: BlockType::Foam, mass: 1, max_health: 30000, deform_threshold: 900, armor: 0, special: SpecialAbility::ReduceFallDamage, color: Rgba { r: 1000, g: 900, b: 500, a: 1000 } },
            BlockType::Gold =>
                BlockStats { block_type: BlockType::Gold, mass: 10, max_health: 100000, deform_threshold: 400, armor: 200, special: SpecialAbility::ReflectLaser, color: Rgba { r: 1000, g: 840, b: 0, a: 1000 } },
            BlockType::Ice =>
                BlockStats { block_type: BlockType::Ice, mass: 2, max_health: 45000, deform_threshold: 700, armor: 0, special: SpecialAbility::Slippery, color: Rgba { r: 800, g: 950, b: 1000, a: 1000 } },
            BlockType::Concrete =>
                BlockStats { block_type: BlockType::Concrete, mass: 9, max_health: 160000, deform_threshold: 300, armor: 400, special: SpecialAbility::NoAbility, color: Rgba { r: 600, g: 600, b: 600, a: 1000 } },
            BlockType::Mesh =>
                BlockStats { block_type: BlockType::Mesh, mass: 2, max_health: 55000, deform_threshold: 600, armor: 0, special: SpecialAbility::PartialPenetration, color: Rgba { r: 500, g: 500, b: 500, a: 1000 } },
            BlockType::PlasmaCore =>
                BlockStats { block_type: BlockType::PlasmaCore, mass: 6, max_health: 80000, deform_threshold: 500, armor: 100, special: SpecialAbility::AdjacencyDamage, color: Rgba { r: 300, g: 900, b: 1000, a: 1000 } },
            BlockType::DepletedUranium =>
                BlockStats { block_type: BlockType::DepletedUranium, mass: 15, max_health: 180000, deform_threshold: 200, armor: 800, special: SpecialAbility::NoAbility, color: Rgba { r: 250, g: 300, b: 200, a: 1000 } },
            BlockType::Honeycomb =>
                BlockStats { block_type: BlockType::Honeycomb, mass: 3, max_health: 95000, deform_threshold: 300, armor: 300, special: SpecialAbility::ResistDeform, color: Rgba { r: 1000, g: 750, b: 200, a: 1000 } },
            BlockType::WheelSpiked =>
                BlockStats { block_type: BlockType::WheelSpiked, mass: 12, max_health: 90000, deform_threshold: 900, armor: 100, special: SpecialAbility::ContactDamage, color: Rgba { r: 600, g: 100, b: 100, a: 1000 } },
            BlockType::WheelBig =>
                BlockStats { block_type: BlockType::WheelBig, mass: 25, max_health: 150000, deform_threshold: 900, armor: 200, special: SpecialAbility::NoAbility, color: Rgba { r: 200, g: 200, b: 200, a: 1000 } },
            BlockType::WheelAero =>
                BlockStats { block_type: BlockType::WheelAero, mass: 8, max_health: 60000, deform_threshold: 900, armor: 0, special: SpecialAbility::NoAbility, color: Rgba { r: 100, g: 500, b: 900, a: 1000 } },
            BlockType::WheelHeavy =>
                BlockStats { block_type: BlockType::WheelHeavy, mass: 40, max_health: 200000, deform_threshold: 900, armor: 500, special: SpecialAbility::NoAbility, color: Rgba { r: 300, g: 300, b: 350, a: 1000 } },
            BlockType::WheelBouncy =>
                BlockStats { block_type: BlockType::WheelBouncy, mass: 10, max_health: 80000, deform_threshold: 900, armor: 100, special: SpecialAbility::ProjectileBounce, color: Rgba { r: 200, g: 800, b: 200, a: 1000 } },
        }
    }

    /// The name shown for a block kind.
    pub fn display_name(t: BlockType) -> (n: &'static str)
        ensures
            n@ == block_name_of(t),
    {
        match t {
            BlockType::Empty => "Empty",
            BlockType::Steel => "Steel",
            BlockType::Titanium => "Titanium",
            BlockType::Wood => "Wood",
            BlockType::Explosive => "Explosive",
            BlockType::Shield => "Shield",
            BlockType::Rubber => "Rubber",
            BlockType::CarbonFiber => "Carbon Fiber",
            BlockType::Glass => "Glass",
            BlockType::Lead => "Lead",
            BlockType::Ceramic => "Ceramic",
            BlockType::ReactiveArmor => "Reactive Armor",
            BlockType::NanoComposite => "Nano-Composite",
            BlockType::Magnet => "Magnet",
            BlockType::Spikes => "Spikes",
            BlockType::Foam => "Foam",
            BlockType::Gold => "Gold",
            BlockType::Ice => "Ice",
            BlockType::Concrete => "Concrete",
            BlockType::Mesh => "Mesh",
            BlockType::PlasmaCore => "Plasma Core",
            BlockType::DepletedUranium => "Depleted Uranium",
            BlockType::Honeycomb => "Honeycomb",
            BlockType::WheelSpiked => "Spiked Wheel",
            BlockType::WheelBig => "Big Wheel",
            BlockType::WheelAero => "Aero Wheel",
            BlockType::WheelHeavy => "Heavy Wheel",
            BlockType::WheelBouncy => "Bouncy Wheel",
        }
    }
}

/// Reading a block kind's number back gives the same kind.
pub proof fn lemma_block_code_round_trip(t: BlockType)
    ensures
        block_of_code(block_code(t)) == t,
{
}

/// A genome byte inside the catalogue names the block kind with that number.
pub proof fn lemma_block_code_of_byte(v: u8)
    requires
        v < BLOCK_KIND_COUNT,
    ensures
        block_code(block_of_code(v)) == v,
{
}

} // verus!
