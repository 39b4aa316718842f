//! Which texture file each block kind is drawn with, and which mesh file
//! each weapon kind.
use vstd::prelude::*;
use crate::voxel::block::BlockType;
use crate::weapons::WeaponType;

verus! {

/// The texture file of a block kind; six kinds have none and are drawn in
/// their plain colour.
pub open spec fn texture_file_of(t: BlockType) -> Option<Seq<char>> {
    match t {
        BlockType::Steel => Some("textures/blocks/steel.jpg"@),
        BlockType::Titanium => Some("textures/blocks/titanium.jpg"@),
        BlockType::Wood => Some("textures/blocks/wood.jpg"@),
        BlockType::Explosive => Some("textures/blocks/explosive.jpg"@),
        BlockType::Shield => Some("textures/blocks/shield.jpg"@),
        BlockType::Rubber => Some("textures/blocks/rubber.jpg"@),
        BlockType::CarbonFiber => Some("textures/blocks/carbon_fiber.jpg"@),
        BlockType::Glass => Some("textures/blocks/glass.jpg"@),
        BlockType::Lead => Some("textures/blocks/lead.jpg"@),
        BlockType::Ceramic => Some("textures/blocks/ceramic.jpg"@),
        BlockType::ReactiveArmor => Some("textures/blocks/reactive_armor.jpg"@),
        BlockType::NanoComposite => Some("textures/blocks/nano_composite.jpg"@),
        BlockType::Magnet => Some("textures/blocks/magnet.jpg"@),
        BlockType::Spikes => Some("textures/blocks/spikes.jpg"@),
        BlockType::Foam => Some("textures/blocks/foam.jpg"@),
        BlockType::Gold => Some("textures/blocks/gold.jpg"@),
        BlockType::Ice => Some("textures/blocks/ice.png"@),
        BlockType::Concrete => Some("textures/blocks/concrete.png"@),
        BlockType::Mesh => Some("textures/blocks/mesh.png"@),
        BlockType::PlasmaCore => Some("textures/blocks/plasma_core.png"@),
        BlockType::DepletedUranium => Some("textures/blocks/depleted_uranium.png"@),
        BlockType::Honeycomb => Some("textures/blocks/honeycomb.png"@),
        _ => None,
    }
}

/// The texture file of a block kind, if it has one.
pub fn block_texture_file(t: BlockType) -> (p: Option<&'static str>)
    ensures
        p is None <==> texture_file_of(t) is None,
        p matches Some(s) ==> texture_file_of(t) == Some(s@),
{
    match t {
        BlockType::Steel => Some("textures/blocks/steel.jpg"),
        BlockType::Titanium => Some("textures/blocks/titanium.jpg"),
        BlockType::Wood => Some("textures/blocks/wood.jpg"),
        BlockType::Explosive => Some("textures/blocks/explosive.jpg"),
        BlockType::Shield => Some("textures/blocks/shield.jpg"),
        BlockType::Rubber => Some("textures/blocks/rubber.jpg"),
        BlockType::CarbonFiber => Some("textures/blocks/carbon_fiber.jpg"),
        BlockType::Glass => Some("textures/blocks/glass.jpg"),
        BlockType::Lead => Some("textures/blocks/lead.jpg"),
        BlockType::Ceramic => Some("textures/blocks/ceramic.jpg"),
        BlockType::ReactiveArmor => Some("textures/blocks/reactive_armor.jpg"),
        BlockType::NanoComposite => Some("textures/blocks/nano_composite.jpg"),
        BlockType::Magnet => Some("textures/blocks/magnet.jpg"),
        BlockType::Spikes => Some("textures/blocks/spikes.jpg"),
        BlockType::Foam => Some("textures/blocks/foam.jpg"),
        BlockType::Gold => Some("textures/blocks/gold.jpg"),
        BlockType::Ice => Some("textures/blocks/ice.png"),
        BlockType::Concrete => Some("textures/blocks/concrete.png"),
        BlockType::Mesh => Some("textures/blocks/mesh.png"),
        BlockType::PlasmaCore => Some("textures/blocks/plasma_core.png"),
        BlockType::DepletedUranium => Some("textures/blocks/depleted_uranium.png"),
        BlockType::Honeycomb => Some("textures/blocks/honeycomb.png"),
        _ => None,
    }
}

/// The mesh file of a weapon kind.
pub open spec fn mesh_file_of(t: WeaponType) -> Seq<char> {
    match t {
        WeaponType::Rpg => "meshes/weapons/rpg.obj"@,
        WeaponType::Minigun => "meshes/weapons/minigun.obj"@,
        WeaponType::SelfAimingTurret => "meshes/weapons/self_aiming_turret.obj"@,
        WeaponType::Flamethrower => "meshes/weapons/flamethrower.obj"@,
        WeaponType::EmpCannon => "meshes/weapons/emp_cannon.obj"@,
        WeaponType::LaserBeam => "meshes/weapons/laser_beam.obj"@,
        WeaponType::GrenadeLauncher => "meshes/weapons/grenade_launcher.obj"@,
        WeaponType::Shotgun => "meshes/weapons/shotgun.obj"@,
        WeaponType::SniperRailGun => "meshes/weapons/sniper_railgun.obj"@,
        WeaponType::HomingMissile => "meshes/weapons/homing_missile.obj"@,
        WeaponType::MineLayer => "meshes/weapons/mine_layer.obj"@,
        WeaponType::TeslaCoil => "meshes/weapons/tesla_coil.obj"@,
        WeaponType::PlasmaCannon => "meshes/weapons/plasma_cannon.obj"@,
        WeaponType::Mortar => "meshes/weapons/mortar.obj"@,
        WeaponType::StickyBomb => "meshes/weapons/sticky_bomb.obj"@,
        WeaponType::Drill => "meshes/weapons/drill.obj"@,
    }
}

/// The mesh file of a weapon kind, computed.
pub fn weapon_mesh_file(t: WeaponType) -> (p: &'static str)
    ensures
        p@ == mesh_file_of(t),
{
    match t {
        WeaponType::Rpg => "meshes/weapons/rpg.obj",
        WeaponType::Minigun => "meshes/weapons/minigun.obj",
        WeaponType::SelfAimingTurret => "meshes/weapons/self_aiming_turret.obj",
        WeaponType::Flamethrower => "meshes/weapons/flamethrower.obj",
        WeaponType::EmpCannon => "meshes/weapons/emp_cannon.obj",
        WeaponType::LaserBeam => "meshes/weapons/laser_beam.obj",
        WeaponType::GrenadeLauncher => "meshes/weapons/grenade_launcher.obj",
        WeaponType::Shotgun => "meshes/weapons/shotgun.obj",
        WeaponType::SniperRailGun => "meshes/weapons/sniper_railgun.obj",
        WeaponType::HomingMissile => "meshes/weapons/homing_missile.obj",
        WeaponType::MineLayer => "meshes/weapons/mine_layer.obj",
        WeaponType::TeslaCoil => "meshes/weapons/tesla_coil.obj",
        WeaponType::PlasmaCannon => "meshes/weapons/plasma_cannon.obj",
        WeaponType::Mortar => "meshes/weapons/mortar.obj",
        WeaponType::StickyBomb => "meshes/weapons/sticky_bomb.obj",
        WeaponType::Drill => "meshes/weapons/drill.obj",
    }
}

} // verus!
