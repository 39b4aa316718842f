use neat_cars::arith::Pos;
use neat_cars::battle::damage::DamageEvent;
use neat_cars::voxel::block::{BlockStats, BlockType, SpecialAbility};
use neat_cars::voxel::builder::{
    apply_genome, block_material, genome_byte, genome_index, random_genome, random_weapons, spawn_block_visuals, GENOME_LEN,
};
use neat_cars::voxel::connectivity::flood_fill;
use neat_cars::voxel::deformer::trigger_deform_from_damage;
use neat_cars::voxel::grid::{bounce_of, VoxelCell, VoxelGrid, CELL_COUNT};

fn steel_at(points: &[(usize, usize, usize)]) -> VoxelGrid {
    let mut g = VoxelGrid::new();
    for &(x, y, z) in points {
        g.place(x, y, z, BlockType::Steel);
    }
    g
}

#[test]
fn block_numbers_round_trip() {
    for v in 0u8..28 {
        assert_eq!(BlockType::from_u8(v).to_u8(), v);
    }
    assert_eq!(BlockType::from_u8(1), BlockType::Steel);
    assert_eq!(BlockType::from_u8(24), BlockType::WheelBig);
}

#[test]
fn block_numbers_past_catalogue_are_empty() {
    assert_eq!(BlockType::from_u8(28), BlockType::Empty);
    assert_eq!(BlockType::from_u8(255), BlockType::Empty);
    assert_eq!(BlockType::count(), 28);
}

#[test]
fn catalogue_entries() {
    let s = BlockStats::get(BlockType::Steel);
    assert_eq!(s.mass, 5);
    assert_eq!(s.max_health, 100000);
    assert_eq!(s.armor, 200);
    assert_eq!(BlockStats::get(BlockType::Explosive).special, SpecialAbility::ExplodeOnDeath);
    assert_eq!(BlockStats::display_name(BlockType::PlasmaCore), "Plasma Core");
    assert!(BlockType::WheelHeavy.is_wheel());
    assert!(!BlockType::Steel.is_wheel());
}

#[test]
fn fresh_cell_is_whole() {
    let c = VoxelCell::new(BlockType::Titanium);
    assert_eq!(c.current_health, 200000);
    assert_eq!(c.health_frac(), 1000);
    assert!(c.is_alive());
}

#[test]
fn empty_grid_has_nothing() {
    let g = VoxelGrid::new();
    assert_eq!(g.block_count(), 0);
    assert_eq!(g.total_mass(), 0);
    assert!(g.get(5, 5, 5).is_none());
}

#[test]
fn placing_and_removing_keeps_totals() {
    let mut g = steel_at(&[(5, 5, 5), (5, 5, 6)]);
    assert_eq!(g.block_count(), 2);
    assert_eq!(g.total_mass(), 10);
    assert_eq!(g.get(5, 5, 6).unwrap().block_type, BlockType::Steel);
    g.remove(5, 5, 6);
    assert_eq!(g.block_count(), 1);
    assert_eq!(g.total_mass(), 5);
    g.recalculate_mass();
    assert_eq!(g.total_mass(), 5);
}

#[test]
fn cell_positions_and_bounds() {
    assert_eq!(VoxelGrid::cell_local_pos(0, 0, 0), (-1800, -1800, -1800));
    assert_eq!(VoxelGrid::cell_local_pos(9, 5, 4), (1800, 200, -200));
    assert!(VoxelGrid::in_bounds(0, 9, 3));
    assert!(!VoxelGrid::in_bounds(-1, 0, 0));
    assert!(!VoxelGrid::in_bounds(0, 10, 0));
    assert_eq!(genome_index(1, 2, 3), 321);
}

#[test]
fn loose_parts_break_off_from_the_core() {
    let mut g = steel_at(&[(5, 5, 5), (5, 5, 6)]);
    g.place(0, 0, 0, BlockType::Wood);
    let parts = g.detach_loose_parts();
    assert_eq!(parts.len(), 1);
    assert_eq!(parts[0].block_type, BlockType::Wood);
    assert_eq!(parts[0].pos, Pos { x: -1800, y: -1800, z: -1800 });
    assert_eq!(g.block_count(), 2);
    assert!(g.get(0, 0, 0).is_none());
}

#[test]
fn detaching_twice_changes_nothing() {
    let mut g = steel_at(&[(5, 5, 5), (5, 5, 6), (1, 1, 1), (1, 1, 2)]);
    let first = g.detach_loose_parts();
    assert_eq!(first.len(), 2);
    let second = g.detach_loose_parts();
    assert_eq!(second.len(), 0);
    assert_eq!(g.block_count(), 2);
}

#[test]
fn detaching_an_empty_grid_does_nothing() {
    let mut g = VoxelGrid::new();
    assert_eq!(g.detach_loose_parts().len(), 0);
}

#[test]
fn blast_at_a_steel_cell_centre() {
    let mut g = steel_at(&[(5, 5, 5)]);
    let bounced = vec![false; CELL_COUNT];
    let events = g.apply_damage_rolled(Pos { x: 200, y: 200, z: 200 }, 10000, 1000, 7, &bounced);
    assert_eq!(events.len(), 1);
    assert_eq!(events[0].damage, 8333);
    assert_eq!(events[0].attacker, 7);
    assert!(!events[0].died);
    assert_eq!((events[0].target_cell_x, events[0].target_cell_y, events[0].target_cell_z), (5, 5, 5));
    assert_eq!(g.get(5, 5, 5).unwrap().current_health, 91667);
    assert_eq!(g.layer_health_frac(5), 916);
}

#[test]
fn blast_destroys_a_glass_block() {
    let mut g = VoxelGrid::new();
    g.place(5, 5, 5, BlockType::Glass);
    let bounced = vec![false; CELL_COUNT];
    let events = g.apply_damage_rolled(Pos { x: 200, y: 200, z: 200 }, 30000, 1000, 3, &bounced);
    assert_eq!(events.len(), 1);
    assert!(events[0].died);
    assert_eq!(events[0].damage, 30000);
    assert_eq!(g.block_count(), 0);
}

#[test]
fn blast_out_of_reach_does_nothing() {
    let mut g = steel_at(&[(5, 5, 5)]);
    let bounced = vec![false; CELL_COUNT];
    let events = g.apply_damage_rolled(Pos { x: 100000, y: 0, z: 0 }, 30000, 1000, 3, &bounced);
    assert_eq!(events.len(), 0);
    assert_eq!(g.get(5, 5, 5).unwrap().current_health, 100000);
}

#[test]
fn random_blast_on_steel_is_exact() {
    let mut g = steel_at(&[(5, 5, 5)]);
    let events = g.apply_damage_local(Pos { x: 200, y: 200, z: 200 }, 10000, 1000, 1);
    assert_eq!(events.len(), 1);
    assert_eq!(events[0].damage, 8333);
}

#[test]
fn all_steel_genome_builds_a_full_body() {
    let genome = [1u8; GENOME_LEN];
    let mut g = VoxelGrid::new();
    apply_genome(&mut g, &genome, &[]);
    assert_eq!(g.block_count(), 1000);
    assert_eq!(g.total_mass(), 5000);
}

#[test]
fn floating_block_gives_the_fallback_slab() {
    let mut genome = [0u8; GENOME_LEN];
    genome[genome_index(5, 5, 5)] = 1;
    let mut g = VoxelGrid::new();
    apply_genome(&mut g, &genome, &[]);
    assert_eq!(g.block_count(), 48);
    assert_eq!(g.get(3, 4, 2).unwrap().block_type, BlockType::Steel);
    assert!(g.get(5, 5, 5).is_none() || g.get(5, 5, 5).unwrap().block_type == BlockType::Steel);
}

#[test]
fn floating_wheels_are_kept() {
    let mut genome = [0u8; GENOME_LEN];
    for x in 2..6 {
        genome[genome_index(x, 5, 2)] = 24;
    }
    genome[genome_index(7, 7, 7)] = 1;
    let mut g = VoxelGrid::new();
    apply_genome(&mut g, &genome, &[]);
    assert_eq!(g.block_count(), 4);
    assert_eq!(g.get(2, 5, 2).unwrap().block_type, BlockType::WheelBig);
    assert!(g.get(7, 7, 7).is_none());
    let mounts = g.wheel_mounts();
    assert_eq!(mounts.len(), 4);
    assert_eq!(g.build_compound_collider().len(), 0);
}

#[test]
fn grounded_column_is_kept() {
    let mut genome = [0u8; GENOME_LEN];
    for y in 0..5 {
        genome[genome_index(4, y, 4)] = 2;
    }
    genome[genome_index(9, 9, 9)] = 2;
    let mut g = VoxelGrid::new();
    apply_genome(&mut g, &genome, &[]);
    assert_eq!(g.block_count(), 5);
    assert!(g.get(9, 9, 9).is_none());
    assert_eq!(g.get(4, 4, 4).unwrap().block_type, BlockType::Titanium);
}

#[test]
fn random_genomes_and_weapons_stay_in_range() {
    let genome = random_genome();
    assert!(genome.iter().all(|&b| b < 28));
    for _ in 0..20 {
        let ws = random_weapons(3);
        assert!(!ws.is_empty() && ws.len() <= 3);
        for w in &ws {
            assert!((2..8).contains(&w.grid_pos.x));
            assert!((5..10).contains(&w.grid_pos.y));
            assert!((2..8).contains(&w.grid_pos.z));
        }
    }
}

#[test]
fn flood_fill_follows_faces() {
    let mut occ = vec![false; CELL_COUNT];
    let mut seed = vec![false; CELL_COUNT];
    occ[0] = true;
    occ[1] = true;
    occ[2] = true;
    occ[5] = true;
    occ[11] = true;
    seed[0] = true;
    let v = flood_fill(&occ, &seed);
    assert!(v[0] && v[1] && v[2] && v[11]);
    assert!(!v[5]);
    assert!(!v[3]);
}

#[test]
fn materials_follow_the_catalogue() {
    let glass = block_material(BlockType::Glass);
    assert!(glass.blend);
    assert_eq!(glass.metallic, 100);
    assert_eq!(glass.emissive.r, 21000);
    let ti = block_material(BlockType::Titanium);
    assert!(!ti.blend);
    assert_eq!(ti.metallic, 600);
    assert_eq!(ti.roughness, 500);
}

#[test]
fn wheels_are_not_drawn_as_cubes() {
    let mut g = steel_at(&[(1, 1, 1)]);
    g.place(2, 1, 1, BlockType::WheelAero);
    let cubes = spawn_block_visuals(&g);
    assert_eq!(cubes.len(), 1);
    assert_eq!((cubes[0].x, cubes[0].y, cubes[0].z), (1, 1, 1));
    assert_eq!(g.iter_cells().len(), 2);
}

#[test]
fn set_entity_records_the_drawing() {
    let mut g = steel_at(&[(3, 3, 3)]);
    g.set_entity(3, 3, 3, Some(42));
    assert_eq!(g.get(3, 3, 3).unwrap().entity, Some(42));
    g.set_entity(4, 4, 4, Some(43));
    assert!(g.get(4, 4, 4).is_none());
}

#[test]
fn deformation_from_damage() {
    let ev = DamageEvent {
        target_cell_x: 1,
        target_cell_y: 2,
        target_cell_z: 3,
        damage: 50000,
        attacker: 9,
        died: false,
        cell_entity: Some(77),
        special: SpecialAbility::ResistDeform,
    };
    let d = trigger_deform_from_damage(&ev).unwrap();
    assert_eq!(d.cell_entity, 77);
    assert_eq!(d.deform_amount, 500);
    assert_eq!(d.seed, 92600);
    assert!(d.resist);
    assert_eq!(d.effective_amount(), 100);
    let big = DamageEvent { damage: 400000, special: SpecialAbility::NoAbility, ..ev };
    let d2 = trigger_deform_from_damage(&big).unwrap();
    assert_eq!(d2.deform_amount, 1000);
    assert_eq!(d2.effective_amount(), 1000);
    let none = DamageEvent { cell_entity: None, ..ev };
    assert!(trigger_deform_from_damage(&none).is_none());
}

#[test]
fn blasts_hurt_less_farther_out() {
    let bounced = vec![false; CELL_COUNT];
    let mut near = steel_at(&[(5, 5, 5)]);
    let mut far = steel_at(&[(5, 5, 5)]);
    let e_near = near.apply_damage_rolled(Pos { x: 200, y: 200, z: 200 }, 50000, 2000, 1, &bounced);
    let e_far = far.apply_damage_rolled(Pos { x: 1200, y: 200, z: 200 }, 50000, 2000, 1, &bounced);
    assert!(e_near[0].damage > e_far[0].damage);
    assert!(e_far[0].damage > 0);
    assert!(far.get(5, 5, 5).unwrap().current_health <= 100000);
}

#[test]
fn every_built_body_has_at_least_four_blocks() {
    for _ in 0..10 {
        let genome = random_genome();
        let mut g = VoxelGrid::new();
        apply_genome(&mut g, &genome, &random_weapons(3));
        assert!(g.block_count() >= 4);
        let mut again = VoxelGrid::new();
        apply_genome(&mut again, &genome, &[]);
        assert_eq!(again.block_count(), g.block_count());
    }
}

#[test]
fn genome_bytes_follow_the_draws() {
    assert_eq!(genome_byte(0, 17), 0);
    assert_eq!(genome_byte(5, 27), 0);
    assert_eq!(genome_byte(6, 17), 17);
    assert_eq!(genome_byte(9, 1), 1);
}

#[test]
fn bouncy_blocks_deflect_on_low_rolls() {
    assert!(bounce_of(true, 0));
    assert!(bounce_of(true, 3));
    assert!(!bounce_of(true, 4));
    assert!(!bounce_of(false, 0));
}
