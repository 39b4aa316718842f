use neat_cars::ai::neat::NeatManager;
use neat_cars::arena::{spark_burst_wanted, RibbonTrail, Spark};
use neat_cars::arith::{clamp_wide, dist2_exec, isqrt, quot_wide, rank_desc, sat_add, Pos};
use neat_cars::assets_loader::{block_texture_file, weapon_mesh_file};
use neat_cars::camera::freecam::cycle_follow;
use neat_cars::physics::car_controller::{
    car_drive_system, drive_plan, is_manual, CarInput, CarWheels, DrivePlan, Nitro, WheelPush,
};
use neat_cars::ui::builder::{finish_build, BuilderState, MaterialCategory, PLAYER_AGENT_ID};
use neat_cars::ui::hud::{fitness_of, hud_order, toggle_follow, SimSpeedState};
use neat_cars::voxel::block::BlockType;
use neat_cars::voxel::grid::VoxelGrid;
use neat_cars::voxel::sync_grid_colliders;
use neat_cars::weapons::{GridPos, WeaponType};

#[test]
fn integer_helpers() {
    assert_eq!(sat_add(i64::MAX, 5), i64::MAX);
    assert_eq!(sat_add(-3, 5), 2);
    assert_eq!(clamp_wide(-(1i128 << 100)), i64::MIN);
    assert_eq!(quot_wide(-7, 2), -3);
    assert_eq!(quot_wide(7, 2), 3);
    assert_eq!(isqrt(0), 0);
    assert_eq!(isqrt(99), 9);
    assert_eq!(isqrt(100), 10);
    assert_eq!(dist2_exec(Pos { x: 0, y: 0, z: 0 }, Pos { x: 3, y: 4, z: 12 }), 169);
}

#[test]
fn ranking_is_stable_and_highest_first() {
    assert_eq!(rank_desc(&vec![5, 9, 5, -1, 9]), vec![1, 4, 0, 2, 3]);
    assert_eq!(rank_desc(&vec![]), Vec::<usize>::new());
}

#[test]
fn nitro_burns_and_refills() {
    let mut n = Nitro::default();
    assert_eq!((n.fuel, n.active), (100_000, false));
    assert_eq!(n.tick(1000), 1000);
    assert_eq!(n.fuel, 100_000);
    n.active = true;
    assert_eq!(n.tick(1000), 2000);
    assert_eq!(n.fuel, 80_000);
    n.fuel = 10;
    assert_eq!(n.tick(1000), 2000);
    assert_eq!(n.fuel, -19_990);
    assert_eq!(n.tick(1000), 1000);
    assert_eq!(n.fuel, -9_990);
}

#[test]
fn manual_drivers_push_each_wheel() {
    let mut action = vec![0i64; 30];
    action[5] = 700;
    action[7] = 1000;
    action[8] = 0;
    action[9] = 250;
    assert!(is_manual(&action));
    let wheels = CarWheels { wheels: vec![101, 102, 103] };
    let plan = drive_plan(&action, &CarInput::default(), &wheels);
    assert_eq!(
        plan,
        DrivePlan::Wheels {
            pushes: vec![
                WheelPush { wheel: 101, throttle: 1000, lift: 1000 },
                WheelPush { wheel: 102, throttle: -1000, lift: 0 },
                WheelPush { wheel: 103, throttle: -500, lift: 250 },
            ],
        }
    );
    let short = vec![0i64, 0, 0, 0, 0, 700, 0, 900];
    let few = drive_plan(&short, &CarInput::default(), &wheels);
    assert_eq!(few, DrivePlan::Wheels { pushes: vec![WheelPush { wheel: 101, throttle: 800, lift: 900 }] });
}

#[test]
fn assisted_driving_pushes_the_chassis() {
    let action = vec![0i64; 30];
    assert!(!is_manual(&action));
    let wheels = CarWheels { wheels: vec![] };
    let idle = CarInput { throttle: 50, steer: -300, brake: 0 };
    assert_eq!(drive_plan(&action, &idle, &wheels), DrivePlan::Chassis { throttle: 1000, steer: -300 });
    let back = CarInput { throttle: -600, steer: 0, brake: 0 };
    let mut n = Nitro { fuel: 5000, active: true };
    let (mult, plan) = car_drive_system(&action, &back, &wheels, &mut n, 100);
    assert_eq!(mult, 2000);
    assert_eq!(n.fuel, 3000);
    assert_eq!(plan, DrivePlan::Chassis { throttle: -600, steer: 0 });
}

#[test]
fn wheels_come_off_with_their_blocks() {
    let mut g = VoxelGrid::new();
    g.place(5, 5, 5, BlockType::Steel);
    g.place(5, 5, 6, BlockType::WheelBig);
    g.place(0, 0, 0, BlockType::WheelAero);
    let mut wheels = CarWheels { wheels: vec![70, 71, 72] };
    let attached = vec![
        Some(GridPos { x: 5, y: 5, z: 6 }),
        Some(GridPos { x: 0, y: 0, z: 0 }),
        None,
    ];
    let s = sync_grid_colliders(&mut g, &mut wheels, &attached);
    assert_eq!(s.detached.len(), 1);
    assert_eq!(s.detached[0].block_type, BlockType::WheelAero);
    assert_eq!(s.collider, vec![Pos { x: 200, y: 200, z: 200 }]);
    assert_eq!(wheels.wheels, vec![70, 72]);
    assert_eq!(s.removed_wheels, vec![71]);
}

#[test]
fn builder_selection_cycles() {
    let mut b = BuilderState::default();
    assert!(!b.is_open);
    assert_eq!(b.selected_block(), BlockType::Steel);
    assert_eq!(b.selected_weapon(), WeaponType::Rpg);
    b.scroll(-1);
    b.scroll(-1);
    assert_eq!(b.selected_block_idx, 27);
    b.scroll(1);
    assert_eq!(b.selected_block_idx, 0);
    b.toggle_category();
    assert_eq!(b.category, MaterialCategory::Weapon);
    b.scroll(-1);
    assert_eq!(b.selected_weapon_idx, 15);
    b.scroll(0);
    assert_eq!(b.selected_weapon_idx, 15);
    b.scroll(3);
    assert_eq!(b.selected_weapon_idx, 0);
    assert_eq!(b.selected_block_idx, 0);
}

#[test]
fn builder_session_places_a_core_and_finishes() {
    let mut b = BuilderState::default();
    let mut follow = Some(4);
    b.begin_session(90, &mut follow);
    assert_eq!(follow, Some(90));
    assert_eq!(b.previous_follow, Some(4));
    b.toggle_category();
    b.selected_weapon_idx = 11;
    let mut g = VoxelGrid::new();
    b.click(&mut g);
    assert_eq!(g.get(5, 5, 5).unwrap().block_type, BlockType::PlasmaCore);
    assert_eq!(b.weapon_placements.len(), 1);
    assert_eq!(b.weapon_placements[0].grid_pos, GridPos { x: 5, y: 6, z: 5 });
    assert_eq!(b.weapon_placements[0].weapon_type, WeaponType::TeslaCoil);
    b.click(&mut g);
    assert_eq!(b.weapon_placements.len(), 1);
    b.is_open = true;
    let agent = finish_build(&mut b, &mut g);
    assert!(!b.is_open);
    assert!(b.grid_entity.is_none());
    assert_eq!(agent.agent_id, PLAYER_AGENT_ID);
    assert_eq!(agent.spawn_pos, Pos { x: 0, y: 15000, z: 0 });
    assert_eq!(agent.net.node_count, 2);
    assert_eq!(g.block_count(), 1);
    let mut empty = VoxelGrid::new();
    finish_build(&mut b, &mut empty);
    assert_eq!(empty.block_count(), 1);
}

#[test]
fn hud_bookkeeping() {
    let mut s = SimSpeedState::default();
    assert_eq!(s.speed, 1000);
    s.set(25000);
    assert_eq!(s.speed, 10000);
    s.set(10);
    assert_eq!(s.speed, 1000);
    assert_eq!(hud_order(&vec![7, 2, 9, 2]), vec![1, 3, 0, 2]);
    assert_eq!(toggle_follow(Some(5), 5), None);
    assert_eq!(toggle_follow(Some(5), 6), Some(6));
    assert_eq!(toggle_follow(None, 6), Some(6));
    let mut m = NeatManager::new();
    m.set_fitness(2, 1234);
    assert_eq!(fitness_of(&m, 2), 1234);
    assert_eq!(fitness_of(&m, 40), 0);
}

#[test]
fn camera_cycles_through_cars() {
    let cars = vec![10, 20, 30];
    assert_eq!(cycle_follow(0, &cars), Some((1, 20)));
    assert_eq!(cycle_follow(2, &cars), Some((0, 10)));
    assert_eq!(cycle_follow(0, &vec![]), None);
}

#[test]
fn asset_files() {
    assert_eq!(block_texture_file(BlockType::Steel), Some("textures/blocks/steel.jpg"));
    assert_eq!(block_texture_file(BlockType::Honeycomb), Some("textures/blocks/honeycomb.png"));
    assert_eq!(block_texture_file(BlockType::WheelBig), None);
    assert_eq!(block_texture_file(BlockType::Empty), None);
    assert_eq!(weapon_mesh_file(WeaponType::SniperRailGun), "meshes/weapons/sniper_railgun.obj");
}

#[test]
fn trails_fade_from_the_old_end() {
    let mut t = RibbonTrail::new(3);
    assert_eq!((t.width, t.lifetime), (1500, 400));
    let p = Pos { x: 1, y: 2, z: 3 };
    assert!(!t.update(0, Some((p, 5000))));
    assert!(!t.update(100, Some((p, 1000))));
    assert_eq!(t.points.len(), 1);
    assert!(!t.update(300, Some((p, 3000))));
    assert_eq!(t.points.len(), 2);
    assert!(!t.update(450, None));
    assert_eq!(t.points.len(), 1);
    assert_eq!(t.points[0].t, 300);
    assert!(t.update(800, None));
    assert!(t.points.is_empty());
}

#[test]
fn sparks() {
    let mut s = Spark::new();
    assert!(s.timer >= 500 && s.timer < 1000);
    assert!(!s.tick(100));
    assert!(s.tick(1000));
    let up = Pos { x: 0, y: 10, z: 0 };
    assert!(spark_burst_wanted(false, false, true, true, up));
    assert!(!spark_burst_wanted(true, false, true, true, up));
    assert!(!spark_burst_wanted(false, false, true, false, up));
    assert!(!spark_burst_wanted(false, false, true, true, Pos { x: 0, y: -1, z: 0 }));
}

#[test]
fn random_draws_vary_and_stay_in_range() {
    let spots = neat_cars::battle::sports::random_discus_spots(50);
    assert_eq!(spots.len(), 50);
    assert!(spots.iter().all(|p| (-250000..250000).contains(&p.x) && p.y == 500 && (-550000..550000).contains(&p.z)));
    assert!(spots.iter().any(|p| p.x != -250000));
    assert!(spots.iter().any(|p| p.x != spots[0].x));
}

#[test]
fn a_trail_update_keeps_the_fresh_points_in_order() {
    let mut t = RibbonTrail::new(3);
    let p = Pos { x: 0, y: 0, z: 0 };
    for now in [0i64, 100, 200, 300, 350] {
        assert!(!t.update(now, Some((p, 5000))));
    }
    assert!(!t.update(640, None));
    let times: Vec<i64> = t.points.iter().map(|q| q.t).collect();
    let expect: Vec<i64> = [0i64, 100, 200, 300, 350].into_iter().filter(|x| 640 - x <= 400).collect();
    assert_eq!(times, expect);
}

#[test]
fn scrolling_up_then_down_restores_the_selection() {
    let mut b = BuilderState::default();
    for start in 0u8..28 {
        b.selected_block_idx = start;
        b.scroll(1);
        assert!(b.selected_block_idx < 28);
        b.scroll(-1);
        assert_eq!(b.selected_block_idx, start);
    }
    b.toggle_category();
    for start in 0u8..16 {
        b.selected_weapon_idx = start;
        b.scroll(-1);
        b.scroll(1);
        assert_eq!(b.selected_weapon_idx, start);
    }
    b.selected_weapon_idx = 40;
    b.scroll(-1);
    assert_eq!(b.selected_weapon_idx, 39);
}
