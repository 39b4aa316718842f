use neat_cars::arith::Pos;
use neat_cars::weapons::fire::{
    drill_contact_system, fire_plan, frame_damage, hit_damage, pierce_damages, pull_trigger, sticky_bomb_system, DrillWeapon, FirePlan,
    ProjectileSpec, StickyBomb,
};
use neat_cars::weapons::mine::{mine_arm_system, mine_trigger_system, MineState};
use neat_cars::weapons::projectile::{
    is_owner_or_part, projectile_collision_system, projectile_lifetime_system, Projectile, ProjectileBundle,
};
use neat_cars::weapons::targeting::{emp_targets, nearest_enemy, tesla_chain, Body};
use neat_cars::weapons::{
    emp_decay_system, weapon_cooldown_system, EmpDisabledTimer, GridPos, WeaponState, WeaponType,
};

fn at(x: i64) -> Pos {
    Pos { x, y: 0, z: 0 }
}

fn bodies() -> Vec<Body> {
    vec![
        Body { entity: 1, pos: at(0) },
        Body { entity: 2, pos: at(3000) },
        Body { entity: 3, pos: at(7000) },
        Body { entity: 4, pos: at(30000) },
    ]
}

#[test]
fn weapon_numbers_round_trip() {
    for v in 0u8..16 {
        assert_eq!(WeaponType::from_u8(v).to_u8(), v);
    }
    assert_eq!(WeaponType::from_u8(200), WeaponType::Drill);
    assert_eq!(WeaponType::Rpg.base_cooldown(), 1500);
    assert_eq!(WeaponType::Flamethrower.base_cooldown(), 0);
}

#[test]
fn a_fired_weapon_is_ready_after_its_base_cooldown() {
    let mut ws = WeaponState::new(WeaponType::SniperRailGun, GridPos { x: 1, y: 2, z: 3 });
    assert!(ws.is_ready());
    ws.reset_cooldown();
    assert_eq!(ws.cooldown, 2500);
    assert_eq!(ws.cooldown_frac(), 1000);
    ws.tick(1000);
    assert_eq!(ws.cooldown_frac(), 600);
    ws.tick(1499);
    assert!(!ws.is_ready());
    ws.tick(1);
    assert!(ws.is_ready());
    let mut all = vec![WeaponState { cooldown: 300, ..ws }, WeaponState { cooldown: 50, ..ws }];
    weapon_cooldown_system(&mut all, 100);
    assert_eq!((all[0].cooldown, all[1].cooldown), (200, 0));
}

#[test]
fn trigger_pulls() {
    let mut rpg = WeaponState::new(WeaponType::Rpg, GridPos { x: 0, y: 0, z: 0 });
    let p = pull_trigger(&mut rpg, false).unwrap();
    assert_eq!(
        p,
        FirePlan::Straight { spec: ProjectileSpec { speed: 28000, damage: 80000, radius: 3000, lifetime: 4000, gravity: 1000 } }
    );
    assert_eq!(rpg.cooldown, 1500);
    assert!(pull_trigger(&mut rpg, true).is_none());
    let mut turret = WeaponState::new(WeaponType::SelfAimingTurret, GridPos { x: 0, y: 0, z: 0 });
    assert!(pull_trigger(&mut turret, false).is_none());
    assert_eq!(turret.cooldown, 0);
    assert!(pull_trigger(&mut turret, true).is_some());
    assert_eq!(turret.cooldown, 600);
    let mut flame = WeaponState::new(WeaponType::Flamethrower, GridPos { x: 0, y: 0, z: 0 });
    assert!(pull_trigger(&mut flame, false).is_some());
    assert_eq!(flame.cooldown, 0);
    assert_eq!(fire_plan(WeaponType::EmpCannon), FirePlan::Pulse { radius: 8000, duration: 4000 });
}

#[test]
fn piercing_damage_falls_off() {
    assert_eq!(hit_damage(120000, 200, 0), 120000);
    assert_eq!(hit_damage(120000, 200, 3), 48000);
    assert_eq!(hit_damage(120000, 200, 5), 0);
    assert_eq!(pierce_damages(7, 4, 120000, 200), vec![120000, 96000, 72000, 48000]);
    assert_eq!(pierce_damages(2, 4, 120000, 200), vec![120000, 96000]);
}

#[test]
fn nearest_enemy_skips_itself() {
    let b = bodies();
    assert_eq!(nearest_enemy(at(0), 1, &b), Some((2, at(3000), 9_000_000)));
    assert_eq!(nearest_enemy(at(29000), 4, &b), Some((3, at(7000), 22000u128 * 22000)));
    assert_eq!(nearest_enemy(at(0), 1, &vec![Body { entity: 1, pos: at(0) }]), None);
}

#[test]
fn lightning_jumps_from_body_to_body() {
    let links = tesla_chain(at(0), 1, &bodies(), 5000, 4, 35000, 200);
    assert_eq!(links.len(), 2);
    assert_eq!((links[0].pos, links[0].damage), (at(3000), 35000));
    assert_eq!((links[1].pos, links[1].damage), (at(7000), 28000));
    assert!(tesla_chain(at(0), 1, &bodies(), 2000, 4, 35000, 200).is_empty());
    assert_eq!(tesla_chain(at(0), 1, &bodies(), 50000, 2, 35000, 200).len(), 2);
}

#[test]
fn emp_reaches_cars_within_its_radius() {
    assert_eq!(emp_targets(at(0), 1, &bodies(), 8000), vec![2, 3]);
    assert_eq!(emp_targets(at(0), 2, &bodies(), 3000), vec![1]);
    let mut timers = vec![EmpDisabledTimer(4000), EmpDisabledTimer(500)];
    let expired = emp_decay_system(&mut timers, 1000);
    assert_eq!(expired, vec![1]);
    assert_eq!(timers, vec![EmpDisabledTimer(3000), EmpDisabledTimer(0)]);
}

#[test]
fn mines_arm_after_a_second_and_a_half() {
    let m = MineState::new(9);
    assert_eq!((m.armed, m.arm_timer, m.damage, m.radius), (false, 1500, 80000, 3000));
    let mut mines = vec![m];
    assert!(mine_trigger_system(&mines[0], at(5), 2, true).is_none());
    mine_arm_system(&mut mines, 1000);
    assert!(!mines[0].armed);
    mine_arm_system(&mut mines, 499);
    assert!(!mines[0].armed);
    mine_arm_system(&mut mines, 1);
    assert!(mines[0].armed);
    let req = mine_trigger_system(&mines[0], at(5), 2, true).unwrap();
    assert_eq!((req.world_pos, req.radius, req.base_damage, req.attacker), (at(5), 3000, 80000, 9));
    assert!(mine_trigger_system(&mines[0], at(5), 9, true).is_none());
    assert!(mine_trigger_system(&mines[0], at(5), 2, false).is_none());
}

#[test]
fn projectiles_burst_on_strangers_and_expire() {
    let b = ProjectileBundle::new(at(1), at(2), 65000, 2500, 3500, 7, 1000);
    let p = b.projectile;
    assert_eq!(p, Projectile { lifetime: 3500, radius: 2500, damage: 65000, attacker: 7 });
    assert!(is_owner_or_part(7, 7, None));
    assert!(is_owner_or_part(20, 7, Some(7)));
    assert!(!is_owner_or_part(20, 7, Some(8)));
    assert!(projectile_collision_system(&p, 55, at(9), 20, Some(7)).is_none());
    let (req, hit) = projectile_collision_system(&p, 55, at(9), 21, None).unwrap();
    assert_eq!((req.world_pos, req.radius, req.base_damage, req.attacker), (at(9), 2500, 65000, 7));
    assert_eq!(hit.projectile_entity, 55);
    let mut ps = vec![p, Projectile { lifetime: 10, ..p }];
    assert_eq!(projectile_lifetime_system(&mut ps, 100), vec![1]);
    assert_eq!(ps[0].lifetime, 3400);
}

#[test]
fn sticky_bombs_stick_then_go_off() {
    let mut b = StickyBomb::launched(7);
    assert_eq!((b.fuse, b.damage, b.radius), (5000, 70000, 2800));
    assert!(!b.stick(30, Some(7), Some(at(0)), at(10)));
    assert!(!b.stick(31, None, None, at(10)));
    assert!(b.stick(32, None, Some(Pos { x: 100, y: 200, z: 300 }), Pos { x: 150, y: 250, z: 350 }));
    assert_eq!(b.fuse, 3000);
    assert_eq!(b.stuck_offset, Pos { x: 50, y: 50, z: 50 });
    assert!(!b.stick(33, None, Some(at(0)), at(0)));
    assert!(sticky_bomb_system(&mut b, 2000, Some(at(1000))).is_none());
    let blast = sticky_bomb_system(&mut b, 1000, Some(at(1000))).unwrap();
    assert_eq!(blast.world_pos, Pos { x: 1050, y: 50, z: 50 });
    assert_eq!((blast.radius, blast.base_damage, blast.attacker), (2800, 70000, 7));
    let loose = StickyBomb::launched(7);
    assert_eq!(loose.detonation(Some(at(5))).world_pos, Pos { x: 0, y: 0, z: 0 });
}

#[test]
fn drills_grind_other_cars() {
    let d = DrillWeapon::armed(4);
    assert_eq!(d.dps, 60000);
    let req = drill_contact_system(&d, 9, None, true, Some(at(3)), 16).unwrap();
    assert_eq!((req.world_pos, req.radius, req.base_damage, req.attacker), (at(3), 500, 960, 4));
    assert!(drill_contact_system(&d, 4, None, true, Some(at(3)), 16).is_none());
    assert!(drill_contact_system(&d, 9, Some(4), true, Some(at(3)), 16).is_none());
    assert!(drill_contact_system(&d, 9, None, false, Some(at(3)), 16).is_none());
}

#[test]
fn continuous_weapons_deal_damage_per_frame() {
    assert_eq!(frame_damage(30000, 16), 480);
    assert_eq!(frame_damage(40000, 33), 1320);
    assert_eq!(frame_damage(7, 100), 0);
}
