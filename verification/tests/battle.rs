use neat_cars::ai::agent::CarAgent;
use neat_cars::ai::neat::NeatManager;
use neat_cars::ai::neat_core::{FeedforwardNet, Genome};
use neat_cars::arith::Pos;
use neat_cars::battle::damage::{
    block_crumple_visuals_system, crumple_scale, damage_rewards, death_explosion, fragment_impulse, impulse_of,
    penalise_victim,
    process_splash_damage, ram_damage_system, react_to_damage, reward_attacker, splash_reward,
    wheel_contact_damage_system, ContactSide, DamageEvent, SplashDamageRequest, SplashTarget, WheelInfo,
};
use neat_cars::battle::manager::{
    car_lifecycle_system, episode_state_machine, fragment_lifetime_system, on_enter_battle, on_enter_build,
    on_enter_reset, platform_fitness_system, platform_winner, player_control_system, sequential_build_system,
    spawn_position, spawn_single_car, CarStatus, EpisodeInfo, EpisodeState, FragmentMarker, HexPlatform,
    PlatformSite,
};
use neat_cars::battle::sports::{
    ball_spawn, discus_contact, discus_held_step, football_system, reward_discus_hit, reward_goal, DiscusState,
    Football, Goal,
};
use neat_cars::physics::car_controller::CarInput;
use neat_cars::voxel::block::{BlockType, SpecialAbility};
use neat_cars::voxel::grid::{VoxelCell, VoxelGrid};
use neat_cars::weapons::MountedWeapons;

fn agent(id: usize) -> CarAgent {
    let g = Genome::new(1, 1);
    CarAgent::new(id, FeedforwardNet::new(&g, 1, 1), Pos { x: 0, y: 0, z: 0 })
}

fn event(damage: i64, died: bool, special: SpecialAbility) -> DamageEvent {
    DamageEvent {
        target_cell_x: 1,
        target_cell_y: 1,
        target_cell_z: 1,
        damage,
        attacker: 10,
        died,
        cell_entity: Some(99),
        special,
    }
}

#[test]
fn episode_phases_cycle() {
    let mut info = EpisodeInfo::default();
    let mut s = EpisodeState::default();
    assert_eq!(s, EpisodeState::Reset);
    s = episode_state_machine(s, &mut info, 16);
    assert_eq!(s, EpisodeState::Build);
    assert_eq!(info.episode, 1);
    assert_eq!(info.phase_timer, 8000);
    s = episode_state_machine(s, &mut info, 7999);
    assert_eq!(s, EpisodeState::Build);
    assert_eq!(info.phase_timer, 1);
    s = episode_state_machine(s, &mut info, 1);
    assert_eq!(s, EpisodeState::Battle);
    assert_eq!(info.phase_timer, 60000);
    info.agent_count = 5;
    s = episode_state_machine(s, &mut info, 1000);
    assert_eq!(s, EpisodeState::Battle);
    info.next_spawn_idx = 20;
    info.agent_count = 1;
    s = episode_state_machine(s, &mut info, 1000);
    assert_eq!(s, EpisodeState::Reset);
    assert_eq!(info.phase_timer, 2000);
    s = episode_state_machine(s, &mut info, 2000);
    assert_eq!(s, EpisodeState::Build);
    assert_eq!(info.episode, 2);
}

#[test]
fn battle_ends_when_its_time_is_up() {
    let mut info = EpisodeInfo { episode: 1, phase_timer: 60000, agent_count: 10, next_spawn_idx: 3, build_frame_counter: 0 };
    let mut s = EpisodeState::Battle;
    let mut steps = 0;
    while s == EpisodeState::Battle {
        s = episode_state_machine(s, &mut info, 16);
        steps += 1;
    }
    assert_eq!(steps, 3750);
    assert_eq!(s, EpisodeState::Reset);
}

#[test]
fn build_spawns_every_fifteenth_frame() {
    let mut info = EpisodeInfo::default();
    info.next_spawn_idx = 4;
    on_enter_build(&mut info);
    assert_eq!(info.next_spawn_idx, 0);
    let mut spawned = Vec::new();
    for _ in 0..45 {
        if let Some(id) = sequential_build_system(EpisodeState::Build, &mut info) {
            spawned.push(id);
        }
    }
    assert_eq!(spawned, vec![0, 1, 2]);
    assert_eq!(info.agent_count, 3);
    assert_eq!(info.build_frame_counter, 45);
    assert_eq!(sequential_build_system(EpisodeState::Battle, &mut info), None);
    assert_eq!(info.build_frame_counter, 45);
}

#[test]
fn spawn_points_form_a_grid() {
    assert_eq!(spawn_position(0), Pos { x: -70000, y: 15000, z: -35000 });
    assert_eq!(spawn_position(7), Pos { x: 0, y: 15000, z: 0 });
    assert_eq!(spawn_position(19), Pos { x: 70000, y: 15000, z: 70000 });
}

#[test]
fn a_spawned_car_is_ready_to_drive() {
    let m = NeatManager::new();
    let c = spawn_single_car(&m, 6);
    assert_eq!(c.position, Pos { x: -35000, y: 15000, z: 0 });
    assert!(c.grid.block_count() >= 4);
    assert!(!c.weapons.is_empty() && c.weapons.len() <= 3);
    assert_eq!(c.agent.agent_id, 6);
    assert_eq!(c.agent.spawn_pos, c.position);
    assert_eq!(c.agent.net.input_ids.len(), 94);
    assert_eq!(c.agent.net.output_ids.len(), 30);
}

#[test]
fn lifecycle_retires_dead_cars_and_refills_the_battle() {
    let mut m = NeatManager::new();
    let mut info = EpisodeInfo { episode: 1, phase_timer: 1000, agent_count: 3, next_spawn_idx: 17, build_frame_counter: 0 };
    let cars = vec![
        CarStatus { agent_id: 2, block_count: 0, reward: 700 },
        CarStatus { agent_id: 5, block_count: 12, reward: 300 },
        CarStatus { agent_id: 9, block_count: 0, reward: -50 },
    ];
    let out = car_lifecycle_system(EpisodeState::Battle, &mut info, &mut m, &cars);
    assert_eq!(out.despawn, vec![0, 2]);
    assert_eq!(out.spawn, vec![17, 18, 19]);
    assert_eq!(info.next_spawn_idx, 20);
    assert_eq!(info.agent_count, 4);
    assert_eq!(m.population[2].fitness, 700);
    assert_eq!(m.population[9].fitness, -50);
    assert_eq!(m.population[5].fitness, 0);
}

#[test]
fn lifecycle_does_not_spawn_while_building_and_rests_in_reset() {
    let mut m = NeatManager::new();
    let mut info = EpisodeInfo { episode: 1, phase_timer: 1000, agent_count: 1, next_spawn_idx: 1, build_frame_counter: 0 };
    let cars = vec![CarStatus { agent_id: 0, block_count: 3, reward: 1 }];
    let out = car_lifecycle_system(EpisodeState::Build, &mut info, &mut m, &cars);
    assert!(out.despawn.is_empty() && out.spawn.is_empty());
    assert_eq!(info.agent_count, 1);
    let dead = vec![CarStatus { agent_id: 0, block_count: 0, reward: 1 }];
    let out = car_lifecycle_system(EpisodeState::Reset, &mut info, &mut m, &dead);
    assert!(out.despawn.is_empty());
    assert_eq!(m.population[0].fitness, 0);
}

#[test]
fn player_keys_drive_the_car() {
    let mut input = CarInput { throttle: 0, steer: 0, brake: 300 };
    player_control_system(&mut input, true, false, false, true);
    assert_eq!((input.throttle, input.steer, input.brake), (1000, -1000, 300));
    player_control_system(&mut input, true, true, true, false);
    assert_eq!((input.throttle, input.steer), (0, 1000));
}

#[test]
fn reset_hands_in_every_reward_and_evolves() {
    let mut m = NeatManager::new();
    let cars = vec![
        CarStatus { agent_id: 12, block_count: 40, reward: 9000 },
        CarStatus { agent_id: 3, block_count: 0, reward: 8000 },
    ];
    let w12: Vec<i64> = m.population[12].connections.iter().map(|c| c.weight).collect();
    on_enter_reset(&mut m, &cars);
    assert_eq!(m.generation, 2);
    assert_eq!(m.population[0].fitness, 9000);
    assert_eq!(m.population[1].fitness, 8000);
    let w0: Vec<i64> = m.population[0].connections.iter().map(|c| c.weight).collect();
    assert_eq!(w0, w12);
}

#[test]
fn fragments_fade() {
    let mut frags = vec![FragmentMarker::new(), FragmentMarker::debris(), FragmentMarker { lifetime: 100 }];
    let gone = fragment_lifetime_system(&mut frags, 3000);
    assert_eq!(gone, vec![0, 2]);
    assert_eq!(frags[1].lifetime, 3000);
    let mut f = FragmentMarker::new();
    assert!(!f.tick(2999));
    assert!(f.tick(1));
}

#[test]
fn battle_opens_with_a_gift_and_a_shot() {
    let mut a = agent(1);
    let shot = on_enter_battle(&mut a, &MountedWeapons { weapon_entities: vec![31, 32] }).unwrap();
    assert_eq!(a.accumulated_reward, 50000);
    assert_eq!(shot.weapon_entity, 31);
    assert_eq!(shot.aim_target, Pos { x: 0, y: 0, z: 1_000_000 });
    assert!(on_enter_battle(&mut a, &MountedWeapons { weapon_entities: vec![] }).is_none());
    assert_eq!(a.accumulated_reward, 100000);
}

#[test]
fn platforms_pay_their_richest_rider() {
    let plat = Pos { x: 0, y: 0, z: 0 };
    let positions = vec![
        Pos { x: 1000, y: 0, z: 1000 },
        Pos { x: 20000, y: 0, z: 0 },
        Pos { x: -3000, y: 5000, z: 0 },
        Pos { x: 0, y: 0, z: 14000 },
    ];
    let mut rewards = vec![500, 9000, 800, 800];
    assert_eq!(platform_winner(plat, &positions, &rewards), Some(2));
    let sites = vec![PlatformSite { platform: HexPlatform { min_reward: 600, fitness_boost: 2000 }, pos: plat }];
    platform_fitness_system(&sites, &positions, &mut rewards, 500);
    assert_eq!(rewards, vec![500, 9000, 1800, 800]);
    let strict = vec![PlatformSite { platform: HexPlatform { min_reward: 5000, fitness_boost: 2000 }, pos: plat }];
    platform_fitness_system(&strict, &positions, &mut rewards, 500);
    assert_eq!(rewards, vec![500, 9000, 1800, 800]);
    assert_eq!(platform_winner(Pos { x: 500000, y: 0, z: 0 }, &positions, &rewards), None);
}

#[test]
fn splash_spares_the_attacker() {
    let mut a = VoxelGrid::new();
    a.place(5, 5, 5, BlockType::Steel);
    let mut b = VoxelGrid::new();
    b.place(5, 5, 5, BlockType::Steel);
    let mut targets = vec![
        SplashTarget { entity: 1, local_pos: Pos { x: 200, y: 200, z: 200 }, grid: a },
        SplashTarget { entity: 2, local_pos: Pos { x: 200, y: 200, z: 200 }, grid: b },
    ];
    let req = SplashDamageRequest { world_pos: Pos { x: 0, y: 0, z: 0 }, radius: 1000, base_damage: 10000, attacker: 1 };
    let events = process_splash_damage(&req, &mut targets);
    assert_eq!(events.len(), 1);
    assert_eq!(events[0].damage, 8333);
    assert_eq!(targets[0].grid.get(5, 5, 5).unwrap().current_health, 100000);
    assert_eq!(targets[1].grid.get(5, 5, 5).unwrap().current_health, 91667);
    let mut att = agent(1);
    splash_reward(&req, &mut att);
    assert_eq!(att.accumulated_reward, 10000);
}

#[test]
fn hits_reward_attackers_and_cost_victims() {
    let mut att = agent(1);
    reward_attacker(&mut att, &event(3000, false, SpecialAbility::NoAbility));
    assert_eq!(att.accumulated_reward, 3000);
    reward_attacker(&mut att, &event(2000, true, SpecialAbility::NoAbility));
    assert_eq!(att.accumulated_reward, 205000);
    let mut vic = agent(2);
    penalise_victim(&mut vic, 20, &event(3000, false, SpecialAbility::NoAbility));
    assert_eq!(vic.accumulated_reward, -15000);
    penalise_victim(&mut vic, 10, &event(3000, false, SpecialAbility::NoAbility));
    assert_eq!(vic.accumulated_reward, -15000);
}

#[test]
fn exploding_blocks_blow_up_when_destroyed() {
    let at = Some(Pos { x: 1, y: 2, z: 3 });
    let boom = death_explosion(&event(5, true, SpecialAbility::ExplodeOnDeath), at).unwrap();
    assert_eq!(boom, SplashDamageRequest { world_pos: Pos { x: 1, y: 2, z: 3 }, radius: 1500, base_damage: 80000, attacker: 10 });
    assert!(death_explosion(&event(5, false, SpecialAbility::ExplodeOnDeath), at).is_none());
    assert!(death_explosion(&event(5, true, SpecialAbility::NoAbility), at).is_none());
    assert!(death_explosion(&event(5, true, SpecialAbility::ExplodeOnDeath), None).is_none());
}

#[test]
fn damage_reactions() {
    let r = react_to_damage(&event(5, true, SpecialAbility::ExplodeOnDeath), Some(20), Some(Pos { x: 0, y: 0, z: 0 }));
    assert_eq!(r.penalise, Some(20));
    assert!(r.fragment && !r.despawn_cell);
    assert!(r.explosion.is_some());
    let r2 = react_to_damage(&event(5, true, SpecialAbility::NoAbility), Some(10), None);
    assert_eq!(r2.penalise, None);
    assert!(!r2.fragment && r2.despawn_cell);
    let r3 = react_to_damage(&event(5, false, SpecialAbility::NoAbility), None, None);
    assert!(r3.penalise.is_none() && !r3.fragment && !r3.despawn_cell && r3.explosion.is_none());
}

#[test]
fn fragments_fly_up_and_out() {
    for _ in 0..50 {
        let v = fragment_impulse();
        assert!((-1500..1500).contains(&v.x));
        assert!((750..3000).contains(&v.y));
        assert!((-1500..1500).contains(&v.z));
    }
}

#[test]
fn wheels_hurt_other_cars_on_contact() {
    let wheel = ContactSide {
        entity: 50,
        wheel: Some(WheelInfo { kind: BlockType::WheelSpiked, owner: 5 }),
        is_grid: false,
        pos: Some(Pos { x: 7, y: 8, z: 9 }),
    };
    let other_car = ContactSide { entity: 6, wheel: None, is_grid: true, pos: None };
    let own_car = ContactSide { entity: 5, wheel: None, is_grid: true, pos: None };
    let reqs = wheel_contact_damage_system(&wheel, &other_car);
    assert_eq!(reqs, vec![SplashDamageRequest { world_pos: Pos { x: 7, y: 8, z: 9 }, radius: 1000, base_damage: 15000, attacker: 5 }]);
    assert_eq!(wheel_contact_damage_system(&other_car, &wheel).len(), 1);
    assert!(wheel_contact_damage_system(&wheel, &own_car).is_empty());
    let heavy = ContactSide { wheel: Some(WheelInfo { kind: BlockType::WheelHeavy, owner: 5 }), ..wheel };
    assert_eq!(wheel_contact_damage_system(&heavy, &other_car)[0].base_damage, 20000);
    let big = ContactSide { wheel: Some(WheelInfo { kind: BlockType::WheelBig, owner: 5 }), ..wheel };
    assert_eq!(wheel_contact_damage_system(&big, &other_car)[0].base_damage, 5000);
}

#[test]
fn rams_reward_the_faster_car() {
    let p1 = Pos { x: 1, y: 0, z: 0 };
    let p2 = Pos { x: 2, y: 0, z: 0 };
    assert!(ram_damage_system(1, 10000, p1, 2, 6000, p2).is_none());
    let r = ram_damage_system(1, 4000, p1, 2, 12000, p2).unwrap();
    assert_eq!((r.faster, r.slower, r.damage), (2, 1, 16000));
    assert_eq!(r.splash, SplashDamageRequest { world_pos: p2, radius: 2000, base_damage: 16000, attacker: 2 });
    let mut fast = agent(0);
    let mut slow = agent(1);
    r.settle(&mut fast, 2);
    r.settle(&mut slow, 1);
    assert_eq!(fast.accumulated_reward, 16000);
    assert_eq!(slow.accumulated_reward, -16000);
}

#[test]
fn damaged_blocks_shrink() {
    let mut c = VoxelCell::new(BlockType::Steel);
    assert_eq!(crumple_scale(&c), None);
    c.current_health = 50000;
    assert_eq!(crumple_scale(&c), Some(650));
    let mut g = VoxelGrid::new();
    g.place(1, 1, 1, BlockType::Steel);
    g.set_entity(1, 1, 1, Some(8));
    assert!(block_crumple_visuals_system(&g).is_empty());
}

#[test]
fn goals_go_to_the_last_toucher() {
    let mut ball = Football { last_touch: None };
    assert_eq!(football_system(&mut ball, 4, true, false), None);
    assert_eq!(ball.last_touch, Some(4));
    assert_eq!(football_system(&mut ball, 900, false, true), Some(Goal { scorer: Some(4) }));
    assert_eq!(ball.last_touch, None);
    assert_eq!(football_system(&mut ball, 900, false, true), Some(Goal { scorer: None }));
    assert_eq!(ball_spawn(), Pos { x: 0, y: 20000, z: 0 });
    let mut a = agent(0);
    reward_goal(&mut a);
    assert_eq!(a.accumulated_reward, 10_000_000);
}

#[test]
fn discus_pick_up_throw_and_hit() {
    let mut d = DiscusState::Idle;
    assert_eq!(discus_contact(&mut d, 3), None);
    assert_eq!(d, DiscusState::Held { owner: 3, spin: 0 });
    assert_eq!(discus_contact(&mut d, 4), None);
    let mut action = vec![0i64; 10];
    action[7] = 900;
    let m = discus_held_step(&mut d, true, &action, 100);
    assert!(m.follow_owner);
    assert_eq!(m.turn, Some(600));
    assert_eq!(m.throw_speed, None);
    assert_eq!(d, DiscusState::Held { owner: 3, spin: 1000 });
    action[8] = 900;
    let m = discus_held_step(&mut d, true, &action, 100);
    assert_eq!(m.throw_speed, Some(30000));
    assert_eq!(d, DiscusState::Thrown { owner: 3 });
    assert_eq!(discus_contact(&mut d, 3), None);
    assert_eq!(discus_contact(&mut d, 4), Some(3));
    assert_eq!(d, DiscusState::Idle);
    let mut a = agent(3);
    reward_discus_hit(&mut a);
    assert_eq!(a.accumulated_reward, 5_000_000);
}

#[test]
fn discus_falls_when_its_owner_is_gone() {
    let mut d = DiscusState::Held { owner: 3, spin: 0 };
    let m = discus_held_step(&mut d, false, &vec![0i64; 10], 16);
    assert!(!m.follow_owner);
    assert_eq!(d, DiscusState::Idle);
    let mut h = DiscusState::Held { owner: 3, spin: 0 };
    let m = discus_held_step(&mut h, true, &vec![900i64; 5], 16);
    assert!(m.follow_owner && m.turn.is_none());
    assert_eq!(h, DiscusState::Held { owner: 3, spin: 0 });
}

#[test]
fn damage_rewards_name_both_cars_and_amounts() {
    let r = damage_rewards(&event(3000, true, SpecialAbility::NoAbility), Some(20));
    assert_eq!((r.attacker, r.attacker_gain, r.victim, r.victim_loss), (10, 203000, Some(20), 15000));
    let r = damage_rewards(&event(3000, false, SpecialAbility::NoAbility), Some(10));
    assert_eq!((r.attacker_gain, r.victim, r.victim_loss), (3000, None, 0));
    let r = damage_rewards(&event(3000, false, SpecialAbility::NoAbility), None);
    assert_eq!((r.victim, r.victim_loss), (None, 0));
    let reaction = react_to_damage(&event(2000, false, SpecialAbility::NoAbility), Some(20), None);
    assert_eq!(reaction.rewards.attacker_gain, 2000);
    assert_eq!(reaction.rewards.victim_loss, 10000);
}

#[test]
fn fragment_kicks_scale_the_draws() {
    let v = impulse_of(-999, 1999, 1);
    assert_eq!((v.x, v.y, v.z), (-1498, 2998, 1));
    let v = impulse_of(-1000, 500, 999);
    assert_eq!((v.x, v.y, v.z), (-1500, 750, 1498));
}
