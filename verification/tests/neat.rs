use neat_cars::ai::agent::{auto_aim_target, CarAgent, DriveMode};
use neat_cars::ai::neat::{NeatManager, ACTION_DIM, OBS_DIM, POPULATION_SIZE};
use neat_cars::ai::neat_core::{cross_gene, mutate_weight, ConnectionGene, FeedforwardNet, Genome, NetOp, NodeGene, NodeType, WEIGHT_LIMIT};
use neat_cars::arith::Pos;
use neat_cars::voxel::block::BlockType;
use neat_cars::voxel::grid::VoxelGrid;
use neat_cars::weapons::targeting::Body;

fn genome_with(conns: Vec<ConnectionGene>) -> Genome {
    Genome {
        nodes: vec![
            NodeGene { id: 0, node_type: NodeType::Input },
            NodeGene { id: 1, node_type: NodeType::Input },
            NodeGene { id: 2, node_type: NodeType::Output },
        ],
        connections: conns,
        fitness: 0,
    }
}

fn link(i: usize, o: usize, w: i64, inn: usize) -> ConnectionGene {
    ConnectionGene { in_node: i, out_node: o, weight: w, enabled: true, innovation: inn }
}

fn small_net_agent(id: usize, at: Pos) -> CarAgent {
    let g = Genome::new(1, 1);
    CarAgent::new(id, FeedforwardNet::new(&g, 1, 1), at)
}

#[test]
fn fresh_genome_wires_inputs_to_outputs() {
    let g = Genome::new(2, 1);
    assert_eq!(g.nodes.len(), 3);
    assert_eq!(g.nodes[0], NodeGene { id: 0, node_type: NodeType::Input });
    assert_eq!(g.nodes[2], NodeGene { id: 2, node_type: NodeType::Output });
    assert_eq!(g.connections.len(), 2);
    for (k, c) in g.connections.iter().enumerate() {
        assert_eq!(c.in_node, k % 2);
        assert_eq!(c.out_node, 2);
        assert_eq!(c.innovation, k);
        assert!(c.enabled);
        assert!(-1000 <= c.weight && c.weight < 1000);
    }
    assert_eq!(g.fitness, 0);
}

#[test]
fn zero_rate_mutation_changes_nothing() {
    let mut g = genome_with(vec![link(0, 2, 300, 0), link(1, 2, -200, 1)]);
    g.mutate_weights(0, 500);
    assert_eq!(g.connections[0].weight, 300);
    assert_eq!(g.connections[1].weight, -200);
}

#[test]
fn full_rate_mutation_keeps_structure() {
    let mut g = genome_with(vec![link(0, 2, 300, 0), link(1, 2, -200, 1)]);
    g.mutate_weights(1000, 500);
    assert_eq!(g.connections.len(), 2);
    assert_eq!(g.connections[1].innovation, 1);
    assert!(g.connections.iter().all(|c| c.out_node == 2 && c.enabled));
}

#[test]
fn weight_kept_when_roll_misses_rate() {
    assert_eq!(mutate_weight(300, 800, 0, -1500, 40, 800), 300);
    assert_eq!(mutate_weight(300, 999, 5, 0, 40, 800), 300);
}

#[test]
fn weight_redrawn_one_time_in_ten() {
    assert_eq!(mutate_weight(300, 10, 0, -1500, 40, 800), -1500);
}

#[test]
fn weight_perturbed_by_delta() {
    assert_eq!(mutate_weight(300, 10, 5, 0, -450, 800), -150);
    assert_eq!(mutate_weight(300, 799, 9, 1999, 499, 800), 799);
}

#[test]
fn weight_perturbation_saturates_at_limit() {
    assert_eq!(mutate_weight(WEIGHT_LIMIT - 10, 0, 1, 0, 400, 1000), WEIGHT_LIMIT);
    assert_eq!(mutate_weight(-WEIGHT_LIMIT + 10, 0, 1, 0, -400, 1000), -WEIGHT_LIMIT);
}

#[test]
fn full_rate_mutation_moves_weights_within_reach() {
    let mut g = genome_with(vec![link(0, 2, 300, 0), link(1, 2, -200, 1)]);
    g.mutate_weights(1000, 500);
    for (c, w) in g.connections.iter().zip([300i64, -200]) {
        let redrawn = -2000 <= c.weight && c.weight < 2000;
        let moved = w - 500 <= c.weight && c.weight < w + 500;
        assert!(redrawn || moved);
    }
}

#[test]
fn adding_a_connection_only_once() {
    let mut g = genome_with(vec![link(0, 2, 300, 0)]);
    g.add_connection(1, 2, 7);
    assert_eq!(g.connections.len(), 2);
    assert_eq!((g.connections[1].in_node, g.connections[1].out_node, g.connections[1].innovation), (1, 2, 7));
    assert!(g.connections[1].enabled);
    g.add_connection(1, 2, 8);
    assert_eq!(g.connections.len(), 2);
}

#[test]
fn splitting_a_connection() {
    let mut g = genome_with(vec![link(0, 2, 300, 0), link(1, 2, -200, 1)]);
    g.add_node(0, 3, 10, 11);
    assert_eq!(g.nodes.len(), 4);
    assert_eq!(g.nodes[3], NodeGene { id: 3, node_type: NodeType::Hidden });
    assert_eq!(g.connections.len(), 4);
    assert!(!g.connections[0].enabled);
    assert_eq!(g.connections[2], link(0, 3, 1000, 10));
    assert_eq!(g.connections[3], link(3, 2, 300, 11));
    g.add_node(9, 4, 12, 13);
    assert_eq!(g.connections.len(), 4);
}

#[test]
fn crossover_of_twins_is_a_twin() {
    let a = genome_with(vec![link(0, 2, 300, 0), link(1, 2, -200, 1)]);
    let b = a.clone();
    let child = Genome::crossover(&a, &b);
    assert_eq!(child.nodes, a.nodes);
    assert_eq!(child.connections.len(), 2);
    assert_eq!(child.connections[0].weight, 300);
    assert_eq!(child.connections[1].weight, -200);
    assert!(child.connections[0].enabled);
    assert_eq!(child.fitness, 0);
}

#[test]
fn crossover_keeps_fitter_parents_genes() {
    let a = genome_with(vec![link(0, 2, 300, 0), link(1, 2, -200, 5)]);
    let b = genome_with(vec![link(0, 2, 900, 0)]);
    let child = Genome::crossover(&a, &b);
    assert_eq!(child.connections.len(), 2);
    assert!(child.connections[0].weight == 300 || child.connections[0].weight == 900);
    assert_eq!(child.connections[1].weight, -200);
    assert_eq!(child.connections[1].innovation, 5);
}

#[test]
fn distance_between_twins_is_zero() {
    let a = genome_with(vec![link(0, 2, 300, 0), link(1, 2, -200, 1)]);
    assert_eq!(Genome::distance(&a, &a, 1000, 1000, 400), 0);
}

#[test]
fn distance_counts_excess_disjoint_and_weights() {
    let a = genome_with(vec![link(0, 2, 300, 0), link(1, 2, -200, 1)]);
    let b = genome_with(vec![link(0, 2, 800, 0), link(1, 2, -200, 1), link(1, 2, 5, 6)]);
    let p = Genome::distance_parts(&a, &b);
    assert_eq!((p.excess, p.disjoint, p.matching, p.weight_diff, p.n), (1, 0, 2, 500, 3));
    // 1000 * 1 / 3 + 0 + 400 * (500 / 2) / 1000
    assert_eq!(Genome::distance(&a, &b, 1000, 1000, 400), 333 + 100);
}

#[test]
fn distance_is_the_same_either_way_round() {
    let a = genome_with(vec![link(0, 2, 300, 0), link(1, 2, -200, 3)]);
    let b = genome_with(vec![link(0, 2, 800, 0), link(1, 2, 5, 2), link(1, 2, 5, 9)]);
    let ab = Genome::distance_parts(&a, &b);
    let ba = Genome::distance_parts(&b, &a);
    assert_eq!((ab.excess, ab.disjoint, ab.n), (ba.excess, ba.disjoint, ba.n));
    assert_eq!((ab.excess, ab.disjoint), (1, 2));
    assert_eq!(Genome::distance(&a, &b, 1000, 1000, 400), Genome::distance(&b, &a, 1000, 1000, 400));
}

#[test]
fn compiling_a_fresh_genome() {
    let a = genome_with(vec![link(0, 2, 300, 0), link(1, 2, -200, 1)]);
    let net = FeedforwardNet::new(&a, 2, 1);
    assert_eq!(net.node_count, 3);
    assert_eq!(net.input_ids, vec![0, 1]);
    assert_eq!(net.output_ids, vec![2]);
    assert_eq!(net.sorted_hidden_out, vec![2]);
    assert_eq!(net.ops.len(), 2);
    assert_eq!((net.ops[0].in_node, net.ops[0].out_node, net.ops[0].weight), (0, 2, 300));
}

#[test]
fn compiling_puts_hidden_nodes_first() {
    let mut a = genome_with(vec![link(0, 2, 300, 0), link(1, 2, -200, 1)]);
    a.add_node(0, 3, 10, 11);
    let net = FeedforwardNet::new(&a, 2, 1);
    assert_eq!(net.node_count, 4);
    assert_eq!(net.sorted_hidden_out, vec![3, 2]);
    let ops: Vec<(usize, usize, i64)> = net.ops.iter().map(|o: &NetOp| (o.in_node, o.out_node, o.weight)).collect();
    assert_eq!(ops, vec![(0, 3, 1000), (1, 2, -200), (3, 2, 300)]);
}

#[test]
fn first_generation() {
    let m = NeatManager::new();
    assert_eq!(m.generation, 1);
    assert_eq!(m.population.len(), POPULATION_SIZE);
    assert_eq!(m.global_innovation, OBS_DIM * ACTION_DIM);
    assert_eq!(m.global_node_id, OBS_DIM + ACTION_DIM);
    assert_eq!(m.population[0].connections.len(), 2820);
    assert_eq!(m.fitnesses.len(), 20);
}

#[test]
fn the_same_link_keeps_its_innovation_number() {
    let mut m = NeatManager::new();
    let a = m.get_innovation(3, 200);
    assert_eq!(a, 2820);
    let b = m.get_innovation(5, 201);
    assert_eq!(b, 2821);
    assert_eq!(m.get_innovation(3, 200), a);
    assert_eq!(m.global_innovation, 2822);
    assert_eq!(m.innovation_history.len(), 2);
}

#[test]
fn fitness_is_recorded_per_agent() {
    let mut m = NeatManager::new();
    m.set_fitness(3, 500);
    assert_eq!(m.population[3].fitness, 500);
    assert_eq!(m.population[4].fitness, 0);
    m.set_fitness(25, 900);
    assert!(m.population.iter().all(|g| g.fitness != 900));
}

#[test]
fn evolution_keeps_the_two_fittest() {
    let mut m = NeatManager::new();
    m.set_fitness(7, 100);
    m.set_fitness(4, 50);
    let best: Vec<i64> = m.population[7].connections.iter().map(|c| c.weight).collect();
    let second: Vec<i64> = m.population[4].connections.iter().map(|c| c.weight).collect();
    let before = m.get_innovation(1, 100);
    m.evolve();
    assert_eq!(m.generation, 2);
    assert_eq!(m.population.len(), 20);
    assert_eq!(m.population[0].fitness, 100);
    assert_eq!(m.population[1].fitness, 50);
    let w0: Vec<i64> = m.population[0].connections.iter().map(|c| c.weight).collect();
    let w1: Vec<i64> = m.population[1].connections.iter().map(|c| c.weight).collect();
    assert_eq!(w0, best);
    assert_eq!(w1, second);
    assert!(m.population[2..].iter().all(|g| g.fitness == 0));
    assert_eq!(m.get_innovation(1, 100), before);
}

#[test]
fn fresh_agent() {
    let a = small_net_agent(4, Pos { x: 1, y: 2, z: 3 });
    assert_eq!(a.agent_id, 4);
    assert_eq!(a.accumulated_reward, 0);
    assert_eq!(a.current_action, vec![0i64; ACTION_DIM]);
    assert_eq!(a.drive_mode, DriveMode::Semi);
    assert_eq!(a.last_position, Pos { x: 1, y: 2, z: 3 });
    let mut g = VoxelGrid::new();
    assert!(!a.is_alive(&g));
    g.place(0, 0, 0, BlockType::Steel);
    assert!(a.is_alive(&g));
}

#[test]
fn outputs_pick_the_drive_mode_with_a_lock() {
    let mut a = small_net_agent(0, Pos { x: 0, y: 0, z: 0 });
    let mut out = vec![0i64; 40];
    out[5] = 700;
    out[35] = 999;
    a.take_outputs(&out);
    assert_eq!(a.current_action.len(), ACTION_DIM);
    assert_eq!(a.current_action[5], 700);
    assert_eq!(a.drive_mode, DriveMode::Manual);
    assert_eq!(a.mode_lock_timer, 3000);
    out[5] = 100;
    a.take_outputs(&out);
    assert_eq!(a.drive_mode, DriveMode::Manual);
    a.mode_lock_timer = 0;
    a.take_outputs(&out);
    assert_eq!(a.drive_mode, DriveMode::Auto);
    a.take_outputs(&vec![500i64; 3]);
    assert_eq!(a.current_action[2], 500);
    assert_eq!(a.current_action[3], 0);
}

#[test]
fn actions_become_commands() {
    let mut a = small_net_agent(0, Pos { x: 0, y: 0, z: 0 });
    let mut out = vec![0i64; ACTION_DIM];
    out[0] = 1000;
    out[1] = 250;
    out[2] = 900;
    out[3] = 100;
    out[4] = 501;
    out[6] = 600;
    a.take_outputs(&out);
    let cmd = a.apply_action(&vec![11, 12, 13, 14]);
    assert_eq!(cmd.throttle, 1000);
    assert_eq!(cmd.steer, -500);
    assert_eq!(cmd.fire, vec![11, 13]);
    assert!(cmd.nitro);
    a.weapons_disabled = true;
    assert!(a.apply_action(&vec![11, 12, 13]).fire.is_empty());
    a.weapons_disabled = false;
    assert_eq!(a.apply_action(&vec![21]).fire, vec![21]);
}

#[test]
fn moving_without_a_reward_is_penalised() {
    let mut a = small_net_agent(0, Pos { x: 0, y: 0, z: 0 });
    let tp = a.step_reward(Pos { x: 3000, y: 0, z: 4000 }, Some(1000), 100);
    assert!(!tp);
    assert_eq!(a.accumulated_reward, -4000);
    assert_eq!(a.last_position, Pos { x: 3000, y: 0, z: 4000 });
    assert_eq!(a.anchor_timer, 100);
}

#[test]
fn moving_after_earning_is_rewarded_and_flying_pays() {
    let mut a = small_net_agent(0, Pos { x: 0, y: 0, z: 0 });
    a.add_reward(100000);
    a.step_reward(Pos { x: 3000, y: 0, z: 4000 }, None, 100);
    assert_eq!(a.accumulated_reward, 104000);
    let mut b = small_net_agent(1, Pos { x: 0, y: 10000, z: 0 });
    b.add_reward(100000);
    b.step_reward(Pos { x: 0, y: 10000, z: 0 }, Some(20000), 500);
    // height 10 m for 0.5 s: 0.5 points, speed 20 m/s for 0.5 s: 1 point
    assert_eq!(b.accumulated_reward, 101500);
}

#[test]
fn long_moves_count_ten_metres_at_most() {
    let mut a = small_net_agent(0, Pos { x: 0, y: 0, z: 0 });
    a.step_reward(Pos { x: 50000, y: 0, z: 0 }, None, 10);
    assert_eq!(a.accumulated_reward, -8000);
}

#[test]
fn idling_costs_after_two_seconds() {
    let mut a = small_net_agent(0, Pos { x: 0, y: 0, z: 0 });
    a.add_reward(100000);
    a.step_reward(Pos { x: 0, y: 0, z: 0 }, None, 1000);
    assert_eq!(a.immobile_timer, 1000);
    a.step_reward(Pos { x: 0, y: 0, z: 0 }, None, 1000);
    assert_eq!(a.accumulated_reward, 100000);
    a.step_reward(Pos { x: 0, y: 0, z: 0 }, None, 1000);
    assert_eq!(a.immobile_timer, 3000);
    assert_eq!(a.accumulated_reward, 85000);
}

#[test]
fn leaving_the_arena_sends_the_car_home() {
    let home = Pos { x: 5000, y: 15000, z: 5000 };
    let mut a = small_net_agent(0, home);
    assert!(!a.step_reward(Pos { x: 400000, y: 0, z: 0 }, None, 3000));
    assert_eq!(a.out_of_bounds_timer, 3000);
    assert!(a.step_reward(Pos { x: 400000, y: 0, z: 0 }, None, 3000));
    assert_eq!(a.last_position, home);
    assert_eq!(a.out_of_bounds_timer, 0);
}

#[test]
fn emp_wears_off() {
    let mut a = small_net_agent(0, Pos { x: 0, y: 0, z: 0 });
    a.weapons_disabled = true;
    a.weapon_disable_t = 1500;
    a.step_reward(Pos { x: 0, y: 0, z: 0 }, None, 1000);
    assert!(a.weapons_disabled);
    a.step_reward(Pos { x: 0, y: 0, z: 0 }, None, 600);
    assert!(!a.weapons_disabled);
}

#[test]
fn automatic_drivers_aim_at_the_nearest_car() {
    let cars = vec![
        Body { entity: 1, pos: Pos { x: 0, y: 0, z: 0 } },
        Body { entity: 2, pos: Pos { x: 9000, y: 0, z: 0 } },
        Body { entity: 3, pos: Pos { x: 4000, y: 0, z: 0 } },
    ];
    let from = Pos { x: 0, y: 0, z: 0 };
    assert_eq!(auto_aim_target(DriveMode::Auto, from, 1, &cars), Some(Pos { x: 4000, y: 0, z: 0 }));
    assert_eq!(auto_aim_target(DriveMode::Semi, from, 1, &cars), None);
    assert_eq!(auto_aim_target(DriveMode::Auto, from, 1, &cars[..1].to_vec()), None);
}

#[test]
fn crossed_genes_follow_the_draws() {
    let c1 = link(0, 2, 300, 4);
    let mut c2 = link(5, 6, -700, 4);
    let g = cross_gene(c1, c2, 0, 10);
    assert_eq!((g.in_node, g.out_node, g.weight, g.enabled, g.innovation), (0, 2, 300, true, 4));
    let g = cross_gene(c1, c2, 1, 10);
    assert_eq!((g.in_node, g.out_node, g.weight, g.enabled), (0, 2, -700, true));
    c2.enabled = false;
    assert!(!cross_gene(c1, c2, 0, 74).enabled);
    assert!(cross_gene(c1, c2, 0, 75).enabled);
    let mut d1 = c1;
    d1.enabled = false;
    assert!(!cross_gene(d1, c2, 0, 99).enabled);
}

#[test]
fn a_genome_is_at_distance_zero_from_itself() {
    let g = genome_with(vec![link(0, 2, 300, 0), link(1, 2, -200, 1), link(0, 1, 50, 7)]);
    assert_eq!(Genome::distance(&g, &g, 1000, 1000, 400), 0);
}

#[test]
fn bred_children_keep_a_top_parent_and_split_with_fresh_nodes() {
    let mut m = NeatManager::new();
    let floor = m.global_node_id;
    for g in 0..5 {
        for i in 0..POPULATION_SIZE {
            m.set_fitness(i, (i as i64) * 10 + g);
        }
        let before: Vec<(Vec<usize>, usize)> = m
            .population
            .iter()
            .map(|g| (g.nodes.iter().map(|n| n.id).collect(), g.connections.len()))
            .collect();
        let node_floor = m.global_node_id;
        m.evolve();
        for child in &m.population[2..] {
            let ids: Vec<usize> = child.nodes.iter().map(|n| n.id).collect();
            let ok = before.iter().any(|(p_ids, p_len)| {
                let same = &ids == p_ids && child.connections.len() >= *p_len && child.connections.len() <= p_len + 1;
                let split = ids.len() == p_ids.len() + 1
                    && ids[..p_ids.len()] == p_ids[..]
                    && *ids.last().unwrap() >= node_floor
                    && child.nodes.last().unwrap().node_type == NodeType::Hidden
                    && child.connections.len() >= p_len + 2
                    && child.connections.len() <= p_len + 3;
                same || split
            });
            assert!(ok);
        }
    }
    assert!(m.global_node_id >= floor);
}
