//! Genomes of the NEAT drivers: nodes, connections and their operators.
use vstd::prelude::*;
use crate::random::random_range;

verus! {

/// The role of a network node.
#[derive(Debug, Clone, Copy, PartialEq, Eq, Hash, Structural)]
pub enum NodeType {
    Input,
    Hidden,
    Output,
}

/// A network node.
#[derive(Debug, Clone, Copy, PartialEq, Eq, Structural)]
pub struct NodeGene {
    pub id: usize,
    pub node_type: NodeType,
}

/// A weighted link between two nodes; `weight` is in thousandths, and
/// `innovation` is the historical marking crossover lines genes up by.
#[derive(Debug, Clone, Copy, PartialEq, Eq, Structural)]
pub struct ConnectionGene {
    pub in_node: usize,
    pub out_node: usize,
    pub weight: i64,
    pub enabled: bool,
    pub innovation: usize,
}

/// Largest weight magnitude, in thousandths; mutation saturates here.
pub const WEIGHT_LIMIT: i64 = 1_000_000_000_000_000;

/// A network genome.  Each node id occurs at most once; `fitness` is in
/// thousandths.  The nodes are a list with unique ids rather than a map
/// from id, so that walking them (as `FeedforwardNet::new` does) goes in a
/// fixed order and the network compiled from a genome depends on the
/// genome alone, which a hash map's iteration order would not give.
#[derive(Debug)]
pub struct Genome {
    pub nodes: Vec<NodeGene>,
    pub connections: Vec<ConnectionGene>,
    pub fitness: i64,
}

/// No two nodes share an id.
pub open spec fn ids_unique(nodes: Seq<NodeGene>) -> bool {
    forall|a: int, b: int| 0 <= a < b < nodes.len() ==> #[trigger] nodes[a].id != #[trigger] nodes[b].id
}

/// Every weight lies within the weight limit.
pub open spec fn weights_bounded(cs: Seq<ConnectionGene>) -> bool {
    forall|k: int| 0 <= k < cs.len() ==> -WEIGHT_LIMIT <= #[trigger] cs[k].weight <= WEIGHT_LIMIT
}

/// The weight that `w` becomes under a mutation at rate `rate` (per mille),
/// given the draws: `roll` decides whether the weight mutates at all
/// (`roll < rate`), `pick` whether it is redrawn (`pick < 1`, one time in ten)
/// to `fresh`, and otherwise `delta` is added, saturating at the weight limit.
pub open spec fn mutated_weight(w: i64, roll: int, pick: int, fresh: int, delta: int, rate: int) -> int {
    if roll >= rate {
        w as int
    } else if pick < 1 {
        fresh
    } else if w + delta > WEIGHT_LIMIT {
        WEIGHT_LIMIT as int
    } else if w + delta < -WEIGHT_LIMIT {
        -WEIGHT_LIMIT
    } else {
        w + delta
    }
}

/// The draws that a weight mutation makes lie in their ranges: `roll` in
/// [0, 1000); where the weight mutates, `pick` in [0, 10); where it is
/// redrawn, `fresh` in [-2000, 2000) (thousandths of [-2, 2)); otherwise
/// `delta` in [-power, power).
pub open spec fn draws_in_range(roll: int, pick: int, fresh: int, delta: int, rate: int, power: int) -> bool {
    &&& 0 <= roll < 1000
    &&& roll < rate ==> 0 <= pick < 10
    &&& roll < rate && pick < 1 ==> -2000 <= fresh < 2000
    &&& roll < rate && pick >= 1 ==> -power <= delta < power
}

/// A weight mutation at rate `rate` with power `power` can turn weight `a`
/// into `b`: some draws in their ranges give `b`.
pub open spec fn weight_step(a: i64, b: i64, rate: int, power: int) -> bool {
    exists|roll: int, pick: int, fresh: int, delta: int|
        draws_in_range(roll, pick, fresh, delta, rate, power) && b == #[trigger] mutated_weight(
            a,
            roll,
            pick,
            fresh,
            delta,
            rate,
        )
}

/// The weight that `w` becomes for the given draws (see `mutated_weight`).
pub fn mutate_weight(w: i64, roll: i64, pick: i64, fresh: i64, delta: i64, rate: u32) -> (r: i64)
    ensures
        r == mutated_weight(w, roll as int, pick as int, fresh as int, delta as int, rate as int),
{
    if roll >= rate as i64 {
        w
    } else if pick < 1 {
        fresh
    } else {
        let sum: i128 = w as i128 + delta as i128;
        if sum > WEIGHT_LIMIT as i128 {
            WEIGHT_LIMIT
        } else if sum < -WEIGHT_LIMIT as i128 {
            -WEIGHT_LIMIT
        } else {
            sum as i64
        }
    }
}

impl Genome {
    /// Node ids are unique and weights bounded.
    pub open spec fn wf(&self) -> bool {
        ids_unique(self.nodes@) && weights_bounded(self.connections@)
    }
}

impl Clone for Genome {
    fn clone(&self) -> (g: Genome)
        ensures
            g.nodes@ == self.nodes@,
            g.connections@ == self.connections@,
            g.fitness == self.fitness,
    {
        let mut nodes: Vec<NodeGene> = Vec::new();
        let mut i: usize = 0;
        while i < self.nodes.len()
            invariant
                i <= self.nodes@.len(),
                nodes@ =~= self.nodes@.take(i as int),
            decreases self.nodes@.len() - i,
        {
            nodes.push(self.nodes[i]);
            i = i + 1;
        }
        let mut connections: Vec<ConnectionGene> = Vec::new();
        let mut j: usize = 0;
        while j < self.connections.len()
            invariant
                j <= self.connections@.len(),
                connections@ =~= self.connections@.take(j as int),
            decreases self.connections@.len() - j,
        {
            connections.push(self.connections[j]);
            j = j + 1;
        }
        assert(nodes@ =~= self.nodes@);
        assert(connections@ =~= self.connections@);
        Genome { nodes, connections, fitness: self.fitness }
    }
}

/// The nodes of a fresh genome: inputs 0..input_count, then outputs.
pub open spec fn initial_nodes(input_count: int, output_count: int) -> Seq<NodeGene> {
    Seq::new(
        (input_count + output_count) as nat,
        |k: int|
            NodeGene {
                id: k as usize,
                node_type: if k < input_count {
                    NodeType::Input
                } else {
                    NodeType::Output
                },
            },
    )
}

/// Connection `k` of a fresh genome links input `k % input_count` to output
/// `k / input_count` with innovation number `k`, enabled.
pub open spec fn initial_link(k: int, input_count: int, c: ConnectionGene) -> bool {
    &&& c.in_node == k % input_count
    &&& c.out_node == input_count + k / input_count
    &&& c.innovation == k
    &&& c.enabled
    &&& -1000 <= c.weight < 1000
}

/// Whether some connection already links `in_node` to `out_node`.
pub open spec fn has_link(cs: Seq<ConnectionGene>, in_node: usize, out_node: usize) -> bool {
    exists|k: int| 0 <= k < cs.len() && #[trigger] cs[k].in_node == in_node && cs[k].out_node == out_node
}

/// Index of the node with id `id`, if any.
pub open spec fn node_index(nodes: Seq<NodeGene>, id: usize) -> Option<int> {
    if exists|k: int| 0 <= k < nodes.len() && #[trigger] nodes[k].id == id {
        Some(choose|k: int| 0 <= k < nodes.len() && #[trigger] nodes[k].id == id)
    } else {
        None
    }
}

/// The nodes after a hidden node with id `id` is put in: an existing node
/// with that id becomes hidden, otherwise the node is added at the end.
pub open spec fn with_hidden(nodes: Seq<NodeGene>, id: usize) -> Seq<NodeGene> {
    match node_index(nodes, id) {
        Some(k) => nodes.update(k, NodeGene { id, node_type: NodeType::Hidden }),
        None => nodes.push(NodeGene { id, node_type: NodeType::Hidden }),
    }
}

/// Index of the last of the first `n` connections with innovation `inn`.
pub open spec fn last_with_innovation(cs: Seq<ConnectionGene>, inn: usize, n: int) -> Option<int>
    decreases n,
{
    if n <= 0 {
        None
    } else if cs[n - 1].innovation == inn {
        Some(n - 1)
    } else {
        last_with_innovation(cs, inn, n - 1)
    }
}

/// The last gene with a given innovation lies among the genes searched.
pub proof fn lemma_last_with_innovation_bound(cs: Seq<ConnectionGene>, inn: usize, n: int)
    requires
        n <= cs.len(),
    ensures
        last_with_innovation(cs, inn, n) matches Some(m) ==> 0 <= m < n && cs[m].innovation == inn,
    decreases n,
{
    if n > 0 {
        lemma_last_with_innovation_bound(cs, inn, n - 1);
    }
}

/// Index of the first connection with innovation `inn`, among indices `n..`.
pub open spec fn first_with_innovation_from(cs: Seq<ConnectionGene>, inn: usize, n: int) -> Option<int>
    decreases cs.len() - n,
{
    if n >= cs.len() || n < 0 {
        None
    } else if cs[n].innovation == inn {
        Some(n)
    } else {
        first_with_innovation_from(cs, inn, n + 1)
    }
}

/// The gene that crossing `c1` (the fitter parent's) with `c2` (the other
/// parent's, same innovation) gives for the draws `coin` and `roll`: the
/// weight is `c2`'s when the coin shows 1, and the gene stays enabled only
/// if `c1` was and either `c2` was too or the roll is 75 or more (a gene
/// disabled in either parent is disabled with probability 3/4); the link
/// and the marking are `c1`'s.
pub open spec fn crossed_with(c1: ConnectionGene, c2: ConnectionGene, coin: int, roll: int) -> ConnectionGene {
    ConnectionGene {
        weight: if coin == 1 { c2.weight } else { c1.weight },
        enabled: c1.enabled && (c2.enabled || roll >= 75),
        ..c1
    }
}

/// The other parent's gene with innovation `inn` that crossover looks at:
/// the last one, if any.
pub open spec fn partner_gene(cs: Seq<ConnectionGene>, inn: usize) -> Option<ConnectionGene> {
    match last_with_innovation(cs, inn, cs.len() as int) {
        Some(m) => Some(cs[m]),
        None => None,
    }
}

/// The child connection `child` may have come from the fitter parent's
/// connection `c1` (with `c2` the other parent's gene of the same
/// innovation, if any): `c1` itself when there is no such gene, otherwise
/// `crossed_with` for some coin in [0, 2) and roll in [0, 100).
pub open spec fn crossed_gene(c1: ConnectionGene, c2: Option<ConnectionGene>, child: ConnectionGene) -> bool {
    match c2 {
        None => child == c1,
        Some(o) => crossed_by_draws(c1, o, child),
    }
}

/// Some coin in [0, 2) and roll in [0, 100) make `child` of `c1` and `c2`.
pub open spec fn crossed_by_draws(c1: ConnectionGene, c2: ConnectionGene, child: ConnectionGene) -> bool {
    exists|coin: int, roll: int| 0 <= coin < 2 && 0 <= roll < 100 && child == #[trigger] crossed_with(c1, c2, coin, roll)
}

/// The gene that crossover makes of `c1` and `c2` for the draws `coin` and
/// `roll` (see `crossed_with`).
pub fn cross_gene(c1: ConnectionGene, c2: ConnectionGene, coin: i64, roll: i64) -> (g: ConnectionGene)
    ensures
        g == crossed_with(c1, c2, coin as int, roll as int),
{
    let mut g = c1;
    if coin == 1 {
        g.weight = c2.weight;
    }
    if !c2.enabled && roll < 75 {
        g.enabled = false;
    }
    g
}

impl Genome {
    /// A fresh genome: `input_count` input nodes (ids 0..input_count),
    /// `output_count` output nodes after them, and every input linked to
    /// every output with a random weight in [-1, 1), innovation numbers
    /// counting up output by output.
    pub fn new(input_count: usize, output_count: usize) -> (g: Genome)
        requires
            input_count + output_count <= usize::MAX,
            input_count * output_count <= usize::MAX,
        ensures
            g.wf(),
            g.fitness == 0,
            g.nodes@ == initial_nodes(input_count as int, output_count as int),
            g.connections@.len() == input_count * output_count,
            forall|k: int|
                0 <= k < g.connections@.len() ==> initial_link(k, input_count as int, #[trigger] g.connections@[k]),
    {
        let mut nodes: Vec<NodeGene> = Vec::new();
        let total = input_count + output_count;
        let mut k: usize = 0;
        while k < total
            invariant
                k <= total,
                total == input_count + output_count,
                nodes@ =~= initial_nodes(input_count as int, output_count as int).take(k as int),
            decreases total - k,
        {
            let t = if k < input_count { NodeType::Input } else { NodeType::Output };
            nodes.push(NodeGene { id: k, node_type: t });
            k = k + 1;
        }
        assert(nodes@ =~= initial_nodes(input_count as int, output_count as int));
        let mut connections: Vec<ConnectionGene> = Vec::new();
        let mut innov: usize = 0;
        let mut i: usize = 0;
        while i < output_count
            invariant
                i <= output_count,
                input_count * output_count <= usize::MAX,
                input_count + output_count <= usize::MAX,
                innov == i * input_count,
                connections@.len() == innov,
                forall|m: int|
                    0 <= m < connections@.len() ==> initial_link(m, input_count as int, #[trigger] connections@[m]),
            decreases output_count - i,
        {
            assert(i * input_count + input_count <= input_count * output_count) by (nonlinear_arith)
                requires
                    i < output_count,
            ;
            let mut j: usize = 0;
            while j < input_count
                invariant
                    i < output_count,
                    j <= input_count,
                    i * input_count + input_count <= input_count * output_count,
                    input_count * output_count <= usize::MAX,
                    input_count + output_count <= usize::MAX,
                    innov == i * input_count + j,
                    connections@.len() == innov,
                    forall|m: int|
                        0 <= m < connections@.len() ==> initial_link(m, input_count as int, #[trigger] connections@[m]),
                decreases input_count - j,
            {
                proof {
                    vstd::arithmetic::div_mod::lemma_fundamental_div_mod_converse(
                        innov as int,
                        input_count as int,
                        i as int,
                        j as int,
                    );
                }
                let w = random_range(-1000, 1000);
                connections.push(
                    ConnectionGene { in_node: j, out_node: input_count + i, weight: w, enabled: true, innovation: innov },
                );
                innov = innov + 1;
                j = j + 1;
            }
            assert((i + 1) * input_count == i * input_count + input_count) by (nonlinear_arith);
            i = i + 1;
        }
        assert(output_count * input_count == input_count * output_count) by (nonlinear_arith);
        proof {
            assert forall|a: int, b: int| 0 <= a < b < nodes@.len() implies #[trigger] nodes@[a].id
                != #[trigger] nodes@[b].id by {}
        }
        Genome { nodes, connections, fitness: 0 }
    }

    /// Perturbs the weights: each connection, with probability
    /// `mut_rate`/1000, either gets a fresh random weight in [-2, 2) (one
    /// time in ten) or has a random amount in [-mut_power, mut_power) added
    /// (saturating at the weight limit).
    pub fn mutate_weights(&mut self, mut_rate: u32, mut_power: i64)
        requires
            old(self).wf(),
            mut_rate == 0 || 0 < mut_power <= WEIGHT_LIMIT,
        ensures
            final(self).wf(),
            final(self).nodes@ == old(self).nodes@,
            final(self).fitness == old(self).fitness,
            final(self).connections@.len() == old(self).connections@.len(),
            forall|k: int|
                0 <= k < final(self).connections@.len() ==> {
                    let a = old(self).connections@[k];
                    let b = #[trigger] final(self).connections@[k];
                    b.in_node == a.in_node && b.out_node == a.out_node && b.enabled == a.enabled
                        && b.innovation == a.innovation && weight_step(
                        a.weight,
                        b.weight,
                        mut_rate as int,
                        mut_power as int,
                    )
                },
            mut_rate == 0 ==> final(self).connections@ == old(self).connections@,
    {
        let ghost orig = self.connections@;
        let mut k: usize = 0;
        while k < self.connections.len()
            invariant
                k <= self.connections@.len(),
                self.connections@.len() == orig.len(),
                ids_unique(self.nodes@),
                weights_bounded(self.connections@),
                mut_rate == 0 || 0 < mut_power <= WEIGHT_LIMIT,
                forall|m: int|
                    0 <= m < k ==> {
                        let a = orig[m];
                        let b = #[trigger] self.connections@[m];
                        b.in_node == a.in_node && b.out_node == a.out_node && b.enabled == a.enabled
                            && b.innovation == a.innovation && weight_step(
                            a.weight,
                            b.weight,
                            mut_rate as int,
                            mut_power as int,
                        )
                    },
                forall|m: int| k <= m < orig.len() ==> self.connections@[m] == orig[m],
                mut_rate == 0 ==> self.connections@ == orig,
                self.nodes@ == old(self).nodes@,
                self.fitness == old(self).fitness,
            decreases orig.len() - k,
        {
            let ghost before = self.connections@;
            let mut c = self.connections[k];
            let roll = random_range(0, 1000);
            if roll < mut_rate as i64 {
                let pick = random_range(0, 10);
                let fresh: i64 = if pick < 1 {
                    random_range(-2000, 2000)
                } else {
                    0
                };
                let delta: i64 = if pick < 1 {
                    0
                } else {
                    random_range(-mut_power, mut_power)
                };
                c.weight = mutate_weight(c.weight, roll, pick, fresh, delta, mut_rate);
                self.connections.set(k, c);
                assert(draws_in_range(
                    roll as int,
                    pick as int,
                    fresh as int,
                    delta as int,
                    mut_rate as int,
                    mut_power as int,
                ));
            } else {
                assert(draws_in_range(roll as int, 0, 0, 0, mut_rate as int, mut_power as int));
                assert(mutated_weight(c.weight, roll as int, 0, 0, 0, mut_rate as int) == c.weight);
            }
            assert(weight_step(orig[k as int].weight, self.connections@[k as int].weight, mut_rate as int, mut_power as int));
            assert forall|m: int| 0 <= m < k + 1 implies {
                let a = orig[m];
                let b = #[trigger] self.connections@[m];
                b.in_node == a.in_node && b.out_node == a.out_node && b.enabled == a.enabled
                    && b.innovation == a.innovation && weight_step(
                    a.weight,
                    b.weight,
                    mut_rate as int,
                    mut_power as int,
                )
            } by {
                if m < k {
                    assert(self.connections@[m] == before[m]);
                }
            }
            k = k + 1;
        }
    }

    /// Links `in_node` to `out_node` with a random weight in [-1, 1), unless
    /// some connection already links them.
    pub fn add_connection(&mut self, in_node: usize, out_node: usize, innovation: usize)
        requires
            old(self).wf(),
        ensures
            final(self).wf(),
            final(self).nodes@ == old(self).nodes@,
            final(self).fitness == old(self).fitness,
            has_link(old(self).connections@, in_node, out_node) ==> final(self).connections@ == old(
                self,
            ).connections@,
            !has_link(old(self).connections@, in_node, out_node) ==> {
                &&& final(self).connections@.len() == old(self).connections@.len() + 1
                &&& final(self).connections@.drop_last() == old(self).connections@
                &&& ({
                    let c = final(self).connections@.last();
                    c.in_node == in_node && c.out_node == out_node && c.enabled && c.innovation
                        == innovation && -1000 <= c.weight < 1000
                })
            },
    {
        let mut k: usize = 0;
        while k < self.connections.len()
            invariant
                k <= self.connections@.len(),
                old(self).wf(),
                self.nodes@ == old(self).nodes@,
                self.connections@ == old(self).connections@,
                self.fitness == old(self).fitness,
                forall|m: int|
                    0 <= m < k ==> !(#[trigger] self.connections@[m].in_node == in_node
                        && self.connections@[m].out_node == out_node),
            decreases self.connections@.len() - k,
        {
            if self.connections[k].in_node == in_node && self.connections[k].out_node == out_node {
                return;
            }
            k = k + 1;
        }
        let w = random_range(-1000, 1000);
        let ghost before = self.connections@;
        self.connections.push(ConnectionGene { in_node, out_node, weight: w, enabled: true, innovation });
        assert(self.connections@.drop_last() =~= before);
    }

    /// Splits connection `conn_index`: it is disabled, a hidden node
    /// `new_node_id` is put in, and two enabled links replace it, in to new
    /// (weight 1, innovation `innov1`) and new to out (the old weight,
    /// innovation `innov2`).  An index past the connections changes nothing.
    pub fn add_node(&mut self, conn_index: usize, new_node_id: usize, innov1: usize, innov2: usize)
        requires
            old(self).wf(),
        ensures
            final(self).wf(),
            final(self).fitness == old(self).fitness,
            conn_index >= old(self).connections@.len() ==> final(self).nodes@ == old(self).nodes@
                && final(self).connections@ == old(self).connections@,
            conn_index < old(self).connections@.len() ==> {
                let c = old(self).connections@[conn_index as int];
                &&& final(self).nodes@ == with_hidden(old(self).nodes@, new_node_id)
                &&& final(self).connections@ == old(self).connections@.update(
                    conn_index as int,
                    ConnectionGene { enabled: false, ..c },
                ).push(
                    ConnectionGene { in_node: c.in_node, out_node: new_node_id, weight: 1000, enabled: true, innovation: innov1 },
                ).push(
                    ConnectionGene { in_node: new_node_id, out_node: c.out_node, weight: c.weight, enabled: true, innovation: innov2 },
                )
            },
    {
        if conn_index >= self.connections.len() {
            return;
        }
        let c = self.connections[conn_index];
        self.connections.set(conn_index, ConnectionGene { enabled: false, ..c });
        let mut k: usize = 0;
        let mut found: Option<usize> = None;
        while k < self.nodes.len()
            invariant
                k <= self.nodes@.len(),
                match found {
                    Some(f) => f < self.nodes@.len() && self.nodes@[f as int].id == new_node_id,
                    None => forall|m: int| 0 <= m < k ==> #[trigger] self.nodes@[m].id != new_node_id,
                },
            decreases self.nodes@.len() - k,
        {
            if found.is_none() && self.nodes[k].id == new_node_id {
                found = Some(k);
            }
            k = k + 1;
        }
        let ghost nodes0 = self.nodes@;
        match found {
            Some(f) => {
                proof {
                    let ch = choose|m: int| 0 <= m < nodes0.len() && #[trigger] nodes0[m].id == new_node_id;
                    if ch != f as int {
                        if ch < f {
                            assert(nodes0[ch].id != nodes0[f as int].id);
                        } else {
                            assert(nodes0[f as int].id != nodes0[ch].id);
                        }
                    }
                }
                self.nodes.set(f, NodeGene { id: new_node_id, node_type: NodeType::Hidden });
                proof {
                    assert forall|a: int, b: int| 0 <= a < b < self.nodes@.len() implies #[trigger] self.nodes@[a].id
                        != #[trigger] self.nodes@[b].id by {
                        assert(self.nodes@[a].id == nodes0[a].id);
                        assert(self.nodes@[b].id == nodes0[b].id);
                    }
                }
            },
            None => {
                self.nodes.push(NodeGene { id: new_node_id, node_type: NodeType::Hidden });
                proof {
                    assert forall|a: int, b: int| 0 <= a < b < self.nodes@.len() implies #[trigger] self.nodes@[a].id
                        != #[trigger] self.nodes@[b].id by {
                        if b == self.nodes@.len() - 1 {
                            assert(nodes0[a].id != new_node_id);
                        } else {
                            assert(self.nodes@[a] == nodes0[a] && self.nodes@[b] == nodes0[b]);
                        }
                    }
                }
            },
        }
        self.connections.push(
            ConnectionGene { in_node: c.in_node, out_node: new_node_id, weight: 1000, enabled: true, innovation: innov1 },
        );
        self.connections.push(
            ConnectionGene { in_node: new_node_id, out_node: c.out_node, weight: c.weight, enabled: true, innovation: innov2 },
        );
    }

    /// A child of two parents, `parent1` being the fitter: it takes the
    /// fitter parent's nodes and genes; where the other parent has a gene
    /// of the same innovation (its last such gene), the weight is taken from
    /// either parent at random, and a gene disabled in either parent is
    /// disabled with probability 3/4 (always, if the fitter parent had it
    /// disabled).  Fitness starts at 0.
    pub fn crossover(parent1: &Genome, parent2: &Genome) -> (child: Genome)
        requires
            parent1.wf(),
            parent2.wf(),
        ensures
            child.wf(),
            child.fitness == 0,
            child.nodes@ == parent1.nodes@,
            child.connections@.len() == parent1.connections@.len(),
            forall|k: int|
                0 <= k < child.connections@.len() ==> crossed_gene(
                    parent1.connections@[k],
                    partner_gene(parent2.connections@, parent1.connections@[k].innovation),
                    #[trigger] child.connections@[k],
                ),
    {
        let p1 = parent1.clone();
        let mut connections: Vec<ConnectionGene> = Vec::new();
        let mut k: usize = 0;
        while k < parent1.connections.len()
            invariant
                k <= parent1.connections@.len(),
                parent1.wf(),
                parent2.wf(),
                connections@.len() == k,
                weights_bounded(connections@),
                forall|m: int|
                    0 <= m < k ==> crossed_gene(
                        parent1.connections@[m],
                        partner_gene(parent2.connections@, parent1.connections@[m].innovation),
                        #[trigger] connections@[m],
                    ),
            decreases parent1.connections@.len() - k,
        {
            let c1 = parent1.connections[k];
            proof {
                lemma_last_with_innovation_bound(parent2.connections@, c1.innovation, parent2.connections@.len() as int);
            }
            let ghost other = partner_gene(parent2.connections@, c1.innovation);
            let cg = match last_index_with_innovation(&parent2.connections, c1.innovation) {
                Some(q) => {
                    let c2 = parent2.connections[q];
                    assert(other == Some(c2));
                    let coin = random_range(0, 2);
                    let roll: i64 = if !c1.enabled || !c2.enabled {
                        random_range(0, 100)
                    } else {
                        0
                    };
                    let cg = cross_gene(c1, c2, coin, roll);
                    assert(cg == crossed_with(c1, c2, coin as int, roll as int));
                    assert(crossed_gene(c1, Some(c2), cg));
                    cg
                },
                None => {
                    assert(other is None);
                    c1
                },
            };
            assert(crossed_gene(c1, other, cg));
            let ghost before = connections@;
            connections.push(cg);
            proof {
                assert forall|m: int|
                    0 <= m < k + 1 implies crossed_gene(
                    parent1.connections@[m],
                    partner_gene(parent2.connections@, parent1.connections@[m].innovation),
                    #[trigger] connections@[m],
                ) by {
                    if m < k {
                        assert(connections@[m] == before[m]);
                    }
                }
            }
            k = k + 1;
        }
        Genome { nodes: p1.nodes, connections, fitness: 0 }
    }
}

/// Index of the last connection with innovation `inn`.
fn last_index_with_innovation(cs: &Vec<ConnectionGene>, inn: usize) -> (r: Option<usize>)
    ensures
        r matches Some(q) ==> last_with_innovation(cs@, inn, cs@.len() as int) == Some(q as int) && q
            < cs@.len(),
        r is None ==> last_with_innovation(cs@, inn, cs@.len() as int) is None,
{
    let mut n: usize = cs.len();
    while n > 0
        invariant
            n <= cs@.len(),
            last_with_innovation(cs@, inn, cs@.len() as int) == last_with_innovation(cs@, inn, n as int),
        decreases n,
    {
        if cs[n - 1].innovation == inn {
            return Some(n - 1);
        }
        n = n - 1;
    }
    None
}

/// Largest innovation number among the genes (0 for none).
pub open spec fn max_innovation(cs: Seq<ConnectionGene>) -> int
    decreases cs.len(),
{
    if cs.len() == 0 {
        0
    } else if cs.last().innovation as int > max_innovation(cs.drop_last()) {
        cs.last().innovation as int
    } else {
        max_innovation(cs.drop_last())
    }
}

/// The parts of the compatibility distance: genes of one genome without a
/// counterpart in the other, split into excess (innovation past the other
/// genome's largest) and disjoint; matching genes and the summed absolute
/// weight difference (thousandths) over them; and the size normaliser.
#[derive(Debug, Clone, Copy, PartialEq, Eq, Structural)]
pub struct DistanceParts {
    pub excess: u128,
    pub disjoint: u128,
    pub matching: u128,
    pub weight_diff: u128,
    pub n: u128,
}

/// Excess, disjoint and matching counts and summed weight difference over
/// the first `n` genes of `g1`, each matched with the first gene of `g2` of
/// the same innovation.
pub open spec fn first_side(g1: Seq<ConnectionGene>, g2: Seq<ConnectionGene>, n: int) -> (int, int, int, int)
    decreases n,
{
    if n <= 0 {
        (0, 0, 0, 0)
    } else {
        let p = first_side(g1, g2, n - 1);
        let c = g1[n - 1];
        match first_with_innovation_from(g2, c.innovation, 0) {
            Some(m) => (p.0, p.1, p.2 + 1, p.3 + if c.weight >= g2[m].weight {
                c.weight - g2[m].weight
            } else {
                g2[m].weight - c.weight
            }),
            None => if c.innovation > max_innovation(g2) {
                (p.0 + 1, p.1, p.2, p.3)
            } else {
                (p.0, p.1 + 1, p.2, p.3)
            },
        }
    }
}

/// Excess and disjoint counts over the first `n` genes of `g2` that have no
/// gene of the same innovation in `g1`.
pub open spec fn second_side(g2: Seq<ConnectionGene>, g1: Seq<ConnectionGene>, n: int) -> (int, int)
    decreases n,
{
    if n <= 0 {
        (0, 0)
    } else {
        let p = second_side(g2, g1, n - 1);
        let c = g2[n - 1];
        if first_with_innovation_from(g1, c.innovation, 0) is Some {
            p
        } else if c.innovation > max_innovation(g1) {
            (p.0 + 1, p.1)
        } else {
            (p.0, p.1 + 1)
        }
    }
}

/// The distance parts of two gene lists.
pub open spec fn distance_parts_of(g1: Seq<ConnectionGene>, g2: Seq<ConnectionGene>) -> DistanceParts {
    let a = first_side(g1, g2, g1.len() as int);
    let b = second_side(g2, g1, g2.len() as int);
    DistanceParts {
        excess: (a.0 + b.0) as u128,
        disjoint: (a.1 + b.1) as u128,
        matching: a.2 as u128,
        weight_diff: a.3 as u128,
        n: if g1.len() >= g2.len() && g1.len() >= 1 {
            g1.len() as u128
        } else if g2.len() >= 1 {
            g2.len() as u128
        } else {
            1
        },
    }
}

/// The compatibility distance, in thousandths, from its parts and the
/// coefficients (thousandths): c1 * excess / n + c2 * disjoint / n +
/// c3 * mean weight difference.
pub open spec fn distance_of(p: DistanceParts, c1: u64, c2: u64, c3: u64) -> int {
    (c1 as int) * (p.excess as int) / (p.n as int) + (c2 as int) * (p.disjoint as int) / (p.n as int) + (
    c3 as int) * (if p.matching > 0 {
        (p.weight_diff as int) / (p.matching as int)
    } else {
        p.weight_diff as int
    }) / 1000
}

/// A gene of the first list without a counterpart in the second is
/// classed the same way whichever side of the comparison it is on.
proof fn lemma_unmatched_same(g1: Seq<ConnectionGene>, g2: Seq<ConnectionGene>, n: int)
    ensures
        first_side(g1, g2, n).0 == second_side(g1, g2, n).0,
        first_side(g1, g2, n).1 == second_side(g1, g2, n).1,
    decreases n,
{
    if n > 0 {
        lemma_unmatched_same(g1, g2, n - 1);
    }
}

/// The excess and disjoint counts and the size normaliser of the
/// compatibility distance do not depend on the order of the two genomes.
pub proof fn lemma_distance_counts_symmetric(g1: Seq<ConnectionGene>, g2: Seq<ConnectionGene>)
    ensures
        distance_parts_of(g1, g2).excess == distance_parts_of(g2, g1).excess,
        distance_parts_of(g1, g2).disjoint == distance_parts_of(g2, g1).disjoint,
        distance_parts_of(g1, g2).n == distance_parts_of(g2, g1).n,
{
    lemma_unmatched_same(g1, g2, g1.len() as int);
    lemma_unmatched_same(g2, g1, g2.len() as int);
}

/// No two genes of the list share an innovation number.
pub open spec fn innovations_unique(cs: Seq<ConnectionGene>) -> bool {
    forall|a: int, b: int| 0 <= a < b < cs.len() ==> #[trigger] cs[a].innovation != #[trigger] cs[b].innovation
}

/// What genes `i` of `g1` and `j` of `g2` add to the matching count (or,
/// with `w`, to the weight difference): nothing unless they share an
/// innovation number.
spec fn pair_val(g1: Seq<ConnectionGene>, g2: Seq<ConnectionGene>, i: int, j: int, w: bool) -> int {
    if g1[i].innovation == g2[j].innovation {
        if w {
            if g1[i].weight >= g2[j].weight {
                g1[i].weight - g2[j].weight
            } else {
                g2[j].weight - g1[i].weight
            }
        } else {
            1
        }
    } else {
        0
    }
}

/// Sum of `pair_val` over the first `n` genes of `g2`, for gene `i` of `g1`.
spec fn row_sum(g1: Seq<ConnectionGene>, g2: Seq<ConnectionGene>, i: int, n: int, w: bool) -> int
    decreases n,
{
    if n <= 0 {
        0
    } else {
        row_sum(g1, g2, i, n - 1, w) + pair_val(g1, g2, i, n - 1, w)
    }
}

/// Sum of `pair_val` over the first `n` genes of `g1`, for gene `j` of `g2`.
spec fn col_sum(g1: Seq<ConnectionGene>, g2: Seq<ConnectionGene>, j: int, n: int, w: bool) -> int
    decreases n,
{
    if n <= 0 {
        0
    } else {
        col_sum(g1, g2, j, n - 1, w) + pair_val(g1, g2, n - 1, j, w)
    }
}

/// Sum of `pair_val` over the first `n1` genes of `g1` and `n2` of `g2`.
spec fn grid_sum(g1: Seq<ConnectionGene>, g2: Seq<ConnectionGene>, n1: int, n2: int, w: bool) -> int
    decreases n1,
{
    if n1 <= 0 {
        0
    } else {
        grid_sum(g1, g2, n1 - 1, n2, w) + row_sum(g1, g2, n1 - 1, n2, w)
    }
}

/// Summing down a column is summing along the matching row the other way round.
proof fn lemma_col_is_row(g1: Seq<ConnectionGene>, g2: Seq<ConnectionGene>, j: int, n: int, w: bool)
    ensures
        col_sum(g1, g2, j, n, w) == row_sum(g2, g1, j, n, w),
    decreases n,
{
    if n > 0 {
        lemma_col_is_row(g1, g2, j, n - 1, w);
    }
}

/// An empty set of columns sums to nothing.
proof fn lemma_grid_no_cols(g1: Seq<ConnectionGene>, g2: Seq<ConnectionGene>, n1: int, w: bool)
    ensures
        grid_sum(g1, g2, n1, 0, w) == 0,
    decreases n1,
{
    if n1 > 0 {
        lemma_grid_no_cols(g1, g2, n1 - 1, w);
    }
}

/// Adding a column adds its sum.
proof fn lemma_grid_step(g1: Seq<ConnectionGene>, g2: Seq<ConnectionGene>, n1: int, n2: int, w: bool)
    requires
        n2 >= 0,
    ensures
        grid_sum(g1, g2, n1, n2 + 1, w) == grid_sum(g1, g2, n1, n2, w) + col_sum(g1, g2, n2, n1, w),
    decreases n1,
{
    if n1 > 0 {
        lemma_grid_step(g1, g2, n1 - 1, n2, w);
    }
}

/// The double sum is the same taken either way round.
proof fn lemma_grid_swap(g1: Seq<ConnectionGene>, g2: Seq<ConnectionGene>, n1: int, n2: int, w: bool)
    requires
        n1 >= 0,
        n2 >= 0,
    ensures
        grid_sum(g1, g2, n1, n2, w) == grid_sum(g2, g1, n2, n1, w),
    decreases n2,
{
    if n2 == 0 {
        lemma_grid_no_cols(g1, g2, n1, w);
    } else {
        lemma_grid_swap(g1, g2, n1, n2 - 1, w);
        lemma_grid_step(g1, g2, n1, n2 - 1, w);
        lemma_col_is_row(g1, g2, n2 - 1, n1, w);
    }
}

/// With unique innovation numbers, the gene carrying one is the first.
proof fn lemma_first_is_the_one(cs: Seq<ConnectionGene>, inn: usize, m: int, k: int)
    requires
        innovations_unique(cs),
        0 <= k <= m < cs.len(),
        cs[m].innovation == inn,
    ensures
        first_with_innovation_from(cs, inn, k) == Some(m),
    decreases m - k,
{
    if k < m {
        assert(cs[k].innovation != cs[m].innovation);
        lemma_first_is_the_one(cs, inn, m, k + 1);
    }
}

/// With unique innovation numbers in `g2`, a row sums to what gene `i`
/// adds with its counterpart, if that lies among the first `n` genes.
proof fn lemma_row_is_match(g1: Seq<ConnectionGene>, g2: Seq<ConnectionGene>, i: int, n: int, w: bool)
    requires
        innovations_unique(g2),
        0 <= n <= g2.len(),
    ensures
        row_sum(g1, g2, i, n, w) == match first_with_innovation_from(g2, g1[i].innovation, 0) {
            Some(m) => if m < n { pair_val(g1, g2, i, m, w) } else { 0 },
            None => 0,
        },
    decreases n,
{
    lemma_first_with_innovation_bound(g2, g1[i].innovation, 0);
    if n > 0 {
        lemma_row_is_match(g1, g2, i, n - 1, w);
        if g2[n - 1].innovation == g1[i].innovation {
            lemma_first_is_the_one(g2, g1[i].innovation, n - 1, 0);
        }
    }
}

/// With unique innovation numbers in `g2`, the matching count and weight
/// difference gathered over the first `n` genes of `g1` are double sums.
proof fn lemma_first_side_is_grid(g1: Seq<ConnectionGene>, g2: Seq<ConnectionGene>, n: int)
    requires
        innovations_unique(g2),
        0 <= n <= g1.len(),
    ensures
        first_side(g1, g2, n).2 == grid_sum(g1, g2, n, g2.len() as int, false),
        first_side(g1, g2, n).3 == grid_sum(g1, g2, n, g2.len() as int, true),
    decreases n,
{
    if n > 0 {
        lemma_first_side_is_grid(g1, g2, n - 1);
        lemma_row_is_match(g1, g2, n - 1, g2.len() as int, false);
        lemma_row_is_match(g1, g2, n - 1, g2.len() as int, true);
        lemma_first_with_innovation_bound(g2, g1[n - 1].innovation, 0);
    }
}

/// When neither genome carries an innovation number twice, the parts of
/// the compatibility distance, and so the distance, do not depend on the
/// order of the two genomes.
pub proof fn lemma_distance_symmetric(g1: Seq<ConnectionGene>, g2: Seq<ConnectionGene>)
    requires
        innovations_unique(g1),
        innovations_unique(g2),
    ensures
        distance_parts_of(g1, g2) == distance_parts_of(g2, g1),
{
    lemma_distance_counts_symmetric(g1, g2);
    lemma_first_side_is_grid(g1, g2, g1.len() as int);
    lemma_first_side_is_grid(g2, g1, g2.len() as int);
    lemma_grid_swap(g1, g2, g1.len() as int, g2.len() as int, false);
    lemma_grid_swap(g1, g2, g1.len() as int, g2.len() as int, true);
}

/// Compared with itself, a gene list with unique innovation numbers
/// matches every gene, with no weight difference.
proof fn lemma_self_sides(g: Seq<ConnectionGene>, n: int)
    requires
        innovations_unique(g),
        0 <= n <= g.len(),
    ensures
        first_side(g, g, n) == (0int, 0int, n, 0int),
        second_side(g, g, n) == (0int, 0int),
    decreases n,
{
    if n > 0 {
        lemma_self_sides(g, n - 1);
        lemma_first_is_the_one(g, g[n - 1].innovation, n - 1, 0);
    }
}

/// A genome whose innovation numbers are unique is at distance 0 from
/// itself, for any coefficients.
pub proof fn lemma_distance_to_self(g: Genome, c1: u64, c2: u64, c3: u64)
    requires
        innovations_unique(g.connections@),
    ensures
        distance_of(distance_parts_of(g.connections@, g.connections@), c1, c2, c3) == 0,
{
    let cs = g.connections@;
    lemma_self_sides(cs, cs.len() as int);
    assert(cs.len() == g.connections.len());
    let p = distance_parts_of(cs, cs);
    assert(p.excess == 0 && p.disjoint == 0 && p.weight_diff == 0);
    assert(p.n >= 1);
    assert((c1 as int) * 0 == 0 && (c2 as int) * 0 == 0 && (c3 as int) * 0 == 0);
    if p.matching > 0 {
        assert((p.weight_diff as int) / (p.matching as int) == 0);
    }
}

/// Index of the first gene with innovation `inn`.
fn first_index_with_innovation(cs: &Vec<ConnectionGene>, inn: usize) -> (r: Option<usize>)
    ensures
        r matches Some(q) ==> first_with_innovation_from(cs@, inn, 0) == Some(q as int) && q < cs@.len(),
        r is None ==> first_with_innovation_from(cs@, inn, 0) is None,
{
    let mut k: usize = 0;
    while k < cs.len()
        invariant
            k <= cs@.len(),
            first_with_innovation_from(cs@, inn, 0) == first_with_innovation_from(cs@, inn, k as int),
        decreases cs@.len() - k,
    {
        if cs[k].innovation == inn {
            return Some(k);
        }
        k = k + 1;
    }
    None
}

/// Largest innovation number among the genes (0 for none).
fn largest_innovation(cs: &Vec<ConnectionGene>) -> (m: usize)
    ensures
        m == max_innovation(cs@),
{
    let mut m: usize = 0;
    let mut k: usize = 0;
    while k < cs.len()
        invariant
            k <= cs@.len(),
            m == max_innovation(cs@.take(k as int)),
        decreases cs@.len() - k,
    {
        assert(cs@.take(k as int + 1).drop_last() =~= cs@.take(k as int));
        if cs[k].innovation > m {
            m = cs[k].innovation;
        }
        k = k + 1;
    }
    assert(cs@.take(cs@.len() as int) =~= cs@);
    m
}

impl Genome {
    /// The parts of the compatibility distance between two genomes.
    pub fn distance_parts(g1: &Genome, g2: &Genome) -> (p: DistanceParts)
        requires
            g1.wf(),
            g2.wf(),
        ensures
            p == distance_parts_of(g1.connections@, g2.connections@),
    {
        let max1 = largest_innovation(&g1.connections);
        let max2 = largest_innovation(&g2.connections);
        let mut excess: u128 = 0;
        let mut disjoint: u128 = 0;
        let mut matching: u128 = 0;
        let mut wd: u128 = 0;
        let mut k: usize = 0;
        while k < g1.connections.len()
            invariant
                k <= g1.connections@.len(),
                g1.wf(),
                g2.wf(),
                max2 == max_innovation(g2.connections@),
                (excess as int, disjoint as int, matching as int, wd as int) == first_side(
                    g1.connections@,
                    g2.connections@,
                    k as int,
                ),
                excess + disjoint + matching == k,
                wd <= 2_000_000_000_000_000 * matching,
            decreases g1.connections@.len() - k,
        {
            let c = g1.connections[k];
            assert(-WEIGHT_LIMIT <= g1.connections@[k as int].weight <= WEIGHT_LIMIT);
            match first_index_with_innovation(&g2.connections, c.innovation) {
                Some(m) => {
                    let w2 = g2.connections[m].weight;
                    assert(-WEIGHT_LIMIT <= g2.connections@[m as int].weight <= WEIGHT_LIMIT);
                    let d: u128 = if c.weight >= w2 {
                        (c.weight as i128 - w2 as i128) as u128
                    } else {
                        (w2 as i128 - c.weight as i128) as u128
                    };
                    assert(d <= 2 * WEIGHT_LIMIT);
                    assert(matching <= k);
                    matching = matching + 1;
                    wd = wd + d;
                },
                None => {
                    if c.innovation > max2 {
                        excess = excess + 1;
                    } else {
                        disjoint = disjoint + 1;
                    }
                },
            }
            k = k + 1;
        }
        let len1 = g1.connections.len();
        let mut k2: usize = 0;
        let ghost a = first_side(g1.connections@, g2.connections@, g1.connections@.len() as int);
        while k2 < g2.connections.len()
            invariant
                k2 <= g2.connections@.len(),
                max1 == max_innovation(g1.connections@),
                a == first_side(g1.connections@, g2.connections@, g1.connections@.len() as int),
                excess as int == a.0 + second_side(g2.connections@, g1.connections@, k2 as int).0,
                disjoint as int == a.1 + second_side(g2.connections@, g1.connections@, k2 as int).1,
                matching as int == a.2,
                wd as int == a.3,
                len1 == g1.connections@.len(),
                excess + disjoint + matching <= len1 + k2,
            decreases g2.connections@.len() - k2,
        {
            let c = g2.connections[k2];
            match first_index_with_innovation(&g1.connections, c.innovation) {
                Some(_) => {},
                None => {
                    if c.innovation > max1 {
                        excess = excess + 1;
                    } else {
                        disjoint = disjoint + 1;
                    }
                },
            }
            k2 = k2 + 1;
        }
        let l1 = g1.connections.len() as u128;
        let l2 = g2.connections.len() as u128;
        let n: u128 = if l1 >= l2 && l1 >= 1 {
            l1
        } else if l2 >= 1 {
            l2
        } else {
            1
        };
        DistanceParts { excess, disjoint, matching, weight_diff: wd, n }
    }

    /// The compatibility distance between two genomes, in thousandths, for
    /// coefficients c1 (excess), c2 (disjoint) and c3 (weight difference),
    /// each in thousandths.
    pub fn distance(g1: &Genome, g2: &Genome, c1: u64, c2: u64, c3: u64) -> (d: u128)
        requires
            g1.wf(),
            g2.wf(),
            c1 <= 1_000_000_000,
            c2 <= 1_000_000_000,
            c3 <= 1_000_000_000,
        ensures
            d == distance_of(distance_parts_of(g1.connections@, g2.connections@), c1, c2, c3),
    {
        let p = Genome::distance_parts(g1, g2);
        let l1 = g1.connections.len();
        let l2 = g2.connections.len();
        assert(l1 <= 0xffff_ffff_ffff_ffff && l2 <= 0xffff_ffff_ffff_ffff);
        proof {
            lemma_parts_bounds(g1.connections@, g2.connections@);
        }
        let mean: u128 = if p.matching > 0 { p.weight_diff / (p.matching as u128) } else { p.weight_diff };
        assert(mean <= 2 * WEIGHT_LIMIT) by (nonlinear_arith)
            requires
                mean == (if p.matching > 0 { p.weight_diff / p.matching } else { p.weight_diff }),
                p.weight_diff <= 2_000_000_000_000_000 * p.matching,
                p.matching >= 0,
        ;
        assert((c3 as u128) * mean <= 1_000_000_000 * 2 * WEIGHT_LIMIT) by (nonlinear_arith)
            requires
                c3 <= 1_000_000_000,
                mean <= 2 * WEIGHT_LIMIT,
        ;
        assert((c1 as u128) * (p.excess as u128) <= 1_000_000_000 * 0x2_0000_0000_0000_0000) by (nonlinear_arith)
            requires
                c1 <= 1_000_000_000,
                p.excess <= 0x2_0000_0000_0000_0000,
        ;
        assert((c2 as u128) * (p.disjoint as u128) <= 1_000_000_000 * 0x2_0000_0000_0000_0000) by (nonlinear_arith)
            requires
                c2 <= 1_000_000_000,
                p.disjoint <= 0x2_0000_0000_0000_0000,
        ;
        (c1 as u128) * (p.excess as u128) / (p.n as u128) + (c2 as u128) * (p.disjoint as u128) / (p.n as u128)
            + (c3 as u128) * mean / 1000
    }
}

/// The summed weight difference stays small enough for the distance sums.
proof fn lemma_parts_bounds(g1: Seq<ConnectionGene>, g2: Seq<ConnectionGene>)
    requires
        weights_bounded(g1),
        weights_bounded(g2),
        g1.len() <= 0xffff_ffff_ffff_ffff,
        g2.len() <= 0xffff_ffff_ffff_ffff,
    ensures
        distance_parts_of(g1, g2).weight_diff <= 2_000_000_000_000_000 * distance_parts_of(g1, g2).matching,
        distance_parts_of(g1, g2).excess <= 0x2_0000_0000_0000_0000,
        distance_parts_of(g1, g2).disjoint <= 0x2_0000_0000_0000_0000,
        distance_parts_of(g1, g2).n >= 1,
{
    lemma_first_side_bound(g1, g2, g1.len() as int);
    lemma_second_side_bound(g2, g1, g2.len() as int);
}

proof fn lemma_second_side_bound(g2: Seq<ConnectionGene>, g1: Seq<ConnectionGene>, n: int)
    requires
        0 <= n <= g2.len(),
    ensures
        0 <= second_side(g2, g1, n).0,
        0 <= second_side(g2, g1, n).1,
        second_side(g2, g1, n).0 + second_side(g2, g1, n).1 <= n,
    decreases n,
{
    if n > 0 {
        lemma_second_side_bound(g2, g1, n - 1);
    }
}

proof fn lemma_first_side_bound(g1: Seq<ConnectionGene>, g2: Seq<ConnectionGene>, n: int)
    requires
        weights_bounded(g1),
        weights_bounded(g2),
        0 <= n <= g1.len(),
    ensures
        0 <= first_side(g1, g2, n).3 <= 2_000_000_000_000_000 * first_side(g1, g2, n).2,
        0 <= first_side(g1, g2, n).0,
        0 <= first_side(g1, g2, n).1,
        0 <= first_side(g1, g2, n).2,
        first_side(g1, g2, n).0 + first_side(g1, g2, n).1 + first_side(g1, g2, n).2 == n,
    decreases n,
{
    if n > 0 {
        lemma_first_side_bound(g1, g2, n - 1);
        lemma_first_with_innovation_bound(g2, g1[n - 1].innovation, 0);
        assert(-WEIGHT_LIMIT <= g1[n - 1].weight <= WEIGHT_LIMIT);
        match first_with_innovation_from(g2, g1[n - 1].innovation, 0) {
            Some(m) => {
                assert(-WEIGHT_LIMIT <= g2[m].weight <= WEIGHT_LIMIT);
            },
            None => {},
        }
    }
}

/// The first gene with a given innovation lies among the genes searched.
pub proof fn lemma_first_with_innovation_bound(cs: Seq<ConnectionGene>, inn: usize, n: int)
    requires
        0 <= n,
    ensures
        first_with_innovation_from(cs, inn, n) matches Some(m) ==> n <= m < cs.len() && cs[m].innovation == inn,
    decreases cs.len() - n,
{
    if n < cs.len() && cs[n].innovation != inn {
        lemma_first_with_innovation_bound(cs, inn, n + 1);
    }
}

/// One multiply-accumulate step of network evaluation.
#[derive(Debug, Clone, Copy, PartialEq, Eq, Structural)]
pub struct NetOp {
    pub in_node: usize,
    pub out_node: usize,
    pub weight: i64,
}

/// A genome compiled for evaluation: input and output ids ascending, the
/// nodes that compute (hidden ascending, then outputs), and the enabled
/// links grouped by the node they feed, in that order.  `node_count` is one
/// past the largest node id: the size of the value table.
#[derive(Debug)]
pub struct FeedforwardNet {
    pub node_count: usize,
    pub ops: Vec<NetOp>,
    pub input_ids: Vec<usize>,
    pub output_ids: Vec<usize>,
    pub sorted_hidden_out: Vec<usize>,
}

/// Type of the last of the first `n` nodes with id `id`, if any.
pub open spec fn type_of_id_upto(nodes: Seq<NodeGene>, id: int, n: int) -> Option<NodeType>
    decreases n,
{
    if n <= 0 {
        None
    } else if nodes[n - 1].id == id {
        Some(nodes[n - 1].node_type)
    } else {
        type_of_id_upto(nodes, id, n - 1)
    }
}

/// Type of the node with id `id`, if any.
pub open spec fn type_of_id(nodes: Seq<NodeGene>, id: int) -> Option<NodeType> {
    type_of_id_upto(nodes, id, nodes.len() as int)
}

/// Ids below `m` of the nodes of type `t`, ascending.
pub open spec fn ids_of_type(nodes: Seq<NodeGene>, t: NodeType, m: int) -> Seq<usize>
    decreases m,
{
    if m <= 0 {
        Seq::empty()
    } else {
        ids_of_type(nodes, t, m - 1) + if type_of_id(nodes, m - 1) == Some(t) {
            seq![(m - 1) as usize]
        } else {
            Seq::empty()
        }
    }
}

/// Largest node id among the first `n` nodes (0 for none).
pub open spec fn max_node_id(nodes: Seq<NodeGene>, n: int) -> int
    decreases n,
{
    if n <= 0 {
        0
    } else if nodes[n - 1].id as int > max_node_id(nodes, n - 1) {
        nodes[n - 1].id as int
    } else {
        max_node_id(nodes, n - 1)
    }
}

/// Steps for the enabled links among the first `n` that feed node `id`.
pub open spec fn ops_into(cs: Seq<ConnectionGene>, id: usize, n: int) -> Seq<NetOp>
    decreases n,
{
    if n <= 0 {
        Seq::empty()
    } else {
        ops_into(cs, id, n - 1) + if cs[n - 1].enabled && cs[n - 1].out_node == id {
            seq![NetOp { in_node: cs[n - 1].in_node, out_node: id, weight: cs[n - 1].weight }]
        } else {
            Seq::empty()
        }
    }
}

/// Steps for the first `m` computing nodes of `order`, node by node.
pub open spec fn ops_for_order(cs: Seq<ConnectionGene>, order: Seq<usize>, m: int) -> Seq<NetOp>
    decreases m,
{
    if m <= 0 {
        Seq::empty()
    } else {
        ops_for_order(cs, order, m - 1) + ops_into(cs, order[m - 1], cs.len() as int)
    }
}

/// `net` is the network compiled from genome `g`.
pub open spec fn compiled_from(net: FeedforwardNet, g: Genome) -> bool {
    &&& net.node_count == max_node_id(g.nodes@, g.nodes@.len() as int) + 1
    &&& net.input_ids@ == ids_of_type(g.nodes@, NodeType::Input, net.node_count as int)
    &&& net.output_ids@ == ids_of_type(g.nodes@, NodeType::Output, net.node_count as int)
    &&& net.sorted_hidden_out@ == ids_of_type(g.nodes@, NodeType::Hidden, net.node_count as int)
        + net.output_ids@
    &&& net.ops@ == ops_for_order(g.connections@, net.sorted_hidden_out@, net.sorted_hidden_out@.len() as int)
}

impl FeedforwardNet {
    /// Compiles a genome for evaluation.
    pub fn new(genome: &Genome, _input_count: usize, _output_count: usize) -> (net: FeedforwardNet)
        requires
            genome.wf(),
            forall|k: int| 0 <= k < genome.nodes@.len() ==> #[trigger] genome.nodes@[k].id < usize::MAX,
        ensures
            net.node_count == max_node_id(genome.nodes@, genome.nodes@.len() as int) + 1,
            net.input_ids@ == ids_of_type(genome.nodes@, NodeType::Input, net.node_count as int),
            net.output_ids@ == ids_of_type(genome.nodes@, NodeType::Output, net.node_count as int),
            net.sorted_hidden_out@ == ids_of_type(genome.nodes@, NodeType::Hidden, net.node_count as int)
                + net.output_ids@,
            net.ops@ == ops_for_order(
                genome.connections@,
                net.sorted_hidden_out@,
                net.sorted_hidden_out@.len() as int,
            ),
            compiled_from(net, *genome),
    {
        let nodes = &genome.nodes;
        let mut max_id: usize = 0;
        let mut k: usize = 0;
        while k < nodes.len()
            invariant
                k <= nodes@.len(),
                max_id == max_node_id(nodes@, k as int),
                max_id < usize::MAX,
                forall|j: int| 0 <= j < nodes@.len() ==> #[trigger] nodes@[j].id < usize::MAX,
                forall|j: int| 0 <= j < k ==> #[trigger] nodes@[j].id <= max_id,
            decreases nodes@.len() - k,
        {
            if nodes[k].id > max_id {
                max_id = nodes[k].id;
            }
            k = k + 1;
        }
        let size = max_id + 1;
        let mut table: Vec<Option<NodeType>> = Vec::new();
        let mut i: usize = 0;
        while i < size
            invariant
                i <= size,
                table@.len() == i,
                forall|j: int| 0 <= j < i ==> table@[j] is None,
            decreases size - i,
        {
            table.push(None);
            i = i + 1;
        }
        let mut k: usize = 0;
        while k < nodes.len()
            invariant
                k <= nodes@.len(),
                table@.len() == size,
                size == max_id + 1,
                forall|j: int| 0 <= j < nodes@.len() ==> #[trigger] nodes@[j].id <= max_id,
                forall|id: int| 0 <= id < size ==> table@[id] == type_of_id_upto(nodes@, id, k as int),
            decreases nodes@.len() - k,
        {
            let nd = nodes[k];
            table.set(nd.id, Some(nd.node_type));
            k = k + 1;
        }
        let mut inputs: Vec<usize> = Vec::new();
        let mut outputs: Vec<usize> = Vec::new();
        let mut hidden: Vec<usize> = Vec::new();
        let mut id: usize = 0;
        while id < size
            invariant
                id <= size,
                table@.len() == size,
                forall|j: int| 0 <= j < size ==> table@[j] == type_of_id(nodes@, j),
                inputs@ == ids_of_type(nodes@, NodeType::Input, id as int),
                outputs@ == ids_of_type(nodes@, NodeType::Output, id as int),
                hidden@ == ids_of_type(nodes@, NodeType::Hidden, id as int),
            decreases size - id,
        {
            match table[id] {
                Some(NodeType::Input) => inputs.push(id),
                Some(NodeType::Output) => outputs.push(id),
                Some(NodeType::Hidden) => hidden.push(id),
                None => {},
            }
            id = id + 1;
        }
        let mut order: Vec<usize> = Vec::new();
        let mut a: usize = 0;
        while a < hidden.len()
            invariant
                a <= hidden@.len(),
                order@ =~= hidden@.take(a as int),
            decreases hidden@.len() - a,
        {
            order.push(hidden[a]);
            a = a + 1;
        }
        let mut b: usize = 0;
        while b < outputs.len()
            invariant
                b <= outputs@.len(),
                order@ =~= hidden@ + outputs@.take(b as int),
            decreases outputs@.len() - b,
        {
            order.push(outputs[b]);
            b = b + 1;
        }
        assert(outputs@.take(outputs@.len() as int) =~= outputs@);
        let cs = &genome.connections;
        let mut ops: Vec<NetOp> = Vec::new();
        let mut m: usize = 0;
        while m < order.len()
            invariant
                m <= order@.len(),
                ops@ =~= ops_for_order(cs@, order@, m as int),
            decreases order@.len() - m,
        {
            let target = order[m];
            let mut q: usize = 0;
            let ghost base = ops@;
            while q < cs.len()
                invariant
                    q <= cs@.len(),
                    ops@ =~= base + ops_into(cs@, target, q as int),
                decreases cs@.len() - q,
            {
                let c = cs[q];
                if c.enabled && c.out_node == target {
                    ops.push(NetOp { in_node: c.in_node, out_node: target, weight: c.weight });
                }
                q = q + 1;
            }
            m = m + 1;
        }
        FeedforwardNet { node_count: size, ops, input_ids: inputs, output_ids: outputs, sorted_hidden_out: order }
    }
}

} // verus!
