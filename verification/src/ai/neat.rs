//! The NEAT population: innovation bookkeeping and generational evolution.
use vstd::prelude::*;
use crate::arith::{rank_desc, is_ranking};
use crate::ai::neat_core::{
    ConnectionGene, Genome, NodeGene, NodeType, initial_nodes, crossed_gene, partner_gene, weight_step, has_link,
};
use crate::random::random_range;

verus! {

/// Observations a driver network reads.
pub const OBS_DIM: usize = 94;
/// Actions a driver network writes.
pub const ACTION_DIM: usize = 30;
/// Genomes in the population.
pub const POPULATION_SIZE: usize = 20;
/// Genomes carried over unchanged into the next generation.
pub const ELITE_COUNT: usize = 2;

/// The innovation number given to links from `in_node` to `out_node`.
#[derive(Debug, Clone, Copy, PartialEq, Eq, Structural)]
pub struct InnovationRecord {
    pub in_node: usize,
    pub out_node: usize,
    pub innovation: usize,
}

/// The evolving population of driver genomes.
#[derive(Debug)]
pub struct NeatManager {
    pub population: Vec<Genome>,
    pub generation: usize,
    /// The next innovation number to hand out.
    pub global_innovation: usize,
    /// Innovation numbers handed out so far, one record per link: a list
    /// searched by link rather than a map keyed by the pair of node ids, so
    /// that what `get_innovation` finds is stated over plain records
    /// (`recorded`, `history_sound`).
    pub innovation_history: Vec<InnovationRecord>,
    /// The next hidden node id to hand out.
    pub global_node_id: usize,
    pub fitnesses: Vec<i64>,
}

/// The innovation number recorded for links from `a` to `b`, among the
/// first `n` records.
pub open spec fn recorded_upto(h: Seq<InnovationRecord>, a: usize, b: usize, n: int) -> Option<usize>
    decreases n,
{
    if n <= 0 {
        None
    } else if h[n - 1].in_node == a && h[n - 1].out_node == b {
        Some(h[n - 1].innovation)
    } else {
        recorded_upto(h, a, b, n - 1)
    }
}

/// The innovation number recorded for links from `a` to `b`.
pub open spec fn recorded(h: Seq<InnovationRecord>, a: usize, b: usize) -> Option<usize> {
    recorded_upto(h, a, b, h.len() as int)
}

/// Each link has one record, innovation numbers differ between records,
/// and all lie below `next`.
pub open spec fn history_sound(h: Seq<InnovationRecord>, next: usize) -> bool {
    &&& forall|i: int, j: int|
        0 <= i < j < h.len() ==> (#[trigger] h[i].in_node != #[trigger] h[j].in_node || h[i].out_node
            != h[j].out_node) && h[i].innovation != h[j].innovation
    &&& forall|i: int| 0 <= i < h.len() ==> #[trigger] h[i].innovation < next
}

/// Every node id of the genome lies below `limit`.
pub open spec fn node_ids_below(g: Genome, limit: usize) -> bool {
    forall|k: int| 0 <= k < g.nodes@.len() ==> #[trigger] g.nodes@[k].id < limit
}

/// The fitness of each genome, in order.
pub open spec fn fitness_keys(pop: Seq<Genome>) -> Seq<i64> {
    Seq::new(pop.len(), |i: int| pop[i].fitness)
}

/// Two genomes hold the same genes and fitness.
pub open spec fn same_genome(a: Genome, b: Genome) -> bool {
    a.nodes@ == b.nodes@ && a.connections@ == b.connections@ && a.fitness == b.fitness
}

/// Gene `g` of a child comes from the fitter parent's gene `p` (with
/// `partner` the other parent's gene of the same innovation, if any): a
/// crossed gene whose weight was then mutated at rate 0.8 with power 0.5.
pub open spec fn bred_gene(p: ConnectionGene, partner: Option<ConnectionGene>, g: ConnectionGene) -> bool {
    exists|x: ConnectionGene|
        #[trigger] crossed_gene(p, partner, x) && g == (ConnectionGene { weight: g.weight, ..x })
            && weight_step(x.weight, g.weight, 800, 500)
}

/// The genes `mid` come, one for one and in order, from the fitter
/// parent's genes `c1` crossed with the other parent's genes `c2` and
/// mutated.
pub open spec fn bred_genes(mid: Seq<ConnectionGene>, c1: Seq<ConnectionGene>, c2: Seq<ConnectionGene>) -> bool {
    &&& mid.len() == c1.len()
    &&& forall|k: int|
        0 <= k < mid.len() ==> bred_gene(c1[k], partner_gene(c2, c1[k].innovation), #[trigger] mid[k])
}

/// `after` is `before`, or `before` with one new enabled link appended, of
/// weight in [-1, 1), into a non-input node, between two different nodes
/// that `before` did not link yet.
pub open spec fn link_added(before: Seq<ConnectionGene>, after: Seq<ConnectionGene>) -> bool {
    ||| after == before
    ||| {
        let c = after.last();
        &&& after.len() == before.len() + 1
        &&& after.drop_last() == before
        &&& !has_link(before, c.in_node, c.out_node)
        &&& c.in_node != c.out_node
        &&& OBS_DIM <= c.out_node
        &&& c.enabled
        &&& -1000 <= c.weight < 1000
    }
}

/// The genes after gene `i` of `cs` is split by node `id`: gene `i`
/// disabled, then a link into the node (weight 1, marking `i1`) and one out
/// of it (the old weight, marking `i2`).
pub open spec fn split_links(cs: Seq<ConnectionGene>, i: int, id: usize, i1: usize, i2: usize) -> Seq<ConnectionGene> {
    let c = cs[i];
    cs.update(i, ConnectionGene { enabled: false, ..c }).push(
        ConnectionGene { in_node: c.in_node, out_node: id, weight: 1000, enabled: true, innovation: i1 },
    ).push(ConnectionGene { in_node: id, out_node: c.out_node, weight: c.weight, enabled: true, innovation: i2 })
}

/// Nodes `nodes` and genes `after` are `nodes0` and `before` unchanged, or
/// with one gene split by a new hidden node whose id is at least `floor`
/// and not among `nodes0`'s.
pub open spec fn node_split(
    nodes0: Seq<NodeGene>,
    before: Seq<ConnectionGene>,
    nodes: Seq<NodeGene>,
    after: Seq<ConnectionGene>,
    floor: usize,
) -> bool {
    ||| nodes == nodes0 && after == before
    ||| exists|i: int, id: usize, i1: usize, i2: usize|
        0 <= i < before.len() && floor <= id && (forall|k: int| 0 <= k < nodes0.len() ==> #[trigger] nodes0[k].id != id)
            && nodes == nodes0.push(NodeGene { id, node_type: NodeType::Hidden }) && after == #[trigger] split_links(
            before,
            i,
            id,
            i1,
            i2,
        )
}

/// `child` was bred from a fitter parent with nodes `n1` and genes `c1` and
/// another parent with genes `c2`: crossed and mutated gene by gene, then
/// perhaps given a new link, then perhaps a gene split by a fresh hidden
/// node (id at least `floor`); its fitness starts at 0.
pub open spec fn bred_from(
    child: Genome,
    n1: Seq<NodeGene>,
    c1: Seq<ConnectionGene>,
    c2: Seq<ConnectionGene>,
    floor: usize,
) -> bool {
    &&& child.fitness == 0
    &&& exists|mid: Seq<ConnectionGene>, grown: Seq<ConnectionGene>|
        #[trigger] bred_genes(mid, c1, c2) && #[trigger] link_added(mid, grown) && node_split(
            n1,
            grown,
            child.nodes@,
            child.connections@,
            floor,
        )
}

/// Genome `child` was bred from two of the ten best-ranked genomes of `pop`
/// (`order` ranks them), any new node id being at least `floor`.
pub open spec fn from_top_half(child: Genome, pop: Seq<Genome>, order: Seq<usize>, floor: usize) -> bool {
    exists|j1: int, j2: int|
        0 <= j1 < 10 && 0 <= j2 < 10 && #[trigger] bred_from(
            child,
            pop[order[j1] as int].nodes@,
            pop[order[j1] as int].connections@,
            pop[order[j2] as int].connections@,
            floor,
        )
}

impl NeatManager {
    /// The population is full and sound, innovation records are sound, and
    /// every node id lies below the next one to hand out.
    pub open spec fn wf(&self) -> bool {
        &&& self.population@.len() == POPULATION_SIZE
        &&& forall|i: int| 0 <= i < POPULATION_SIZE ==> (#[trigger] self.population@[i]).wf()
        &&& forall|i: int| 0 <= i < POPULATION_SIZE ==> node_ids_below(#[trigger] self.population@[i], self.global_node_id)
        &&& history_sound(self.innovation_history@, self.global_innovation)
        &&& OBS_DIM + ACTION_DIM <= self.global_node_id
    }

    /// The innovation number for links from `in_node` to `out_node`: the
    /// recorded one, or else the next fresh number, which is then recorded.
    pub fn get_innovation(&mut self, in_node: usize, out_node: usize) -> (innov: usize)
        requires
            history_sound(old(self).innovation_history@, old(self).global_innovation),
            old(self).global_innovation < usize::MAX,
        ensures
            history_sound(final(self).innovation_history@, final(self).global_innovation),
            final(self).population@ == old(self).population@,
            final(self).generation == old(self).generation,
            final(self).global_node_id == old(self).global_node_id,
            final(self).fitnesses@ == old(self).fitnesses@,
            recorded(final(self).innovation_history@, in_node, out_node) == Some(innov),
            forall|a: usize, b: usize|
                #[trigger] recorded(old(self).innovation_history@, a, b) is Some ==> recorded(
                    final(self).innovation_history@,
                    a,
                    b,
                ) == recorded(old(self).innovation_history@, a, b),
            match recorded(old(self).innovation_history@, in_node, out_node) {
                Some(i) => innov == i && final(self).global_innovation == old(self).global_innovation
                    && final(self).innovation_history@ == old(self).innovation_history@,
                None => innov == old(self).global_innovation && final(self).global_innovation
                    == old(self).global_innovation + 1 && final(self).innovation_history@ == old(
                    self,
                ).innovation_history@.push(
                    InnovationRecord { in_node, out_node, innovation: innov },
                ),
            },
    {
        let mut n: usize = self.innovation_history.len();
        while n > 0
            invariant
                n <= self.innovation_history@.len(),
                recorded(self.innovation_history@, in_node, out_node) == recorded_upto(
                    self.innovation_history@,
                    in_node,
                    out_node,
                    n as int,
                ),
                self.innovation_history@ == old(self).innovation_history@,
                history_sound(old(self).innovation_history@, old(self).global_innovation),
                self.population@ == old(self).population@,
                self.global_innovation == old(self).global_innovation,
                self.generation == old(self).generation,
                self.global_node_id == old(self).global_node_id,
                self.fitnesses@ == old(self).fitnesses@,
            decreases n,
        {
            let r = self.innovation_history[n - 1];
            if r.in_node == in_node && r.out_node == out_node {
                return r.innovation;
            }
            n = n - 1;
        }
        let innov = self.global_innovation;
        self.global_innovation = innov + 1;
        let ghost h0 = self.innovation_history@;
        self.innovation_history.push(InnovationRecord { in_node, out_node, innovation: innov });
        proof {
            let h = self.innovation_history@;
            assert(h.drop_last() =~= h0);
            assert forall|a: usize, b: usize| #[trigger] recorded(h0, a, b) is Some implies recorded(h, a, b)
                == recorded(h0, a, b) by {
                if a == in_node && b == out_node {
                } else {
                    lemma_recorded_prefix(h, h0, a, b, h0.len() as int);
                }
            }
            assert forall|i: int, j: int|
                0 <= i < j < h.len() implies (#[trigger] h[i].in_node != #[trigger] h[j].in_node || h[i].out_node
                != h[j].out_node) && h[i].innovation != h[j].innovation by {
                if j == h.len() - 1 {
                    lemma_recorded_none(h0, in_node, out_node, h0.len() as int, i);
                }
            }
        }
        innov
    }
}

/// Records agreeing on their first `n` entries agree on what those entries record.
proof fn lemma_recorded_prefix(h: Seq<InnovationRecord>, h0: Seq<InnovationRecord>, a: usize, b: usize, n: int)
    requires
        0 <= n <= h.len(),
        n <= h0.len(),
        forall|i: int| 0 <= i < n ==> h[i] == h0[i],
    ensures
        recorded_upto(h, a, b, n) == recorded_upto(h0, a, b, n),
    decreases n,
{
    if n > 0 {
        lemma_recorded_prefix(h, h0, a, b, n - 1);
    }
}

/// No record among the first `n` is for a link that has no record there.
proof fn lemma_recorded_none(h: Seq<InnovationRecord>, a: usize, b: usize, n: int, i: int)
    requires
        0 <= i < n <= h.len(),
        recorded_upto(h, a, b, n) is None,
    ensures
        !(h[i].in_node == a && h[i].out_node == b),
    decreases n,
{
    if i < n - 1 {
        lemma_recorded_none(h, a, b, n - 1, i);
    }
}

/// Innovation numbers once recorded identify their link: two different
/// links never share one.
pub proof fn lemma_innovations_identify_links(
    h: Seq<InnovationRecord>,
    next: usize,
    a1: usize,
    b1: usize,
    a2: usize,
    b2: usize,
)
    requires
        history_sound(h, next),
        recorded(h, a1, b1) is Some,
        recorded(h, a2, b2) is Some,
        recorded(h, a1, b1) == recorded(h, a2, b2),
    ensures
        a1 == a2 && b1 == b2,
{
    let i = lemma_recorded_index(h, a1, b1, h.len() as int);
    let j = lemma_recorded_index(h, a2, b2, h.len() as int);
    if i != j {
        if i < j {
            assert(h[i].innovation != h[j].innovation);
        } else {
            assert(h[j].innovation != h[i].innovation);
        }
    }
}

/// A recorded innovation comes from some record for that link.
proof fn lemma_recorded_index(h: Seq<InnovationRecord>, a: usize, b: usize, n: int) -> (i: int)
    requires
        0 <= n <= h.len(),
        recorded_upto(h, a, b, n) is Some,
    ensures
        0 <= i < n,
        h[i].in_node == a && h[i].out_node == b,
        recorded_upto(h, a, b, n) == Some(h[i].innovation),
    decreases n,
{
    if h[n - 1].in_node == a && h[n - 1].out_node == b {
        n - 1
    } else {
        lemma_recorded_index(h, a, b, n - 1)
    }
}

impl NeatManager {
    /// A first-generation population: twenty fresh genomes wiring the 94
    /// observations straight to the 30 actions.
    pub fn new() -> (m: NeatManager)
        ensures
            m.wf(),
            m.generation == 1,
            m.global_innovation == OBS_DIM * ACTION_DIM,
            m.innovation_history@.len() == 0,
            m.global_node_id == OBS_DIM + ACTION_DIM,
            m.fitnesses@ == Seq::new(POPULATION_SIZE as nat, |i: int| 0i64),
            forall|i: int|
                0 <= i < POPULATION_SIZE ==> (#[trigger] m.population@[i]).nodes@ == initial_nodes(
                    OBS_DIM as int,
                    ACTION_DIM as int,
                ) && m.population@[i].connections@.len() == OBS_DIM * ACTION_DIM && m.population@[i].fitness
                    == 0,
    {
        let mut pop: Vec<Genome> = Vec::new();
        let mut fit: Vec<i64> = Vec::new();
        let mut i: usize = 0;
        while i < POPULATION_SIZE
            invariant
                i <= POPULATION_SIZE,
                pop@.len() == i,
                fit@ =~= Seq::new(i as nat, |j: int| 0i64),
                forall|j: int|
                    0 <= j < i ==> (#[trigger] pop@[j]).wf() && node_ids_below(pop@[j], (OBS_DIM + ACTION_DIM) as usize)
                        && pop@[j].nodes@ == initial_nodes(OBS_DIM as int, ACTION_DIM as int)
                        && pop@[j].connections@.len() == OBS_DIM * ACTION_DIM && pop@[j].fitness == 0,
            decreases POPULATION_SIZE - i,
        {
            let g = Genome::new(OBS_DIM, ACTION_DIM);
            pop.push(g);
            fit.push(0);
            i = i + 1;
        }
        NeatManager {
            population: pop,
            generation: 1,
            global_innovation: OBS_DIM * ACTION_DIM,
            innovation_history: Vec::new(),
            global_node_id: OBS_DIM + ACTION_DIM,
            fitnesses: fit,
        }
    }

    /// Records the reward an agent earned as its genome's fitness; ids past
    /// the population are ignored.
    pub fn set_fitness(&mut self, agent_id: usize, reward: i64)
        requires
            old(self).wf(),
        ensures
            final(self).wf(),
            final(self).generation == old(self).generation,
            final(self).global_innovation == old(self).global_innovation,
            final(self).global_node_id == old(self).global_node_id,
            final(self).innovation_history@ == old(self).innovation_history@,
            final(self).fitnesses@ == old(self).fitnesses@,
            forall|i: int|
                0 <= i < POPULATION_SIZE ==> {
                    let a = old(self).population@[i];
                    let b = #[trigger] final(self).population@[i];
                    b.nodes@ == a.nodes@ && b.connections@ == a.connections@ && b.fitness == if i
                        == agent_id {
                        reward
                    } else {
                        a.fitness
                    }
                },
    {
        if agent_id < POPULATION_SIZE {
            let mut g = self.population.remove(agent_id);
            g.fitness = reward;
            self.population.insert(agent_id, g);
            proof {
                assert forall|i: int| 0 <= i < POPULATION_SIZE implies (#[trigger] self.population@[i]).wf() by {
                    if i != agent_id {
                        assert(self.population@[i] == old(self).population@[i]);
                    }
                }
                assert forall|i: int| 0 <= i < POPULATION_SIZE implies node_ids_below(
                    #[trigger] self.population@[i],
                    self.global_node_id,
                ) by {
                    if i != agent_id {
                        assert(self.population@[i] == old(self).population@[i]);
                    }
                }
            }
        }
    }

    /// One generation of evolution.  The population is ranked by fitness
    /// (highest first, ties in population order); the top two carry over
    /// unchanged; each of the other eighteen is a crossover of two parents
    /// drawn from the top half, its weights mutated (rate 0.8, power 0.5),
    /// then with probability 0.05 given a new link between random nodes and
    /// with probability 0.03 a new hidden node splitting a random link.
    pub fn evolve(&mut self)
        requires
            old(self).wf(),
            old(self).generation < usize::MAX,
            old(self).global_innovation + 3 * POPULATION_SIZE < usize::MAX,
            old(self).global_node_id + POPULATION_SIZE < 0x7fff_ffff_ffff_ffff,
            old(self).global_node_id + POPULATION_SIZE < usize::MAX,
        ensures
            final(self).wf(),
            final(self).generation == old(self).generation + 1,
            final(self).fitnesses@ == old(self).fitnesses@,
            old(self).global_innovation <= final(self).global_innovation,
            old(self).global_node_id <= final(self).global_node_id,
            forall|a: usize, b: usize|
                #[trigger] recorded(old(self).innovation_history@, a, b) is Some ==> recorded(
                    final(self).innovation_history@,
                    a,
                    b,
                ) == recorded(old(self).innovation_history@, a, b),
            exists|order: Seq<usize>|
                is_ranking(fitness_keys(old(self).population@), order) && same_genome(
                    final(self).population@[0],
                    old(self).population@[order[0] as int],
                ) && same_genome(final(self).population@[1], old(self).population@[order[1] as int]) && forall|i: int|
                    ELITE_COUNT <= i < POPULATION_SIZE ==> from_top_half(
                        #[trigger] final(self).population@[i],
                        old(self).population@,
                        order,
                        old(self).global_node_id,
                    ),
            forall|i: int| ELITE_COUNT <= i < POPULATION_SIZE ==> (#[trigger] final(self).population@[i]).fitness == 0,
    {
        let mut keys: Vec<i64> = Vec::new();
        let mut i: usize = 0;
        while i < POPULATION_SIZE
            invariant
                i <= POPULATION_SIZE,
                self.population@.len() == POPULATION_SIZE,
                keys@ =~= fitness_keys(self.population@).take(i as int),
            decreases POPULATION_SIZE - i,
        {
            keys.push(self.population[i].fitness);
            i = i + 1;
        }
        assert(keys@ =~= fitness_keys(self.population@));
        let order = rank_desc(&keys);
        let ghost pop0 = self.population@;
        let ghost hist0 = self.innovation_history@;
        let ghost innov0 = self.global_innovation;
        let ghost node0 = self.global_node_id;
        let mut next: Vec<Genome> = Vec::new();
        next.push(self.population[order[0]].clone());
        next.push(self.population[order[1]].clone());
        let mut c: usize = ELITE_COUNT;
        while c < POPULATION_SIZE
            invariant
                ELITE_COUNT <= c <= POPULATION_SIZE,
                next@.len() == c,
                self.population@ == pop0,
                pop0.len() == POPULATION_SIZE,
                is_ranking(fitness_keys(pop0), order@),
                keys@ == fitness_keys(pop0),
                forall|j: int| 0 <= j < POPULATION_SIZE ==> (#[trigger] pop0[j]).wf(),
                forall|j: int| 0 <= j < POPULATION_SIZE ==> node_ids_below(#[trigger] pop0[j], node0),
                forall|j: int|
                    0 <= j < c ==> (#[trigger] next@[j]).wf() && node_ids_below(next@[j], self.global_node_id),
                same_genome(next@[0], pop0[order@[0] as int]),
                same_genome(next@[1], pop0[order@[1] as int]),
                forall|j: int| ELITE_COUNT <= j < c ==> (#[trigger] next@[j]).fitness == 0,
                forall|j: int| ELITE_COUNT <= j < c ==> from_top_half(#[trigger] next@[j], pop0, order@, node0),
                history_sound(self.innovation_history@, self.global_innovation),
                forall|a: usize, b: usize|
                    #[trigger] recorded(hist0, a, b) is Some ==> recorded(self.innovation_history@, a, b)
                        == recorded(hist0, a, b),
                innov0 <= self.global_innovation <= innov0 + 3 * c,
                innov0 + 3 * POPULATION_SIZE < usize::MAX,
                node0 <= self.global_node_id <= node0 + c,
                node0 + POPULATION_SIZE < 0x7fff_ffff_ffff_ffff,
                node0 + POPULATION_SIZE < usize::MAX,
                OBS_DIM + ACTION_DIM <= node0,
                self.generation == old(self).generation,
                self.fitnesses@ == old(self).fitnesses@,
            decreases POPULATION_SIZE - c,
        {
            let ra = random_range(0, 10) as usize;
            let rb = random_range(0, 10) as usize;
            let a = order[ra];
            let b = order[rb];
            let mut child = Genome::crossover(&self.population[a], &self.population[b]);
            let ghost crossed = child.connections@;
            child.mutate_weights(800, 500);
            let ghost mid = child.connections@;
            let ghost pa = pop0[a as int];
            let ghost pb = pop0[b as int];
            proof {
                assert forall|k: int| 0 <= k < mid.len() implies bred_gene(
                    pa.connections@[k],
                    partner_gene(pb.connections@, pa.connections@[k].innovation),
                    #[trigger] mid[k],
                ) by {
                    assert(crossed_gene(
                        pa.connections@[k],
                        partner_gene(pb.connections@, pa.connections@[k].innovation),
                        crossed[k],
                    ));
                    assert(mid[k] == (ConnectionGene { weight: mid[k].weight, ..crossed[k] }));
                }
                assert(bred_genes(mid, pa.connections@, pb.connections@));
            }
            let g_nodes = self.global_node_id;
            if random_range(0, 100) < 5 {
                let in_n = random_range(0, g_nodes as i64) as usize;
                let out_n = random_range(OBS_DIM as i64, g_nodes as i64) as usize;
                if in_n != out_n {
                    let innov = self.get_innovation(in_n, out_n);
                    child.add_connection(in_n, out_n, innov);
                }
            }
            let ghost grown = child.connections@;
            assert(link_added(mid, grown));
            assert(child.nodes@ == pa.nodes@);
            if random_range(0, 100) < 3 && child.connections.len() > 0 && (child.connections.len() as u64) <= 0x7fff_ffff_ffff_ffff {
                let c_idx = random_range(0, child.connections.len() as i64) as usize;
                let in_n = child.connections[c_idx].in_node;
                let out_n = child.connections[c_idx].out_node;
                let new_node = self.global_node_id;
                self.global_node_id = new_node + 1;
                let innov1 = self.get_innovation(in_n, new_node);
                let innov2 = self.get_innovation(new_node, out_n);
                proof {
                    assert forall|k: int| 0 <= k < pa.nodes@.len() implies #[trigger] pa.nodes@[k].id != new_node by {
                        assert(node_ids_below(pop0[a as int], node0));
                    }
                    assert(crate::ai::neat_core::node_index(pa.nodes@, new_node) is None);
                }
                child.add_node(c_idx, new_node, innov1, innov2);
                assert(child.connections@ == split_links(grown, c_idx as int, new_node, innov1, innov2));
                assert(child.nodes@ == pa.nodes@.push(NodeGene { id: new_node, node_type: NodeType::Hidden }));
            }
            assert(node_split(pa.nodes@, grown, child.nodes@, child.connections@, node0));
            assert(bred_from(child, pa.nodes@, pa.connections@, pb.connections@, node0));
            assert(bred_from(
                child,
                pop0[order@[ra as int] as int].nodes@,
                pop0[order@[ra as int] as int].connections@,
                pop0[order@[rb as int] as int].connections@,
                node0,
            ));
            assert(from_top_half(child, pop0, order@, node0));
            next.push(child);
            c = c + 1;
        }
        self.population = next;
        self.generation = self.generation + 1;
    }
}

impl Default for NeatManager {
    fn default() -> (m: NeatManager)
        ensures
            m.wf(),
            m.generation == 1,
            m.global_innovation == OBS_DIM * ACTION_DIM,
            m.global_node_id == OBS_DIM + ACTION_DIM,
    {
        NeatManager::new()
    }
}

} // verus!
