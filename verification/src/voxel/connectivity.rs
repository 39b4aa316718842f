//! Face-adjacency and flood fill over the voxel grid.
use vstd::prelude::*;
use crate::arith::{count_true, lemma_count_true_bound, lemma_count_true_set};
use crate::voxel::grid::{cell_coord, cell_index, CELL_COUNT};

verus! {

/// The cell next to cell `c` across face `d` (0: +x, 1: -x, 2: +y, 3: -y,
/// 4: +z, 5: -z), if that cell lies inside the grid.
pub open spec fn neighbor(c: int, d: int) -> Option<int> {
    let x = cell_coord(c, 0);
    let y = cell_coord(c, 1);
    let z = cell_coord(c, 2);
    if d == 0 {
        if x + 1 < 10 { Some(c + 1) } else { None }
    } else if d == 1 {
        if x > 0 { Some(c - 1) } else { None }
    } else if d == 2 {
        if y + 1 < 10 { Some(c + 10) } else { None }
    } else if d == 3 {
        if y > 0 { Some(c - 10) } else { None }
    } else if d == 4 {
        if z + 1 < 10 { Some(c + 100) } else { None }
    } else {
        if z > 0 { Some(c - 100) } else { None }
    }
}

/// Cells `a` and `b` share a face.
pub open spec fn adjacent(a: int, b: int) -> bool {
    exists|d: int| 0 <= d < 6 && neighbor(a, d) == Some(b)
}

/// The face opposite face `d`.
pub open spec fn opposite(d: int) -> int {
    if d % 2 == 0 { d + 1 } else { d - 1 }
}

/// Crossing a face and then the opposite face leads back.
pub proof fn lemma_neighbor_back(c: int, d: int)
    requires
        0 <= c < CELL_COUNT,
        0 <= d < 6,
    ensures
        match neighbor(c, d) {
            Some(n) => 0 <= n < CELL_COUNT && neighbor(n, opposite(d)) == Some(c),
            None => true,
        },
{
    let x = cell_coord(c, 0);
    let y = cell_coord(c, 1);
    let z = cell_coord(c, 2);
    lemma_index_of_coords(c);
    if d == 0 && x + 1 < 10 {
        lemma_coords_of_index(x + 1, y, z);
    } else if d == 1 && x > 0 {
        lemma_coords_of_index(x - 1, y, z);
    } else if d == 2 && y + 1 < 10 {
        lemma_coords_of_index(x, y + 1, z);
    } else if d == 3 && y > 0 {
        lemma_coords_of_index(x, y - 1, z);
    } else if d == 4 && z + 1 < 10 {
        lemma_coords_of_index(x, y, z + 1);
    } else if d == 5 && z > 0 {
        lemma_coords_of_index(x, y, z - 1);
    }
}

/// A cell index is made of its three coordinates.
pub proof fn lemma_index_of_coords(c: int)
    requires
        0 <= c < CELL_COUNT,
    ensures
        c == cell_index(cell_coord(c, 0), cell_coord(c, 1), cell_coord(c, 2)),
        0 <= cell_coord(c, 0) < 10,
        0 <= cell_coord(c, 1) < 10,
        0 <= cell_coord(c, 2) < 10,
{
    assert(c == c % 10 + 10 * ((c / 10) % 10) + 100 * (c / 100)) by (nonlinear_arith)
        requires
            0 <= c < 1000,
    ;
}

/// The coordinates of the cell at (a, b, e) are a, b and e.
pub proof fn lemma_coords_of_index(a: int, b: int, e: int)
    requires
        0 <= a < 10,
        0 <= b < 10,
        0 <= e < 10,
    ensures
        cell_coord(cell_index(a, b, e), 0) == a,
        cell_coord(cell_index(a, b, e), 1) == b,
        cell_coord(cell_index(a, b, e), 2) == e,
        0 <= cell_index(a, b, e) < CELL_COUNT,
{
    let c = a + 10 * b + 100 * e;
    assert(c % 10 == a && (c / 10) % 10 == b && c / 100 == e) by (nonlinear_arith)
        requires
            0 <= a < 10,
            0 <= b < 10,
            0 <= e < 10,
            c == a + 10 * b + 100 * e,
    ;
}

/// Cell `t` is occupied and can be reached from an occupied seed cell in at
/// most `k` steps between face-adjacent occupied cells.
pub open spec fn reach_within(occ: Seq<bool>, seed: Seq<bool>, t: int, k: nat) -> bool
    decreases k,
{
    &&& 0 <= t < CELL_COUNT
    &&& occ[t]
    &&& (seed[t] || (k > 0 && (
        (neighbor(t, 0) matches Some(p) && reach_within(occ, seed, p, (k - 1) as nat))
        || (neighbor(t, 1) matches Some(p) && reach_within(occ, seed, p, (k - 1) as nat))
        || (neighbor(t, 2) matches Some(p) && reach_within(occ, seed, p, (k - 1) as nat))
        || (neighbor(t, 3) matches Some(p) && reach_within(occ, seed, p, (k - 1) as nat))
        || (neighbor(t, 4) matches Some(p) && reach_within(occ, seed, p, (k - 1) as nat))
        || (neighbor(t, 5) matches Some(p) && reach_within(occ, seed, p, (k - 1) as nat)))))
}

/// Reaching the cell across face `d` of an occupied cell `t` in `k` steps
/// reaches `t` in `k + 1` steps.
pub proof fn lemma_reach_step(occ: Seq<bool>, seed: Seq<bool>, t: int, d: int, p: int, k: nat)
    requires
        0 <= t < CELL_COUNT,
        occ.len() == CELL_COUNT,
        occ[t],
        0 <= d < 6,
        neighbor(t, d) == Some(p),
        reach_within(occ, seed, p, k),
    ensures
        reach_within(occ, seed, t, k + 1),
{
    assert(((k + 1) - 1) as nat == k);
}

/// Cell `t` is joined to some seed cell through face-adjacent occupied cells.
pub open spec fn connected(occ: Seq<bool>, seed: Seq<bool>, t: int) -> bool {
    exists|k: nat| #[trigger] reach_within(occ, seed, t, k)
}

/// Every set `v` that holds the occupied seeds and is closed under stepping
/// to occupied neighbours holds every cell connected to a seed.
pub proof fn lemma_closed_holds_reach(occ: Seq<bool>, seed: Seq<bool>, v: Seq<bool>, t: int, k: nat)
    requires
        occ.len() == CELL_COUNT,
        seed.len() == CELL_COUNT,
        v.len() == CELL_COUNT,
        forall|i: int| 0 <= i < CELL_COUNT && occ[i] && seed[i] ==> v[i],
        forall|i: int, d: int|
            0 <= i < CELL_COUNT && v[i] && 0 <= d < 6 ==> match #[trigger] neighbor(i, d) {
                Some(n) => occ[n] ==> v[n],
                None => true,
            },
        reach_within(occ, seed, t, k),
    ensures
        v[t],
    decreases k,
{
    if !seed[t] {
        let d: int = if (neighbor(t, 0) matches Some(p) && reach_within(occ, seed, p, (k - 1) as nat)) {
            0
        } else if (neighbor(t, 1) matches Some(p) && reach_within(occ, seed, p, (k - 1) as nat)) {
            1
        } else if (neighbor(t, 2) matches Some(p) && reach_within(occ, seed, p, (k - 1) as nat)) {
            2
        } else if (neighbor(t, 3) matches Some(p) && reach_within(occ, seed, p, (k - 1) as nat)) {
            3
        } else if (neighbor(t, 4) matches Some(p) && reach_within(occ, seed, p, (k - 1) as nat)) {
            4
        } else {
            5
        };
        let p = neighbor(t, d)->0;
        lemma_closed_holds_reach(occ, seed, v, p, (k - 1) as nat);
        lemma_neighbor_back(t, d);
        assert(match neighbor(p, opposite(d)) {
            Some(n) => occ[n] ==> v[n],
            None => true,
        });
    }
}

/// The neighbour of cell `c` across face `d`, computed.
pub fn neighbor_of(c: usize, d: usize) -> (r: Option<usize>)
    requires
        c < CELL_COUNT,
        d < 6,
    ensures
        match r {
            Some(n) => neighbor(c as int, d as int) == Some(n as int) && n < CELL_COUNT,
            None => neighbor(c as int, d as int) is None,
        },
{
    let x = c % 10;
    let y = (c / 10) % 10;
    let z = c / 100;
    if d == 0 {
        if x + 1 < 10 { Some(c + 1) } else { None }
    } else if d == 1 {
        if x > 0 { Some(c - 1) } else { None }
    } else if d == 2 {
        if y + 1 < 10 { Some(c + 10) } else { None }
    } else if d == 3 {
        if y > 0 { Some(c - 10) } else { None }
    } else if d == 4 {
        if z + 1 < 10 { Some(c + 100) } else { None }
    } else {
        if z > 0 { Some(c - 100) } else { None }
    }
}

#[verifier::rlimit(80)]
/// Marks every occupied cell joined to an occupied seed cell through
/// face-adjacent occupied cells (breadth-first).
pub fn flood_fill(occ: &Vec<bool>, seed: &Vec<bool>) -> (visited: Vec<bool>)
    requires
        occ@.len() == CELL_COUNT,
        seed@.len() == CELL_COUNT,
    ensures
        visited@.len() == CELL_COUNT,
        forall|t: int| 0 <= t < CELL_COUNT ==> (visited@[t] <==> connected(occ@, seed@, t)),
{
    let mut visited: Vec<bool> = Vec::new();
    let mut queue: Vec<usize> = Vec::new();
    let mut i: usize = 0;
    while i < CELL_COUNT
        invariant
            i <= CELL_COUNT,
            occ@.len() == CELL_COUNT,
            seed@.len() == CELL_COUNT,
            visited@.len() == i,
            forall|j: int| 0 <= j < i ==> visited@[j] == (occ@[j] && seed@[j]),
            forall|k: int| 0 <= k < queue@.len() ==> #[trigger] queue@[k] < i && visited@[queue@[k] as int],
            forall|j: int| 0 <= j < i && visited@[j] ==> exists|k: int| 0 <= k < queue@.len() && queue@[k] == j,
            queue@.len() == count_true(visited@),
        decreases CELL_COUNT - i,
    {
        let on = occ[i] && seed[i];
        let ghost before = visited@;
        visited.push(on);
        proof {
            assert(visited@.drop_last() =~= before);
        }
        let ghost qbefore = queue@;
        if on {
            queue.push(i);
            assert(queue@[queue@.len() - 1] == i);
        }
        proof {
            assert forall|j: int| 0 <= j < i + 1 && visited@[j] implies exists|k: int|
                0 <= k < queue@.len() && queue@[k] == j by {
                if j < i {
                    let k = choose|k: int| 0 <= k < qbefore.len() && qbefore[k] == j;
                    assert(queue@[k] == j);
                } else {
                    assert(queue@[queue@.len() - 1] == j);
                }
            }
        }
        i = i + 1;
    }
    let mut head: usize = 0;
    proof {
        lemma_count_true_bound(visited@);
        assert forall|j: int| 0 <= j < CELL_COUNT && visited@[j] implies connected(occ@, seed@, j) by {
            assert(reach_within(occ@, seed@, j, 0));
        }
    }
    while head < queue.len()
        invariant
            occ@.len() == CELL_COUNT,
            seed@.len() == CELL_COUNT,
            visited@.len() == CELL_COUNT,
            head <= queue@.len(),
            queue@.len() == count_true(visited@),
            queue@.len() <= CELL_COUNT,
            forall|k: int| 0 <= k < queue@.len() ==> #[trigger] queue@[k] < CELL_COUNT && visited@[queue@[k] as int],
            forall|j: int| 0 <= j < CELL_COUNT && visited@[j] ==> exists|k: int| 0 <= k < queue@.len() && queue@[k] == j,
            forall|j: int| 0 <= j < CELL_COUNT && visited@[j] ==> connected(occ@, seed@, j),
            forall|j: int| 0 <= j < CELL_COUNT && occ@[j] && seed@[j] ==> visited@[j],
            forall|k: int, d: int|
                0 <= k < head && 0 <= d < 6 ==> match #[trigger] neighbor(queue@[k] as int, d) {
                    Some(n) => occ@[n] ==> visited@[n],
                    None => true,
                },
        decreases CELL_COUNT - head,
    {
        let c = queue[head];
        let mut d: usize = 0;
        while d < 6
            invariant
                c < CELL_COUNT,
                visited@[c as int],
                head < queue@.len(),
                c == queue@[head as int],
                d <= 6,
                occ@.len() == CELL_COUNT,
                seed@.len() == CELL_COUNT,
                visited@.len() == CELL_COUNT,
                queue@.len() == count_true(visited@),
                queue@.len() <= CELL_COUNT,
                connected(occ@, seed@, c as int),
                forall|k: int| 0 <= k < queue@.len() ==> #[trigger] queue@[k] < CELL_COUNT && visited@[queue@[k] as int],
                forall|j: int| 0 <= j < CELL_COUNT && visited@[j] ==> exists|k: int| 0 <= k < queue@.len() && queue@[k] == j,
                forall|j: int| 0 <= j < CELL_COUNT && visited@[j] ==> connected(occ@, seed@, j),
                forall|j: int| 0 <= j < CELL_COUNT && occ@[j] && seed@[j] ==> visited@[j],
                forall|k: int, e: int|
                    0 <= k < head && 0 <= e < 6 ==> match #[trigger] neighbor(queue@[k] as int, e) {
                        Some(n) => occ@[n] ==> visited@[n],
                        None => true,
                    },
                forall|e: int| 0 <= e < d ==> match #[trigger] neighbor(c as int, e) {
                    Some(n) => occ@[n] ==> visited@[n],
                    None => true,
                },
            decreases 6 - d,
        {
            match neighbor_of(c, d) {
                Some(n) => {
                    if occ[n] && !visited[n] {
                        let ghost before = visited@;
                        let ghost qbefore = queue@;
                        proof {
                            lemma_count_true_set(before, n as int);
                            lemma_count_true_bound(before.update(n as int, true));
                            let kc = choose|kc: nat| #[trigger] reach_within(occ@, seed@, c as int, kc);
                            lemma_neighbor_back(c as int, d as int);
                            lemma_reach_step(occ@, seed@, n as int, opposite(d as int), c as int, kc);
                        }
                        visited.set(n, true);
                        queue.push(n);
                        proof {
                            assert(queue@[queue@.len() - 1] == n);
                            assert forall|j: int| 0 <= j < CELL_COUNT && visited@[j] implies exists|k: int|
                                0 <= k < queue@.len() && queue@[k] == j by {
                                if j != n {
                                    let k = choose|k: int| 0 <= k < qbefore.len() && qbefore[k] == j;
                                    assert(queue@[k] == j);
                                }
                            }
                            assert forall|j: int| 0 <= j < CELL_COUNT && visited@[j] implies connected(occ@, seed@, j) by {
                                if j == n {
                                    let kc = choose|kc: nat| #[trigger] reach_within(occ@, seed@, c as int, kc);
                                    lemma_neighbor_back(c as int, d as int);
                                    lemma_reach_step(occ@, seed@, n as int, opposite(d as int), c as int, kc);
                                }
                            }
                            assert forall|k: int, e: int|
                                0 <= k < head && 0 <= e < 6 implies match #[trigger] neighbor(queue@[k] as int, e) {
                                    Some(m) => occ@[m] ==> visited@[m],
                                    None => true,
                                } by {
                                assert(queue@[k] == qbefore[k]);
                                match neighbor(qbefore[k] as int, e) {
                                    Some(m) => {},
                                    None => {},
                                }
                            }
                            assert forall|e: int| 0 <= e < d + 1 implies match #[trigger] neighbor(c as int, e) {
                                Some(m) => occ@[m] ==> visited@[m],
                                None => true,
                            } by {
                                match neighbor(c as int, e) {
                                    Some(m) => {},
                                    None => {},
                                }
                            }
                        }
                    }
                },
                None => {},
            }
            d = d + 1;
        }
        head = head + 1;
    }
    proof {
        assert forall|t: int| 0 <= t < CELL_COUNT && connected(occ@, seed@, t) implies visited@[t] by {
            let k = choose|k: nat| #[trigger] reach_within(occ@, seed@, t, k);
            assert forall|i: int, d: int|
                0 <= i < CELL_COUNT && visited@[i] && 0 <= d < 6 implies match #[trigger] neighbor(i, d) {
                    Some(n) => occ@[n] ==> visited@[n],
                    None => true,
                } by {
                let q = choose|q: int| 0 <= q < queue@.len() && queue@[q] == i;
                assert(match neighbor(queue@[q] as int, d) {
                    Some(n) => occ@[n] ==> visited@[n],
                    None => true,
                });
            }
            lemma_closed_holds_reach(occ@, seed@, visited@, t, k);
        }
    }
    visited
}

} // verus!
