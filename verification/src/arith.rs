//! Integer arithmetic the arena's fixed-point geometry rests on.
use vstd::prelude::*;

verus! {

/// A point or offset in space, in millimetres.
#[derive(Debug, Clone, Copy, PartialEq, Eq, Structural)]
pub struct Pos {
    pub x: i64,
    pub y: i64,
    pub z: i64,
}

/// Largest coordinate magnitude, in millimetres, of any point the arena deals
/// with (about a million kilometres).
pub const WORLD_LIMIT: i64 = 0x100_0000_0000;

/// The point lies inside the world bounds.
pub open spec fn in_world(p: Pos) -> bool {
    -WORLD_LIMIT <= p.x <= WORLD_LIMIT && -WORLD_LIMIT <= p.y <= WORLD_LIMIT && -WORLD_LIMIT <= p.z
        <= WORLD_LIMIT
}

/// Squared distance between two points, in square millimetres.
pub open spec fn dist2(a: Pos, b: Pos) -> int {
    (a.x - b.x) * (a.x - b.x) + (a.y - b.y) * (a.y - b.y) + (a.z - b.z) * (a.z - b.z)
}

/// Squared distances inside the world bounds fit comfortably in 128 bits.
pub proof fn lemma_dist2_bound(a: Pos, b: Pos)
    requires
        in_world(a),
        in_world(b),
    ensures
        0 <= dist2(a, b) <= 0x1000_0000_0000_0000_0000_0000,
{
    let dx = a.x - b.x;
    let dy = a.y - b.y;
    let dz = a.z - b.z;
    assert(0 <= dx * dx <= 0x100_0000_0000_0000_0000_0000 && 0 <= dy * dy <= 0x100_0000_0000_0000_0000_0000
        && 0 <= dz * dz <= 0x100_0000_0000_0000_0000_0000) by (nonlinear_arith)
        requires
            -0x200_0000_0000 <= dx <= 0x200_0000_0000,
            -0x200_0000_0000 <= dy <= 0x200_0000_0000,
            -0x200_0000_0000 <= dz <= 0x200_0000_0000,
    ;
}

/// Squared distance between two points inside the world bounds.
pub fn dist2_exec(a: Pos, b: Pos) -> (d: u128)
    requires
        in_world(a),
        in_world(b),
    ensures
        d == dist2(a, b),
{
    let dx: i128 = a.x as i128 - b.x as i128;
    let dy: i128 = a.y as i128 - b.y as i128;
    let dz: i128 = a.z as i128 - b.z as i128;
    assert(0 <= dx * dx <= 0x100_0000_0000_0000_0000_0000 && 0 <= dy * dy <= 0x100_0000_0000_0000_0000_0000
        && 0 <= dz * dz <= 0x100_0000_0000_0000_0000_0000) by (nonlinear_arith)
        requires
            -0x200_0000_0000 <= dx <= 0x200_0000_0000,
            -0x200_0000_0000 <= dy <= 0x200_0000_0000,
            -0x200_0000_0000 <= dz <= 0x200_0000_0000,
    ;
    let s: i128 = dx * dx + dy * dy + dz * dz;
    s as u128
}

/// Number of `true` entries.
pub open spec fn count_true(s: Seq<bool>) -> nat
    decreases s.len(),
{
    if s.len() == 0 {
        0
    } else {
        count_true(s.drop_last()) + if s.last() { 1nat } else { 0nat }
    }
}

pub proof fn lemma_count_true_bound(s: Seq<bool>)
    ensures
        count_true(s) <= s.len(),
    decreases s.len(),
{
    if s.len() > 0 {
        lemma_count_true_bound(s.drop_last());
    }
}

pub proof fn lemma_count_true_set(s: Seq<bool>, j: int)
    requires
        0 <= j < s.len(),
        !s[j],
    ensures
        count_true(s.update(j, true)) == count_true(s) + 1,
    decreases s.len(),
{
    let u = s.update(j, true);
    if j == s.len() - 1 {
        assert(u.drop_last() =~= s.drop_last());
    } else {
        assert(u.drop_last() =~= s.drop_last().update(j, true));
        lemma_count_true_set(s.drop_last(), j);
    }
}

/// Fewer `true` entries than entries means some entry is `false`.
pub proof fn lemma_count_true_has_false(s: Seq<bool>)
    requires
        count_true(s) < s.len(),
    ensures
        exists|j: int| 0 <= j < s.len() && !s[j],
    decreases s.len(),
{
    if s.last() {
        lemma_count_true_has_false(s.drop_last());
        let j = choose|j: int| 0 <= j < s.drop_last().len() && !s.drop_last()[j];
        assert(!s[j]);
    } else {
        assert(!s[s.len() - 1]);
    }
}

/// Item `a` comes before item `b` when ranking by key, highest first, ties
/// broken by position.
pub open spec fn ranked_before(keys: Seq<i64>, a: int, b: int) -> bool {
    keys[a] > keys[b] || (keys[a] == keys[b] && a < b)
}

/// `order` lists every position of `keys` once, highest key first and
/// equal keys in the order they are given (a stable sort, descending).
pub open spec fn is_ranking(keys: Seq<i64>, order: Seq<usize>) -> bool {
    &&& order.len() == keys.len()
    &&& forall|k: int| 0 <= k < order.len() ==> #[trigger] order[k] < keys.len()
    &&& forall|k1: int, k2: int|
        0 <= k1 < k2 < order.len() ==> ranked_before(keys, #[trigger] order[k1] as int, #[trigger] order[k2] as int)
}

/// The positions of `keys`, highest key first, equal keys in the order
/// they are given.
pub fn rank_desc(keys: &Vec<i64>) -> (order: Vec<usize>)
    ensures
        is_ranking(keys@, order@),
{
    let n = keys.len();
    let mut taken: Vec<bool> = Vec::new();
    let mut i: usize = 0;
    while i < n
        invariant
            i <= n,
            taken@ =~= Seq::new(i as nat, |j: int| false),
        decreases n - i,
    {
        taken.push(false);
        i = i + 1;
    }
    proof {
        assert(count_true(taken@) == 0) by {
            let s = taken@;
            assert forall|m: int| 0 <= m <= s.len() implies count_true(#[trigger] s.take(m)) == 0 by {
                lemma_count_true_zero(s, m);
            }
            assert(s.take(s.len() as int) =~= s);
        }
    }
    let mut order: Vec<usize> = Vec::new();
    while order.len() < n
        invariant
            n == keys@.len(),
            taken@.len() == n,
            order@.len() <= n,
            count_true(taken@) == order@.len(),
            forall|k: int| 0 <= k < order@.len() ==> #[trigger] order@[k] < n && taken@[order@[k] as int],
            forall|j: int| 0 <= j < n && taken@[j] ==> exists|k: int| 0 <= k < order@.len() && order@[k] == j,
            forall|k: int, j: int|
                #![trigger order@[k], taken@[j]]
                0 <= k < order@.len() && 0 <= j < n && !taken@[j] ==> ranked_before(keys@, order@[k] as int, j),
            forall|k1: int, k2: int|
                0 <= k1 < k2 < order@.len() ==> ranked_before(keys@, #[trigger] order@[k1] as int, #[trigger] order@[k2] as int),
        decreases n - order@.len(),
    {
        proof {
            lemma_count_true_has_false(taken@);
        }
        let mut best: usize = n;
        let mut j: usize = 0;
        while j < n
            invariant
                n == keys@.len(),
                taken@.len() == n,
                j <= n,
                best == n || (best < j && !taken@[best as int]),
                best == n ==> forall|m: int| 0 <= m < j ==> taken@[m],
                best < n ==> forall|m: int| 0 <= m < j && !taken@[m] && m != best ==> ranked_before(keys@, best as int, m),
            decreases n - j,
        {
            if !taken[j] {
                if best == n || keys[j] > keys[best] {
                    best = j;
                }
            }
            j = j + 1;
        }
        assert(best < n);
        let ghost old_order = order@;
        let ghost old_taken = taken@;
        proof {
            lemma_count_true_set(taken@, best as int);
        }
        order.push(best);
        taken.set(best, true);
        proof {
            assert forall|j2: int| 0 <= j2 < n && taken@[j2] implies exists|k: int|
                0 <= k < order@.len() && order@[k] == j2 by {
                if j2 == best {
                    assert(order@[order@.len() - 1] == j2);
                } else {
                    let k = choose|k: int| 0 <= k < old_order.len() && old_order[k] == j2;
                    assert(order@[k] == j2);
                }
            }
            assert forall|k1: int, k2: int|
                0 <= k1 < k2 < order@.len() implies ranked_before(keys@, #[trigger] order@[k1] as int, #[trigger] order@[k2] as int) by {
                if k2 == order@.len() - 1 {
                    assert(!old_taken[best as int]);
                    assert(ranked_before(keys@, old_order[k1] as int, best as int));
                } else {
                    assert(order@[k1] == old_order[k1] && order@[k2] == old_order[k2]);
                }
            }
            assert forall|k: int, j2: int|
                #![trigger order@[k], taken@[j2]]
                0 <= k < order@.len() && 0 <= j2 < n && !taken@[j2] implies ranked_before(keys@, order@[k] as int, j2) by {
                if k == order@.len() - 1 {
                } else {
                    assert(order@[k] == old_order[k]);
                }
            }
        }
    }
    order
}

proof fn lemma_count_true_zero(s: Seq<bool>, m: int)
    requires
        0 <= m <= s.len(),
        forall|j: int| 0 <= j < s.len() ==> !s[j],
    ensures
        count_true(s.take(m)) == 0,
    decreases m,
{
    if m > 0 {
        assert(s.take(m).drop_last() =~= s.take(m - 1));
        lemma_count_true_zero(s, m - 1);
    }
}

/// `x` held to the range of `i64`.
pub open spec fn clamp_i64(x: int) -> i64 {
    if x > i64::MAX {
        i64::MAX
    } else if x < i64::MIN {
        i64::MIN
    } else {
        x as i64
    }
}

/// `a + b`, held to the range of `i64`.
pub fn sat_add(a: i64, b: i64) -> (r: i64)
    ensures
        r == clamp_i64(a + b),
{
    let s: i128 = a as i128 + b as i128;
    if s > i64::MAX as i128 {
        i64::MAX
    } else if s < i64::MIN as i128 {
        i64::MIN
    } else {
        s as i64
    }
}

/// `x` held to the range of `i64`, computed.
pub fn clamp_wide(x: i128) -> (r: i64)
    ensures
        r == clamp_i64(x as int),
{
    if x > i64::MAX as i128 {
        i64::MAX
    } else if x < i64::MIN as i128 {
        i64::MIN
    } else {
        x as i64
    }
}

/// `a / b` rounded toward zero, as Rust's integer division rounds (for
/// positive `b`).
pub open spec fn quot(a: int, b: int) -> int {
    if a >= 0 {
        a / b
    } else {
        -((-a) / b)
    }
}

/// `a / b` rounded toward zero, computed.
pub fn quot_wide(a: i128, b: i128) -> (q: i128)
    requires
        b > 0,
        a > i128::MIN,
    ensures
        q == quot(a as int, b as int),
{
    if a >= 0 {
        a / b
    } else {
        -((-a) / b)
    }
}

/// `r` is the whole part of the square root of `n`.
pub open spec fn is_floor_sqrt(n: int, r: int) -> bool {
    0 <= r && r * r <= n && n < (r + 1) * (r + 1)
}

/// The whole part of the square root of `n`.
pub open spec fn floor_sqrt(n: nat) -> nat {
    choose|r: nat| is_floor_sqrt(n as int, r as int)
}

/// At most one number is the whole part of a square root.
pub proof fn lemma_floor_sqrt_unique(n: int, r1: int, r2: int)
    requires
        is_floor_sqrt(n, r1),
        is_floor_sqrt(n, r2),
    ensures
        r1 == r2,
{
    if r1 < r2 {
        assert((r1 + 1) * (r1 + 1) <= r2 * r2) by (nonlinear_arith)
            requires
                0 <= r1 < r2,
        ;
    } else if r2 < r1 {
        assert((r2 + 1) * (r2 + 1) <= r1 * r1) by (nonlinear_arith)
            requires
                0 <= r2 < r1,
        ;
    }
}

/// Once one whole-part root is known, `floor_sqrt` names it.
pub proof fn lemma_floor_sqrt_is(n: nat, r: nat)
    requires
        is_floor_sqrt(n as int, r as int),
    ensures
        floor_sqrt(n) == r,
{
    let c = floor_sqrt(n);
    assert(is_floor_sqrt(n as int, c as int));
    lemma_floor_sqrt_unique(n as int, r as int, c as int);
}

/// Every number has a whole-part square root, and `floor_sqrt` names it.
pub proof fn lemma_floor_sqrt_exists(n: nat)
    ensures
        is_floor_sqrt(n as int, floor_sqrt(n) as int),
    decreases n,
{
    if n == 0 {
        assert(is_floor_sqrt(0, 0));
        lemma_floor_sqrt_is(0, 0);
    } else {
        lemma_floor_sqrt_exists((n - 1) as nat);
        let r = floor_sqrt((n - 1) as nat) as int;
        if (r + 1) * (r + 1) <= n {
            assert((r + 1) * (r + 1) + 1 <= (r + 2) * (r + 2)) by (nonlinear_arith)
                requires
                    r >= 0,
            ;
            assert(is_floor_sqrt(n as int, r + 1));
            lemma_floor_sqrt_is(n, (r + 1) as nat);
        } else {
            assert(is_floor_sqrt(n as int, r));
            lemma_floor_sqrt_is(n, r as nat);
        }
    }
}

/// The whole-part square root grows with its argument.
pub proof fn lemma_floor_sqrt_monotone(a: nat, b: nat)
    requires
        a <= b,
    ensures
        floor_sqrt(a) <= floor_sqrt(b),
{
    lemma_floor_sqrt_exists(a);
    lemma_floor_sqrt_exists(b);
    let ra = floor_sqrt(a) as int;
    let rb = floor_sqrt(b) as int;
    assert(ra <= rb) by (nonlinear_arith)
        requires
            0 <= ra,
            0 <= rb,
            ra * ra <= a,
            a <= b,
            b < (rb + 1) * (rb + 1),
    ;
}

/// The whole part of the square root of `n`, by bisection.
pub fn isqrt(n: u128) -> (r: u64)
    requires
        n < 0x1_0000_0000_0000_0000_0000,
    ensures
        r == floor_sqrt(n as nat),
        (r as int) * (r as int) <= n,
        n < (r as int + 1) * (r as int + 1),
{
    let mut lo: u128 = 0;
    let mut hi: u128 = 0x100_0000_0000;
    assert(hi * hi == 0x1_0000_0000_0000_0000_0000) by (nonlinear_arith)
        requires
            hi == 0x100_0000_0000,
    ;
    while lo + 1 < hi
        invariant
            lo < hi <= 0x100_0000_0000,
            lo * lo <= n,
            n < hi * hi,
        decreases hi - lo,
    {
        let mid = lo + (hi - lo) / 2;
        assert(mid * mid <= 0x100_0000_0000 * 0x100_0000_0000) by (nonlinear_arith)
            requires
                mid <= 0x100_0000_0000,
        ;
        if mid * mid <= n {
            lo = mid;
        } else {
            hi = mid;
        }
    }
    proof {
        lemma_floor_sqrt_is(n as nat, lo as nat);
    }
    lo as u64
}

} // verus!
