//! Picking targets: nearest enemy, and the chain of a lightning strike.
use vstd::prelude::*;
use crate::arith::{Pos, dist2, dist2_exec, in_world, lemma_dist2_bound};
use crate::weapons::fire::falloff_damage;
use crate::weapons::fire::hit_damage;

verus! {

/// A car body somewhere in the arena.
#[derive(Debug, Clone, Copy, PartialEq, Eq, Structural)]
pub struct Body {
    pub entity: u64,
    pub pos: Pos,
}

/// Every body lies inside the world bounds.
pub open spec fn bodies_in_world(bs: Seq<Body>) -> bool {
    forall|k: int| 0 <= k < bs.len() ==> in_world(#[trigger] bs[k].pos)
}

/// Among the first `n` bodies other than `exclude`, the one nearest `from`
/// (the first of equally near ones).
pub open spec fn nearest_upto(bs: Seq<Body>, from: Pos, exclude: u64, n: int) -> Option<int>
    decreases n,
{
    if n <= 0 {
        None
    } else {
        let b = nearest_upto(bs, from, exclude, n - 1);
        if bs[n - 1].entity != exclude && (b is None || dist2(bs[n - 1].pos, from) < dist2(
            bs[b->0].pos,
            from,
        )) {
            Some(n - 1)
        } else {
            b
        }
    }
}

/// The body other than `self_entity` nearest `from` (the first of equally
/// near ones), with its squared distance in square millimetres.
pub fn nearest_enemy(from: Pos, self_entity: u64, bodies: &Vec<Body>) -> (r: Option<(u64, Pos, u128)>)
    requires
        in_world(from),
        bodies_in_world(bodies@),
    ensures
        match nearest_upto(bodies@, from, self_entity, bodies@.len() as int) {
            Some(k) => r == Some(
                (bodies@[k].entity, bodies@[k].pos, dist2(bodies@[k].pos, from) as u128),
            ),
            None => r is None,
        },
{
    let mut best: Option<(u64, Pos, u128)> = None;
    let mut i: usize = 0;
    while i < bodies.len()
        invariant
            i <= bodies@.len(),
            in_world(from),
            bodies_in_world(bodies@),
            match nearest_upto(bodies@, from, self_entity, i as int) {
                Some(k) => 0 <= k < i && best == Some(
                    (bodies@[k].entity, bodies@[k].pos, dist2(bodies@[k].pos, from) as u128),
                ),
                None => best is None,
            },
        decreases bodies@.len() - i,
    {
        let b = bodies[i];
        proof {
            lemma_dist2_bound(b.pos, from);
            match nearest_upto(bodies@, from, self_entity, i as int) {
                Some(k) => lemma_dist2_bound(bodies@[k].pos, from),
                None => {},
            }
        }
        if b.entity != self_entity {
            let d = dist2_exec(b.pos, from);
            let better = match best {
                None => true,
                Some((_, _, bd)) => d < bd,
            };
            if better {
                best = Some((b.entity, b.pos, d));
            }
        }
        i = i + 1;
    }
    best
}

/// Among the first `n` of `rem`, the one nearest `prev` within squared
/// distance `r2` (the first of equally near ones).
pub open spec fn closest_within_upto(rem: Seq<Body>, prev: Pos, r2: int, n: int) -> Option<int>
    decreases n,
{
    if n <= 0 {
        None
    } else {
        let b = closest_within_upto(rem, prev, r2, n - 1);
        if dist2(rem[n - 1].pos, prev) <= r2 && (b is None || dist2(rem[n - 1].pos, prev) < dist2(
            rem[b->0].pos,
            prev,
        )) {
            Some(n - 1)
        } else {
            b
        }
    }
}

/// The positions a lightning chain strikes: from `prev`, at most `left`
/// more jumps, each to the nearest remaining enemy within squared distance
/// `r2` of the previous strike, which is then used up.
pub open spec fn chain_path(rem: Seq<Body>, prev: Pos, r2: int, left: nat) -> Seq<Pos>
    decreases left,
{
    if left == 0 {
        Seq::empty()
    } else {
        match closest_within_upto(rem, prev, r2, rem.len() as int) {
            None => Seq::empty(),
            Some(k) => seq![rem[k].pos] + chain_path(rem.remove(k), rem[k].pos, r2, (left - 1) as nat),
        }
    }
}

/// The bodies other than `exclude`, in order.
pub open spec fn others(bs: Seq<Body>, exclude: u64) -> Seq<Body> {
    bs.filter(|b: Body| b.entity != exclude)
}

/// One strike of a lightning chain.
#[derive(Debug, Clone, Copy, PartialEq, Eq, Structural)]
pub struct ChainLink {
    pub pos: Pos,
    pub damage: u64,
}

/// Nearest of `rem` within squared distance `r2` of `prev`.
fn closest_within(rem: &Vec<Body>, prev: Pos, r2: u128) -> (r: Option<usize>)
    requires
        in_world(prev),
        bodies_in_world(rem@),
    ensures
        match closest_within_upto(rem@, prev, r2 as int, rem@.len() as int) {
            Some(k) => r == Some(k as usize) && 0 <= k < rem@.len(),
            None => r is None,
        },
{
    let mut best: Option<usize> = None;
    let mut best_d: u128 = 0;
    let mut i: usize = 0;
    while i < rem.len()
        invariant
            i <= rem@.len(),
            in_world(prev),
            bodies_in_world(rem@),
            match closest_within_upto(rem@, prev, r2 as int, i as int) {
                Some(k) => 0 <= k < i && best == Some(k as usize) && best_d == dist2(rem@[k].pos, prev),
                None => best is None,
            },
        decreases rem@.len() - i,
    {
        let d = dist2_exec(rem[i].pos, prev);
        if d <= r2 {
            let better = match best {
                None => true,
                Some(_) => d < best_d,
            };
            if better {
                best = Some(i);
                best_d = d;
            }
        }
        i = i + 1;
    }
    best
}

/// The strikes of a lightning chain fired from `muzzle` by `attacker`: up to
/// `max_links` jumps, each to the nearest enemy body not yet struck within
/// `link_radius` of the previous strike; the k-th strike (from 0) deals
/// `damage` less `falloff` thousandths per earlier strike.
pub fn tesla_chain(
    muzzle: Pos,
    attacker: u64,
    bodies: &Vec<Body>,
    link_radius: u32,
    max_links: u32,
    damage: u64,
    falloff: u64,
) -> (links: Vec<ChainLink>)
    requires
        in_world(muzzle),
        bodies_in_world(bodies@),
        damage <= 1_000_000_000_000_000,
        falloff <= 1000,
    ensures
        links@.len() == chain_path(
            others(bodies@, attacker),
            muzzle,
            (link_radius as int) * (link_radius as int),
            max_links as nat,
        ).len(),
        forall|k: int|
            0 <= k < links@.len() ==> links@[k] == (ChainLink {
                pos: chain_path(
                    others(bodies@, attacker),
                    muzzle,
                    (link_radius as int) * (link_radius as int),
                    max_links as nat,
                )[k],
                damage: falloff_damage(damage, falloff, k) as u64,
            }),
{
    let ghost full = others(bodies@, attacker);
    assert((link_radius as u128) * (link_radius as u128) <= 0x1_0000_0000 * 0x1_0000_0000) by (nonlinear_arith)
        requires
            link_radius < 0x1_0000_0000,
    ;
    let r2: u128 = (link_radius as u128) * (link_radius as u128);
    let mut rem: Vec<Body> = Vec::new();
    let mut i: usize = 0;
    while i < bodies.len()
        invariant
            i <= bodies@.len(),
            bodies_in_world(bodies@),
            rem@ == others(bodies@.take(i as int), attacker),
            bodies_in_world(rem@),
        decreases bodies@.len() - i,
    {
        let ghost before = rem@;
        proof {
            let t = bodies@.take(i as int + 1);
            assert(t.drop_last() =~= bodies@.take(i as int));
            reveal_with_fuel(Seq::filter, 1);
        }
        if bodies[i].entity != attacker {
            rem.push(bodies[i]);
        }
        i = i + 1;
    }
    assert(bodies@.take(bodies@.len() as int) =~= bodies@);
    let mut links: Vec<ChainLink> = Vec::new();
    let mut prev = muzzle;
    let mut done: u32 = 0;
    let ghost target = chain_path(full, muzzle, r2 as int, max_links as nat);
    while done < max_links
        invariant
            done <= max_links,
            in_world(prev),
            bodies_in_world(rem@),
            damage <= 1_000_000_000_000_000,
            falloff <= 1000,
            r2 == (link_radius as int) * (link_radius as int),
            links@.len() == done,
            target == chain_path(full, muzzle, r2 as int, max_links as nat),
            target == links@.map_values(|l: ChainLink| l.pos) + chain_path(
                rem@,
                prev,
                r2 as int,
                (max_links - done) as nat,
            ),
            forall|k: int| 0 <= k < done ==> links@[k].damage == falloff_damage(damage, falloff, k),
        ensures
            forall|k: int| 0 <= k < links@.len() ==> links@[k].damage == falloff_damage(damage, falloff, k),
            target =~= links@.map_values(|l: ChainLink| l.pos),
        decreases max_links - done,
    {
        match closest_within(&rem, prev, r2) {
            None => {
                assert(chain_path(rem@, prev, r2 as int, (max_links - done) as nat) =~= Seq::empty());
                assert(target =~= links@.map_values(|l: ChainLink| l.pos));
                break;
            },
            Some(k) => {
                let b = rem.remove(k);
                let d = hit_damage(damage, falloff, done);
                let ghost old_links = links@;
                links.push(ChainLink { pos: b.pos, damage: d });
                proof {
                    assert(links@.map_values(|l: ChainLink| l.pos) =~= old_links.map_values(
                        |l: ChainLink| l.pos,
                    ).push(b.pos));
                    assert forall|j: int| 0 <= j < rem@.len() implies in_world(#[trigger] rem@[j].pos) by {
                        if j < k {
                        } else {
                        }
                    }
                }
                prev = b.pos;
                done = done + 1;
            },
        }
    }
    proof {
        assert(links@.map_values(|l: ChainLink| l.pos).len() == links@.len());
        assert forall|k: int| 0 <= k < links@.len() implies links@[k] == (ChainLink {
            pos: target[k],
            damage: falloff_damage(damage, falloff, k) as u64,
        }) by {
            assert(links@.map_values(|l: ChainLink| l.pos)[k] == links@[k].pos);
        }
    }
    links
}

/// Among the first `n` bodies, those other than `exclude` within squared
/// distance `r2` of `from`, in order.
pub open spec fn within_upto(bs: Seq<Body>, from: Pos, exclude: u64, r2: int, n: int) -> Seq<u64>
    decreases n,
{
    if n <= 0 {
        Seq::empty()
    } else {
        within_upto(bs, from, exclude, r2, n - 1) + if bs[n - 1].entity != exclude && dist2(bs[n - 1].pos, from) <= r2 {
            seq![bs[n - 1].entity]
        } else {
            Seq::empty()
        }
    }
}

/// The cars an EMP pulse from `muzzle` reaches: every car but the
/// attacker within `radius` millimetres, in order.
pub fn emp_targets(muzzle: Pos, attacker: u64, cars: &Vec<Body>, radius: u32) -> (hit: Vec<u64>)
    requires
        in_world(muzzle),
        bodies_in_world(cars@),
    ensures
        hit@ == within_upto(cars@, muzzle, attacker, radius as int * radius as int, cars@.len() as int),
{
    assert((radius as u128) * (radius as u128) <= 0xffff_ffff_ffff_ffff_ffff_ffff) by (nonlinear_arith)
        requires
            radius <= 0xffff_ffff,
    ;
    let r2: u128 = (radius as u128) * (radius as u128);
    let mut hit: Vec<u64> = Vec::new();
    let mut i: usize = 0;
    while i < cars.len()
        invariant
            i <= cars@.len(),
            in_world(muzzle),
            bodies_in_world(cars@),
            r2 == radius as int * radius as int,
            hit@ =~= within_upto(cars@, muzzle, attacker, r2 as int, i as int),
        decreases cars@.len() - i,
    {
        let b = cars[i];
        proof {
            lemma_dist2_bound(b.pos, muzzle);
        }
        if b.entity != attacker && dist2_exec(b.pos, muzzle) <= r2 {
            hit.push(b.entity);
        }
        i = i + 1;
    }
    hit
}

} // verus!
