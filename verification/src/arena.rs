//! Arena effects with bookkeeping of their own: the glowing trail behind
//! each car and the sparks of car-on-car crashes.
use vstd::prelude::*;
use crate::arith::{Pos, clamp_i64, sat_add};
use crate::random::random_range;

verus! {

/// A point of a car's trail, with the time (milliseconds) it was laid.
#[derive(Debug, Clone, Copy, PartialEq, Eq, Structural)]
pub struct TrailPoint {
    pub pos: Pos,
    pub t: i64,
}

/// The trail behind one car: its points, oldest first, its width
/// (millimetres) and how long (milliseconds) a point stays.
#[derive(Debug)]
pub struct RibbonTrail {
    pub car_entity: u64,
    pub points: std::collections::VecDeque<TrailPoint>,
    pub width: u32,
    pub lifetime: i64,
}

/// How many of the oldest points, from the `k`-th on, have outlived the
/// trail at time `now`: the run of them that is cut off.
pub open spec fn stale_run(ps: Seq<TrailPoint>, now: i64, lifetime: i64, k: int) -> int
    decreases ps.len() - k,
{
    if k < 0 || k >= ps.len() || now - ps[k].t <= lifetime {
        0
    } else {
        1 + stale_run(ps, now, lifetime, k + 1)
    }
}

/// Fastest speed, in millimetres per second, below which no trail is laid.
pub const TRAIL_MIN_SPEED: u64 = 2000;

/// The points after one is laid at time `now` for `car` (its anchor and
/// speed, when it exists), if it moves faster than 2 m/s.
pub open spec fn laid_points(ps: Seq<TrailPoint>, now: i64, car: Option<(Pos, u64)>) -> Seq<TrailPoint> {
    match car {
        Some((p, v)) => if v > TRAIL_MIN_SPEED {
            ps.push(TrailPoint { pos: p, t: now })
        } else {
            ps
        },
        None => ps,
    }
}

/// The points' times never decrease.
pub open spec fn time_sorted(ps: Seq<TrailPoint>) -> bool {
    forall|i: int, j: int| 0 <= i <= j < ps.len() ==> #[trigger] ps[i].t <= #[trigger] ps[j].t
}

/// Whether a point is still within the trail's lifetime at time `now`.
pub open spec fn still_fresh(now: i64, lifetime: i64) -> spec_fn(TrailPoint) -> bool {
    |p: TrailPoint| now - p.t <= lifetime
}

impl RibbonTrail {
    /// A fresh trail for car `car_entity`: 1.5 m wide, points lasting 0.4 s.
    pub fn new(car_entity: u64) -> (r: RibbonTrail)
        ensures
            r.car_entity == car_entity,
            r.points@.len() == 0,
            r.width == 1500,
            r.lifetime == 400,
    {
        RibbonTrail { car_entity, points: std::collections::VecDeque::new(), width: 1500, lifetime: 400 }
    }

    /// One update at time `now`.  `car` is the car's trail anchor and speed
    /// when the car still exists; a point is laid while it moves faster
    /// than 2 m/s.  Points older than the lifetime are cut off from the old
    /// end.  Returns whether the trail is done: no points left and no car.
    pub fn update(&mut self, now: i64, car: Option<(Pos, u64)>) -> (done: bool)
        ensures
            ({
                let laid = laid_points(old(self).points@, now, car);
                &&& final(self).points@ == laid.skip(stale_run(laid, now, old(self).lifetime, 0))
                &&& done == (final(self).points@.len() == 0 && car is None)
            }),
            final(self).car_entity == old(self).car_entity,
            final(self).width == old(self).width,
            final(self).lifetime == old(self).lifetime,
    {
        match car {
            Some((p, v)) => {
                if v > TRAIL_MIN_SPEED {
                    self.points.push_back(TrailPoint { pos: p, t: now });
                }
            },
            None => {},
        }
        let ghost laid = self.points@;
        let ghost mut k: int = 0;
        while self.points.len() > 0 && (now as i128) - (self.points[0].t as i128) > (self.lifetime as i128)
            invariant
                0 <= k <= laid.len(),
                self.points@ == laid.skip(k),
                self.lifetime == old(self).lifetime,
                self.width == old(self).width,
                self.car_entity == old(self).car_entity,
                stale_run(laid, now, self.lifetime, 0) == k + stale_run(laid, now, self.lifetime, k),
            decreases self.points@.len(),
        {
            assert(self.points@[0] == laid[k]);
            self.points.pop_front();
            proof {
                assert(laid.skip(k).subrange(1, laid.skip(k).len() as int) =~= laid.skip(k + 1));
                k = k + 1;
            }
        }
        proof {
            if k < laid.len() {
                assert(self.points@[0] == laid[k]);
            }
        }
        assert(stale_run(laid, now, self.lifetime, k) == 0);
        self.points.len() == 0 && car.is_none()
    }
}

/// On a trail whose points' times never decrease and are no later than
/// `now`, one update keeps exactly the points still within the lifetime,
/// in their order (the laid points filtered), and they stay time-sorted.
pub proof fn lemma_trail_update_filters(ps: Seq<TrailPoint>, now: i64, lifetime: i64, car: Option<(Pos, u64)>)
    requires
        time_sorted(ps),
        forall|i: int| 0 <= i < ps.len() ==> #[trigger] ps[i].t <= now,
    ensures
        ({
            let laid = laid_points(ps, now, car);
            let kept = laid.skip(stale_run(laid, now, lifetime, 0));
            &&& kept == laid.filter(still_fresh(now, lifetime))
            &&& time_sorted(kept)
        }),
{
    let laid = laid_points(ps, now, car);
    assert(time_sorted(laid));
    let n = stale_run(laid, now, lifetime, 0);
    lemma_stale_run(laid, now, lifetime, 0);
    let pred = still_fresh(now, lifetime);
    assert forall|i: int| 0 <= i < n implies !pred(#[trigger] laid.take(n)[i]) by {
        assert(laid.take(n)[i] == laid[i]);
    }
    assert forall|i: int| 0 <= i < laid.len() - n implies pred(#[trigger] laid.skip(n)[i]) by {
        assert(laid.skip(n)[i] == laid[n + i]);
        assert(laid[n].t <= laid[n + i].t);
    }
    lemma_filter_none(laid.take(n), pred);
    lemma_filter_all(laid.skip(n), pred);
    assert(laid == laid.take(n) + laid.skip(n));
    Seq::filter_distributes_over_add(laid.take(n), laid.skip(n), pred);
    assert(laid.take(n).filter(pred) + laid.skip(n) == laid.skip(n));
}

/// The stale run from `k` on covers only stale points and, unless it
/// reaches the end, stops at a fresh one.
proof fn lemma_stale_run(ps: Seq<TrailPoint>, now: i64, lifetime: i64, k: int)
    requires
        0 <= k <= ps.len(),
    ensures
        0 <= stale_run(ps, now, lifetime, k) <= ps.len() - k,
        forall|i: int| k <= i < k + stale_run(ps, now, lifetime, k) ==> now - #[trigger] ps[i].t > lifetime,
        k + stale_run(ps, now, lifetime, k) < ps.len() ==> now - ps[k + stale_run(ps, now, lifetime, k)].t
            <= lifetime,
    decreases ps.len() - k,
{
    if k < ps.len() && now - ps[k].t > lifetime {
        lemma_stale_run(ps, now, lifetime, k + 1);
    }
}

/// Filtering keeps a sequence whole when every item passes.
proof fn lemma_filter_all(s: Seq<TrailPoint>, pred: spec_fn(TrailPoint) -> bool)
    requires
        forall|i: int| 0 <= i < s.len() ==> pred(#[trigger] s[i]),
    ensures
        s.filter(pred) == s,
    decreases s.len(),
{
    reveal(Seq::filter);
    if s.len() > 0 {
        assert forall|i: int| 0 <= i < s.drop_last().len() implies pred(#[trigger] s.drop_last()[i]) by {
            assert(s.drop_last()[i] == s[i]);
        }
        lemma_filter_all(s.drop_last(), pred);
        assert(pred(s[s.len() - 1]));
        assert(s.drop_last().push(s.last()) == s);
    }
}

/// Filtering leaves nothing when no item passes.
proof fn lemma_filter_none(s: Seq<TrailPoint>, pred: spec_fn(TrailPoint) -> bool)
    requires
        forall|i: int| 0 <= i < s.len() ==> !pred(#[trigger] s[i]),
    ensures
        s.filter(pred) == Seq::<TrailPoint>::empty(),
    decreases s.len(),
{
    reveal(Seq::filter);
    if s.len() > 0 {
        assert forall|i: int| 0 <= i < s.drop_last().len() implies !pred(#[trigger] s.drop_last()[i]) by {
            assert(s.drop_last()[i] == s[i]);
        }
        lemma_filter_none(s.drop_last(), pred);
        assert(!pred(s[s.len() - 1]));
    }
}

/// A spark flying off a crash, with the milliseconds it has left.
#[derive(Debug, Clone, Copy, PartialEq, Eq, Structural)]
pub struct Spark {
    pub timer: i64,
}

impl Spark {
    /// A spark lasting between half a second and a second, at random.
    pub fn new() -> (s: Spark)
        ensures
            500 <= s.timer < 1000,
    {
        Spark { timer: random_range(500, 1000) }
    }

    /// A spark lasting between `lo` and `hi` milliseconds, at random.
    pub fn lasting(lo: i64, hi: i64) -> (s: Spark)
        requires
            lo < hi,
        ensures
            lo <= s.timer < hi,
    {
        Spark { timer: random_range(lo, hi) }
    }

    /// Lets `dt` milliseconds pass; returns whether the spark is out.
    pub fn tick(&mut self, dt: u32) -> (out: bool)
        ensures
            final(self).timer == clamp_i64(old(self).timer - dt),
            out == (final(self).timer <= 0),
    {
        self.timer = sat_add(self.timer, -(dt as i64));
        self.timer <= 0
    }
}

/// Sparks in one crash burst.
pub const SPARKS_PER_CRASH: usize = 40;

/// A contact makes a burst of sparks only between two cars (never with a
/// spark), at or above ground level.
pub fn spark_burst_wanted(first_is_spark: bool, second_is_spark: bool, first_is_car: bool, second_is_car: bool, at: Pos) -> (b: bool)
    ensures
        b == (!first_is_spark && !second_is_spark && first_is_car && second_is_car && at.y >= 0),
{
    !first_is_spark && !second_is_spark && first_is_car && second_is_car && at.y >= 0
}

} // verus!
