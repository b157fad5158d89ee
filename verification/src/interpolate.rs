//! Intermediate points for splitting long way segments, so that elevation
//! can be sampled along them.
//!
//! Coordinates and resolutions are in 1e-7 degrees, as `(lat7, lon7)`.

use vstd::prelude::*;
use std::collections::HashMap;
use crate::model::Node;

verus! {

broadcast use vstd::std_specs::hash::group_hash_axioms;

/// `x / n` rounded toward zero, for a positive `n`.
pub open spec fn trunc_div(x: int, n: int) -> int {
    if x >= 0 { x / n } else { -((-x) / n) }
}

/// `x / r` rounded up, for `x >= 0` and a positive `r`.
pub open spec fn ceil_div(x: int, r: int) -> int {
    (x + r - 1) / r
}

pub open spec fn abs(x: int) -> int {
    if x < 0 { -x } else { x }
}

/// The number of steps from `a` to `b`: enough that no step exceeds the
/// resolution in either direction, and at least one.
pub open spec fn step_count(a: (i64, i64), b: (i64, i64), res: (i64, i64)) -> int {
    let n0 = ceil_div(abs(b.0 - a.0), res.0 as int);
    let n1 = ceil_div(abs(b.1 - a.1), res.1 as int);
    let m = if n0 >= n1 { n0 } else { n1 };
    if m >= 1 { m } else { 1 }
}

/// The points strictly between `a` and `b` that cut the segment into
/// `step_count` equal steps, each rounded toward `a` to the grid of 1e-7 degrees.
pub open spec fn intermediate_points(a: (i64, i64), b: (i64, i64), res: (i64, i64)) -> Seq<(int, int)> {
    let n = step_count(a, b, res);
    Seq::new((n - 1) as nat, |k: int| (
        a.0 + trunc_div((b.0 - a.0) * (k + 1), n),
        a.1 + trunc_div((b.1 - a.1) * (k + 1), n),
    ))
}

/// A latitude and longitude inside their valid ranges.
pub open spec fn valid_coordinate(c: (i64, i64)) -> bool {
    -900_000_000 <= c.0 <= 900_000_000 && -1_800_000_000 <= c.1 <= 1_800_000_000
}

/// Splits way segments and remembers node positions.
pub struct WaySplitter {
    /// The id for the next node created; new nodes count down from -1.
    pub next_node_id: i64,
    /// Node positions by id.
    pub location_index: HashMap<i64, (i64, i64)>,
}

proof fn lemma_step_bounds(d: int, k: int, n: int)
    requires
        0 <= k < n,
        n >= 1,
    ensures
        abs(trunc_div(d * (k + 1), n)) <= abs(d),
        d >= 0 ==> 0 <= trunc_div(d * (k + 1), n) <= d,
        d < 0 ==> d <= trunc_div(d * (k + 1), n) <= 0,
{
    if d >= 0 {
        assert(0 <= d * (k + 1) <= d * n) by (nonlinear_arith)
            requires d >= 0, 0 <= k < n;
        assert(d * (k + 1) / n <= d) by (nonlinear_arith)
            requires d >= 0, 0 <= d * (k + 1) <= d * n, n >= 1;
        assert(0 <= d * (k + 1) / n) by (nonlinear_arith)
            requires 0 <= d * (k + 1), n >= 1;
    } else {
        assert(-(d * (k + 1)) == (-d) * (k + 1)) by (nonlinear_arith);
        assert(0 <= (-d) * (k + 1) <= (-d) * n) by (nonlinear_arith)
            requires -d > 0, 0 <= k < n;
        assert((-d) * (k + 1) / n <= -d) by (nonlinear_arith)
            requires -d > 0, 0 <= (-d) * (k + 1) <= (-d) * n, n >= 1;
        assert(0 <= (-d) * (k + 1) / n) by (nonlinear_arith)
            requires 0 <= (-d) * (k + 1), n >= 1;
    }
}

/// Rounding up without overflow: `ceil_div(x, r)` is 0 for 0 and
/// `(x - 1) / r + 1` otherwise, and never more than `x`.
proof fn lemma_ceil_div(x: int, r: int)
    requires
        x >= 0,
        r > 0,
    ensures
        ceil_div(x, r) == if x == 0 { 0 } else { (x - 1) / r + 1 },
        ceil_div(x, r) <= x,
        ceil_div(x, r) >= 0,
{
    if x == 0 {
        assert((r - 1) / r == 0) by (nonlinear_arith)
            requires r > 0;
    } else {
        assert((x + r - 1) / r == (x - 1) / r + 1) by (nonlinear_arith)
            requires x >= 1, r > 0;
        assert((x - 1) / r <= x - 1) by (nonlinear_arith)
            requires x >= 1, r > 0;
        assert((x - 1) / r >= 0) by (nonlinear_arith)
            requires x >= 1, r > 0;
    }
}

/// Every intermediate point lies between `a` and `b`, in latitude and in longitude.
pub proof fn lemma_intermediate_points_between(a: (i64, i64), b: (i64, i64), res: (i64, i64), k: int)
    requires
        res.0 > 0,
        res.1 > 0,
        0 <= k < intermediate_points(a, b, res).len(),
    ensures
        ({
            let p = intermediate_points(a, b, res)[k];
            &&& (if a.0 <= b.0 { a.0 <= p.0 <= b.0 } else { b.0 <= p.0 <= a.0 })
            &&& (if a.1 <= b.1 { a.1 <= p.1 <= b.1 } else { b.1 <= p.1 <= a.1 })
        }),
{
    let n = step_count(a, b, res);
    lemma_step_bounds(b.0 - a.0, k, n);
    lemma_step_bounds(b.1 - a.1, k, n);
}

impl WaySplitter {
    pub fn new() -> (w: Self)
        ensures
            w.next_node_id == -1,
            w.location_index@ == Map::<i64, (i64, i64)>::empty(),
    {
        WaySplitter { next_node_id: -1, location_index: HashMap::new() }
    }

    /// Remembers the position of `node`.
    pub fn set_coordinates(&mut self, node: &Node)
        ensures
            final(self).location_index@ == old(self).location_index@.insert(node.id, (node.lat7, node.lon7)),
            final(self).next_node_id == old(self).next_node_id,
    {
        self.location_index.insert(node.id, (node.lat7, node.lon7));
    }

    /// The remembered position of node `id`.
    pub fn get_coordinates(&self, id: i64) -> (r: Option<(i64, i64)>)
        ensures
            self.location_index@.contains_key(id) ==> r == Some(self.location_index@[id]),
            !self.location_index@.contains_key(id) ==> r is None,
    {
        match self.location_index.get(&id) {
            Some(c) => Some(*c),
            None => None,
        }
    }

    /// The points that cut the segment from `a` to `b` into steps no longer
    /// than `res` in latitude and longitude.
    pub fn compute_intermediate_points(&self, a: (i64, i64), b: (i64, i64), res: (i64, i64)) -> (v: Vec<(i64, i64)>)
        requires
            valid_coordinate(a),
            valid_coordinate(b),
            res.0 > 0,
            res.1 > 0,
        ensures
            v@.len() == intermediate_points(a, b, res).len(),
            forall|k: int| 0 <= k < v@.len() ==> (#[trigger] v@[k]).0 as int == intermediate_points(a, b, res)[k].0
                && v@[k].1 as int == intermediate_points(a, b, res)[k].1,
    {
        let dx: i64 = b.0 - a.0;
        let dy: i64 = b.1 - a.1;
        let adx: i64 = if dx < 0 { -dx } else { dx };
        let ady: i64 = if dy < 0 { -dy } else { dy };
        let n0: i64 = if adx == 0 { 0 } else { (adx - 1) / res.0 + 1 };
        let n1: i64 = if ady == 0 { 0 } else { (ady - 1) / res.1 + 1 };
        proof {
            lemma_ceil_div(adx as int, res.0 as int);
            lemma_ceil_div(ady as int, res.1 as int);
        }
        let m: i64 = if n0 >= n1 { n0 } else { n1 };
        let n: i64 = if m >= 1 { m } else { 1 };
        assert(n == step_count(a, b, res));

        let mut v: Vec<(i64, i64)> = Vec::new();
        let mut k: i64 = 0;
        while k < n - 1
            invariant
                0 <= k <= n - 1,
                n == step_count(a, b, res),
                n >= 1,
                n <= 4_000_000_000,
                valid_coordinate(a),
                dx == b.0 - a.0,
                dy == b.1 - a.1,
                -1_800_000_000 <= dx <= 1_800_000_000,
                -3_600_000_000 <= dy <= 3_600_000_000,
                v@.len() == k,
                forall|j: int| 0 <= j < k ==> (#[trigger] v@[j]).0 as int == intermediate_points(a, b, res)[j].0
                    && v@[j].1 as int == intermediate_points(a, b, res)[j].1,
            decreases n - 1 - k,
        {
            let ghost kk = k as int;
            proof {
                lemma_step_bounds(dx as int, kk, n as int);
                lemma_step_bounds(dy as int, kk, n as int);
                assert(-8_000_000_000_000_000_000 <= (dx as int) * (kk + 1) <= 8_000_000_000_000_000_000) by (nonlinear_arith)
                    requires -1_800_000_000 <= dx <= 1_800_000_000, 0 <= kk < n, n <= 4_000_000_000;
                assert(-16_000_000_000_000_000_000 <= (dy as int) * (kk + 1) <= 16_000_000_000_000_000_000) by (nonlinear_arith)
                    requires -3_600_000_000 <= dy <= 3_600_000_000, 0 <= kk < n, n <= 4_000_000_000;
            }
            let px: i128 = (dx as i128) * ((k + 1) as i128);
            let py: i128 = (dy as i128) * ((k + 1) as i128);
            let qx: i128 = if px >= 0 { px / (n as i128) } else { -((-px) / (n as i128)) };
            let qy: i128 = if py >= 0 { py / (n as i128) } else { -((-py) / (n as i128)) };
            assert(qx as int == trunc_div((dx as int) * (kk + 1), n as int));
            assert(qy as int == trunc_div((dy as int) * (kk + 1), n as int));
            let x: i64 = (a.0 as i128 + qx) as i64;
            let y: i64 = (a.1 as i128 + qy) as i64;
            v.push((x, y));
            k = k + 1;
        }
        v
    }
}

} // verus!
