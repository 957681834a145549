//! The boid, its neighborhood and the three flocking rules.

use vstd::prelude::*;
use crate::geometry::{dist_sq, distance_sq, floor_div, range_sq, square, Point};
use crate::units::{FLEE_RANGE, HALF_TURN, TURN};

verus! {

/// One member of the flock.
#[derive(Debug, Clone, Copy, PartialEq, Eq, Structural)]
pub struct Boid {
    /// Where the boid is, in position steps.
    pub origin: Point,
    /// Its speed along each axis, in position steps per second.
    pub velocity: Point,
    /// Its heading, in heading steps: zero faces up the screen.
    pub rotation: i32,
    /// The most it turns, in heading steps per second.
    pub angular_vel: u32,
    /// The clock tick at which it last moved.
    pub last_update: u64,
}

/// The neighbors that one boid takes into account during one update, in the
/// order of the flock.
#[derive(Debug)]
pub struct LocalFlock {
    pub flock: Vec<Boid>,
}

/// A quantity of a boid that the rules average over its neighbors.
#[derive(Debug, Clone, Copy, PartialEq, Eq, Structural)]
pub enum Quantity {
    Heading,
    X,
    Y,
}

/// The value of one quantity of a boid.
pub open spec fn quantity(b: Boid, which: Quantity) -> int {
    match which {
        Quantity::Heading => b.rotation as int,
        Quantity::X => b.origin.x as int,
        Quantity::Y => b.origin.y as int,
    }
}

/// The sum of one quantity over some boids.
pub open spec fn total(local: Seq<Boid>, which: Quantity) -> int
    decreases local.len(),
{
    if local.len() == 0 {
        0
    } else {
        total(local.drop_last(), which) + quantity(local.last(), which)
    }
}

/// The arithmetic mean of one quantity over some boids, rounded down.
pub open spec fn mean(local: Seq<Boid>, which: Quantity) -> int {
    total(local, which) / (local.len() as int)
}

/// Whether `other` counts as a neighbor of `me`: it is not in the very
/// state that `me` is in, and it is nearer than `radius`.
pub open spec fn is_neighbor(me: Boid, other: Boid, radius: u32) -> bool {
    other != me && dist_sq(other.origin, me.origin) < range_sq(radius)
}

/// The neighbors of `me` in `flock`: the boids that count as neighbors, in
/// the order of the flock, up to the first `cap` of them.
pub open spec fn neighbors(me: Boid, flock: Seq<Boid>, radius: u32, cap: nat) -> Seq<Boid>
    decreases flock.len(),
{
    if flock.len() == 0 {
        Seq::empty()
    } else {
        let before = neighbors(me, flock.drop_last(), radius, cap);
        if before.len() < cap && is_neighbor(me, flock.last(), radius) {
            before.push(flock.last())
        } else {
            before
        }
    }
}

/// Once the cap is reached, the rest of the flock adds nothing.
pub proof fn lemma_neighbors_saturated(me: Boid, flock: Seq<Boid>, radius: u32, cap: nat, n: int)
    requires
        0 <= n <= flock.len(),
        neighbors(me, flock.take(n), radius, cap).len() >= cap,
    ensures
        neighbors(me, flock, radius, cap) == neighbors(me, flock.take(n), radius, cap),
    decreases flock.len(),
{
    if n == flock.len() {
        assert(flock.take(n) == flock);
    } else {
        assert(flock.drop_last().take(n) == flock.take(n));
        lemma_neighbors_saturated(me, flock.drop_last(), radius, cap, n);
    }
}

/// The index of the neighbor nearest to `me`; of several at the same
/// distance, the first. Zero for an empty neighborhood.
pub open spec fn nearest(me: Boid, local: Seq<Boid>) -> int
    decreases local.len(),
{
    if local.len() <= 1 {
        0
    } else {
        let best = nearest(me, local.drop_last());
        if dist_sq(me.origin, local.last().origin) < dist_sq(me.origin, local[best].origin) {
            local.len() - 1
        } else {
            best
        }
    }
}

/// The squared distance from `me` to its nearest neighbor.
pub open spec fn nearest_dist_sq(me: Boid, local: Seq<Boid>) -> int {
    dist_sq(me.origin, local[nearest(me, local)].origin)
}

/// The heading that the neighbors have on average; the boid's own where it
/// has none.
pub open spec fn alignment(me: Boid, local: Seq<Boid>) -> int {
    if local.len() == 0 {
        me.rotation as int
    } else {
        mean(local, Quantity::Heading)
    }
}

/// The mean position of some boids.
pub open spec fn centroid(local: Seq<Boid>) -> Point {
    Point { x: mean(local, Quantity::X) as i32, y: mean(local, Quantity::Y) as i32 }
}

/// The vector whose bearing is the heading from `me` to `target`: the
/// difference of the two positions, turned to the screen's axes, on which
/// heading zero faces up and y grows downwards.
pub open spec fn sight_line(me: Boid, target: Point) -> (i64, i64) {
    ((target.x - me.origin.x) as i64, (me.origin.y - target.y) as i64)
}

/// The heading half a turn from `heading`, in `[0, TURN)`.
pub open spec fn opposite(heading: int) -> int {
    (heading + HALF_TURN) % (TURN as int)
}

/// The heading that cohesion asks for, given the bearing of the sight line
/// to the neighbors' centroid: that bearing, or the boid's own heading
/// where it has no neighbor.
pub open spec fn cohesion(me: Boid, local: Seq<Boid>, to_centroid: int) -> int {
    if local.len() == 0 {
        me.rotation as int
    } else {
        to_centroid
    }
}

/// Whether separation turns the boid: it has a neighbor, and the nearest
/// one is within the flee range.
pub open spec fn flees(me: Boid, local: Seq<Boid>) -> bool {
    local.len() > 0 && nearest_dist_sq(me, local) <= range_sq(FLEE_RANGE)
}

/// The heading that separation asks for, given the bearing of the sight line
/// to the nearest neighbor: straight away from it where the boid flees, its
/// own heading where it does not.
pub open spec fn separation(me: Boid, local: Seq<Boid>, to_nearest: int) -> int {
    if flees(me, local) {
        opposite(to_nearest)
    } else {
        me.rotation as int
    }
}

/// The sum of a quantity over `n` boids lies between `n` times the least and
/// `n` times the greatest 32-bit value.
pub proof fn lemma_total_bounds(local: Seq<Boid>, which: Quantity)
    ensures
        -0x8000_0000 * local.len() <= total(local, which) <= 0x7fff_ffff * local.len(),
    decreases local.len(),
{
    if local.len() > 0 {
        lemma_total_bounds(local.drop_last(), which);
    }
}

/// A mean of 32-bit values is a 32-bit value.
pub proof fn lemma_mean_bounds(local: Seq<Boid>, which: Quantity)
    requires
        local.len() > 0,
    ensures
        -0x8000_0000 <= mean(local, which) <= 0x7fff_ffff,
{
    lemma_total_bounds(local, which);
    let s = total(local, which);
    let n = local.len() as int;
    assert(-0x8000_0000 <= s / n <= 0x7fff_ffff) by (nonlinear_arith)
        requires
            n > 0,
            -0x8000_0000 * n <= s <= 0x7fff_ffff * n,
    ;
}

/// Reads one quantity of a boid.
fn read(b: &Boid, which: Quantity) -> (v: i32)
    ensures
        v == quantity(*b, which),
{
    match which {
        Quantity::Heading => b.rotation,
        Quantity::X => b.origin.x,
        Quantity::Y => b.origin.y,
    }
}

/// Computes the mean of one quantity over some boids, rounded down.
pub fn mean_of(local: &Vec<Boid>, which: Quantity) -> (m: i32)
    requires
        local.len() > 0,
    ensures
        m == mean(local@, which),
{
    let mut sum: i128 = 0;
    let mut i: usize = 0;
    while i < local.len()
        invariant
            i <= local.len(),
            sum == total(local@.take(i as int), which),
            -0x8000_0000 * i <= sum <= 0x7fff_ffff * i,
        decreases local.len() - i,
    {
        proof {
            assert(local@.take(i + 1).drop_last() == local@.take(i as int));
            assert(local@.take(i + 1).last() == local@[i as int]);
        }
        sum = sum + read(&local[i], which) as i128;
        i += 1;
    }
    proof {
        assert(local@.take(i as int) == local@);
        lemma_mean_bounds(local@, which);
    }
    floor_div(sum, local.len() as i128) as i32
}

/// Finds the nearest of some boids to `me`: its index and its squared
/// distance, or nothing where there is none.
pub fn closest(me: &Boid, local: &Vec<Boid>) -> (found: Option<(usize, u128)>)
    ensures
        local.len() == 0 <==> found.is_none(),
        match found {
            Some((index, d)) => index == nearest(*me, local@) && index < local.len() && d
                == nearest_dist_sq(*me, local@),
            None => true,
        },
{
    if local.len() == 0 {
        return None;
    }
    let mut best: usize = 0;
    let mut best_d: u128 = distance_sq(me.origin, local[0].origin);
    let mut i: usize = 1;
    assert(local@.take(1).len() == 1);
    while i < local.len()
        invariant
            1 <= i <= local.len(),
            best < i,
            best == nearest(*me, local@.take(i as int)),
            best_d == dist_sq(me.origin, local@[best as int].origin),
        decreases local.len() - i,
    {
        proof {
            assert(local@.take(i + 1).drop_last() == local@.take(i as int));
            assert(local@.take(i + 1).last() == local@[i as int]);
            assert(local@.take(i + 1)[best as int] == local@[best as int]);
        }
        let d = distance_sq(me.origin, local[i].origin);
        if d < best_d {
            best = i;
            best_d = d;
        }
        i += 1;
    }
    proof {
        assert(local@.take(i as int) == local@);
    }
    Some((best, best_d))
}

impl LocalFlock {
    /// How many neighbors there are.
    pub fn size(&self) -> (n: usize)
        ensures
            n == self.flock@.len(),
    {
        self.flock.len()
    }
}

impl Boid {
    /// Whether the heading is in `[0, TURN)`.
    pub open spec fn wf(self) -> bool {
        0 <= self.rotation < TURN
    }

    /// Makes a boid at `origin` with the given speed along each axis, that
    /// faces `rotation` (brought into `[0, TURN)`), turns at most
    /// `angular_vel` heading steps per second and last moved at `now`.
    pub fn new(origin: Point, velocity: Point, rotation: i32, angular_vel: u32, now: u64) -> (b:
        Boid)
        ensures
            b.wf(),
            b.origin == origin,
            b.velocity == velocity,
            b.rotation == rotation % TURN,
            b.angular_vel == angular_vel,
            b.last_update == now,
    {
        let mut boid = Boid { origin, velocity, rotation: 0, angular_vel, last_update: now };
        boid.rotate(rotation);
        boid
    }

    /// Turns the boid by `theta` heading steps and brings the heading back
    /// into `[0, TURN)`.
    pub fn rotate(&mut self, theta: i32)
        ensures
            final(self).wf(),
            final(self).rotation == (old(self).rotation + theta) % (TURN as int),
            final(self).origin == old(self).origin,
            final(self).velocity == old(self).velocity,
            final(self).angular_vel == old(self).angular_vel,
            final(self).last_update == old(self).last_update,
    {
        let sum: i128 = self.rotation as i128 + theta as i128;
        self.rotation = crate::geometry::wrap(sum, TURN);
    }

    /// Collects the neighbors of this boid among `flock`: the boids in
    /// another state than its own that are nearer than `radius`, in the
    /// order of the flock, and no more than the first `cap` of them.
    pub fn get_local_flock(&self, flock: &Vec<Boid>, radius: u32, cap: usize) -> (local:
        LocalFlock)
        ensures
            local.flock@ == neighbors(*self, flock@, radius, cap as nat),
    {
        let mut found: Vec<Boid> = Vec::new();
        let limit = square(radius);
        let mut i: usize = 0;
        while i < flock.len() && found.len() < cap
            invariant
                i <= flock.len(),
                limit == range_sq(radius),
                found@ == neighbors(*self, flock@.take(i as int), radius, cap as nat),
            decreases flock.len() - i,
        {
            let other = flock[i];
            proof {
                assert(flock@.take(i + 1).drop_last() == flock@.take(i as int));
                assert(flock@.take(i + 1).last() == flock@[i as int]);
            }
            if !(other == *self) && distance_sq(other.origin, self.origin) < limit {
                found.push(other);
            }
            i += 1;
        }
        proof {
            if i < flock.len() {
                lemma_neighbors_saturated(*self, flock@, radius, cap as nat, i as int);
            } else {
                assert(flock@.take(i as int) == flock@);
            }
        }
        LocalFlock { flock: found }
    }

    /// The alignment rule: the mean heading of the neighbors, or the boid's
    /// own heading where it has none.
    pub fn get_alignment(&self, local_flock: &LocalFlock) -> (heading: i32)
        ensures
            heading == alignment(*self, local_flock.flock@),
    {
        if local_flock.flock.len() == 0 {
            return self.rotation;
        }
        mean_of(&local_flock.flock, Quantity::Heading)
    }

    /// The mean position of the neighbors.
    pub fn get_centroid(local_flock: &LocalFlock) -> (c: Point)
        requires
            local_flock.flock@.len() > 0,
        ensures
            c == centroid(local_flock.flock@),
    {
        Point {
            x: mean_of(&local_flock.flock, Quantity::X),
            y: mean_of(&local_flock.flock, Quantity::Y),
        }
    }
}

} // verus!
