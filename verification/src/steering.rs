//! Choosing a target heading, turning towards it at a bounded rate, and
//! moving on the torus.

use vstd::prelude::*;
use crate::boids::{
    alignment, centroid, closest, cohesion, flees, nearest, nearest_dist_sq, neighbors, opposite,
    separation, sight_line, Boid, LocalFlock,
};
use crate::geometry::{floor_div, range_sq, square, wrap, wrapped, Point};
use crate::units::{
    CROWDED_RANGE, FLEE_RANGE, HALF_TURN, LOCAL_FLOCK_SIZE, MOTION_SCALE, PERCEPTION_RADIUS,
    SPARSE_RANGE, TICKS_PER_SECOND, TURN,
};

verus! {

/// The arena: a torus of `width` by `height` position steps.
#[derive(Debug, Clone, Copy, PartialEq, Eq, Structural)]
pub struct World {
    pub width: i32,
    pub height: i32,
}

impl World {
    /// Whether the arena has an inside.
    pub open spec fn wf(self) -> bool {
        self.width > 0 && self.height > 0
    }
}

/// What the rules need from trigonometry during one update of one boid.
#[derive(Debug, Clone, Copy, PartialEq, Eq, Structural)]
pub struct Readings {
    /// The bearing of the sight line to the neighbors' centroid.
    pub to_centroid: i32,
    /// The bearing of the sight line to the nearest neighbor.
    pub to_nearest: i32,
    /// The sine of the heading after the turn, times `TRIG_ONE`.
    pub sin: i32,
    /// The cosine of the heading after the turn, times `TRIG_ONE`.
    pub cos: i32,
}

/// The remainder that has the sign of the dividend.
pub open spec fn rem_toward_zero(a: int, m: int) -> int {
    if a >= 0 {
        a % m
    } else {
        -((-a) % m)
    }
}

/// The turn that a difference of headings asks for. The difference is
/// reduced by half turns, a full turn is added where it was negative, and
/// what then exceeds half a turn is brought back by a full turn.
pub open spec fn normalized(delta: int) -> int {
    let first = rem_toward_zero(delta, HALF_TURN as int) + if delta < 0 {
        TURN as int
    } else {
        0
    };
    if first > HALF_TURN {
        rem_toward_zero(first + HALF_TURN, TURN as int) - HALF_TURN
    } else {
        first
    }
}

/// The furthest a boid may turn during `elapsed` ticks.
pub open spec fn max_turn(angular_vel: u32, elapsed: u64) -> int {
    (angular_vel * elapsed) / (TICKS_PER_SECOND as int)
}

/// `value`, held within `limit` of zero.
pub open spec fn clamped(value: int, limit: int) -> int {
    if value > limit {
        limit
    } else if value < -limit {
        -limit
    } else {
        value
    }
}

/// The heading that the boid steers for, given what cohesion and separation
/// ask for. It is the alignment heading, unless the boid has neighbors and
/// does not yet fly as they do on average: then cohesion decides where the
/// nearest neighbor is at the sparse range or beyond, and separation where
/// it is at the crowded range or within; where both would, separation does.
/// A neighbor on the boid's own spot is a neighbor like any other, and the
/// nearest there can be.
pub open spec fn arbitrated(me: Boid, local: Seq<Boid>, cohesion: int, separation: int) -> int {
    let aligned = alignment(me, local);
    if local.len() == 0 || aligned == me.rotation {
        aligned
    } else {
        let d = nearest_dist_sq(me, local);
        let pulled = if d >= range_sq(SPARSE_RANGE) {
            cohesion
        } else {
            aligned
        };
        if d <= range_sq(CROWDED_RANGE) {
            separation
        } else {
            pulled
        }
    }
}

/// The heading that the boid steers for, given the two bearings.
pub open spec fn target(me: Boid, local: Seq<Boid>, to_centroid: int, to_nearest: int) -> int {
    arbitrated(me, local, cohesion(me, local, to_centroid), separation(me, local, to_nearest))
}

/// By how much the boid turns towards `target` during `elapsed` ticks.
pub open spec fn turn(me: Boid, target: int, elapsed: u64) -> int {
    clamped(normalized(target - me.rotation), max_turn(me.angular_vel, elapsed))
}

/// The ticks from `last` to `now`; none where the clock went back.
pub open spec fn elapsed_since(last: u64, now: u64) -> u64 {
    if now >= last {
        (now - last) as u64
    } else {
        0
    }
}

/// How far a boid gets along one axis during `elapsed` ticks, rounded down.
pub open spec fn displacement(trig: i32, speed: i32, elapsed: u64) -> int {
    (trig * speed * elapsed) / (MOTION_SCALE as int)
}

/// The boid after it has turned by `delta`.
pub open spec fn turned(me: Boid, delta: int) -> Boid {
    Boid { rotation: ((me.rotation + delta) % (TURN as int)) as i32, ..me }
}

/// Where the boid is after `elapsed` ticks along its heading, whose sine
/// and cosine are given, on the torus.
pub open spec fn moved(me: Boid, sin: i32, cos: i32, elapsed: u64, world: World) -> Point {
    Point {
        x: wrapped(
            me.origin.x + displacement(sin, me.velocity.x, elapsed),
            world.width as int,
        ) as i32,
        y: wrapped(
            me.origin.y + displacement(cos, me.velocity.y, elapsed),
            world.height as int,
        ) as i32,
    }
}

/// The boid after one update against the flock as it was before the tick.
pub open spec fn updated(me: Boid, flock: Seq<Boid>, now: u64, world: World, r: Readings) -> Boid {
    let local = neighbors(me, flock, PERCEPTION_RADIUS, LOCAL_FLOCK_SIZE as nat);
    let elapsed = elapsed_since(me.last_update, now);
    let after = turned(
        me,
        turn(me, target(me, local, r.to_centroid as int, r.to_nearest as int), elapsed),
    );
    Boid { origin: moved(after, r.sin, r.cos, elapsed, world), last_update: now, ..after }
}

/// What normalising comes to: the remainder by half a turn that has the
/// sign of the difference, which is less than half a turn either way.
pub proof fn lemma_normalized(delta: int)
    ensures
        normalized(delta) == rem_toward_zero(delta, HALF_TURN as int),
        -HALF_TURN < normalized(delta) < HALF_TURN,
{
}

/// Computes the turn that a difference of headings asks for.
pub fn normalize(delta: i64) -> (n: i32)
    ensures
        n == normalized(delta as int),
        -HALF_TURN < n < HALF_TURN,
{
    proof {
        lemma_normalized(delta as int);
    }
    let half: i64 = HALF_TURN as i64;
    let full: i64 = TURN as i64;
    let reduced: i64 = match delta.checked_rem(half) {
        Some(r) => r,
        None => 0,
    };
    let first: i64 = if delta < 0 {
        reduced + full
    } else {
        reduced
    };
    if first > half {
        let again: i64 = match (first + half).checked_rem(full) {
            Some(r) => r,
            None => 0,
        };
        (again - half) as i32
    } else {
        first as i32
    }
}

/// Computes the furthest a boid may turn during `elapsed` ticks.
pub fn turn_limit(angular_vel: u32, elapsed: u64) -> (limit: u128)
    ensures
        limit == max_turn(angular_vel, elapsed),
{
    let a: u128 = angular_vel as u128;
    let e: u128 = elapsed as u128;
    assert(a * e <= 0x1_0000_0000 * 0x1_0000_0000_0000_0000) by (nonlinear_arith)
        requires
            0 <= a < 0x1_0000_0000,
            0 <= e < 0x1_0000_0000_0000_0000,
    ;
    a * e / (TICKS_PER_SECOND as u128)
}

/// Holds a turn within `limit` of zero.
pub fn clamp(value: i32, limit: u128) -> (c: i32)
    ensures
        c == clamped(value as int, limit as int),
{
    let v: i128 = value as i128;
    if limit > 0x7fff_ffff {
        value
    } else {
        let l: i128 = limit as i128;
        if v > l {
            l as i32
        } else if v < -l {
            (-l) as i32
        } else {
            value
        }
    }
}

/// Computes how far a boid gets along one axis during `elapsed` ticks.
pub fn travel(trig: i32, speed: i32, elapsed: u64) -> (d: i128)
    ensures
        d == displacement(trig, speed, elapsed),
        -0x4000_0000_0000_0000_0000_0000_0000_0000 <= d <= 0x4000_0000_0000_0000_0000_0000_0000_0000,
{
    let t: i128 = trig as i128;
    let s: i128 = speed as i128;
    let e: i128 = elapsed as i128;
    assert(-0x4000_0000_0000_0000 <= t * s <= 0x4000_0000_0000_0000) by (nonlinear_arith)
        requires
            -0x8000_0000 <= t <= 0x8000_0000,
            -0x8000_0000 <= s <= 0x8000_0000,
    ;
    let ts: i128 = t * s;
    assert(-0x4000_0000_0000_0000_0000_0000_0000_0000 <= ts * e
        <= 0x4000_0000_0000_0000_0000_0000_0000_0000) by (nonlinear_arith)
        requires
            -0x4000_0000_0000_0000 <= ts <= 0x4000_0000_0000_0000,
            0 <= e <= 0x1_0000_0000_0000_0000,
    ;
    let product: i128 = ts * e;
    proof {
        crate::geometry::lemma_floor_quot_range(product as int, MOTION_SCALE as int);
    }
    floor_div(product, MOTION_SCALE as i128)
}

/// Computes the ticks from `last` to `now`.
pub fn elapsed_ticks(last: u64, now: u64) -> (e: u64)
    ensures
        e == elapsed_since(last, now),
{
    if now >= last {
        now - last
    } else {
        0
    }
}

/// Whether the readings are what `bearing` and `sin_cos` gave for this boid
/// and this flock: each bearing that a rule uses for the sight line it is
/// of, and the sine and cosine for the heading after the turn.
pub open spec fn measured<F: Fn(i64, i64) -> i32, G: Fn(i32) -> (i32, i32)>(
    me: Boid,
    flock: Seq<Boid>,
    now: u64,
    r: Readings,
    bearing: F,
    sin_cos: G,
) -> bool {
    let local = neighbors(me, flock, PERCEPTION_RADIUS, LOCAL_FLOCK_SIZE as nat);
    let after = turned(
        me,
        turn(
            me,
            target(me, local, r.to_centroid as int, r.to_nearest as int),
            elapsed_since(me.last_update, now),
        ),
    );
    &&& local.len() > 0 ==> call_ensures(
        bearing,
        sight_line(me, centroid(local)),
        r.to_centroid,
    )
    &&& flees(me, local) ==> call_ensures(
        bearing,
        sight_line(me, local[nearest(me, local)].origin),
        r.to_nearest,
    )
    &&& call_ensures(sin_cos, (after.rotation,), (r.sin, r.cos))
}

/// Whether `after` is `before` updated against `flock`, for some readings
/// that `bearing` and `sin_cos` gave.
pub open spec fn follows<F: Fn(i64, i64) -> i32, G: Fn(i32) -> (i32, i32)>(
    before: Boid,
    after: Boid,
    flock: Seq<Boid>,
    now: u64,
    world: World,
    bearing: F,
    sin_cos: G,
) -> bool {
    exists|r: Readings|
        after == #[trigger] updated(before, flock, now, world, r) && measured(
            before,
            flock,
            now,
            r,
            bearing,
            sin_cos,
        )
}

impl Boid {
    /// The heading from this boid to `other`, as `bearing` finds it for the
    /// sight line between them.
    pub fn get_rotation<F: Fn(i64, i64) -> i32>(&self, other: Point, bearing: &F) -> (heading:
        i32)
        requires
            forall|a: i64, b: i64| call_requires(*bearing, (a, b)),
        ensures
            call_ensures(*bearing, sight_line(*self, other), heading),
    {
        let across: i64 = other.x as i64 - self.origin.x as i64;
        let up: i64 = self.origin.y as i64 - other.y as i64;
        bearing(across, up)
    }

    /// The cohesion rule: the heading from this boid to the mean position of
    /// its neighbors, as `bearing` finds it for the sight line to that
    /// centroid; the boid's own heading where it has no neighbor.
    pub fn get_cohesion<F: Fn(i64, i64) -> i32>(&self, local_flock: &LocalFlock, bearing: &F) -> (heading:
        i32)
        requires
            forall|a: i64, b: i64| call_requires(*bearing, (a, b)),
        ensures
            local_flock.flock@.len() == 0 ==> heading == self.rotation,
            local_flock.flock@.len() > 0 ==> call_ensures(
                *bearing,
                sight_line(*self, centroid(local_flock.flock@)),
                heading,
            ),
    {
        if local_flock.flock.len() == 0 {
            return self.rotation;
        }
        self.get_rotation(Boid::get_centroid(local_flock), bearing)
    }

    /// Whether the nearest neighbor is within the flee range.
    pub fn is_fleeing(&self, local_flock: &LocalFlock) -> (f: bool)
        ensures
            f == flees(*self, local_flock.flock@),
    {
        match closest(self, &local_flock.flock) {
            Some((_, d)) => d <= square(FLEE_RANGE),
            None => false,
        }
    }

    /// The separation rule: where the nearest neighbor is within the flee
    /// range, the heading half a turn from the one that `bearing` finds for
    /// the sight line to that neighbor; else the boid's own heading.
    pub fn get_seperation<F: Fn(i64, i64) -> i32>(&self, local_flock: &LocalFlock, bearing: &F) -> (heading:
        i32)
        requires
            forall|a: i64, b: i64| call_requires(*bearing, (a, b)),
        ensures
            !flees(*self, local_flock.flock@) ==> heading == self.rotation,
            flees(*self, local_flock.flock@) ==> exists|t: i32|
                #[trigger] call_ensures(
                    *bearing,
                    sight_line(
                        *self,
                        local_flock.flock@[nearest(*self, local_flock.flock@)].origin,
                    ),
                    t,
                ) && heading == opposite(t as int),
    {
        match closest(self, &local_flock.flock) {
            Some((index, d)) => {
                if d <= square(FLEE_RANGE) {
                    let t = self.get_rotation(local_flock.flock[index].origin, bearing);
                    let away = wrap(t as i128 + HALF_TURN as i128, TURN);
                    away
                } else {
                    self.rotation
                }
            },
            None => self.rotation,
        }
    }

    /// Picks the heading to steer for among what the three rules ask for.
    pub fn choose_target(&self, local_flock: &LocalFlock, cohesion: i32, separation: i32) -> (heading:
        i32)
        ensures
            heading == arbitrated(
                *self,
                local_flock.flock@,
                cohesion as int,
                separation as int,
            ),
    {
        let aligned = self.get_alignment(local_flock);
        match closest(self, &local_flock.flock) {
            None => aligned,
            Some((_, d)) => {
                if aligned == self.rotation {
                    aligned
                } else {
                    let mut heading = aligned;
                    if d >= square(SPARSE_RANGE) {
                        heading = cohesion;
                    }
                    if d <= square(CROWDED_RANGE) {
                        heading = separation;
                    }
                    heading
                }
            },
        }
    }

    /// Turns the boid towards the heading that is picked among what the
    /// three rules ask for, by no more than its turn rate allows during
    /// `elapsed` ticks.
    pub fn turn_towards(&mut self, local_flock: &LocalFlock, cohesion: i32, separation: i32, elapsed: u64)
        ensures
            *final(self) == turned(
                *old(self),
                turn(
                    *old(self),
                    arbitrated(*old(self), local_flock.flock@, cohesion as int, separation as int),
                    elapsed,
                ),
            ),
            final(self).wf(),
    {
        let goal = self.choose_target(local_flock, cohesion, separation);
        let wanted = normalize(goal as i64 - self.rotation as i64);
        let delta = clamp(wanted, turn_limit(self.angular_vel, elapsed));
        self.rotate(delta);
    }

    /// Turns the boid as the rules ask, given the bearing of the sight line
    /// to the neighbors' centroid and that of the sight line to the nearest
    /// neighbor, by no more than its turn rate allows during `elapsed`
    /// ticks.
    pub fn steer(&mut self, local_flock: &LocalFlock, to_centroid: i32, to_nearest: i32, elapsed: u64)
        ensures
            *final(self) == turned(
                *old(self),
                turn(
                    *old(self),
                    target(*old(self), local_flock.flock@, to_centroid as int, to_nearest as int),
                    elapsed,
                ),
            ),
            final(self).wf(),
    {
        let cohesion = if local_flock.size() == 0 {
            self.rotation
        } else {
            to_centroid
        };
        let separation = if self.is_fleeing(local_flock) {
            wrap(to_nearest as i128 + HALF_TURN as i128, TURN)
        } else {
            self.rotation
        };
        self.turn_towards(local_flock, cohesion, separation, elapsed);
    }

    /// Moves the boid for `elapsed` ticks along its heading, whose sine and
    /// cosine are given, and wraps it onto the torus.
    pub fn advance(&mut self, sin: i32, cos: i32, elapsed: u64, world: &World)
        requires
            world.wf(),
        ensures
            *final(self) == (Boid {
                origin: moved(*old(self), sin, cos, elapsed, *world),
                ..*old(self)
            }),
            0 <= final(self).origin.x < world.width,
            0 <= final(self).origin.y < world.height,
    {
        let x = wrap(self.origin.x as i128 + travel(sin, self.velocity.x, elapsed), world.width);
        let y = wrap(self.origin.y as i128 + travel(cos, self.velocity.y, elapsed), world.height);
        self.origin = Point { x, y };
    }
    /// Updates the boid against the flock as it was before the tick, with
    /// the readings given: finds its neighbors, turns, moves and notes the
    /// time.
    pub fn update_with(&mut self, flock: &Vec<Boid>, now: u64, world: &World, readings: &Readings)
        requires
            world.wf(),
        ensures
            *final(self) == updated(*old(self), flock@, now, *world, *readings),
            final(self).wf(),
            0 <= final(self).origin.x < world.width,
            0 <= final(self).origin.y < world.height,
    {
        let elapsed = elapsed_ticks(self.last_update, now);
        let local = self.get_local_flock(flock, PERCEPTION_RADIUS, LOCAL_FLOCK_SIZE);
        self.steer(&local, readings.to_centroid, readings.to_nearest, elapsed);
        self.advance(readings.sin, readings.cos, elapsed, world);
        self.last_update = now;
    }

    /// Updates the boid against the flock as it was before the tick. The
    /// bearing of a vector comes from `bearing`, the sine and cosine of a
    /// heading (times `TRIG_ONE`) from `sin_cos`; whatever they return, the
    /// boid ends with its heading in `[0, TURN)` and inside the world.
    pub fn update<F: Fn(i64, i64) -> i32, G: Fn(i32) -> (i32, i32)>(
        &mut self,
        flock: &Vec<Boid>,
        now: u64,
        world: &World,
        bearing: &F,
        sin_cos: &G,
    )
        requires
            world.wf(),
            forall|a: i64, b: i64| call_requires(*bearing, (a, b)),
            forall|h: i32| call_requires(*sin_cos, (h,)),
        ensures
            follows(*old(self), *final(self), flock@, now, *world, *bearing, *sin_cos),
            final(self).wf(),
            0 <= final(self).origin.x < world.width,
            0 <= final(self).origin.y < world.height,
    {
        let ghost before = *self;
        let elapsed = elapsed_ticks(self.last_update, now);
        let local = self.get_local_flock(flock, PERCEPTION_RADIUS, LOCAL_FLOCK_SIZE);
        let cohesion = self.get_cohesion(&local, bearing);
        let separation = self.get_seperation(&local, bearing);
        let ghost to_nearest: i32 = if flees(before, local.flock@) {
            choose|t: i32|
                #[trigger] call_ensures(
                    *bearing,
                    sight_line(before, local.flock@[nearest(before, local.flock@)].origin),
                    t,
                ) && separation == opposite(t as int)
        } else {
            0
        };
        self.turn_towards(&local, cohesion, separation, elapsed);
        let (sin, cos) = sin_cos(self.rotation);
        self.advance(sin, cos, elapsed, world);
        self.last_update = now;
        proof {
            let r = Readings { to_centroid: cohesion, to_nearest, sin, cos };
            assert(*self == updated(before, flock@, now, *world, r));
            assert(measured(before, flock@, now, r, *bearing, *sin_cos));
        }
    }
}

/// Updates every boid of the flock against the flock as it is, and returns
/// the flock of the next tick; `flock` itself is the snapshot and is left as
/// it is.
pub fn next_flock<F: Fn(i64, i64) -> i32, G: Fn(i32) -> (i32, i32)>(
    flock: &Vec<Boid>,
    now: u64,
    world: &World,
    bearing: &F,
    sin_cos: &G,
) -> (next: Vec<Boid>)
    requires
        world.wf(),
        forall|a: i64, b: i64| call_requires(*bearing, (a, b)),
        forall|h: i32| call_requires(*sin_cos, (h,)),
    ensures
        next@.len() == flock@.len(),
        forall|i: int|
            0 <= i < flock@.len() ==> follows(
                flock@[i],
                #[trigger] next@[i],
                flock@,
                now,
                *world,
                *bearing,
                *sin_cos,
            ),
        forall|i: int|
            0 <= i < flock@.len() ==> (#[trigger] next@[i]).wf() && 0 <= next@[i].origin.x
                < world.width && 0 <= next@[i].origin.y < world.height,
{
    let mut next: Vec<Boid> = Vec::new();
    let mut i: usize = 0;
    while i < flock.len()
        invariant
            i <= flock.len(),
            next@.len() == i,
            world.wf(),
            forall|a: i64, b: i64| call_requires(*bearing, (a, b)),
            forall|h: i32| call_requires(*sin_cos, (h,)),
            forall|k: int|
                0 <= k < i ==> follows(
                    flock@[k],
                    #[trigger] next@[k],
                    flock@,
                    now,
                    *world,
                    *bearing,
                    *sin_cos,
                ),
            forall|k: int|
                0 <= k < i ==> (#[trigger] next@[k]).wf() && 0 <= next@[k].origin.x < world.width
                    && 0 <= next@[k].origin.y < world.height,
        decreases flock.len() - i,
    {
        let mut boid = flock[i];
        boid.update(flock, now, world, bearing, sin_cos);
        next.push(boid);
        i += 1;
    }
    next
}

} // verus!
