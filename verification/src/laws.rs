//! What holds of the flock whatever the boids, the flock and the readings
//! are.

use vstd::prelude::*;
use crate::boids::{
    alignment, centroid, flees, is_neighbor, nearest, nearest_dist_sq, neighbors, opposite,
    quantity, sight_line, total, Boid, Quantity,
};
use crate::geometry::{dist_sq, range_sq};
use crate::steering::{
    elapsed_since, follows, max_turn, measured, moved, target, turn, turned, updated, Readings,
    World,
};
use crate::units::{
    CROWDED_RANGE, FLEE_RANGE, HALF_TURN, LOCAL_FLOCK_SIZE, PERCEPTION_RADIUS, SPARSE_RANGE, TURN,
};

verus! {

/// After an update the boid is inside the world: its position is wrapped
/// onto the torus, not held at the edge.
pub proof fn law_wrapped_into_world(me: Boid, flock: Seq<Boid>, now: u64, world: World, r: Readings)
    requires
        world.wf(),
    ensures
        0 <= updated(me, flock, now, world, r).origin.x < world.width,
        0 <= updated(me, flock, now, world, r).origin.y < world.height,
{
}

/// After an update the heading is in `[0, TURN)`.
pub proof fn law_heading_normalized(me: Boid, flock: Seq<Boid>, now: u64, world: World, r: Readings)
    ensures
        updated(me, flock, now, world, r).wf(),
{
}

/// A flock in which no boid counts as a neighbor gives an empty
/// neighborhood.
pub proof fn lemma_no_neighbors(me: Boid, flock: Seq<Boid>, radius: u32, cap: nat)
    requires
        forall|i: int| 0 <= i < flock.len() ==> !is_neighbor(me, #[trigger] flock[i], radius),
    ensures
        neighbors(me, flock, radius, cap).len() == 0,
    decreases flock.len(),
{
    if flock.len() > 0 {
        let rest = flock.drop_last();
        assert forall|i: int| 0 <= i < rest.len() implies !is_neighbor(
            me,
            #[trigger] rest[i],
            radius,
        ) by {
            assert(rest[i] == flock[i]);
        }
        lemma_no_neighbors(me, rest, radius, cap);
        assert(flock.last() == flock[flock.len() - 1]);
    }
}

/// A boid that sees no other within the perception radius keeps its
/// heading, and moves by its speed along that heading alone.
pub proof fn law_isolated_boid_flies_straight(
    me: Boid,
    flock: Seq<Boid>,
    now: u64,
    world: World,
    r: Readings,
)
    requires
        me.wf(),
        forall|i: int|
            0 <= i < flock.len() ==> !is_neighbor(me, #[trigger] flock[i], PERCEPTION_RADIUS),
    ensures
        updated(me, flock, now, world, r).rotation == me.rotation,
        updated(me, flock, now, world, r).origin == moved(
            me,
            r.sin,
            r.cos,
            elapsed_since(me.last_update, now),
            world,
        ),
{
    lemma_no_neighbors(me, flock, PERCEPTION_RADIUS, LOCAL_FLOCK_SIZE as nat);
}

/// During one update a boid turns by no more than its turn rate allows for
/// the time that has passed, whichever rule steers and whatever the
/// readings are: the new heading is the old one plus a turn within that
/// limit, taken around the circle.
pub proof fn law_turn_rate(me: Boid, flock: Seq<Boid>, now: u64, world: World, r: Readings)
    ensures
        ({
            let local = neighbors(me, flock, PERCEPTION_RADIUS, LOCAL_FLOCK_SIZE as nat);
            let elapsed = elapsed_since(me.last_update, now);
            let delta = turn(
                me,
                target(me, local, r.to_centroid as int, r.to_nearest as int),
                elapsed,
            );
            &&& -max_turn(me.angular_vel, elapsed) <= delta <= max_turn(me.angular_vel, elapsed)
            &&& -HALF_TURN < delta < HALF_TURN
            &&& updated(me, flock, now, world, r).rotation == (me.rotation + delta) % (TURN as int)
        }),
{
    let elapsed = elapsed_since(me.last_update, now);
    assert(max_turn(me.angular_vel, elapsed) >= 0) by (nonlinear_arith)
        requires
            me.angular_vel >= 0,
            elapsed >= 0,
    ;
}

/// A boid that has no time to turn does not turn.
pub proof fn law_no_time_no_turn(me: Boid, goal: int)
    ensures
        turn(me, goal, 0) == 0,
{
    assert(max_turn(me.angular_vel, 0) == 0) by (nonlinear_arith);
}

/// The boids that count as neighbors, all of them, in the order of the
/// flock.
pub open spec fn in_sight(me: Boid, flock: Seq<Boid>, radius: u32) -> Seq<Boid>
    decreases flock.len(),
{
    if flock.len() == 0 {
        Seq::empty()
    } else if is_neighbor(me, flock.last(), radius) {
        in_sight(me, flock.drop_last(), radius).push(flock.last())
    } else {
        in_sight(me, flock.drop_last(), radius)
    }
}

/// The cap cuts the neighborhood by the order of the flock: the neighbors
/// are the first `cap` of the boids in sight, or all of them where there
/// are fewer. So with more than `cap` boids in sight, exactly `cap` are
/// taken.
pub proof fn law_neighbor_cap(me: Boid, flock: Seq<Boid>, radius: u32, cap: nat)
    ensures
        in_sight(me, flock, radius).len() <= cap ==> neighbors(me, flock, radius, cap)
            == in_sight(me, flock, radius),
        in_sight(me, flock, radius).len() > cap ==> neighbors(me, flock, radius, cap)
            == in_sight(me, flock, radius).take(cap as int),
        in_sight(me, flock, radius).len() > cap ==> neighbors(me, flock, radius, cap).len()
            == cap,
    decreases flock.len(),
{
    if flock.len() > 0 {
        let rest = flock.drop_last();
        law_neighbor_cap(me, rest, radius, cap);
        let seen = in_sight(me, rest, radius);
        let all = in_sight(me, flock, radius);
        if is_neighbor(me, flock.last(), radius) {
            if seen.len() >= cap {
                assert(all.take(cap as int) == seen.take(cap as int));
                assert(seen.len() == cap ==> seen.take(cap as int) == seen);
            }
        }
        if all.len() <= cap {
            assert(neighbors(me, flock, radius, cap) == all);
        } else {
            assert(neighbors(me, flock, radius, cap) == all.take(cap as int));
        }
    }
}

/// There are never more neighbors than the cap, nor than boids in the
/// flock.
pub proof fn law_neighbors_within_cap(me: Boid, flock: Seq<Boid>, radius: u32, cap: nat)
    ensures
        neighbors(me, flock, radius, cap).len() <= cap,
        neighbors(me, flock, radius, cap).len() <= flock.len(),
    decreases flock.len(),
{
    if flock.len() > 0 {
        law_neighbors_within_cap(me, flock.drop_last(), radius, cap);
    }
}

/// Every neighbor is a boid of the flock, in another state than `me` and
/// nearer than the radius.
pub proof fn law_neighbors_are_near(me: Boid, flock: Seq<Boid>, radius: u32, cap: nat, k: int)
    requires
        0 <= k < neighbors(me, flock, radius, cap).len(),
    ensures
        is_neighbor(me, neighbors(me, flock, radius, cap)[k], radius),
        flock.contains(neighbors(me, flock, radius, cap)[k]),
    decreases flock.len(),
{
    if flock.len() > 0 {
        let rest = flock.drop_last();
        let before = neighbors(me, rest, radius, cap);
        if k < before.len() {
            law_neighbors_are_near(me, rest, radius, cap, k);
            let j = choose|j: int| 0 <= j < rest.len() && rest[j] == before[k];
            assert(flock[j] == before[k]);
        } else {
            assert(flock[flock.len() - 1] == flock.last());
        }
    }
}

/// The nearest neighbor is no further than any other, and strictly nearer
/// than every one before it.
pub proof fn law_nearest_is_first_minimum(me: Boid, local: Seq<Boid>, k: int)
    requires
        0 <= k < local.len(),
    ensures
        0 <= nearest(me, local) < local.len(),
        dist_sq(me.origin, local[nearest(me, local)].origin) <= dist_sq(
            me.origin,
            local[k].origin,
        ),
        k < nearest(me, local) ==> dist_sq(me.origin, local[nearest(me, local)].origin)
            < dist_sq(me.origin, local[k].origin),
    decreases local.len(),
{
    if local.len() > 1 {
        let rest = local.drop_last();
        if k < rest.len() {
            law_nearest_is_first_minimum(me, rest, k);
        } else {
            law_nearest_is_first_minimum(me, rest, 0);
        }
        assert(rest[nearest(me, rest)] == local[nearest(me, rest)]);
        if k < rest.len() {
            assert(rest[k] == local[k]);
        }
    }
}

/// A boid whose nearest neighbor is within the flee range, and which does
/// not fly as its neighbors do on average, steers straight away from that
/// neighbor, whatever alignment and cohesion ask for.
pub proof fn law_crowded_boid_flees(me: Boid, local: Seq<Boid>, to_centroid: int, to_nearest: int)
    requires
        local.len() > 0,
        alignment(me, local) != me.rotation,
        nearest_dist_sq(me, local) <= range_sq(FLEE_RANGE),
    ensures
        target(me, local, to_centroid, to_nearest) == opposite(to_nearest),
{
    assert(range_sq(FLEE_RANGE) <= range_sq(CROWDED_RANGE)) by (nonlinear_arith);
}

/// A boid whose nearest neighbor is at the sparse range or beyond, and
/// which does not fly as its neighbors do on average, steers for their
/// centroid.
pub proof fn law_sparse_flock_pulls_together(
    me: Boid,
    local: Seq<Boid>,
    to_centroid: int,
    to_nearest: int,
)
    requires
        local.len() > 0,
        alignment(me, local) != me.rotation,
        nearest_dist_sq(me, local) >= range_sq(SPARSE_RANGE),
    ensures
        target(me, local, to_centroid, to_nearest) == to_centroid,
{
    assert(range_sq(CROWDED_RANGE) < range_sq(SPARSE_RANGE)) by (nonlinear_arith);
}

/// The centroid of a single neighbor is where that neighbor is.
pub proof fn law_centroid_of_one(b: Boid)
    ensures
        centroid(seq![b]) == b.origin,
{
    let one = seq![b];
    assert(one.drop_last().len() == 0);
    assert(one.last() == b);
    reveal_with_fuel(crate::boids::total, 2);
}

/// A sum over boids depends only on the quantity summed.
pub proof fn lemma_total_depends_on_quantity(a: Seq<Boid>, b: Seq<Boid>, which: Quantity)
    requires
        a.len() == b.len(),
        forall|i: int| 0 <= i < a.len() ==> quantity(#[trigger] a[i], which) == quantity(b[i], which),
    ensures
        total(a, which) == total(b, which),
    decreases a.len(),
{
    if a.len() > 0 {
        let short_a = a.drop_last();
        let short_b = b.drop_last();
        assert forall|i: int| 0 <= i < short_a.len() implies quantity(
            #[trigger] short_a[i],
            which,
        ) == quantity(short_b[i], which) by {
            assert(short_a[i] == a[i] && short_b[i] == b[i]);
            assert(quantity(a[i], which) == quantity(b[i], which));
        }
        lemma_total_depends_on_quantity(short_a, short_b, which);
        assert(quantity(a[a.len() - 1], which) == quantity(b[a.len() - 1], which));
    }
}

/// The centroid of some boids depends on where they are and on nothing
/// else: not on their headings, speeds, turn rates or clocks.
pub proof fn law_centroid_depends_on_positions(a: Seq<Boid>, b: Seq<Boid>)
    requires
        a.len() == b.len(),
        forall|i: int| 0 <= i < a.len() ==> (#[trigger] a[i]).origin == b[i].origin,
    ensures
        centroid(a) == centroid(b),
{
    assert forall|i: int| 0 <= i < a.len() implies quantity(#[trigger] a[i], Quantity::X)
        == quantity(b[i], Quantity::X) by {
        assert(a[i].origin == b[i].origin);
    }
    assert forall|i: int| 0 <= i < a.len() implies quantity(#[trigger] a[i], Quantity::Y)
        == quantity(b[i], Quantity::Y) by {
        assert(a[i].origin == b[i].origin);
    }
    lemma_total_depends_on_quantity(a, b, Quantity::X);
    lemma_total_depends_on_quantity(a, b, Quantity::Y);
}

/// Whether `bearing` answers one sight line in one way only.
pub open spec fn one_bearing<F: Fn(i64, i64) -> i32>(bearing: F) -> bool {
    forall|a: i64, b: i64, first: i32, second: i32|
        #[trigger] call_ensures(bearing, (a, b), first) && #[trigger] call_ensures(
            bearing,
            (a, b),
            second,
        ) ==> first == second
}

/// Whether `sin_cos` answers one heading in one way only.
pub open spec fn one_sin_cos<G: Fn(i32) -> (i32, i32)>(sin_cos: G) -> bool {
    forall|h: i32, first: (i32, i32), second: (i32, i32)|
        #[trigger] call_ensures(sin_cos, (h,), first) && #[trigger] call_ensures(
            sin_cos,
            (h,),
            second,
        ) ==> first == second
}

/// With a compass that answers each question in one way only, the update of
/// a boid is a function of the boid, the snapshot, the time and the world:
/// two updates of one boid against one snapshot end in one state.
pub proof fn law_update_is_determined<F: Fn(i64, i64) -> i32, G: Fn(i32) -> (i32, i32)>(
    before: Boid,
    first: Boid,
    second: Boid,
    flock: Seq<Boid>,
    now: u64,
    world: World,
    bearing: F,
    sin_cos: G,
)
    requires
        one_bearing(bearing),
        one_sin_cos(sin_cos),
        follows(before, first, flock, now, world, bearing, sin_cos),
        follows(before, second, flock, now, world, bearing, sin_cos),
    ensures
        first == second,
{
    let r = choose|r: Readings|
        first == #[trigger] updated(before, flock, now, world, r) && measured(
            before,
            flock,
            now,
            r,
            bearing,
            sin_cos,
        );
    let s = choose|s: Readings|
        second == #[trigger] updated(before, flock, now, world, s) && measured(
            before,
            flock,
            now,
            s,
            bearing,
            sin_cos,
        );
    let local = neighbors(before, flock, PERCEPTION_RADIUS, LOCAL_FLOCK_SIZE as nat);
    let elapsed = elapsed_since(before.last_update, now);
    if local.len() > 0 {
        let line = sight_line(before, centroid(local));
        assert(line == (line.0, line.1));
        assert(call_ensures(bearing, (line.0, line.1), r.to_centroid));
        assert(call_ensures(bearing, (line.0, line.1), s.to_centroid));
    }
    if flees(before, local) {
        let line = sight_line(before, local[nearest(before, local)].origin);
        assert(line == (line.0, line.1));
        assert(call_ensures(bearing, (line.0, line.1), r.to_nearest));
        assert(call_ensures(bearing, (line.0, line.1), s.to_nearest));
    }
    let goal = target(before, local, r.to_centroid as int, r.to_nearest as int);
    assert(goal == target(before, local, s.to_centroid as int, s.to_nearest as int));
    let after = turned(before, turn(before, goal, elapsed));
    assert(call_ensures(sin_cos, (after.rotation,), (r.sin, r.cos)));
    assert(call_ensures(sin_cos, (after.rotation,), (s.sin, s.cos)));
    assert((r.sin, r.cos) == (s.sin, s.cos));
}

/// Whether `after` is `before` with the boid at `index` updated against
/// `snapshot`, and every other boid as it was.
pub open spec fn one_updated<F: Fn(i64, i64) -> i32, G: Fn(i32) -> (i32, i32)>(
    before: Seq<Boid>,
    after: Seq<Boid>,
    snapshot: Seq<Boid>,
    index: int,
    now: u64,
    world: World,
    bearing: F,
    sin_cos: G,
) -> bool {
    if 0 <= index < before.len() {
        &&& after.len() == before.len()
        &&& follows(before[index], after[index], snapshot, now, world, bearing, sin_cos)
        &&& forall|j: int| 0 <= j < before.len() && j != index ==> #[trigger] after[j] == before[j]
    } else {
        after == before
    }
}

/// Whether step `k` of a run is one update: from stage `k` to the next, the
/// boid that `order` names at `k` is updated against `snapshot`.
pub open spec fn step_at<F: Fn(i64, i64) -> i32, G: Fn(i32) -> (i32, i32)>(
    stages: Seq<Seq<Boid>>,
    snapshot: Seq<Boid>,
    order: Seq<int>,
    k: int,
    now: u64,
    world: World,
    bearing: F,
    sin_cos: G,
) -> bool {
    one_updated(stages[k], stages[k + 1], snapshot, order[k], now, world, bearing, sin_cos)
}

/// Whether `stages` are the flocks that a run goes through: it starts from
/// `snapshot`, and each step updates the boid that `order` names next.
pub open spec fn staged<F: Fn(i64, i64) -> i32, G: Fn(i32) -> (i32, i32)>(
    stages: Seq<Seq<Boid>>,
    snapshot: Seq<Boid>,
    order: Seq<int>,
    now: u64,
    world: World,
    bearing: F,
    sin_cos: G,
) -> bool {
    &&& stages.len() == order.len() + 1
    &&& stages[0] == snapshot
    &&& forall|k: int|
        0 <= k < order.len() ==> #[trigger] step_at(
            stages,
            snapshot,
            order,
            k,
            now,
            world,
            bearing,
            sin_cos,
        )
}

/// Whether `result` can be what is left of `snapshot` once the boids named
/// in `order` have been updated one after another against `snapshot`, each
/// written back at once, with `bearing` and `sin_cos` as the compass.
pub open spec fn ticked<F: Fn(i64, i64) -> i32, G: Fn(i32) -> (i32, i32)>(
    result: Seq<Boid>,
    snapshot: Seq<Boid>,
    order: Seq<int>,
    now: u64,
    world: World,
    bearing: F,
    sin_cos: G,
) -> bool {
    exists|stages: Seq<Seq<Boid>>|
        #[trigger] staged(stages, snapshot, order, now, world, bearing, sin_cos)
            && stages[order.len() as int] == result
}

/// After the first `n` steps of a run that names no boid twice, each boid
/// named so far is its own update against the snapshot and the others are as
/// they were.
pub proof fn lemma_staged<F: Fn(i64, i64) -> i32, G: Fn(i32) -> (i32, i32)>(
    stages: Seq<Seq<Boid>>,
    snapshot: Seq<Boid>,
    order: Seq<int>,
    n: int,
    now: u64,
    world: World,
    bearing: F,
    sin_cos: G,
)
    requires
        order.no_duplicates(),
        staged(stages, snapshot, order, now, world, bearing, sin_cos),
        0 <= n <= order.len(),
    ensures
        stages[n].len() == snapshot.len(),
        forall|i: int|
            0 <= i < snapshot.len() && order.take(n).contains(i) ==> follows(
                snapshot[i],
                #[trigger] stages[n][i],
                snapshot,
                now,
                world,
                bearing,
                sin_cos,
            ),
        forall|i: int|
            0 <= i < snapshot.len() && !order.take(n).contains(i) ==> #[trigger] stages[n][i]
                == snapshot[i],
    decreases n,
{
    if n > 0 {
        let k = n - 1;
        lemma_staged(stages, snapshot, order, k, now, world, bearing, sin_cos);
        assert(step_at(stages, snapshot, order, k, now, world, bearing, sin_cos));
        let before = stages[k];
        let after = stages[k + 1];
        let last = order[k];
        let done = order.take(k);
        let all = order.take(n);
        assert(!done.contains(last)) by {
            if done.contains(last) {
                let a = choose|a: int| 0 <= a < done.len() && done[a] == last;
                assert(order[a] == order[k]);
            }
        }
        assert(all.contains(last)) by {
            assert(all[k] == last);
        }
        assert forall|i: int| i != last implies (all.contains(i) <==> done.contains(i)) by {
            if all.contains(i) {
                let a = choose|a: int| 0 <= a < all.len() && all[a] == i;
                assert(done[a] == i);
            }
            if done.contains(i) {
                let a = choose|a: int| 0 <= a < done.len() && done[a] == i;
                assert(all[a] == i);
            }
        }
        assert forall|i: int| 0 <= i < snapshot.len() && all.contains(i) implies follows(
            snapshot[i],
            #[trigger] stages[n][i],
            snapshot,
            now,
            world,
            bearing,
            sin_cos,
        ) by {
            if i == last {
                assert(before[i] == snapshot[i]);
            } else {
                assert(done.contains(i));
                assert(after[i] == before[i]);
            }
        }
        assert forall|i: int| 0 <= i < snapshot.len() && !all.contains(i) implies #[trigger] stages[n][i]
            == snapshot[i] by {
            assert(i != last);
            assert(!done.contains(i));
            assert(after[i] == before[i]);
        }
    } else {
        assert(order.take(0).len() == 0);
    }
}

/// After the boids named in `order`, each once, have been updated, each of
/// them is its own update against the snapshot and the others are as they
/// were.
pub proof fn lemma_ticked<F: Fn(i64, i64) -> i32, G: Fn(i32) -> (i32, i32)>(
    result: Seq<Boid>,
    snapshot: Seq<Boid>,
    order: Seq<int>,
    now: u64,
    world: World,
    bearing: F,
    sin_cos: G,
)
    requires
        order.no_duplicates(),
        ticked(result, snapshot, order, now, world, bearing, sin_cos),
    ensures
        result.len() == snapshot.len(),
        forall|i: int|
            0 <= i < snapshot.len() && order.contains(i) ==> follows(
                snapshot[i],
                #[trigger] result[i],
                snapshot,
                now,
                world,
                bearing,
                sin_cos,
            ),
        forall|i: int|
            0 <= i < snapshot.len() && !order.contains(i) ==> #[trigger] result[i] == snapshot[i],
{
    let stages = choose|stages: Seq<Seq<Boid>>|
        #[trigger] staged(stages, snapshot, order, now, world, bearing, sin_cos)
            && stages[order.len() as int] == result;
    lemma_staged(stages, snapshot, order, order.len() as int, now, world, bearing, sin_cos);
    assert(order.take(order.len() as int) == order);
}

/// Within one tick the order of the updates does not matter, whatever
/// compass answers each question in one way only: two runs over one
/// snapshot, in two orders that name the same boids, each once, leave the
/// same flock.
pub proof fn law_order_independence_of_updates<F: Fn(i64, i64) -> i32, G: Fn(i32) -> (i32, i32)>(
    snapshot: Seq<Boid>,
    first: Seq<int>,
    second: Seq<int>,
    first_result: Seq<Boid>,
    second_result: Seq<Boid>,
    now: u64,
    world: World,
    bearing: F,
    sin_cos: G,
)
    requires
        one_bearing(bearing),
        one_sin_cos(sin_cos),
        first.no_duplicates(),
        second.no_duplicates(),
        forall|i: int| first.contains(i) <==> second.contains(i),
        ticked(first_result, snapshot, first, now, world, bearing, sin_cos),
        ticked(second_result, snapshot, second, now, world, bearing, sin_cos),
    ensures
        first_result == second_result,
{
    lemma_ticked(first_result, snapshot, first, now, world, bearing, sin_cos);
    lemma_ticked(second_result, snapshot, second, now, world, bearing, sin_cos);
    assert forall|i: int| 0 <= i < snapshot.len() implies first_result[i] == second_result[i] by {
        if first.contains(i) {
            assert(second.contains(i));
            law_update_is_determined(
                snapshot[i],
                first_result[i],
                second_result[i],
                snapshot,
                now,
                world,
                bearing,
                sin_cos,
            );
        } else {
            assert(!second.contains(i));
        }
    }
    assert(first_result =~= second_result);
}

} // verus!
