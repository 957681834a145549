use boids::boids::{closest, mean_of, Boid, LocalFlock, Quantity};
use boids::geometry::Point;
use boids::units::{LOCAL_FLOCK_SIZE, PERCEPTION_RADIUS};

fn at(x: i32, y: i32) -> Point {
    Point { x, y }
}

fn boid(x: i32, y: i32, heading: i32) -> Boid {
    Boid::new(at(x, y), at(20_000, 20_000), heading, 573_000, 0)
}

fn bearing(across: i64, up: i64) -> i32 {
    ((across as f64).atan2(up as f64) * 1_800_000.0 / std::f64::consts::PI).round() as i32
}

#[test]
fn neighbors_are_the_other_boids_within_the_radius() {
    let me = boid(100_000, 100_000, 0);
    let near = boid(149_999, 100_000, 10);
    let edge = boid(150_000, 100_000, 20);
    let far = boid(100_000, 300_000, 30);
    let diagonal = boid(130_000, 60_000, 40);
    let flock = vec![near, me, edge, far, diagonal];
    let local = me.get_local_flock(&flock, PERCEPTION_RADIUS, LOCAL_FLOCK_SIZE);
    assert_eq!(local.flock, vec![near]);
    assert_eq!(local.size(), 1);
}

#[test]
fn a_boid_on_the_same_spot_in_another_state_is_a_neighbor() {
    let me = boid(100_000, 100_000, 0);
    let twin = boid(100_000, 100_000, 0);
    let other = boid(100_000, 100_000, 5);
    let flock = vec![me, twin, other];
    let local = me.get_local_flock(&flock, PERCEPTION_RADIUS, LOCAL_FLOCK_SIZE);
    assert_eq!(local.flock, vec![other]);
}

#[test]
fn neighbors_keep_the_order_of_the_flock() {
    let me = boid(0, 0, 0);
    let a = boid(30_000, 0, 1);
    let b = boid(1_000, 0, 2);
    let c = boid(0, -20_000, 3);
    let flock = vec![a, b, me, c];
    let local = me.get_local_flock(&flock, PERCEPTION_RADIUS, LOCAL_FLOCK_SIZE);
    assert_eq!(local.flock, vec![a, b, c]);
}

#[test]
fn the_cap_takes_the_first_in_scan_order() {
    let me = boid(100_000, 100_000, 0);
    let mut flock: Vec<Boid> = Vec::new();
    for k in 0..130 {
        flock.push(boid(100_001 + k, 100_000, 0));
    }
    let local = me.get_local_flock(&flock, PERCEPTION_RADIUS, LOCAL_FLOCK_SIZE);
    assert_eq!(local.size(), 128);
    assert_eq!(local.flock, flock[..128].to_vec());
}

#[test]
fn the_cap_skips_what_is_out_of_sight() {
    let me = boid(0, 0, 0);
    let a = boid(1_000, 0, 0);
    let far = boid(400_000, 0, 0);
    let b = boid(2_000, 0, 0);
    let c = boid(3_000, 0, 0);
    let flock = vec![a, far, b, c];
    assert_eq!(me.get_local_flock(&flock, PERCEPTION_RADIUS, 2).flock, vec![a, b]);
    assert_eq!(me.get_local_flock(&flock, PERCEPTION_RADIUS, 3).flock, vec![a, b, c]);
    assert_eq!(me.get_local_flock(&flock, PERCEPTION_RADIUS, 0).flock, Vec::<Boid>::new());
}

#[test]
fn a_radius_of_zero_sees_nothing() {
    let me = boid(0, 0, 0);
    let other = boid(0, 0, 7);
    assert_eq!(me.get_local_flock(&vec![other], 0, 10).size(), 0);
    assert_eq!(me.get_local_flock(&vec![other], 1, 10).size(), 1);
}

#[test]
fn alignment_is_the_mean_heading() {
    let me = boid(0, 0, 77);
    let local = LocalFlock { flock: vec![boid(1, 0, 100_000), boid(2, 0, 200_000)] };
    assert_eq!(me.get_alignment(&local), 150_000);
    let odd = LocalFlock { flock: vec![boid(1, 0, 1), boid(2, 0, 2)] };
    assert_eq!(me.get_alignment(&odd), 1);
}

#[test]
fn alignment_of_a_lone_boid_is_its_own_heading() {
    let me = boid(0, 0, 77);
    assert_eq!(me.get_alignment(&LocalFlock { flock: vec![] }), 77);
}

#[test]
fn alignment_does_not_go_the_short_way_round() {
    let me = boid(0, 0, 0);
    let local = LocalFlock { flock: vec![boid(1, 0, 100_000), boid(2, 0, 3_500_000)] };
    assert_eq!(me.get_alignment(&local), 1_800_000);
}

#[test]
fn mean_rounds_down_below_zero_too() {
    let flock = vec![boid(-5, 0, 0), boid(0, 3, 0)];
    assert_eq!(mean_of(&flock, Quantity::X), -3);
    assert_eq!(mean_of(&flock, Quantity::Y), 1);
    assert_eq!(mean_of(&flock, Quantity::Heading), 0);
}

#[test]
fn mean_of_the_largest_values_fits() {
    let flock = vec![boid(i32::MAX, i32::MIN, 0), boid(i32::MAX, i32::MIN, 0)];
    assert_eq!(mean_of(&flock, Quantity::X), i32::MAX);
    assert_eq!(mean_of(&flock, Quantity::Y), i32::MIN);
}

#[test]
fn centroid_is_the_mean_position() {
    let local = LocalFlock { flock: vec![boid(0, 0, 0), boid(10, 20, 0), boid(-5, 4, 0)] };
    assert_eq!(Boid::get_centroid(&local), at(1, 8));
}

#[test]
fn closest_finds_the_first_of_the_nearest() {
    let me = boid(0, 0, 0);
    let flock = vec![boid(9_000, 0, 0), boid(0, 4_000, 1), boid(-4_000, 0, 2), boid(7_000, 0, 3)];
    assert_eq!(closest(&me, &flock), Some((1, 16_000_000)));
    assert_eq!(closest(&me, &Vec::new()), None);
}

#[test]
fn closest_sees_a_boid_on_the_same_spot() {
    let me = boid(5, 5, 0);
    let flock = vec![boid(9_000, 0, 0), boid(5, 5, 1)];
    assert_eq!(closest(&me, &flock), Some((1, 0)));
}

#[test]
fn rotation_towards_a_point() {
    let me = boid(100_000, 100_000, 0);
    assert_eq!(me.get_rotation(at(104_000, 100_000), &bearing), 900_000);
    assert_eq!(me.get_rotation(at(96_000, 100_000), &bearing), -900_000);
    assert_eq!(me.get_rotation(at(100_000, 90_000), &bearing), 0);
    assert_eq!(me.get_rotation(at(100_000, 110_000), &bearing), 1_800_000);
    assert_eq!(me.get_rotation(at(101_000, 99_000), &bearing), 450_000);
}

#[test]
fn rotation_hands_over_the_sight_line() {
    let me = boid(10, 20, 0);
    let seen = me.get_rotation(at(13, 15), &|across: i64, up: i64| (across * 100 + up) as i32);
    assert_eq!(seen, 305);
}

#[test]
fn cohesion_is_the_bearing_of_the_centroid() {
    let me = boid(100_000, 100_000, 572_958);
    let local = LocalFlock {
        flock: vec![boid(110_000, 90_000, 1_145_916), boid(110_000, 110_000, 1_718_873)],
    };
    assert_eq!(Boid::get_centroid(&local), at(110_000, 100_000));
    assert_eq!(me.get_cohesion(&local, &bearing), 900_000);
}

#[test]
fn cohesion_of_one_neighbor_is_the_heading_towards_it() {
    let me = boid(100_000, 100_000, 77);
    let right = LocalFlock { flock: vec![boid(131_000, 100_000, 450_000)] };
    assert_eq!(me.get_cohesion(&right, &bearing), 900_000);
    assert_eq!(me.get_cohesion(&right, &bearing), me.get_rotation(at(131_000, 100_000), &bearing));
    let above = LocalFlock { flock: vec![boid(100_000, 69_000, 450_000)] };
    assert_eq!(me.get_cohesion(&above, &bearing), 0);
    let corner = LocalFlock { flock: vec![boid(90_000, 110_000, 450_000)] };
    assert_eq!(me.get_cohesion(&corner, &bearing), -1_350_000);
}

#[test]
fn cohesion_looks_at_positions_only() {
    let local = LocalFlock { flock: vec![boid(110_000, 90_000, 5), boid(130_000, 100_000, 6)] };
    let other = LocalFlock {
        flock: vec![
            Boid::new(at(110_000, 90_000), at(1, 2), 3_000_000, 9, 44),
            Boid::new(at(130_000, 100_000), at(-7, 0), 1_000_000, 0, 55),
        ],
    };
    let me = boid(100_000, 100_000, 77);
    let turned = Boid::new(at(100_000, 100_000), at(3, 3), 2_000_000, 1, 2);
    let expected = me.get_rotation(at(120_000, 95_000), &bearing);
    assert_eq!(me.get_cohesion(&local, &bearing), expected);
    assert_eq!(me.get_cohesion(&other, &bearing), expected);
    assert_eq!(turned.get_cohesion(&local, &bearing), expected);
}

#[test]
fn cohesion_hands_over_the_sight_line_to_the_centroid() {
    let me = boid(10, 20, 0);
    let local = LocalFlock { flock: vec![boid(12, 10, 0), boid(14, 20, 0)] };
    let seen = me.get_cohesion(&local, &|across: i64, up: i64| (across * 100 + up) as i32);
    assert_eq!(seen, 305);
}

#[test]
fn cohesion_of_a_lone_boid_is_its_own_heading() {
    let me = boid(0, 0, 77);
    assert_eq!(me.get_cohesion(&LocalFlock { flock: vec![] }, &bearing), 77);
    assert_eq!(me.get_cohesion(&LocalFlock { flock: vec![] }, &|_a: i64, _b: i64| 123), 77);
}

#[test]
fn separation_turns_away_within_the_flee_range() {
    let me = boid(100_000, 100_000, 77);
    let local = LocalFlock { flock: vec![boid(96_000, 100_000, 0)] };
    assert!(me.is_fleeing(&local));
    assert_eq!(me.get_seperation(&local, &bearing), 900_000);
    let right = LocalFlock { flock: vec![boid(104_000, 100_000, 0)] };
    assert_eq!(me.get_seperation(&right, &bearing), 2_700_000);
    let below = LocalFlock { flock: vec![boid(100_000, 104_000, 0)] };
    assert_eq!(me.get_seperation(&below, &bearing), 0);
    let above = LocalFlock { flock: vec![boid(100_000, 96_000, 0)] };
    assert_eq!(me.get_seperation(&above, &bearing), 1_800_000);
}

#[test]
fn separation_looks_at_the_nearest_neighbor() {
    let me = boid(100_000, 100_000, 77);
    let local = LocalFlock {
        flock: vec![boid(104_500, 100_000, 0), boid(100_000, 97_000, 0), boid(97_000, 100_000, 0)],
    };
    assert_eq!(me.get_seperation(&local, &bearing), 1_800_000);
    let seen = me.get_seperation(&local, &|across: i64, up: i64| (across + up) as i32);
    assert_eq!(seen, 1_803_000);
}

#[test]
fn separation_engages_at_the_flee_range_and_not_beyond() {
    let me = boid(0, 0, 77);
    let at_range = LocalFlock { flock: vec![boid(3_000, 4_000, 0)] };
    assert!(me.is_fleeing(&at_range));
    assert_eq!(me.get_seperation(&at_range, &|_a: i64, _b: i64| 0), 1_800_000);
    assert_eq!(me.get_seperation(&at_range, &bearing), 3_231_301);
    let beyond = LocalFlock { flock: vec![boid(3_000, 4_001, 0)] };
    assert!(!me.is_fleeing(&beyond));
    assert_eq!(me.get_seperation(&beyond, &bearing), 77);
    let nobody = LocalFlock { flock: vec![] };
    assert!(!me.is_fleeing(&nobody));
    assert_eq!(me.get_seperation(&nobody, &bearing), 77);
}

#[test]
fn separation_engages_for_boids_on_the_same_spot() {
    let me = boid(100_000, 100_000, 77);
    let local = LocalFlock { flock: vec![boid(120_000, 100_000, 0), boid(100_000, 100_000, 5)] };
    assert!(me.is_fleeing(&local));
    assert_eq!(me.get_seperation(&local, &bearing), 1_800_000);
    assert_eq!(me.get_seperation(&local, &|across: i64, up: i64| (across + up + 5) as i32), 1_800_005);
}

#[test]
fn target_is_alignment_between_the_ranges() {
    let me = boid(0, 0, 77);
    let local = LocalFlock { flock: vec![boid(20_000, 0, 500_000)] };
    assert_eq!(me.choose_target(&local, 111, 222), 500_000);
}

#[test]
fn target_is_cohesion_from_the_sparse_range_on() {
    let me = boid(0, 0, 77);
    let at_range = LocalFlock { flock: vec![boid(30_000, 0, 500_000)] };
    assert_eq!(me.choose_target(&at_range, 111, 222), 111);
    let inside = LocalFlock { flock: vec![boid(29_999, 0, 500_000)] };
    assert_eq!(me.choose_target(&inside, 111, 222), 500_000);
}

#[test]
fn target_is_separation_up_to_the_crowded_range() {
    let me = boid(0, 0, 77);
    let at_range = LocalFlock { flock: vec![boid(10_000, 0, 500_000)] };
    assert_eq!(me.choose_target(&at_range, 111, 222), 222);
    let outside = LocalFlock { flock: vec![boid(10_001, 0, 500_000)] };
    assert_eq!(me.choose_target(&outside, 111, 222), 500_000);
}

#[test]
fn target_is_the_own_heading_when_alone_or_aligned() {
    let me = boid(0, 0, 77);
    assert_eq!(me.choose_target(&LocalFlock { flock: vec![] }, 111, 222), 77);
    let aligned = LocalFlock { flock: vec![boid(4_000, 0, 77)] };
    assert_eq!(me.choose_target(&aligned, 111, 222), 77);
}

#[test]
fn the_nearest_neighbor_decides_the_rule() {
    let me = boid(0, 0, 77);
    let local = LocalFlock { flock: vec![boid(40_000, 0, 500_000), boid(0, 8_000, 700_000)] };
    assert_eq!(me.choose_target(&local, 111, 222), 222);
}

#[test]
fn separation_threshold() {
    let me = boid(100_000, 100_000, 0);
    let close = boid(96_000, 100_000, 450_000);
    let far_a = boid(400_000, 300_000, 2_000_000);
    let far_b = boid(500_000, 50_000, 3_000_000);
    let flock = vec![far_a, me, close, far_b];
    let local = me.get_local_flock(&flock, PERCEPTION_RADIUS, LOCAL_FLOCK_SIZE);
    assert_eq!(local.flock, vec![close]);
    let to_nearest = me.get_rotation(close.origin, &bearing);
    let to_centroid = me.get_rotation(Boid::get_centroid(&local), &bearing);
    assert_eq!(to_nearest, -900_000);
    let away = me.get_seperation(&local, &bearing);
    assert_eq!(away, 900_000);
    let cohesion = me.get_cohesion(&local, &bearing);
    assert_eq!(cohesion, to_centroid);
    assert_eq!(me.choose_target(&local, cohesion, away), away);
    assert_ne!(away, me.get_alignment(&local));
    assert_ne!(away, cohesion);

    let mut quick = Boid::new(me.origin, me.velocity, 0, 3_600_000, 0);
    quick.steer(&local, to_centroid, to_nearest, 1000);
    assert_eq!(quick.rotation, 900_000);

    let mut slow = me;
    slow.steer(&local, to_centroid, to_nearest, 100);
    assert_eq!(slow.rotation, 57_300);
}

#[test]
fn cohesion_threshold() {
    let me = boid(100_000, 100_000, 0);
    let neighbor = boid(131_000, 100_000, 450_000);
    let far = boid(500_000, 400_000, 3_000_000);
    let flock = vec![me, neighbor, far];
    let local = me.get_local_flock(&flock, PERCEPTION_RADIUS, LOCAL_FLOCK_SIZE);
    assert_eq!(local.flock, vec![neighbor]);
    assert_eq!(closest(&me, &local.flock), Some((0, 961_000_000)));
    let towards = me.get_rotation(neighbor.origin, &bearing);
    assert_eq!(towards, 900_000);
    let to_centroid = me.get_rotation(Boid::get_centroid(&local), &bearing);
    assert_eq!(to_centroid, towards);
    let cohesion = me.get_cohesion(&local, &bearing);
    assert_eq!(cohesion, towards);
    let separation = me.get_seperation(&local, &bearing);
    assert_eq!(separation, 0);
    let target = me.choose_target(&local, cohesion, separation);
    assert_eq!(target, towards);
    assert_ne!(target, me.get_alignment(&local));
}

#[test]
fn turn_towards_takes_what_the_rules_ask_for() {
    let me = boid(100_000, 100_000, 0);
    let sparse = LocalFlock { flock: vec![boid(131_000, 100_000, 450_000)] };
    let mut pulled = me;
    pulled.turn_towards(&sparse, 40_000, 3_000_000, 100);
    assert_eq!(pulled.rotation, 40_000);
    let crowded = LocalFlock { flock: vec![boid(104_000, 100_000, 450_000)] };
    let mut pushed = me;
    pushed.turn_towards(&crowded, 40_000, 30_000, 100);
    assert_eq!(pushed.rotation, 30_000);
    let mut back = boid(100_000, 100_000, 100_000);
    back.turn_towards(&crowded, 40_000, 90_000, 100);
    assert_eq!(back.rotation, 90_000);
    let mut held = me;
    held.turn_towards(&sparse, 900_000, 0, 100);
    assert_eq!(held.rotation, 57_300);
}
