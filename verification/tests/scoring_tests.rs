use dispatch_router::models::{Courier, CourierStatus, GeoPoint, Priority};
use dispatch_router::scoring::{compute_score, score_gt_exec, weighted_score, MAX_DISTANCE_M};

fn courier(id: u128, lat_micro: i64, lng_micro: i64, load: u8, capacity: u8, rating_milli: u32) -> Courier {
    Courier {
        id,
        name: "test-courier".to_string(),
        location: GeoPoint { lat_micro, lng_micro },
        capacity,
        current_load: load,
        status: CourierStatus::Available,
        rating_milli,
        updated_at: 0,
    }
}

#[test]
fn closer_courier_gets_higher_score_when_other_factors_match() {
    // Pickup at (53.5511, 9.9937): the near courier at (53.5512, 9.9938) is
    // about 13 metres out, the far one at (53.7, 10.2) about 21.5 km.
    let near = courier(1, 53_551_200, 9_993_800, 0, 3, 4500);
    let far = courier(2, 53_700_000, 10_200_000, 0, 3, 4500);

    let (near_score, _) = compute_score(&near, &Priority::Normal, 13);
    let (far_score, _) = compute_score(&far, &Priority::Normal, 21_500);

    assert!(score_gt_exec(&near_score, &far_score));
}

#[test]
fn heavily_loaded_courier_is_penalized() {
    let light_load = courier(1, 53_551_200, 9_993_800, 0, 3, 4500);
    let heavy_load = courier(2, 53_551_200, 9_993_800, 2, 3, 4500);

    let (light_score, _) = compute_score(&light_load, &Priority::Normal, 13);
    let (heavy_score, _) = compute_score(&heavy_load, &Priority::Normal, 13);

    assert!(score_gt_exec(&light_score, &heavy_score));
}

#[test]
fn urgent_priority_increases_priority_component() {
    let c = courier(1, 53_551_200, 9_993_800, 0, 3, 4500);

    let (_normal_total, normal_breakdown) = compute_score(&c, &Priority::Normal, 13);
    let (_urgent_total, urgent_breakdown) = compute_score(&c, &Priority::Urgent, 13);

    let n = normal_breakdown.priority_score;
    let u = urgent_breakdown.priority_score;
    assert!(u.num as u128 * n.den as u128 > n.num as u128 * u.den as u128);
}

#[test]
fn weighted_score_exact_value() {
    // distance 0 m, load 0 of 3, rating 4.5, priority Normal:
    // 0.40*1 + 0.30*1 + 0.20*0.9 + 0.10*0.7 = 0.95 exactly.
    let c = courier(1, 0, 0, 0, 3, 4500);
    let (total, breakdown) = compute_score(&c, &Priority::Normal, 0);
    assert_eq!(breakdown.distance_score.num, 1000);
    assert_eq!(breakdown.distance_score.den, 1000);
    assert_eq!(breakdown.load_score.num, 3);
    assert_eq!(breakdown.load_score.den, 3);
    assert_eq!(breakdown.rating_score.num, 4500);
    assert_eq!(breakdown.rating_score.den, 5000);
    assert_eq!(breakdown.priority_score.num, 70);
    assert_eq!(breakdown.priority_score.den, 100);
    assert_eq!(total.num, 14_250_000_000);
    assert_eq!(total.den, 15_000_000_000);
    assert_eq!(total.num as f64 / total.den as f64, 0.95);

    let again = weighted_score(&breakdown);
    assert_eq!(again.num, total.num);
    assert_eq!(again.den, total.den);
}

#[test]
fn all_factors_stay_in_unit_range() {
    // Extreme inputs: enormous distance (clamped), full load, rating over 5.
    let c = courier(1, 0, 0, 255, 255, 9900);
    let (total, b) = compute_score(&c, &Priority::Urgent, u64::MAX);
    assert_eq!(b.distance_score.den, 1000 + MAX_DISTANCE_M);
    assert!(b.distance_score.num <= b.distance_score.den);
    assert_eq!(b.load_score.num, 0);
    assert_eq!(b.rating_score.num, 5000);
    assert!(b.rating_score.num <= b.rating_score.den);
    assert!(b.priority_score.num <= b.priority_score.den);
    assert!(total.num <= total.den);
    assert!(total.den >= 1);
}

#[test]
fn priority_points_are_ranked() {
    let c = courier(1, 0, 0, 0, 3, 4500);
    let (low, _) = compute_score(&c, &Priority::Low, 500);
    let (normal, _) = compute_score(&c, &Priority::Normal, 500);
    let (high, _) = compute_score(&c, &Priority::High, 500);
    let (urgent, _) = compute_score(&c, &Priority::Urgent, 500);
    assert!(score_gt_exec(&urgent, &high));
    assert!(score_gt_exec(&high, &normal));
    assert!(score_gt_exec(&normal, &low));
}
