use dispatch_router::engine::ProcessOutcome;
use dispatch_router::error::AppError;
use dispatch_router::models::{
    parse_courier_status, parse_priority, priority_str, CourierStatus, GeoPoint, OrderStatus,
    Priority,
};
use dispatch_router::state::AppState;
use dispatch_router::wire::assignment_to_proto;

fn berlin() -> GeoPoint {
    GeoPoint { lat_micro: 52_520_000, lng_micro: 13_405_000 }
}

#[test]
fn health_returns_ok() {
    let s = AppState::new(1024, 1024);
    let (couriers, orders, assignments) = s.health();
    assert_eq!(couriers, 0);
    assert_eq!(orders, 0);
    assert_eq!(assignments, 0);
}

#[test]
fn create_courier_returns_courier() {
    let mut s = AppState::new(1024, 1024);
    let c = s
        .create_courier_at("Alice".to_string(), berlin(), 3, 4500, 7, 1000)
        .unwrap();
    assert_eq!(c.name, "Alice");
    assert_eq!(c.location.lat_micro, 52_520_000);
    assert_eq!(c.location.lng_micro, 13_405_000);
    assert_eq!(c.capacity, 3);
    assert_eq!(c.rating_milli, 4500);
    assert_eq!(c.current_load, 0);
    assert!(matches!(c.status, CourierStatus::Available));
}

#[test]
fn create_courier_empty_name_returns_400() {
    let mut s = AppState::new(1024, 1024);
    let r = s.create_courier_at(" ".to_string(), berlin(), 3, 4500, 7, 1000);
    match r {
        Err(e) => assert_eq!(e.status_code(), 400),
        Ok(_) => panic!("blank name must be rejected"),
    }
}

#[test]
fn create_courier_zero_capacity_returns_400() {
    let mut s = AppState::new(1024, 1024);
    let r = s.create_courier_at("Bob".to_string(), berlin(), 0, 4500, 7, 1000);
    match r {
        Err(e) => assert_eq!(e.status_code(), 400),
        Ok(_) => panic!("zero capacity must be rejected"),
    }
}

#[test]
fn create_courier_rating_clamped_to_5() {
    let mut s = AppState::new(1024, 1024);
    let c = s
        .create_courier_at("Max".to_string(), berlin(), 3, 9900, 7, 1000)
        .unwrap();
    assert_eq!(c.rating_milli, 5000);
    let low = s
        .create_courier_at("Min".to_string(), berlin(), 3, -100, 8, 1000)
        .unwrap();
    assert_eq!(low.rating_milli, 0);
}

#[test]
fn create_courier_capacity_capped_at_255() {
    let mut s = AppState::new(1024, 1024);
    let c = s
        .create_courier_at("Tank".to_string(), berlin(), 1000, 4000, 7, 1000)
        .unwrap();
    assert_eq!(c.capacity, 255);
}

#[test]
fn list_couriers_initially_empty() {
    let s = AppState::new(1024, 1024);
    assert!(s.list_couriers().is_empty());
}

#[test]
fn update_courier_status() {
    let mut s = AppState::new(1024, 1024);
    let c = s
        .create_courier_at("Eve".to_string(), berlin(), 3, 4500, 7, 1000)
        .unwrap();
    let updated = s
        .update_courier_status(c.id, CourierStatus::Offline, 2000)
        .unwrap();
    assert!(matches!(updated.status, CourierStatus::Offline));
    assert_eq!(updated.updated_at, 2000);
    assert!(s.update_courier_status(999, CourierStatus::Busy, 2000).is_err());
}

#[test]
fn update_courier_location() {
    let mut s = AppState::new(1024, 1024);
    let c = s
        .create_courier_at("Frank".to_string(), berlin(), 3, 4500, 7, 1000)
        .unwrap();
    let moved = s
        .update_courier_location(c.id, GeoPoint { lat_micro: 48_856_600, lng_micro: 2_352_200 }, 2000)
        .unwrap();
    assert_eq!(moved.location.lat_micro, 48_856_600);
    assert_eq!(moved.location.lng_micro, 2_352_200);
    let listed = s.list_couriers();
    assert_eq!(listed.len(), 1);
    assert_eq!(listed[0].location.lat_micro, 48_856_600);
}

#[test]
fn get_nonexistent_order_returns_404() {
    let s = AppState::new(1024, 1024);
    match s.get_order(0) {
        Err(e) => assert_eq!(e.status_code(), 404),
        Ok(_) => panic!("unknown order must be a 404"),
    }
}

#[test]
fn create_order_returns_pending() {
    let mut s = AppState::new(1024, 1024);
    let pickup = GeoPoint { lat_micro: 52_510_000, lng_micro: 13_390_000 };
    let dropoff = GeoPoint { lat_micro: 52_540_000, lng_micro: 13_420_000 };
    let (o, sent) = s
        .create_order_at(pickup, dropoff, Priority::Normal, 42, 1000)
        .unwrap();
    assert!(matches!(o.status, OrderStatus::Pending));
    assert!(o.assigned_courier.is_none());
    assert!(sent);
    assert_eq!(s.metrics.orders_in_queue, 1);
}

#[test]
fn full_assignment_flow() {
    let mut s = AppState::new(1024, 1024);
    let courier = s
        .create_courier_at("Dispatch Dan".to_string(), berlin(), 5, 4800, 7, 1000)
        .unwrap();
    let pickup = GeoPoint { lat_micro: 52_510_000, lng_micro: 13_390_000 };
    let dropoff = GeoPoint { lat_micro: 52_540_000, lng_micro: 13_420_000 };
    let (order, sent) = s
        .create_order_at(pickup, dropoff, Priority::Urgent, 42, 1001)
        .unwrap();
    assert!(sent);

    // The engine's iteration: receive, measure the candidates, commit.
    let received = s.dequeue_order().unwrap();
    assert_eq!(received.id, order.id);
    let candidates = s.eligible_couriers();
    assert_eq!(candidates.len(), 1);
    // Pickup is roughly 1.5 km from the courier.
    let dists = vec![(candidates[0].id, 1500u64)];
    let outcome = s.process_order_at(order.id, &dists, 77, 1002).unwrap();
    let a = match outcome {
        ProcessOutcome::Assigned(a) => a,
        ProcessOutcome::NoCandidate => panic!("a courier was available"),
    };
    s.record_outcome(true);

    assert_eq!(a.order_id, order.id);
    assert_eq!(a.courier_id, courier.id);
    assert!(a.score.num > 0);
    assert!(a.score_breakdown.distance_score.num > 0);
    assert!(a.score_breakdown.load_score.num > 0);
    assert!(a.score_breakdown.rating_score.num > 0);
    assert!(a.score_breakdown.priority_score.num > 0);

    let stored = s.get_order(order.id).unwrap();
    assert!(matches!(stored.status, OrderStatus::Assigned));
    assert_eq!(stored.assigned_courier, Some(courier.id));
    let listed = s.list_couriers();
    assert_eq!(listed[0].current_load, 1);
    assert_eq!(s.list_assignments().len(), 1);
    assert_eq!(s.metrics.assignments_success, 1);
    assert_eq!(s.metrics.orders_in_queue, 0);
}

#[test]
fn no_candidate_order_is_requeued() {
    let mut s = AppState::new(1024, 1024);
    let pickup = GeoPoint { lat_micro: 52_510_000, lng_micro: 13_390_000 };
    let dropoff = GeoPoint { lat_micro: 52_540_000, lng_micro: 13_420_000 };
    let (order, sent) = s
        .create_order_at(pickup, dropoff, Priority::Low, 42, 1000)
        .unwrap();
    assert!(sent);
    assert_eq!(s.metrics.orders_in_queue, 1);

    let received = s.dequeue_order().unwrap();
    assert_eq!(s.metrics.orders_in_queue, 0);
    let dists: Vec<(u128, u64)> = Vec::new();
    let outcome = s.process_order_at(received.id, &dists, 77, 1001).unwrap();
    assert!(matches!(outcome, ProcessOutcome::NoCandidate));

    // The caller pauses, then sends the same order back.
    assert!(s.enqueue_order(order.id));
    assert_eq!(s.metrics.orders_in_queue, 1);
    assert_eq!(s.metrics.enqueued_total, 2);
    assert_eq!(s.metrics.dequeued_total, 1);

    // A courier arrives; the next iteration assigns.
    let courier = s
        .create_courier_at("Late Larry".to_string(), berlin(), 1, 4000, 7, 1002)
        .unwrap();
    let received = s.dequeue_order().unwrap();
    let outcome = s
        .process_order_at(received.id, &vec![(courier.id, 1500u64)], 78, 1003)
        .unwrap();
    assert!(matches!(outcome, ProcessOutcome::Assigned(_)));
}

#[test]
fn capacity_exhaustion_flips_courier_to_busy() {
    let mut s = AppState::new(1024, 1024);
    let courier = s
        .create_courier_at("Solo".to_string(), berlin(), 1, 4000, 7, 1000)
        .unwrap();
    let pickup = GeoPoint { lat_micro: 52_510_000, lng_micro: 13_390_000 };
    let dropoff = GeoPoint { lat_micro: 52_540_000, lng_micro: 13_420_000 };
    let (first, _) = s
        .create_order_at(pickup, dropoff, Priority::Normal, 42, 1001)
        .unwrap();
    let (second, _) = s
        .create_order_at(pickup, dropoff, Priority::Normal, 43, 1002)
        .unwrap();

    let received = s.dequeue_order().unwrap();
    assert_eq!(received.id, first.id);
    let outcome = s
        .process_order_at(first.id, &vec![(courier.id, 1500u64)], 77, 1003)
        .unwrap();
    assert!(matches!(outcome, ProcessOutcome::Assigned(_)));
    let listed = s.list_couriers();
    assert!(matches!(listed[0].status, CourierStatus::Busy));
    assert_eq!(s.utilization_permille(courier.id), Some(1000));

    // The second order finds no candidate and goes back on the queue.
    let received = s.dequeue_order().unwrap();
    assert_eq!(received.id, second.id);
    let candidates = s.eligible_couriers();
    assert!(candidates.is_empty());
    let outcome = s
        .process_order_at(second.id, &Vec::new(), 78, 1004)
        .unwrap();
    assert!(matches!(outcome, ProcessOutcome::NoCandidate));
    assert!(s.enqueue_order(second.id));
    let stored = s.get_order(second.id).unwrap();
    assert!(matches!(stored.status, OrderStatus::Pending));
}

#[test]
fn ties_pick_a_maximal_candidate() {
    let mut s = AppState::new(1024, 1024);
    let a = s
        .create_courier_at("A".to_string(), berlin(), 2, 4000, 1, 1000)
        .unwrap();
    let b = s
        .create_courier_at("B".to_string(), berlin(), 2, 4000, 2, 1000)
        .unwrap();
    let pickup = GeoPoint { lat_micro: 52_510_000, lng_micro: 13_390_000 };
    let (order, _) = s
        .create_order_at(pickup, pickup, Priority::High, 42, 1001)
        .unwrap();
    s.dequeue_order().unwrap();
    let outcome = s
        .process_order_at(order.id, &vec![(a.id, 700u64), (b.id, 700u64)], 77, 1002)
        .unwrap();
    match outcome {
        ProcessOutcome::Assigned(rec) => {
            assert!(rec.courier_id == a.id || rec.courier_id == b.id);
        },
        ProcessOutcome::NoCandidate => panic!("two couriers were available"),
    }
}

#[test]
fn queue_refuses_when_full_and_rejects_duplicates() {
    let mut s = AppState::new(1, 1024);
    let pickup = GeoPoint { lat_micro: 0, lng_micro: 0 };
    let (first, sent) = s
        .create_order_at(pickup, pickup, Priority::Low, 1, 1000)
        .unwrap();
    assert!(sent);
    // Duplicate send of a queued order is refused.
    assert!(!s.enqueue_order(first.id));
    // The queue is full: the second order is stored but not sent.
    let (second, sent) = s
        .create_order_at(pickup, pickup, Priority::Low, 2, 1001)
        .unwrap();
    assert!(!sent);
    assert_eq!(s.metrics.orders_in_queue, 1);
    // Room opens up and the retry goes through.
    s.dequeue_order().unwrap();
    assert!(s.enqueue_order(second.id));
    assert_eq!(s.metrics.orders_in_queue, 1);
    assert_eq!(s.metrics.enqueued_total, 2);
    assert_eq!(s.metrics.dequeued_total, 1);
}

#[test]
fn priority_labels_round_trip() {
    for p in [Priority::Low, Priority::Normal, Priority::High, Priority::Urgent] {
        let label = priority_str(&p);
        assert_eq!(parse_priority(&label).unwrap(), p);
    }
    assert_eq!(priority_str(&Priority::Urgent), "Urgent");
    match parse_priority("URGENT") {
        Err(e) => assert_eq!(e.status_code(), 400),
        Ok(_) => panic!("priority labels are case-sensitive"),
    }
}

#[test]
fn courier_status_labels_round_trip() {
    for st in [CourierStatus::Available, CourierStatus::Busy, CourierStatus::Offline] {
        let label = dispatch_router::models::courier_status_str(&st);
        assert_eq!(parse_courier_status(&label).unwrap(), st);
    }
    assert!(parse_courier_status("Idle").is_err());
}

#[test]
fn error_messages_and_codes() {
    assert_eq!(AppError::NotFound("order 7".to_string()).status_code(), 404);
    assert_eq!(AppError::NotFound("order 7".to_string()).message(), "not found: order 7");
    assert_eq!(AppError::BadRequest("x".to_string()).status_code(), 400);
    assert_eq!(AppError::BadRequest("x".to_string()).message(), "bad request: x");
    assert_eq!(AppError::Conflict("x".to_string()).status_code(), 409);
    assert_eq!(AppError::NoAvailableCouriers.status_code(), 503);
    assert_eq!(AppError::NoAvailableCouriers.message(), "no couriers available");
    assert_eq!(AppError::Internal("x".to_string()).status_code(), 500);
    assert_eq!(AppError::Internal("x".to_string()).message(), "internal error: x");
}

#[test]
fn assignment_event_wire_forms() {
    let mut s = AppState::new(1024, 1024);
    let courier = s
        .create_courier_at("Wire".to_string(), berlin(), 2, 4000, 1, 1000)
        .unwrap();
    let pickup = GeoPoint { lat_micro: 52_510_000, lng_micro: 13_390_000 };
    let (order, _) = s
        .create_order_at(pickup, pickup, Priority::High, 2, 1001)
        .unwrap();
    s.dequeue_order().unwrap();
    let outcome = s
        .process_order_at(order.id, &vec![(courier.id, 1500u64)], 3, 0)
        .unwrap();
    let rec = match outcome {
        ProcessOutcome::Assigned(a) => a,
        ProcessOutcome::NoCandidate => panic!("a courier was available"),
    };
    let event = assignment_to_proto(&rec);
    assert_eq!(event.id, "00000000-0000-0000-0000-000000000003");
    assert_eq!(event.courier_id, "00000000-0000-0000-0000-000000000001");
    assert_eq!(event.order_id, "00000000-0000-0000-0000-000000000002");
    assert_eq!(event.assigned_at, "1970-01-01T00:00:00+00:00");
    assert_eq!(event.score.num, rec.score.num);
}

#[test]
fn engine_with_fresh_ids_assigns() {
    let mut s = AppState::new(1024, 1024);
    let courier = s
        .create_courier_at("Rnd".to_string(), berlin(), 2, 4000, 1, 1000)
        .unwrap();
    let pickup = GeoPoint { lat_micro: 52_510_000, lng_micro: 13_390_000 };
    let (order, _) = s
        .create_order_at(pickup, pickup, Priority::High, 2, 1001)
        .unwrap();
    s.dequeue_order().unwrap();
    let outcome = s.process_order(order.id, &vec![(courier.id, 1500u64)]).unwrap();
    match outcome {
        ProcessOutcome::Assigned(a) => {
            // The clock wrapper stamped a real moment, well after the epoch.
            assert!(a.assigned_at > 1_500_000_000_000);
            assert!(a.id != 0);
        },
        ProcessOutcome::NoCandidate => panic!("a courier was available"),
    }
}

#[test]
fn default_config_values() {
    let c = dispatch_router::config::Config::default();
    assert_eq!(c.http_port, 3000);
    assert_eq!(c.grpc_port, 50051);
    assert_eq!(c.log_level, "info");
    assert_eq!(c.order_queue_size, 1024);
    assert_eq!(c.event_buffer_size, 1024);
}
