use blokmap::reservation::{
    BlockPlan, CreateReservationError, NewReservation, OpeningSlot, check_reservation_bounds,
    check_reservation_length, check_reservation_occupation, check_reservation_period,
    check_reservation_period_now, check_reservation_request, delete_requires_permission,
    new_reservation, plan_reservation_blocks,
};
use blokmap::time::{DateTime, TimeOfDay};

fn t(h: u32, m: u32) -> TimeOfDay {
    TimeOfDay::from_hms(h, m, 0).unwrap()
}

fn dt(days: i32, h: u32, m: u32) -> DateTime {
    DateTime { days, time: t(h, m) }
}

fn slot(start: TimeOfDay, end: TimeOfDay, seats: Option<i32>) -> OpeningSlot {
    OpeningSlot {
        start_time: start,
        end_time: end,
        seat_count: seats,
        reservable_from: None,
        reservable_until: None,
    }
}

#[test]
fn bounds_accept_request_inside_opening_time() {
    assert!(check_reservation_bounds(t(9, 0), t(17, 0), t(9, 0), t(17, 0)).is_ok());
    assert!(check_reservation_bounds(t(9, 0), t(17, 0), t(10, 0), t(12, 0)).is_ok());
}

#[test]
fn bounds_reject_request_outside_opening_time() {
    match check_reservation_bounds(t(9, 0), t(17, 0), t(8, 59), t(12, 0)) {
        Err(CreateReservationError::OutOfBounds { start, end }) => {
            assert_eq!(start, t(9, 0));
            assert_eq!(end, t(17, 0));
        },
        other => panic!("unexpected {other:?}"),
    }
    assert!(matches!(
        check_reservation_bounds(t(9, 0), t(17, 0), t(10, 0), t(17, 1)),
        Err(CreateReservationError::OutOfBounds { .. })
    ));
}

#[test]
fn period_checks_both_bounds() {
    let now = dt(738_000, 12, 0);
    assert!(check_reservation_period(None, None, now).is_ok());
    match check_reservation_period(Some(dt(738_000, 12, 1)), None, now) {
        Err(CreateReservationError::NotReservableYet(f)) => assert_eq!(f, dt(738_000, 12, 1)),
        other => panic!("unexpected {other:?}"),
    }
    match check_reservation_period(None, Some(dt(737_999, 23, 0)), now) {
        Err(CreateReservationError::NotReservableAnymore(u)) => assert_eq!(u, dt(737_999, 23, 0)),
        other => panic!("unexpected {other:?}"),
    }
    // Bounds equal to now are still open.
    assert!(check_reservation_period(Some(now), Some(now), now).is_ok());
}

#[test]
fn period_with_clock() {
    assert!(check_reservation_period_now(None, None).is_ok());
    // Long before the Unix epoch: already reservable, and closed long ago.
    assert!(check_reservation_period_now(Some(dt(1, 0, 0)), None).is_ok());
    assert!(matches!(
        check_reservation_period_now(None, Some(dt(1, 0, 0))),
        Err(CreateReservationError::NotReservableAnymore(_))
    ));
}

#[test]
fn period_with_clock_far_from_now() {
    let far_future = dt(i32::MAX, 12, 0);
    let long_ago = dt(1, 0, 0);
    assert!(matches!(
        check_reservation_period_now(Some(far_future), None),
        Err(CreateReservationError::NotReservableYet(d)) if d == far_future
    ));
    assert!(matches!(
        check_reservation_period_now(Some(far_future), Some(long_ago)),
        Err(CreateReservationError::NotReservableYet(_))
    ));
    assert!(matches!(
        check_reservation_period_now(Some(long_ago), Some(long_ago)),
        Err(CreateReservationError::NotReservableAnymore(d)) if d == long_ago
    ));
    assert!(check_reservation_period_now(Some(long_ago), Some(far_future)).is_ok());
    assert!(check_reservation_period_now(None, Some(far_future)).is_ok());
}

#[test]
fn length_rules() {
    assert!(matches!(
        check_reservation_length(None, 0),
        Err(CreateReservationError::ReservationTooShort(1))
    ));
    assert!(matches!(
        check_reservation_length(Some(4), 5),
        Err(CreateReservationError::ReservationTooLong(4))
    ));
    assert!(check_reservation_length(Some(4), 4).is_ok());
    assert!(check_reservation_length(None, 1000).is_ok());
}

#[test]
fn occupation_lists_full_blocks_in_order() {
    // Two reservations: blocks 0..=2 and 2..=3 (a span counts one block past its end).
    let spans = vec![(0, 2), (2, 1)];
    assert!(check_reservation_occupation(6, &spans, 3).is_ok());
    match check_reservation_occupation(6, &spans, 2) {
        Err(CreateReservationError::Full(blocks)) => assert_eq!(blocks, vec![2]),
        other => panic!("unexpected {other:?}"),
    }
    match check_reservation_occupation(6, &spans, 1) {
        Err(CreateReservationError::Full(blocks)) => assert_eq!(blocks, vec![0, 1, 2, 3]),
        other => panic!("unexpected {other:?}"),
    }
    // No seats at all: every block is full.
    match check_reservation_occupation(3, &[], 0) {
        Err(CreateReservationError::Full(blocks)) => assert_eq!(blocks, vec![0, 1, 2]),
        other => panic!("unexpected {other:?}"),
    }
    assert!(check_reservation_occupation(0, &[], 0).is_ok());
    assert!(check_reservation_occupation(-3, &[], 0).is_ok());
}

#[test]
fn full_block_stays_full_after_another_reservation() {
    let mut spans = vec![(0, 1)];
    let before = check_reservation_occupation(2, &spans, 1);
    spans.push((5, 1));
    let after = check_reservation_occupation(2, &spans, 1);
    match (before, after) {
        (Err(CreateReservationError::Full(a)), Err(CreateReservationError::Full(b))) => {
            for block in a {
                assert!(b.contains(&block));
            }
        },
        other => panic!("unexpected {other:?}"),
    }
}

#[test]
fn plan_counts_blocks() {
    let plan = plan_reservation_blocks(t(9, 0), t(17, 0), t(10, 0), t(12, 0), None, 30).unwrap();
    assert_eq!(plan, BlockPlan { base_block_index: 2, block_count: 4, num_blocks: 16 });
    // Partial blocks round down.
    let plan = plan_reservation_blocks(t(9, 0), t(17, 10), t(9, 45), t(10, 50), None, 30).unwrap();
    assert_eq!(plan, BlockPlan { base_block_index: 1, block_count: 2, num_blocks: 16 });
    assert!(matches!(
        plan_reservation_blocks(t(9, 0), t(17, 0), t(10, 0), t(10, 20), None, 30),
        Err(CreateReservationError::ReservationTooShort(1))
    ));
    assert!(matches!(
        plan_reservation_blocks(t(9, 0), t(17, 0), t(10, 0), t(14, 0), Some(6), 30),
        Err(CreateReservationError::ReservationTooLong(6))
    ));
}

#[test]
fn request_runs_checks_in_order() {
    let s = slot(t(9, 0), t(12, 0), Some(1));
    let now = dt(738_000, 8, 0);
    // Out of bounds comes first even though the opening time is full.
    assert!(matches!(
        check_reservation_request(&s, None, 10, t(8, 0), t(10, 0), &[(0, 10)], now, 30),
        Err(CreateReservationError::OutOfBounds { .. })
    ));
    // A full opening time.
    match check_reservation_request(&s, None, 10, t(9, 0), t(10, 0), &[(0, 2)], now, 30) {
        Err(CreateReservationError::Full(blocks)) => assert_eq!(blocks, vec![0, 1, 2]),
        other => panic!("unexpected {other:?}"),
    }
    // Without a seat count on the opening time the location's count holds.
    let open = slot(t(9, 0), t(12, 0), None);
    let plan = check_reservation_request(&open, Some(4), 2, t(9, 30), t(11, 0), &[(0, 2)], now, 30)
        .unwrap();
    assert_eq!(plan, BlockPlan { base_block_index: 1, block_count: 3, num_blocks: 6 });
    assert_eq!(
        new_reservation(7, 3, plan),
        NewReservation { profile_id: 7, opening_time_id: 3, base_block_index: 1, block_count: 3 }
    );
}

#[test]
fn request_checks_reservation_period() {
    let mut s = slot(t(9, 0), t(12, 0), None);
    s.reservable_until = Some(dt(738_000, 7, 0));
    assert!(matches!(
        check_reservation_request(&s, None, 2, t(9, 0), t(10, 0), &[], dt(738_000, 8, 0), 30),
        Err(CreateReservationError::NotReservableAnymore(_))
    ));
}

#[test]
fn deleting_someone_elses_reservation_needs_permission() {
    assert!(!delete_requires_permission(4, 4));
    assert!(delete_requires_permission(4, 5));
}

fn occupancy(spans: &[(i32, i32)], block: i32) -> i32 {
    spans.iter().filter(|s| s.0 <= block && s.0 + s.1 >= block).count() as i32
}

#[test]
fn accepted_requests_never_overbook() {
    let s = slot(t(9, 0), t(11, 0), Some(2));
    let now = dt(738_000, 8, 0);
    let mut spans: Vec<(i32, i32)> = vec![(0, 1)];
    let mut accepted = 0;
    for _ in 0..5 {
        match check_reservation_request(&s, None, 10, t(9, 0), t(9, 30), &spans, now, 15) {
            Ok(plan) => {
                assert_eq!((plan.base_block_index, plan.block_count, plan.num_blocks), (0, 2, 8));
                spans.push((plan.base_block_index, plan.block_count));
                accepted += 1;
                for b in 0..plan.num_blocks {
                    assert!(occupancy(&spans, b) <= 2);
                }
            },
            // The stored reservations cover blocks 0 and 1 twice each.
            Err(CreateReservationError::Full(blocks)) => assert_eq!(blocks, vec![0, 1]),
            Err(other) => panic!("unexpected {other:?}"),
        }
    }
    assert_eq!(accepted, 1);
}
