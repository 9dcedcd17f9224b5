use blokmap::seeder::batches::{calculate_optimal_batch_size, plan_batches, BatchError, BatchInsert};
use blokmap::seeder::dates::{
    datetime_at_timestamp, max_opening_duration, random_datetime_around, random_relevant_datetime, random_seed_opening_time, relevant_window_for,
};
use blokmap::seeder::reservations::{
    block_count_range, calculate_reservation_time_span, create_valid_reservation, has_overlap, plan_random_reservations,
    reservation_spans, seed_reservations_for_profile, sort_seed_slots, SeedSlot,
};
use blokmap::seeder::unique::{candidate, collect_unique_values, random_suffix, UniqueValues};
use blokmap::reservation::NewReservation;
use blokmap::location::search_week;
use blokmap::time::{DateTime, TimeOfDay};

fn hm(h: u32, m: u32) -> TimeOfDay {
    TimeOfDay::from_hms(h, m, 0).unwrap()
}

fn at(days: i32, h: u32, m: u32) -> DateTime {
    DateTime { days, time: hm(h, m) }
}

#[test]
fn batch_size_fills_the_parameter_limit() {
    assert_eq!(calculate_optimal_batch_size(1), 65_000);
    assert_eq!(calculate_optimal_batch_size(13), 5_000);
    assert_eq!(calculate_optimal_batch_size(7), 9_285);
    assert_eq!(calculate_optimal_batch_size(650), 100);
    assert_eq!(calculate_optimal_batch_size(1_000), 100);
    assert_eq!(calculate_optimal_batch_size(usize::MAX), 100);
}

#[test]
fn batches_cover_every_item() {
    assert_eq!(plan_batches(0, 1), Vec::<usize>::new());
    assert_eq!(plan_batches(130_001, 1), vec![65_000, 65_000, 1]);
    assert_eq!(plan_batches(250, 1_000), vec![100, 100, 50]);
    assert_eq!(plan_batches(100, 1_000), vec![100]);
    let plan = plan_batches(12_345, 13);
    assert_eq!(plan.iter().sum::<usize>(), 12_345);
    assert!(plan.iter().all(|&b| b > 0 && b <= 5_000));
}

#[test]
fn bulk_insert_progress() {
    let mut b = BatchInsert::start(250, 1_000);
    assert_eq!(b.batch_size, 100);
    assert!(!b.is_done());
    assert_eq!(b.next_batch_size(), 100);
    assert!(b.record(100).is_ok());
    assert!(b.record(100).is_ok());
    assert_eq!(b.next_batch_size(), 50);
    assert!(b.record(50).is_ok());
    assert!(b.is_done());
    assert_eq!((b.total_inserted, b.batch_count, b.remaining), (250, 3, 0));
}

#[test]
fn bulk_insert_stops_on_a_short_batch() {
    let mut b = BatchInsert::start(250, 1_000);
    assert!(b.record(100).is_ok());
    let err = b.record(99).unwrap_err();
    assert_eq!(err, BatchError { batch: 2, inserted: 99, expected: 100 });
    assert_eq!(err.message(), "Batch 2: inserted 99 items but expected 100");
    assert!(BatchInsert::start(0, 3).is_done());
}

#[test]
fn suffixes_are_alphanumeric() {
    let s = random_suffix(8);
    assert_eq!(s.chars().count(), 8);
    assert!(s.chars().all(|c| c.is_ascii_alphanumeric()));
    assert_eq!(random_suffix(0), "");
    assert_eq!(candidate("john".to_string(), "ab12CD34"), "john_ab12CD34");
}

#[test]
fn unique_values_refuse_repeats_and_overflow() {
    let mut u = UniqueValues::new(2);
    assert!(!u.is_complete());
    assert!(u.offer("a".to_string()));
    assert!(!u.offer("a".to_string()));
    assert!(u.offer("b".to_string()));
    assert!(u.is_complete());
    assert!(!u.offer("c".to_string()));
    assert_eq!(u.into_values(), vec!["a".to_string(), "b".to_string()]);
}

#[test]
fn collected_values_are_distinct() {
    let u = collect_unique_values(50, &|| "user".to_string());
    let values = u.into_values();
    assert_eq!(values.len(), 50);
    let mut sorted = values.clone();
    sorted.sort();
    sorted.dedup();
    assert_eq!(sorted.len(), 50);
    assert!(values.iter().all(|v| v.starts_with("user_") && v.len() == "user_".len() + 8));
    assert!(collect_unique_values(0, &|| "x".to_string()).into_values().is_empty());
}

#[test]
fn one_wanted_value_is_always_kept() {
    // The base never changes, so only the suffix tells values apart; the
    // first one tried is kept all the same.
    let values = collect_unique_values(1, &|| "same".to_string()).into_values();
    assert_eq!(values.len(), 1);
    assert!(values[0].starts_with("same_"));
}

#[test]
fn block_count_range_needs_an_hour() {
    assert_eq!(block_count_range(8, None, 15), Some((4, 8)));
    assert_eq!(block_count_range(8, Some(6), 15), Some((4, 6)));
    assert_eq!(block_count_range(3, None, 15), None);
    assert_eq!(block_count_range(8, Some(3), 15), None);
    assert_eq!(block_count_range(5, None, 90), Some((1, 5)));
    assert_eq!(block_count_range(0, None, 90), None);
    assert_eq!(block_count_range(10, None, 7), Some((9, 10)));
}

#[test]
fn seeded_reservation_fits_its_opening_time() {
    for _ in 0..50 {
        let r = create_valid_reservation(3, 9, hm(9, 0), hm(11, 0), Some(6), 15).unwrap();
        assert_eq!((r.profile_id, r.opening_time_id), (3, 9));
        assert!(r.block_count >= 4 && r.block_count <= 6);
        assert!(r.base_block_index >= 0 && r.base_block_index + r.block_count <= 8);
    }
    assert!(create_valid_reservation(3, 9, hm(9, 0), hm(9, 45), None, 15).is_none());
    assert!(create_valid_reservation(3, 9, hm(11, 0), hm(9, 0), None, 15).is_none());
}

#[test]
fn reservation_span_from_blocks() {
    let r = NewReservation { profile_id: 1, opening_time_id: 2, base_block_index: 2, block_count: 3 };
    let (start, end) = calculate_reservation_time_span(&r, 100, hm(9, 0), 15);
    assert_eq!(start, at(100, 9, 30));
    assert_eq!(end, at(100, 10, 15));
    let late = NewReservation { profile_id: 1, opening_time_id: 2, base_block_index: 0, block_count: 8 };
    let (_, end) = calculate_reservation_time_span(&late, 100, hm(23, 0), 15);
    assert_eq!(end, at(100, 1, 0));
}

#[test]
fn overlap_needs_both_ends_to_cross() {
    let existing = vec![(at(1, 9, 0), at(1, 10, 0))];
    assert!(has_overlap((at(1, 9, 30), at(1, 11, 0)), &existing));
    assert!(!has_overlap((at(1, 10, 0), at(1, 11, 0)), &existing));
    assert!(!has_overlap((at(1, 8, 0), at(1, 9, 0)), &existing));
    assert!(!has_overlap((at(2, 9, 0), at(2, 10, 0)), &existing));
    assert!(!has_overlap((at(1, 9, 0), at(1, 10, 0)), &Vec::new()));
}

#[test]
fn seeded_reservations_never_overlap() {
    let slots: Vec<SeedSlot> = vec![
        (1, hm(8, 0), hm(12, 0), Some(8), 10),
        (2, hm(13, 0), hm(17, 0), None, 10),
        (3, hm(8, 0), hm(18, 0), Some(16), 11),
    ];
    let existing = vec![(at(10, 9, 0), at(10, 10, 0))];
    let seeded = seed_reservations_for_profile(5, 6, slots.clone(), existing.clone(), 15);
    assert!(seeded.len() <= 6);
    for (j, (res, span)) in seeded.iter().enumerate() {
        assert_eq!(res.profile_id, 5);
        assert!(res.block_count >= 1);
        let others: Vec<_> = seeded.iter().enumerate().filter(|(k, _)| *k != j).map(|(_, s)| s.1).collect();
        assert!(!has_overlap(*span, &others));
        assert!(!has_overlap(*span, &existing));
    }
}

#[test]
fn a_fitting_slot_gives_a_first_reservation() {
    // Only the last slot can hold a reservation of an hour; with no earlier
    // reservations the first try in it succeeds.
    let slots: Vec<SeedSlot> = vec![
        (1, hm(8, 0), hm(8, 30), None, 10),
        (2, hm(9, 0), hm(9, 45), None, 10),
        (3, hm(8, 0), hm(12, 0), Some(8), 11),
    ];
    let seeded = seed_reservations_for_profile(5, 1, slots.clone(), Vec::new(), 15);
    assert_eq!(seeded.len(), 1);
    assert_eq!(seeded[0].0.opening_time_id, 3);
    // When no slot can hold one, nothing is seeded.
    let short: Vec<SeedSlot> = vec![(1, hm(8, 0), hm(8, 30), None, 10), (2, hm(9, 0), hm(9, 45), None, 10)];
    assert!(seed_reservations_for_profile(5, 4, short, Vec::new(), 15).is_empty());
}

#[test]
fn earlier_reservations_on_other_days_leave_room() {
    let slots: Vec<SeedSlot> = vec![(1, hm(8, 0), hm(12, 0), Some(8), 10), (2, hm(13, 0), hm(17, 0), None, 12)];
    // Earlier reservations on days 9, 11 and 13, none on the slots' days.
    let existing = vec![(at(9, 9, 0), at(9, 12, 0)), (at(11, 8, 0), at(11, 18, 0)), (at(13, 8, 0), at(13, 9, 0))];
    let seeded = seed_reservations_for_profile(5, 3, slots.clone(), existing.clone(), 15);
    assert!(!seeded.is_empty());
    assert_eq!(seeded[0].0.opening_time_id, 1);
    assert_eq!(seeded[0].1 .0.days, 10);
    // More slots than tries, but the one that can hold a reservation comes
    // first in the order slots are tried in.
    let mut many: Vec<SeedSlot> = (0..30).map(|k| (100 + k, hm(8, 0), hm(8, 30), None, 20)).collect();
    many.push((1, hm(8, 0), hm(12, 0), None, 20));
    let seeded = seed_reservations_for_profile(5, 1, many, existing, 15);
    assert_eq!(seeded.len(), 1);
    assert_eq!(seeded[0].0.opening_time_id, 1);
}

#[test]
fn no_slots_seed_nothing() {
    assert!(seed_reservations_for_profile(5, 6, Vec::new(), Vec::new(), 15).is_empty());
}

#[test]
fn slots_are_tried_by_opening_time_then_day() {
    let slots: Vec<SeedSlot> = vec![
        (3, hm(8, 0), hm(9, 0), None, 5),
        (1, hm(8, 0), hm(9, 0), None, 7),
        (3, hm(10, 0), hm(11, 0), None, 2),
        (1, hm(12, 0), hm(13, 0), Some(2), 7),
        (2, hm(8, 0), hm(9, 0), None, 1),
    ];
    let sorted = sort_seed_slots(slots.clone());
    let keys: Vec<(i32, i32)> = sorted.iter().map(|s| (s.0, s.4)).collect();
    assert_eq!(keys, vec![(1, 7), (1, 7), (2, 1), (3, 2), (3, 5)]);
    let mut a = slots.clone();
    a.sort_by_key(|s| (s.0, s.4));
    assert_eq!(sorted, a);
    assert!(sort_seed_slots(Vec::new()).is_empty());
}

#[test]
fn random_reservations_fit_their_slots() {
    let slots: Vec<SeedSlot> = vec![(1, hm(8, 0), hm(12, 0), Some(8), 10), (2, hm(9, 0), hm(9, 30), None, 10)];
    let profiles = vec![4, 8, 15];
    let planned = plan_random_reservations(40, &profiles, &slots, 15);
    assert!(planned.len() <= 40);
    for r in &planned {
        assert!(profiles.contains(&r.profile_id));
        // The second slot is shorter than an hour, so nothing fits it.
        assert_eq!(r.opening_time_id, 1);
        assert!(r.block_count >= 4 && r.block_count <= 8);
        assert!(r.base_block_index >= 0 && r.base_block_index + r.block_count <= 16);
    }
    assert!(plan_random_reservations(5, &Vec::new(), &slots, 15).is_empty());
    assert!(plan_random_reservations(5, &profiles, &Vec::new(), 15).is_empty());
}

#[test]
fn every_try_counts_when_every_slot_fits() {
    let slots: Vec<SeedSlot> = vec![(1, hm(8, 0), hm(12, 0), Some(8), 10), (2, hm(13, 0), hm(15, 0), None, 11)];
    let profiles = vec![4, 8];
    assert_eq!(plan_random_reservations(25, &profiles, &slots, 15).len(), 25);
    let short: Vec<SeedSlot> = vec![(2, hm(9, 0), hm(9, 30), None, 10)];
    assert!(plan_random_reservations(25, &profiles, &short, 15).is_empty());
}

#[test]
fn seeded_dates_span_three_weeks() {
    // 2024-01-03 is day 738888; its week runs from 2024-01-01.
    let (lo, hi) = relevant_window_for(738_888).unwrap();
    assert_eq!(lo, 1_703_491_200); // 2023-12-25 08:00 UTC
    assert_eq!(hi, 1_705_269_600); // 2024-01-14 22:00 UTC
    assert!(relevant_window_for(95_745_399).is_none());
    assert!(relevant_window_for(-95_746_120).is_none());
}

#[test]
fn timestamps_become_dates() {
    assert_eq!(datetime_at_timestamp(0), DateTime { days: 719_163, time: TimeOfDay { secs: 0, nanos: 0 } });
    assert_eq!(datetime_at_timestamp(-1), DateTime { days: 719_162, time: TimeOfDay { secs: 86_399, nanos: 0 } });
    assert_eq!(
        datetime_at_timestamp(1_703_491_200),
        DateTime { days: 738_879, time: TimeOfDay { secs: 28_800, nanos: 0 } }
    );
    assert_eq!(datetime_at_timestamp(-86_400).days, 719_162);
}

#[test]
fn random_dates_fall_in_the_window() {
    let (first, last) = search_week(None).unwrap();
    for _ in 0..50 {
        let d = random_relevant_datetime().unwrap();
        assert_eq!(d.time.nanos, 0);
        let start = DateTime { days: first - 7, time: hm(8, 0) };
        let end = DateTime { days: last + 7, time: hm(22, 0) };
        assert!(!d.lt(&start) && d.lt(&end));
    }
}

#[test]
fn random_dates_around_a_given_day() {
    // 2024-01-03 is day 738888, in the week from day 738886 to 738892.
    for _ in 0..50 {
        let d = random_datetime_around(738_888).unwrap();
        assert_eq!(d.time.nanos, 0);
        let start = DateTime { days: 738_886 - 7, time: hm(8, 0) };
        let end = DateTime { days: 738_892 + 7, time: hm(22, 0) };
        assert!(!d.lt(&start) && d.lt(&end));
    }
    // The week after the last representable week cannot be formed.
    assert!(random_datetime_around(95_745_393).is_none());
    assert!(random_datetime_around(i32::MAX).is_none());
    assert!(random_datetime_around(i32::MIN).is_none());
}

#[test]
fn random_opening_times_follow_the_seeding_rules() {
    let locations = vec![3, 5];
    let profiles = vec![7];
    for _ in 0..50 {
        let o = random_seed_opening_time(&locations, &profiles).unwrap();
        assert!(locations.contains(&o.location_id));
        assert_eq!(o.created_by, 7);
        assert!(o.start_time.secs >= 6 * 3600 && o.start_time.secs < 18 * 3600);
        assert_eq!(o.start_time.secs % 60, 0);
        let minutes = (o.end_time.secs - o.start_time.secs) / 60;
        assert!((15..=360).contains(&minutes));
        assert_eq!((o.end_time.secs - o.start_time.secs) % 60, 0);
        if let Some(c) = o.seat_count {
            assert!((10..100).contains(&c));
        }
    }
}

#[test]
fn stored_reservations_become_spans() {
    let rows = vec![(100, hm(9, 0), 2, 3), (101, hm(23, 0), 0, 8)];
    let spans = reservation_spans(&rows, 15);
    assert_eq!(spans, vec![(at(100, 9, 30), at(100, 10, 15)), (at(101, 23, 0), at(101, 1, 0))]);
    assert!(reservation_spans(&Vec::new(), 15).is_empty());
}

#[test]
fn batches_stay_under_the_parameter_limit() {
    for p in 1..=2_000usize {
        let b = calculate_optimal_batch_size(p);
        if p <= 650 {
            assert!(b * p <= 65_000);
        } else {
            assert_eq!(b, 100);
        }
    }
}

#[test]
fn bulk_insert_runs_the_planned_batches() {
    for (total, params) in [(0usize, 4usize), (1, 4), (16_250, 4), (16_251, 4), (1_234, 700)] {
        let mut progress = BatchInsert::start(total, params);
        let mut sizes = Vec::new();
        while !progress.is_done() {
            let n = progress.next_batch_size();
            sizes.push(n);
            progress.record(n).unwrap();
        }
        assert_eq!(sizes, plan_batches(total, params));
        assert_eq!(progress.total_inserted, total);
    }
}

#[test]
fn opening_times_last_at_most_six_hours_and_end_the_same_day() {
    assert_eq!(max_opening_duration(&hm(9, 0)), 360);
    assert_eq!(max_opening_duration(&hm(17, 59)), 360);
    assert_eq!(max_opening_duration(&hm(18, 30)), 329);
    assert_eq!(max_opening_duration(&hm(23, 59)), 0);
    assert_eq!(max_opening_duration(&TimeOfDay { secs: 86_399, nanos: 0 }), 0);
}
