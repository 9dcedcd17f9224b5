use blokmap::location::{
    group, language_column, owned_items, search_week, week_of, AuthorIncludes, Location, LocationIncludes, Reservation,
    ReservationIncludes, WithAuthors,
};
use blokmap::reservation::{plan_reservation_blocks, BlockPlan, CreateReservationError};
use blokmap::time::{DateTime, TimeOfDay};

#[test]
fn time_construction() {
    assert_eq!(TimeOfDay::new(86_399, 999_999_999), Some(TimeOfDay { secs: 86_399, nanos: 999_999_999 }));
    assert_eq!(TimeOfDay::new(86_400, 0), None);
    assert_eq!(TimeOfDay::new(0, 1_000_000_000), None);
    assert_eq!(TimeOfDay::from_hms(1, 2, 3), Some(TimeOfDay { secs: 3723, nanos: 0 }));
    assert_eq!(TimeOfDay::from_hms(24, 0, 0), None);
}

#[test]
fn time_order() {
    let a = TimeOfDay { secs: 10, nanos: 5 };
    let b = TimeOfDay { secs: 10, nanos: 6 };
    assert!(a.lt(&b));
    assert!(!b.lt(&a));
    assert!(!a.lt(&a));
    let d1 = DateTime { days: 5, time: b };
    let d2 = DateTime { days: 6, time: a };
    assert!(d1.lt(&d2));
    assert!(!d2.lt(&d1));
}

#[test]
fn minutes_round_toward_zero() {
    let nine = TimeOfDay::from_hms(9, 0, 0).unwrap();
    let five = TimeOfDay::from_hms(17, 0, 0).unwrap();
    let later = TimeOfDay::from_hms(10, 30, 59).unwrap();
    // With one-minute blocks the plan counts whole minutes.
    assert_eq!(
        plan_reservation_blocks(nine, five, nine, later, None, 1).unwrap(),
        BlockPlan { base_block_index: 0, block_count: 90, num_blocks: 480 }
    );
    let almost = TimeOfDay { secs: 9 * 3600 + 59, nanos: 999_999_999 };
    assert_eq!(plan_reservation_blocks(nine, five, almost, later, None, 1).unwrap().base_block_index, 0);
    // Backwards requests span minus 90 minutes, which is too short.
    assert!(matches!(
        plan_reservation_blocks(nine, five, later, nine, None, 1),
        Err(CreateReservationError::ReservationTooShort(1))
    ));
}

#[test]
fn weeks_start_on_monday() {
    // 0001-01-01 is day 1, a Monday.
    assert_eq!(search_week(Some(1)), Some((1, 7)));
    assert_eq!(search_week(Some(7)), Some((1, 7)));
    assert_eq!(search_week(Some(8)), Some((8, 14)));
    // 2024-01-03 (a Wednesday) is day 738888; its week starts 2024-01-01.
    assert_eq!(search_week(Some(738_888)), Some((738_886, 738_892)));
    // Day 0 (0000-12-31) is a Sunday, the last day of its week.
    assert_eq!(search_week(Some(0)), Some((-6, 0)));
    assert_eq!(search_week(Some(i32::MAX)), None);
    assert_eq!(search_week(Some(-95_746_124)), None);
    assert!(search_week(Some(-95_746_123)).is_some());
    let (first, last) = search_week(None).unwrap();
    assert_eq!(last, first + 6);
    // Today lies after the Unix epoch, a Thursday whose week starts on day
    // 719160.
    assert!(first >= 719_160);
}

#[test]
fn week_of_a_day() {
    assert_eq!(week_of(1), Some((1, 7)));
    assert_eq!(week_of(719_163), Some((719_160, 719_166)));
    assert_eq!(week_of(738_888), Some((738_886, 738_892)));
    assert_eq!(week_of(95_745_393), Some((95_745_392, 95_745_398)));
    assert_eq!(week_of(95_745_394), None);
    assert_eq!(week_of(-95_746_124), None);
    for day in [1, 100, 719_163, 738_888] {
        assert_eq!(search_week(Some(day)), week_of(day));
    }
}

#[test]
fn location_from_joined_keeps_what_was_asked() {
    let includes = LocationIncludes { authority: true, approved_by: false, rejected_by: true, created_by: false, updated_by: true };
    let l: Location<i32, &str, &str, u8> =
        Location::from_joined(includes, (7, "desc", "exc", Some("auth"), Some(1), None, Some(3), Some(4)));
    assert_eq!(l.location, 7);
    assert_eq!((l.description, l.excerpt), ("desc", "exc"));
    assert_eq!(l.authority, Some(Some("auth")));
    assert_eq!(l.approved_by, None);
    assert_eq!(l.rejected_by, Some(None));
    assert_eq!(l.created_by, None);
    assert_eq!(l.updated_by, Some(Some(4)));
}

#[test]
fn reservation_from_joined_keeps_what_was_asked() {
    let includes = ReservationIncludes { profile: false, confirmed_by: true, opening_time: false, location: true };
    assert!(includes.joins_opening_time());
    assert!(!ReservationIncludes::default().joins_opening_time());
    let r: Reservation<u8, u8, u8, u8> = Reservation::from_joined(includes, (1, Some(2), None, Some(4), Some(5)));
    assert_eq!(r.reservation, 1);
    assert_eq!(r.profile, None);
    assert_eq!(r.confirmed_by, Some(None));
    assert_eq!(r.opening_time, None);
    assert_eq!(r.location, Some(Some(5)));
}

#[test]
fn grouping_by_location() {
    let locs = vec![(1, "a"), (2, "b"), (3, "c")];
    let times = [(2, 20), (1, 10), (2, 21), (9, 90)];
    let tags = [(3, 'x')];
    let imgs: [(i32, u8); 0] = [];
    let grouped = group(locs, &times, &tags, &imgs);
    assert_eq!(grouped.len(), 3);
    assert_eq!(grouped[0], ("a", (vec![10], vec![], vec![])));
    assert_eq!(grouped[1], ("b", (vec![20, 21], vec![], vec![])));
    assert_eq!(grouped[2], ("c", (vec![], vec!['x'], vec![])));
    assert_eq!(owned_items(&times, 2), vec![20, 21]);
    let names = [(1, "x".to_string()), (2, "y".to_string()), (1, "z".to_string())];
    assert_eq!(owned_items(&names, 1), vec!["x".to_string(), "z".to_string()]);
    let grouped = group(vec![(1, ())], &names, &tags, &imgs);
    assert_eq!(grouped[0].1 .0, vec!["x".to_string(), "z".to_string()]);
}

#[test]
fn language_is_lowercased() {
    assert_eq!(language_column("EN"), "en");
    assert_eq!(language_column("nL"), "nl");
    assert_eq!(language_column("Fr-Ä"), "fr-Ä");
}

#[test]
fn authors_are_kept_when_asked() {
    let includes = AuthorIncludes { created_by: true, updated_by: false };
    let tag: WithAuthors<(&str, &str), u8> = WithAuthors::from_joined(includes, (("tag", "name"), Some(1), Some(2)));
    assert_eq!(tag.record, ("tag", "name"));
    assert_eq!(tag.created_by, Some(Some(1)));
    assert_eq!(tag.updated_by, None);
    let none: WithAuthors<i32, u8> = WithAuthors::from_joined(AuthorIncludes { created_by: true, updated_by: true }, (3, None, None));
    assert_eq!(none.created_by, Some(None));
    assert_eq!(none.updated_by, Some(None));
}
