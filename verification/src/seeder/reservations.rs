//! Random reservations that fit their opening times, and reservations for
//! one profile that do not overlap.

use vstd::prelude::*;
use crate::reservation::NewReservation;
use crate::seeder::random::{random_in_range, random_index};
use crate::time::{DateTime, TimeOfDay, add_minutes, minutes_between, nanos_per_minute, spec_add_minutes, trunc_div};

verus! {

/// Tries per seeded reservation before giving up on it.
pub const MAX_ATTEMPTS_PER_RESERVATION: usize = 20;

/// The slot data a seeded reservation is made in: opening time id, start,
/// end, the location's longest reservation, and the day.
pub type SeedSlot = (i32, TimeOfDay, TimeOfDay, Option<i32>, i32);

/// The number of blocks of `block_size` minutes between two times.
pub open spec fn blocks_between(start: TimeOfDay, end: TimeOfDay, block_size: i32) -> int {
    trunc_div(trunc_div(end.total_nanos() - start.total_nanos(), nanos_per_minute()), block_size as int)
}

/// Division of a positive numerator by a positive divisor, rounding up.
pub open spec fn ceil_div(a: int, d: int) -> int {
    (a + d - 1) / d
}

/// The smallest and largest block count a seeded reservation may have in an
/// opening time of `total_blocks` blocks: at least one hour (and at least one
/// block), at most the location's maximum and the blocks available; `None`
/// when no count fits.
pub open spec fn spec_block_count_range(total_blocks: int, max_length: Option<i32>, block_size: i32) -> Option<(int, int)> {
    let min_for_hour = ceil_div(60, block_size as int);
    let min_blocks = if min_for_hour > 1 { min_for_hour } else { 1 };
    let max_length = match max_length {
        Some(m) => m as int,
        None => total_blocks,
    };
    let max_blocks = if total_blocks < max_length { total_blocks } else { max_length };
    if min_blocks > max_blocks || max_blocks <= 0 {
        None
    } else {
        Some((min_blocks, max_blocks))
    }
}

/// The block count range of a seeded reservation.
pub fn block_count_range(total_blocks: i32, max_length: Option<i32>, block_size: i32) -> (r: Option<(i32, i32)>)
    requires
        block_size > 0,
    ensures
        match spec_block_count_range(total_blocks as int, max_length, block_size) {
            Some((lo, hi)) => r matches Some((a, b)) && a == lo && b == hi,
            None => r is None,
        },
{
    let bs = block_size as i64;
    proof {
        let b = bs as int;
        assert(1 <= (60 + b - 1) / b <= 60) by (nonlinear_arith)
            requires
                b >= 1,
        ;
    }
    let min_for_hour = ((60 + bs - 1) / bs) as i32;
    let min_blocks = if min_for_hour > 1 { min_for_hour } else { 1 };
    let max_length = match max_length {
        Some(m) => m,
        None => total_blocks,
    };
    let max_blocks = if total_blocks < max_length { total_blocks } else { max_length };
    if min_blocks > max_blocks || max_blocks <= 0 {
        None
    } else {
        Some((min_blocks, max_blocks))
    }
}

/// Pick a random reservation that fits in an opening time from `start_time`
/// to `end_time`: a random block count in the allowed range and a random
/// first block such that the reservation ends inside the opening time.
/// `None` when no block count fits.
pub fn create_valid_reservation(
    profile_id: i32,
    opening_time_id: i32,
    start_time: TimeOfDay,
    end_time: TimeOfDay,
    max_length: Option<i32>,
    block_size: i32,
) -> (r: Option<NewReservation>)
    requires
        start_time.wf(),
        end_time.wf(),
        block_size > 0,
    ensures
        match spec_block_count_range(blocks_between(start_time, end_time, block_size), max_length, block_size) {
            None => r is None,
            Some((lo, hi)) => r matches Some(res) && res.profile_id == profile_id && res.opening_time_id
                == opening_time_id && lo <= res.block_count <= hi && 0 <= res.base_block_index
                && res.base_block_index + res.block_count <= blocks_between(start_time, end_time, block_size),
        },
{
    let minutes = minutes_between(&end_time, &start_time);
    proof {
        let d = end_time.total_nanos() - start_time.total_nanos();
        assert(-86_400_000_000_000 < d < 86_400_000_000_000);
        assert(-1440 <= minutes <= 1440);
    }
    let bs = block_size as i64;
    let total_blocks = (if minutes >= 0 { minutes / bs } else { -((-minutes) / bs) }) as i32;
    let range = block_count_range(total_blocks, max_length, block_size);
    match range {
        None => None,
        Some((min_blocks, max_blocks)) => {
            let reservation_blocks = random_in_range(min_blocks, max_blocks);
            let max_base_index = if total_blocks - reservation_blocks > 0 {
                total_blocks - reservation_blocks
            } else {
                0
            };
            let base_block_index = if max_base_index > 0 {
                random_in_range(0, max_base_index)
            } else {
                0
            };
            Some(NewReservation {
                profile_id,
                opening_time_id,
                base_block_index,
                block_count: reservation_blocks,
            })
        },
    }
}

/// The moments a reservation starts and ends on `day`, for an opening time
/// starting at `opening_start`, with blocks of `block_size` minutes.
pub open spec fn spec_time_span(
    base_block_index: i32,
    block_count: i32,
    day: i32,
    opening_start: TimeOfDay,
    block_size: i32,
) -> (DateTime, DateTime) {
    (
        DateTime { days: day, time: spec_add_minutes(opening_start, base_block_index * block_size) },
        DateTime {
            days: day,
            time: spec_add_minutes(opening_start, (base_block_index + block_count) * block_size),
        },
    )
}

/// Blocks whose minute offsets can be computed without overflow.
pub open spec fn span_in_range(base_block_index: i32, block_count: i32, block_size: i32) -> bool {
    &&& i32::MIN <= base_block_index * block_size <= i32::MAX
    &&& i32::MIN <= base_block_index + block_count <= i32::MAX
    &&& i32::MIN <= (base_block_index + block_count) * block_size <= i32::MAX
}

/// The moments a reservation starts and ends.
pub fn calculate_reservation_time_span(
    reservation: &NewReservation,
    day: i32,
    opening_start: TimeOfDay,
    block_size: i32,
) -> (r: (DateTime, DateTime))
    requires
        opening_start.wf(),
        span_in_range(reservation.base_block_index, reservation.block_count, block_size),
    ensures
        r == spec_time_span(reservation.base_block_index, reservation.block_count, day, opening_start, block_size),
        r.0.wf(),
        r.1.wf(),
{
    let start_offset = (reservation.base_block_index * block_size) as i64;
    let end_offset = ((reservation.base_block_index + reservation.block_count) * block_size) as i64;
    let start = DateTime { days: day, time: add_minutes(&opening_start, start_offset) };
    let end = DateTime { days: day, time: add_minutes(&opening_start, end_offset) };
    (start, end)
}

/// The moments each stored reservation of a profile starts and ends, from its
/// opening time's day and start and its blocks: `(day, opening_start,
/// base_block_index, block_count)` per reservation.
pub fn reservation_spans(rows: &Vec<(i32, TimeOfDay, i32, i32)>, block_size: i32) -> (r: Vec<(DateTime, DateTime)>)
    requires
        forall|k: int|
            0 <= k < rows@.len() ==> (#[trigger] rows@[k]).1.wf() && span_in_range(rows@[k].2, rows@[k].3, block_size),
    ensures
        r@.len() == rows@.len(),
        forall|k: int|
            0 <= k < rows@.len() ==> #[trigger] r@[k] == spec_time_span(rows@[k].2, rows@[k].3, rows@[k].0, rows@[k].1, block_size),
        forall|k: int| 0 <= k < r@.len() ==> (#[trigger] r@[k]).0.wf() && r@[k].1.wf(),
{
    let mut out: Vec<(DateTime, DateTime)> = Vec::new();
    let mut i: usize = 0;
    while i < rows.len()
        invariant
            i <= rows@.len(),
            out@.len() == i,
            forall|k: int|
                0 <= k < rows@.len() ==> (#[trigger] rows@[k]).1.wf() && span_in_range(rows@[k].2, rows@[k].3, block_size),
            forall|k: int|
                0 <= k < i ==> #[trigger] out@[k] == spec_time_span(rows@[k].2, rows@[k].3, rows@[k].0, rows@[k].1, block_size),
            forall|k: int| 0 <= k < i ==> (#[trigger] out@[k]).0.wf() && out@[k].1.wf(),
        decreases rows@.len() - i,
    {
        let (day, opening_start, base_block_index, block_count) = rows[i];
        let reservation = NewReservation { profile_id: 0, opening_time_id: 0, base_block_index, block_count };
        let span = calculate_reservation_time_span(&reservation, day, opening_start, block_size);
        out.push(span);
        i = i + 1;
    }
    out
}

/// Two spans overlap when each starts before the other ends.
pub open spec fn overlaps(a: (DateTime, DateTime), b: (DateTime, DateTime)) -> bool {
    a.0.before(b.1) && b.0.before(a.1)
}

/// Whether a span overlaps any span in `existing`.
pub fn has_overlap(span: (DateTime, DateTime), existing: &Vec<(DateTime, DateTime)>) -> (r: bool)
    requires
        span.0.wf(),
        span.1.wf(),
        forall|k: int| 0 <= k < existing@.len() ==> (#[trigger] existing@[k]).0.wf() && existing@[k].1.wf(),
    ensures
        r == exists|k: int| 0 <= k < existing@.len() && overlaps(span, #[trigger] existing@[k]),
        span.0.before(span.1) && existing@.contains(span) ==> r,
{
    proof {
        if span.0.before(span.1) && existing@.contains(span) {
            let k = choose|k: int| 0 <= k < existing@.len() && existing@[k] == span;
            law_span_overlaps_itself(span);
            assert(overlaps(span, existing@[k]));
        }
    }
    let mut i: usize = 0;
    while i < existing.len()
        invariant
            i <= existing@.len(),
            span.0.wf(),
            span.1.wf(),
            forall|k: int| 0 <= k < existing@.len() ==> (#[trigger] existing@[k]).0.wf() && existing@[k].1.wf(),
            forall|k: int| 0 <= k < i ==> !overlaps(span, #[trigger] existing@[k]),
        decreases existing@.len() - i,
    {
        let other = existing[i];
        if span.0.lt(&other.1) && other.0.lt(&span.1) {
            assert(overlaps(span, existing@[i as int]));
            return true;
        }
        i = i + 1;
    }
    false
}

/// `res` is a reservation that fits the slot: it is in the slot's opening
/// time, its block count is in the allowed range, and its blocks lie inside
/// the opening time.
pub open spec fn fits_slot(res: NewReservation, slot: SeedSlot, block_size: i32) -> bool {
    let total = blocks_between(slot.1, slot.2, block_size);
    &&& res.opening_time_id == slot.0
    &&& spec_block_count_range(total, slot.3, block_size) matches Some((lo, hi))
    &&& lo <= res.block_count <= hi
    &&& 0 <= res.base_block_index
    &&& res.base_block_index + res.block_count <= total
}

/// Some reservation fits the slot: its allowed block counts are not empty.
pub open spec fn slot_can_hold(slot: SeedSlot, block_size: i32) -> bool {
    spec_block_count_range(blocks_between(slot.1, slot.2, block_size), slot.3, block_size) is Some
}

/// Every slot can hold a reservation.
pub open spec fn all_slots_can_hold(slots: Seq<SeedSlot>, block_size: i32) -> bool {
    forall|k: int| 0 <= k < slots.len() ==> slot_can_hold(#[trigger] slots[k], block_size)
}

/// No slot can hold a reservation.
pub open spec fn no_slot_can_hold(slots: Seq<SeedSlot>, block_size: i32) -> bool {
    forall|k: int| 0 <= k < slots.len() ==> !slot_can_hold(#[trigger] slots[k], block_size)
}

/// Some slot can hold a reservation.
pub open spec fn some_slot_can_hold(slots: Seq<SeedSlot>, block_size: i32) -> bool {
    exists|k: int| 0 <= k < slots.len() && slot_can_hold(#[trigger] slots[k], block_size)
}

/// One of the slots tried for the first reservation can hold a reservation.
pub open spec fn early_slot_can_hold(slots: Seq<SeedSlot>, block_size: i32) -> bool {
    exists|k: int| 0 <= k < slots.len() && k < MAX_ATTEMPTS_PER_RESERVATION && slot_can_hold(#[trigger] slots[k], block_size)
}

/// No earlier reservation reaches into `day`: each ends on an earlier day or
/// starts on a later one.
pub open spec fn day_clear_of(existing: Seq<(DateTime, DateTime)>, day: i32) -> bool {
    forall|e: int| 0 <= e < existing.len() ==> (#[trigger] existing[e]).1.days < day || day < existing[e].0.days
}

/// No earlier reservation reaches into the day of any slot.
pub open spec fn slot_days_clear(existing: Seq<(DateTime, DateTime)>, slots: Seq<SeedSlot>) -> bool {
    forall|k: int| 0 <= k < slots.len() ==> day_clear_of(existing, (#[trigger] slots[k]).4)
}

/// A span within one day overlaps no earlier reservation that stays out of
/// that day.
proof fn lemma_clear_day_no_overlap(span: (DateTime, DateTime), existing: Seq<(DateTime, DateTime)>)
    requires
        span.0.days == span.1.days,
        day_clear_of(existing, span.0.days),
    ensures
        !(exists|k: int| 0 <= k < existing.len() && overlaps(span, #[trigger] existing[k])),
{
    assert forall|k: int| 0 <= k < existing.len() implies !overlaps(span, #[trigger] existing[k]) by {
        assert(existing[k].1.days < span.0.days || span.0.days < existing[k].0.days);
    }
}

/// Some slot can hold a reservation and is among the first slots tried: at
/// most as many slots as a reservation gets tries come no later than it in
/// the order of opening time and day.
pub open spec fn early_in_order_can_hold(slots: Seq<SeedSlot>, block_size: i32) -> bool {
    exists|g: int|
        0 <= g < slots.len() && slot_can_hold(#[trigger] slots[g], block_size) && slots.filter(
            key_at_most(slots[g]),
        ).len() <= MAX_ATTEMPTS_PER_RESERVATION
}

/// `res` is a reservation of one of `profile_ids` that fits one of `slots`.
pub open spec fn planned_from(res: NewReservation, profile_ids: Seq<i32>, slots: Seq<SeedSlot>, block_size: i32) -> bool {
    &&& profile_ids.contains(res.profile_id)
    &&& exists|k: int| 0 <= k < slots.len() && fits_slot(res, #[trigger] slots[k], block_size)
}

/// Make `count` tries at a random reservation: each picks a random profile
/// and a random slot and keeps the reservation when one fits the slot.  No
/// profiles or no slots give no reservations; when every slot can hold a
/// reservation, every try gives one, and when none can, none does.
pub fn plan_random_reservations(
    count: usize,
    profile_ids: &Vec<i32>,
    slots: &Vec<SeedSlot>,
    block_size: i32,
) -> (r: Vec<NewReservation>)
    requires
        0 < block_size,
        forall|k: int| 0 <= k < slots@.len() ==> (#[trigger] slots@[k]).1.wf() && slots@[k].2.wf(),
    ensures
        r@.len() <= count,
        profile_ids@.len() == 0 || slots@.len() == 0 ==> r@.len() == 0,
        profile_ids@.len() > 0 && slots@.len() > 0 && all_slots_can_hold(slots@, block_size) ==> r@.len() == count,
        no_slot_can_hold(slots@, block_size) ==> r@.len() == 0,
        forall|j: int| 0 <= j < r@.len() ==> planned_from(#[trigger] r@[j], profile_ids@, slots@, block_size),
{
    let mut out: Vec<NewReservation> = Vec::new();
    if profile_ids.len() == 0 || slots.len() == 0 {
        return out;
    }
    let mut i: usize = 0;
    while i < count
        invariant
            i <= count,
            out@.len() <= i,
            0 < block_size,
            profile_ids@.len() > 0,
            slots@.len() > 0,
            forall|k: int| 0 <= k < slots@.len() ==> (#[trigger] slots@[k]).1.wf() && slots@[k].2.wf(),
            forall|j: int| 0 <= j < out@.len() ==> planned_from(#[trigger] out@[j], profile_ids@, slots@, block_size),
            all_slots_can_hold(slots@, block_size) ==> out@.len() == i,
            no_slot_can_hold(slots@, block_size) ==> out@.len() == 0,
        decreases count - i,
    {
        let p = random_index(profile_ids.len());
        let t = random_index(slots.len());
        let profile_id = profile_ids[p];
        let (opening_time_id, start_time, end_time, max_length, _day) = slots[t];
        match create_valid_reservation(profile_id, opening_time_id, start_time, end_time, max_length, block_size) {
            Some(res) => {
                let ghost before = out@;
                out.push(res);
                proof {
                    assert(profile_ids@[p as int] == profile_id);
                    assert(fits_slot(res, slots@[t as int], block_size));
                    assert(planned_from(res, profile_ids@, slots@, block_size));
                    assert forall|j: int| 0 <= j < out@.len() implies planned_from(#[trigger] out@[j], profile_ids@, slots@, block_size) by {
                        if j < before.len() {
                            assert(out@[j] == before[j]);
                        } else {
                            assert(out@[j] == res);
                        }
                    }
                }
            },
            None => {
                assert(!slot_can_hold(slots@[t as int], block_size));
            },
        }
        proof {
            if no_slot_can_hold(slots@, block_size) {
                assert(!slot_can_hold(slots@[t as int], block_size));
            }
            if all_slots_can_hold(slots@, block_size) {
                assert(slot_can_hold(slots@[t as int], block_size));
            }
        }
        i = i + 1;
    }
    out
}

/// The order slots are tried in: by opening time, then by day.
pub open spec fn slot_key_le(a: SeedSlot, b: SeedSlot) -> bool {
    a.0 < b.0 || (a.0 == b.0 && a.4 <= b.4)
}

/// Slots in the order they are tried in.
pub open spec fn slots_sorted(s: Seq<SeedSlot>) -> bool {
    forall|i: int, j: int| 0 <= i < j < s.len() ==> slot_key_le(s[i], s[j])
}

/// The slots with the opening time and day `key`.
pub open spec fn with_key(key: (i32, i32)) -> spec_fn(SeedSlot) -> bool {
    |s: SeedSlot| s.0 == key.0 && s.4 == key.1
}

/// Inserting `x` at `pos`, after every slot whose key is at most its key and
/// before every slot whose key is larger, adds it at the end of the slots
/// with its key and leaves the slots with other keys as they were.
proof fn lemma_insert_keeps_key_order(s: Seq<SeedSlot>, pos: int, x: SeedSlot, key: (i32, i32))
    requires
        0 <= pos <= s.len(),
        forall|k: int| pos <= k < s.len() ==> !slot_key_le(#[trigger] s[k], x),
    ensures
        s.insert(pos, x).filter(with_key(key)) == if with_key(key)(x) {
            s.filter(with_key(key)).push(x)
        } else {
            s.filter(with_key(key))
        },
{
    broadcast use Seq::filter_distributes_over_add;

    let a = s.subrange(0, pos);
    let b = s.subrange(pos, s.len() as int);
    assert(s =~= a + b);
    assert(s.insert(pos, x) =~= a + seq![x] + b);
    assert(seq![x] =~= Seq::<SeedSlot>::empty().push(x));
    Seq::<SeedSlot>::empty().lemma_filter_push(x, with_key(key));
    assert(Seq::<SeedSlot>::empty().filter(with_key(key)) =~= Seq::<SeedSlot>::empty()) by {
        reveal(Seq::filter);
    }
    if with_key(key)(x) {
        assert forall|k: int| 0 <= k < b.len() implies !with_key(key)(#[trigger] b[k]) by {
            assert(!slot_key_le(s[pos + k], x));
        }
        assert(b.all(|e: SeedSlot| !with_key(key)(e)));
        b.lemma_all_neg_filter_empty(with_key(key));
        assert(b.filter(with_key(key)) =~= Seq::<SeedSlot>::empty());
        assert((a + seq![x] + b).filter(with_key(key)) == (a + seq![x]).filter(with_key(key)) + b.filter(with_key(key)));
        assert((a + seq![x]).filter(with_key(key)) == a.filter(with_key(key)) + seq![x].filter(with_key(key)));
        assert(s.filter(with_key(key)) == a.filter(with_key(key)) + b.filter(with_key(key)));
        assert(s.insert(pos, x).filter(with_key(key)) =~= s.filter(with_key(key)).push(x));
    } else {
        assert((a + seq![x] + b).filter(with_key(key)) == (a + seq![x]).filter(with_key(key)) + b.filter(with_key(key)));
        assert((a + seq![x]).filter(with_key(key)) == a.filter(with_key(key)) + seq![x].filter(with_key(key)));
        assert(s.filter(with_key(key)) == a.filter(with_key(key)) + b.filter(with_key(key)));
        assert(s.insert(pos, x).filter(with_key(key)) =~= s.filter(with_key(key)));
    }
}

/// The slots tried no later than `s`: those whose opening time and day come
/// before or with those of `s`.
pub open spec fn key_at_most(s: SeedSlot) -> spec_fn(SeedSlot) -> bool {
    |x: SeedSlot| slot_key_le(x, s)
}

/// Inserting an element into a sequence adds one to the number of elements
/// a filter keeps when it keeps the element, and none otherwise.
proof fn lemma_insert_filter_len(s: Seq<SeedSlot>, pos: int, x: SeedSlot, p: spec_fn(SeedSlot) -> bool)
    requires
        0 <= pos <= s.len(),
    ensures
        s.insert(pos, x).filter(p).len() == s.filter(p).len() + if p(x) { 1int } else { 0int },
{
    broadcast use Seq::filter_distributes_over_add;

    let a = s.subrange(0, pos);
    let b = s.subrange(pos, s.len() as int);
    assert(s =~= a + b);
    assert(s.insert(pos, x) =~= a.push(x) + b);
    a.lemma_filter_len_push(p, x);
    assert((a.push(x) + b).filter(p) == a.push(x).filter(p) + b.filter(p));
    assert((a + b).filter(p) == a.filter(p) + b.filter(p));
}

/// What a filter keeps of a prefix whose elements it all keeps is the whole
/// prefix, and no more than it keeps of the whole sequence.
proof fn lemma_kept_prefix_filter_len(s: Seq<SeedSlot>, n: int, p: spec_fn(SeedSlot) -> bool)
    requires
        0 <= n <= s.len(),
        forall|i: int| 0 <= i < n ==> p(#[trigger] s[i]),
    ensures
        s.take(n).filter(p).len() == n,
        n <= s.filter(p).len(),
    decreases n,
{
    if n > 0 {
        lemma_kept_prefix_filter_len(s, n - 1, p);
        assert(s.take(n) =~= s.take(n - 1).push(s[n - 1]));
        s.take(n - 1).lemma_filter_len_push(p, s[n - 1]);
    }
    s.lemma_filter_take_len(p, n);
}

/// Sort slots by opening time and then by day, keeping every slot; slots
/// with the same opening time and day keep their order.
pub fn sort_seed_slots(slots: Vec<SeedSlot>) -> (r: Vec<SeedSlot>)
    ensures
        r@.to_multiset() == slots@.to_multiset(),
        slots_sorted(r@),
        forall|key: (i32, i32)| #[trigger] r@.filter(with_key(key)) == slots@.filter(with_key(key)),
        forall|x: SeedSlot| #[trigger] r@.filter(key_at_most(x)).len() == slots@.filter(key_at_most(x)).len(),
{
    let mut out: Vec<SeedSlot> = Vec::new();
    let mut i: usize = 0;
    assert(slots@.take(0) =~= out@);
    while i < slots.len()
        invariant
            i <= slots@.len(),
            out@.to_multiset() == slots@.take(i as int).to_multiset(),
            slots_sorted(out@),
            forall|key: (i32, i32)| #[trigger] out@.filter(with_key(key)) == slots@.take(i as int).filter(with_key(key)),
            forall|y: SeedSlot|
                #[trigger] out@.filter(key_at_most(y)).len() == slots@.take(i as int).filter(key_at_most(y)).len(),
        decreases slots@.len() - i,
    {
        let x = slots[i];
        let mut pos: usize = out.len();
        while pos > 0 && !slot_key_le_exec(&out[pos - 1], &x)
            invariant
                pos <= out@.len(),
                forall|k: int| pos <= k < out@.len() ==> !slot_key_le(#[trigger] out@[k], x),
            decreases pos,
        {
            pos = pos - 1;
        }
        proof {
            broadcast use vstd::seq_lib::to_multiset_insert;
            assert(slots@.take(i + 1) =~= slots@.take(i as int).push(x));
            assert(slots@.take(i as int).push(x) =~= slots@.take(i as int).insert(i as int, x));
            assert(out@.insert(pos as int, x).to_multiset() == out@.to_multiset().insert(x));
            assert(slots@.take(i as int).insert(i as int, x).to_multiset() == slots@.take(i as int).to_multiset().insert(x));
        }
        let ghost before = out@;
        out.insert(pos, x);
        proof {
            assert forall|a: int, b: int| 0 <= a < b < out@.len() implies slot_key_le(out@[a], out@[b]) by {
                if a < pos && b < pos {
                    assert(out@[a] == before[a] && out@[b] == before[b]);
                } else if a < pos && b == pos {
                    assert(slot_key_le(before[pos - 1], x));
                    assert(out@[a] == before[a]);
                    if a < pos - 1 {
                        assert(slot_key_le(before[a], before[pos - 1]));
                    }
                } else if a < pos {
                    assert(out@[a] == before[a] && out@[b] == before[b - 1]);
                } else if a == pos {
                    assert(out@[b] == before[b - 1]);
                    assert(!slot_key_le(before[b - 1], x));
                } else {
                    assert(out@[a] == before[a - 1] && out@[b] == before[b - 1]);
                }
            }
            assert forall|key: (i32, i32)| #[trigger] out@.filter(with_key(key)) == slots@.take(i + 1).filter(
                with_key(key),
            ) by {
                lemma_insert_keeps_key_order(before, pos as int, x, key);
                slots@.take(i as int).lemma_filter_push(x, with_key(key));
            }
            assert forall|y: SeedSlot| #[trigger] out@.filter(key_at_most(y)).len() == slots@.take(i + 1).filter(
                key_at_most(y),
            ).len() by {
                lemma_insert_filter_len(before, pos as int, x, key_at_most(y));
                slots@.take(i as int).lemma_filter_len_push(key_at_most(y), x);
            }
        }
        i = i + 1;
    }
    assert(slots@.take(slots@.len() as int) =~= slots@);
    out
}

fn slot_key_le_exec(a: &SeedSlot, b: &SeedSlot) -> (r: bool)
    ensures
        r == slot_key_le(*a, *b),
{
    a.0 < b.0 || (a.0 == b.0 && a.4 <= b.4)
}

/// The seeding loop of `seed_reservations_for_profile`, over slots already
/// in the order they are tried in.
fn seed_in_sorted_slots(
    profile_id: i32,
    count: usize,
    slots: &Vec<SeedSlot>,
    existing: Vec<(DateTime, DateTime)>,
    block_size: i32,
) -> (r: Vec<(NewReservation, (DateTime, DateTime))>)
    requires
        slots@.len() > 0,
        count * 7 + 12 <= usize::MAX,
        0 < block_size,
        forall|k: int| 0 <= k < existing@.len() ==> (#[trigger] existing@[k]).0.wf() && existing@[k].1.wf(),
        forall|k: int| 0 <= k < slots@.len() ==> (#[trigger] slots@[k]).1.wf() && slots@[k].2.wf(),
    ensures
        r@.len() <= count,
        count > 0 && slot_days_clear(existing@, slots@) && early_slot_can_hold(slots@, block_size) ==> r@.len() >= 1,
        forall|j: int| 0 <= j < r@.len() ==> (#[trigger] r@[j]).0.profile_id == profile_id && r@[j].0.block_count >= 1,
        forall|j: int| 0 <= j < r@.len() ==> seeded_from(#[trigger] r@[j], slots@, block_size),
        forall|j: int, k: int| 0 <= j < k < r@.len() ==> !overlaps(r@[j].1, r@[k].1),
        forall|j: int, e: int|
            0 <= j < r@.len() && 0 <= e < existing@.len() ==> !overlaps(r@[j].1, existing@[e]),
{
    let ghost clear = slot_days_clear(existing@, slots@);
    let ghost first_fits = clear && early_slot_can_hold(slots@, block_size);
    let mut created = existing;
    let ghost n_existing = created@.len();
    let mut out: Vec<(NewReservation, (DateTime, DateTime))> = Vec::new();
    let mut i: usize = 0;
    while i < count
        invariant
            i <= count,
            count * 7 + 12 <= usize::MAX,
            slots@.len() > 0,
            0 < block_size,
            out@.len() <= i,
            created@.len() == n_existing + out@.len(),
            forall|k: int| 0 <= k < slots@.len() ==> (#[trigger] slots@[k]).1.wf() && slots@[k].2.wf(),
            forall|k: int| 0 <= k < created@.len() ==> (#[trigger] created@[k]).0.wf() && created@[k].1.wf(),
            forall|k: int| 0 <= k < n_existing ==> created@[k] == existing@[k],
            forall|j: int| 0 <= j < out@.len() ==> (#[trigger] out@[j]).1 == created@[n_existing + j],
            forall|j: int| 0 <= j < out@.len() ==> (#[trigger] out@[j]).0.profile_id == profile_id && out@[j].0.block_count >= 1,
            forall|j: int| 0 <= j < out@.len() ==> seeded_from(#[trigger] out@[j], slots@, block_size),
            forall|a: int, b: int| 0 <= a < b < created@.len() && b >= n_existing ==> !overlaps(created@[b], created@[a]),
            n_existing == existing@.len(),
            clear == slot_days_clear(existing@, slots@),
            first_fits == (clear && early_slot_can_hold(slots@, block_size)),
            i > 0 && first_fits ==> out@.len() >= 1,
        decreases count - i,
    {
        let mut attempts: usize = 0;
        let mut found = false;
        let ghost start_len = out@.len();
        while attempts < MAX_ATTEMPTS_PER_RESERVATION && !found
            invariant
                attempts <= MAX_ATTEMPTS_PER_RESERVATION,
                start_len <= i,
                !found ==> out@.len() == start_len,
                found ==> out@.len() == start_len + 1,
                n_existing == existing@.len(),
                clear == slot_days_clear(existing@, slots@),
                i == 0 && clear && !found ==> forall|a: int|
                    0 <= a < attempts ==> !slot_can_hold(#[trigger] slots@[a % (slots@.len() as int)], block_size),
                i < count,
                count * 7 + 12 <= usize::MAX,
                slots@.len() > 0,
                0 < block_size,
                out@.len() <= i + 1,
                !found ==> out@.len() <= i,
                created@.len() == n_existing + out@.len(),
                forall|k: int| 0 <= k < slots@.len() ==> (#[trigger] slots@[k]).1.wf() && slots@[k].2.wf(),
                forall|k: int| 0 <= k < created@.len() ==> (#[trigger] created@[k]).0.wf() && created@[k].1.wf(),
                forall|k: int| 0 <= k < n_existing ==> created@[k] == existing@[k],
                forall|j: int| 0 <= j < out@.len() ==> (#[trigger] out@[j]).1 == created@[n_existing + j],
                forall|j: int| 0 <= j < out@.len() ==> (#[trigger] out@[j]).0.profile_id == profile_id && out@[j].0.block_count >= 1,
                forall|j: int| 0 <= j < out@.len() ==> seeded_from(#[trigger] out@[j], slots@, block_size),
                forall|a: int, b: int| 0 <= a < b < created@.len() && b >= n_existing ==> !overlaps(created@[b], created@[a]),
            decreases MAX_ATTEMPTS_PER_RESERVATION - attempts,
        {
            let time_index = (i * 7 + attempts) % slots.len();
            let slot = slots[time_index];
            let (opening_time_id, start_time, end_time, max_length, day) = slot;
            match create_valid_reservation(profile_id, opening_time_id, start_time, end_time, max_length, block_size) {
                None => {
                    assert(!slot_can_hold(slots@[time_index as int], block_size));
                },
                Some(reservation) => {
                    proof {
                        let d = end_time.total_nanos() - start_time.total_nanos();
                        assert(-86_400_000_000_000 < d < 86_400_000_000_000);
                        let m = trunc_div(d, nanos_per_minute());
                        assert(-1440 <= m <= 1440);
                        let bs = block_size as int;
                        let tb = blocks_between(start_time, end_time, block_size);
                        let b = reservation.base_block_index as int;
                        let c = reservation.block_count as int;
                        assert(b + c <= tb);
                        assert(tb >= 1);
                        assert(m >= 0) by {
                            if m < 0 {
                                assert(tb == -((-m) / bs));
                            }
                        }
                        assert(tb * bs <= m) by (nonlinear_arith)
                            requires tb == m / bs, m >= 0, bs > 0;
                        assert(0 <= b * bs <= (b + c) * bs <= tb * bs) by (nonlinear_arith)
                            requires 0 <= b, 1 <= c, b + c <= tb, bs > 0;
                    }
                    let span = calculate_reservation_time_span(&reservation, day, start_time, block_size);
                    let overlapping = has_overlap(span, &created);
                    proof {
                        if i == 0 && clear && !found {
                            assert(created@ =~= existing@);
                            assert(day_clear_of(existing@, slots@[time_index as int].4));
                            lemma_clear_day_no_overlap(span, existing@);
                        }
                    }
                    if !overlapping {
                        let ghost before = created@;
                        let ghost out_before = out@;
                        created.push(span);
                        out.push((reservation, span));
                        found = true;
                        proof {
                            assert(fits_slot(reservation, slots@[time_index as int], block_size));
                            assert(seeded_from((reservation, span), slots@, block_size));
                            assert forall|j: int| 0 <= j < out@.len() implies seeded_from(#[trigger] out@[j], slots@, block_size) by {
                                if j < out_before.len() {
                                    assert(out@[j] == out_before[j]);
                                }
                            }
                            assert forall|a: int, b: int| 0 <= a < b < created@.len() && b >= n_existing implies !overlaps(created@[b], created@[a]) by {
                                if b == created@.len() - 1 {
                                    assert(created@[a] == before[a]);
                                    if overlaps(span, before[a]) {
                                        assert(exists|k: int| 0 <= k < before.len() && overlaps(span, #[trigger] before[k]));
                                    }
                                } else {
                                    assert(created@[a] == before[a]);
                                    assert(created@[b] == before[b]);
                                }
                            }
                        }
                    }
                },
            }
            proof {
                if i == 0 && clear && !found {
                    assert(time_index == attempts as int % (slots@.len() as int));
                }
            }
            attempts = attempts + 1;
        }
        proof {
            if i == 0 && first_fits {
                if !found {
                    let k = choose|k: int|
                        0 <= k < slots@.len() && k < MAX_ATTEMPTS_PER_RESERVATION && slot_can_hold(#[trigger] slots@[k], block_size);
                    assert(k % (slots@.len() as int) == k) by (nonlinear_arith)
                        requires 0 <= k < slots@.len();
                    assert(!slot_can_hold(slots@[k % (slots@.len() as int)], block_size));
                }
            }
        }
        i = i + 1;
    }
    proof {
        assert forall|j: int, k: int| 0 <= j < k < out@.len() implies !overlaps(out@[j].1, out@[k].1) by {
            assert(!overlaps(created@[n_existing + k], created@[n_existing + j]));
            lemma_overlaps_symmetric(out@[j].1, out@[k].1);
        }
        assert forall|j: int, e: int| 0 <= j < out@.len() && 0 <= e < existing@.len() implies !overlaps(out@[j].1, existing@[e]) by {
            assert(!overlaps(created@[n_existing + j], created@[e]));
        }
    }
    out
}

/// `entry` is a reservation made in one of `slots`, with the moments it
/// starts and ends on that slot's day.
pub open spec fn seeded_from(entry: (NewReservation, (DateTime, DateTime)), slots: Seq<SeedSlot>, block_size: i32) -> bool {
    exists|k: int|
        0 <= k < slots.len() && fits_slot(entry.0, #[trigger] slots[k], block_size) && entry.1 == spec_time_span(
            entry.0.base_block_index,
            entry.0.block_count,
            slots[k].4,
            slots[k].1,
            block_size,
        )
}

/// Seed up to `count` reservations for one profile in the given slots
/// (tried in order of opening time and day), trying at most 20 slots per
/// reservation and keeping a reservation only when it overlaps none of the
/// profile's `existing` reservations nor any reservation seeded before it.
/// Gives the reservations with their spans.  When no earlier reservation
/// reaches into the days of the slots, the first one is always made when a
/// slot tried for it can hold one: a reservation lies within its slot's day.
pub fn seed_reservations_for_profile(
    profile_id: i32,
    count: usize,
    slots: Vec<SeedSlot>,
    existing: Vec<(DateTime, DateTime)>,
    block_size: i32,
) -> (r: Vec<(NewReservation, (DateTime, DateTime))>)
    requires
        count * 7 + 12 <= usize::MAX,
        0 < block_size,
        forall|k: int| 0 <= k < existing@.len() ==> (#[trigger] existing@[k]).0.wf() && existing@[k].1.wf(),
        forall|k: int| 0 <= k < slots@.len() ==> (#[trigger] slots@[k]).1.wf() && slots@[k].2.wf(),
    ensures
        r@.len() <= count,
        slots@.len() == 0 ==> r@.len() == 0,
        no_slot_can_hold(slots@, block_size) ==> r@.len() == 0,
        count > 0 && slot_days_clear(existing@, slots@) && early_in_order_can_hold(slots@, block_size) ==> r@.len() >= 1,
        count > 0 && slot_days_clear(existing@, slots@) && slots@.len() <= MAX_ATTEMPTS_PER_RESERVATION
            && some_slot_can_hold(slots@, block_size) ==> r@.len() >= 1,
        count > 0 && slot_days_clear(existing@, slots@) && slots@.len() > 0 && all_slots_can_hold(slots@, block_size)
            ==> r@.len() >= 1,
        forall|j: int| 0 <= j < r@.len() ==> (#[trigger] r@[j]).0.profile_id == profile_id && r@[j].0.block_count >= 1,
        forall|j: int| 0 <= j < r@.len() ==> seeded_from(#[trigger] r@[j], slots@, block_size),
        forall|j: int, k: int| 0 <= j < k < r@.len() ==> !overlaps(r@[j].1, r@[k].1),
        forall|j: int, e: int|
            0 <= j < r@.len() && 0 <= e < existing@.len() ==> !overlaps(r@[j].1, existing@[e]),
{
    if slots.len() == 0 {
        return Vec::new();
    }
    let ghost given = slots@;
    let sorted = sort_seed_slots(slots);
    proof {
        broadcast use vstd::seq_lib::to_multiset_contains;
        assert forall|k: int| 0 <= k < sorted@.len() implies given.contains(#[trigger] sorted@[k]) by {
            assert(sorted@.contains(sorted@[k]));
            assert(sorted@.to_multiset().count(sorted@[k]) > 0);
        }
        assert(sorted@.len() > 0) by {
            assert(given.contains(given[0]));
            assert(sorted@.to_multiset().count(given[0]) > 0);
        }
        assert forall|k: int| 0 <= k < sorted@.len() implies (#[trigger] sorted@[k]).1.wf() && sorted@[k].2.wf() by {
            assert(given.contains(sorted@[k]));
        }
        assert(sorted@.len() == given.len()) by {
            vstd::seq_lib::to_multiset_len(sorted@);
            vstd::seq_lib::to_multiset_len(given);
        }
        if slot_days_clear(existing@, given) {
            assert forall|k: int| 0 <= k < sorted@.len() implies day_clear_of(existing@, (#[trigger] sorted@[k]).4) by {
                assert(given.contains(sorted@[k]));
                let g = choose|g: int| 0 <= g < given.len() && given[g] == sorted@[k];
                assert(day_clear_of(existing@, given[g].4));
            }
        }
        if given.len() <= MAX_ATTEMPTS_PER_RESERVATION && some_slot_can_hold(given, block_size) {
            let g = choose|g: int| 0 <= g < given.len() && slot_can_hold(#[trigger] given[g], block_size);
            given.lemma_filter_len(key_at_most(given[g]));
            assert(early_in_order_can_hold(given, block_size));
        }
        if early_in_order_can_hold(given, block_size) {
            let g = choose|g: int|
                0 <= g < given.len() && slot_can_hold(#[trigger] given[g], block_size) && given.filter(
                    key_at_most(given[g]),
                ).len() <= MAX_ATTEMPTS_PER_RESERVATION;
            let x = given[g];
            assert(given.contains(x));
            assert(sorted@.to_multiset().count(x) > 0);
            assert(sorted@.contains(x));
            let k = choose|k: int| 0 <= k < sorted@.len() && sorted@[k] == x;
            assert forall|i: int| 0 <= i < k + 1 implies key_at_most(x)(#[trigger] sorted@[i]) by {
                if i < k {
                    assert(slot_key_le(sorted@[i], sorted@[k]));
                }
            }
            lemma_kept_prefix_filter_len(sorted@, k + 1, key_at_most(x));
            assert(slot_can_hold(sorted@[k], block_size));
            assert(early_slot_can_hold(sorted@, block_size));
        }
        if all_slots_can_hold(given, block_size) {
            assert(given.contains(sorted@[0]));
            let g = choose|g: int| 0 <= g < given.len() && given[g] == sorted@[0];
            assert(slot_can_hold(given[g], block_size));
            assert(early_slot_can_hold(sorted@, block_size));
        }
    }
    let r = seed_in_sorted_slots(profile_id, count, &sorted, existing, block_size);
    proof {
        assert forall|j: int| 0 <= j < r@.len() implies seeded_from(#[trigger] r@[j], given, block_size) by {
            assert(seeded_from(r@[j], sorted@, block_size));
            let k = choose|k: int|
                0 <= k < sorted@.len() && fits_slot(r@[j].0, #[trigger] sorted@[k], block_size) && r@[j].1 == spec_time_span(
                    r@[j].0.base_block_index,
                    r@[j].0.block_count,
                    sorted@[k].4,
                    sorted@[k].1,
                    block_size,
                );
            assert(given.contains(sorted@[k]));
            let g = choose|g: int| 0 <= g < given.len() && given[g] == sorted@[k];
            assert(fits_slot(r@[j].0, given[g], block_size));
        }
        if r@.len() > 0 {
            assert(seeded_from(r@[0], given, block_size));
            let g = choose|g: int|
                0 <= g < given.len() && fits_slot(r@[0].0, #[trigger] given[g], block_size) && r@[0].1 == spec_time_span(
                    r@[0].0.base_block_index,
                    r@[0].0.block_count,
                    given[g].4,
                    given[g].1,
                    block_size,
                );
            assert(slot_can_hold(given[g], block_size));
        }
    }
    r
}

/// A span that starts before it ends overlaps itself: two reservations of
/// the same span are never both kept.
pub proof fn law_span_overlaps_itself(a: (DateTime, DateTime))
    requires
        a.0.before(a.1),
    ensures
        overlaps(a, a),
{
}

/// Two spans that each start before they end overlap exactly when some
/// moment lies in both: at or after each start and before each end.
pub proof fn law_overlap_is_a_shared_moment(a: (DateTime, DateTime), b: (DateTime, DateTime))
    requires
        a.0.before(a.1),
        b.0.before(b.1),
    ensures
        overlaps(a, b) <==> exists|t: DateTime|
            #![trigger t.before(a.1), t.before(b.1)]
            !t.before(a.0) && t.before(a.1) && !t.before(b.0) && t.before(b.1),
{
    if a.0.before(b.1) && b.0.before(a.1) {
        let t = if b.0.before(a.0) { a.0 } else { b.0 };
        assert(!t.before(a.0) && t.before(a.1) && !t.before(b.0) && t.before(b.1));
    }
}

/// Overlap is symmetric.
pub proof fn lemma_overlaps_symmetric(a: (DateTime, DateTime), b: (DateTime, DateTime))
    ensures
        overlaps(a, b) == overlaps(b, a),
{
}

} // verus!
