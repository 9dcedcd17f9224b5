//! The rules a new reservation must satisfy: it lies inside the opening
//! time, the opening time is open for reservations, its length is allowed,
//! and no block it could occupy is already full.

use vstd::prelude::*;
use crate::time::{DateTime, TimeOfDay, MAX_DAY, UNIX_EPOCH_DAY, minutes_between, trunc_div, nanos_per_minute, current_utc};

verus! {

/// Why a reservation cannot be made.
#[derive(Clone, Debug)]
pub enum CreateReservationError {
    /// The reservation does not fit between these opening bounds.
    OutOfBounds { start: TimeOfDay, end: TimeOfDay },
    /// The opening time only opens for reservations at this moment.
    NotReservableYet(DateTime),
    /// The opening time closed for reservations at this moment.
    NotReservableAnymore(DateTime),
    /// The reservation is shorter than this many blocks.
    ReservationTooShort(i32),
    /// The reservation is longer than this many blocks.
    ReservationTooLong(i32),
    /// These blocks cannot take another reservation.
    Full(Vec<i32>),
}

/// The opening time that a reservation is made in.
#[derive(Clone, Copy, Debug)]
pub struct OpeningSlot {
    pub start_time: TimeOfDay,
    pub end_time: TimeOfDay,
    pub seat_count: Option<i32>,
    pub reservable_from: Option<DateTime>,
    pub reservable_until: Option<DateTime>,
}

/// A reservation ready to be stored: who reserves, in which opening time,
/// from which block and for how many blocks.
#[derive(Clone, Copy, Debug, PartialEq, Eq, Structural)]
pub struct NewReservation {
    pub profile_id: i32,
    pub opening_time_id: i32,
    pub base_block_index: i32,
    pub block_count: i32,
}

/// The blocks a request covers, and how many blocks the opening time has.
#[derive(Clone, Copy, Debug, PartialEq, Eq, Structural)]
pub struct BlockPlan {
    pub base_block_index: i32,
    pub block_count: i32,
    pub num_blocks: i32,
}

impl OpeningSlot {
    pub open spec fn wf(self) -> bool {
        &&& self.start_time.wf()
        &&& self.end_time.wf()
        &&& (self.reservable_from matches Some(f) ==> f.wf())
        &&& (self.reservable_until matches Some(u) ==> u.wf())
    }
}

/// Whole minutes from `b` to `a`, rounded toward zero.
pub open spec fn minutes_from(a: TimeOfDay, b: TimeOfDay) -> int {
    trunc_div(a.total_nanos() - b.total_nanos(), nanos_per_minute())
}

/// The outcome of the bounds check.
pub open spec fn bounds_result(
    min_start: TimeOfDay,
    max_end: TimeOfDay,
    start: TimeOfDay,
    end: TimeOfDay,
) -> Result<(), CreateReservationError> {
    if start.total_nanos() < min_start.total_nanos() || max_end.total_nanos() < end.total_nanos() {
        Err(CreateReservationError::OutOfBounds { start: min_start, end: max_end })
    } else {
        Ok(())
    }
}

/// The outcome of the reservation period check at the moment `now`.
pub open spec fn period_result(
    from: Option<DateTime>,
    until: Option<DateTime>,
    now: DateTime,
) -> Result<(), CreateReservationError> {
    if from matches Some(f) && now.before(f) {
        Err(CreateReservationError::NotReservableYet(from->0))
    } else if until matches Some(u) && u.before(now) {
        Err(CreateReservationError::NotReservableAnymore(until->0))
    } else {
        Ok(())
    }
}

/// A moment the system clock can give: valid, between the Unix epoch and the
/// last day that can be represented.
pub open spec fn clock_moment(t: DateTime) -> bool {
    t.wf() && UNIX_EPOCH_DAY <= t.days <= MAX_DAY
}

/// The outcome of the reservation period check when the moment compared with
/// `from` is `first` and the one compared with `until` is `second`.
pub open spec fn period_result_read_twice(
    from: Option<DateTime>,
    until: Option<DateTime>,
    first: DateTime,
    second: DateTime,
) -> Result<(), CreateReservationError> {
    if from matches Some(f) && first.before(f) {
        Err(CreateReservationError::NotReservableYet(from->0))
    } else if until matches Some(u) && u.before(second) {
        Err(CreateReservationError::NotReservableAnymore(until->0))
    } else {
        Ok(())
    }
}

/// A bound later than every moment the clock can give.
pub open spec fn after_every_clock_moment(d: DateTime) -> bool {
    d.days > MAX_DAY
}

/// A bound earlier than every moment the clock can give.
pub open spec fn before_every_clock_moment(d: DateTime) -> bool {
    d.days < UNIX_EPOCH_DAY
}

/// The outcome of the length check for a reservation of `len` blocks.
pub open spec fn length_result(max: Option<i32>, len: i32) -> Result<(), CreateReservationError> {
    if len < 1 {
        Err(CreateReservationError::ReservationTooShort(1))
    } else if max matches Some(m) && len > m {
        Err(CreateReservationError::ReservationTooLong(max->0))
    } else {
        Ok(())
    }
}

/// Whether a stored reservation `(base, count)` counts against `block`.
pub open spec fn covers(span: (i32, i32), block: int) -> bool {
    span.0 <= block && span.0 + span.1 >= block
}

/// How many stored reservations count against `block`.
pub open spec fn occupancy(spans: Seq<(i32, i32)>, block: int) -> nat
    decreases spans.len(),
{
    if spans.len() == 0 {
        0
    } else {
        occupancy(spans.drop_last(), block) + if covers(spans.last(), block) {
            1nat
        } else {
            0nat
        }
    }
}

/// A block is full when one more reservation would exceed the seats.
pub open spec fn is_full(spans: Seq<(i32, i32)>, seats: i32, block: int) -> bool {
    occupancy(spans, block) + 1 > seats
}

/// The full blocks among `0..n`, in increasing order.
pub open spec fn full_blocks(spans: Seq<(i32, i32)>, seats: i32, n: int) -> Seq<i32>
    decreases n,
{
    if n <= 0 {
        Seq::empty()
    } else {
        full_blocks(spans, seats, n - 1) + if is_full(spans, seats, n - 1) {
            seq![(n - 1) as i32]
        } else {
            Seq::empty()
        }
    }
}

/// Spans whose end can be computed without overflow.
pub open spec fn spans_in_range(spans: Seq<(i32, i32)>) -> bool {
    forall|k: int|
        0 <= k < spans.len() ==> i32::MIN <= #[trigger] spans[k].0 + spans[k].1 <= i32::MAX
}

/// The block plan of a request, before the length check.
pub open spec fn spec_block_plan(
    opening_start: TimeOfDay,
    opening_end: TimeOfDay,
    request_start: TimeOfDay,
    request_end: TimeOfDay,
    block_size: i32,
) -> BlockPlan {
    BlockPlan {
        base_block_index: trunc_div(minutes_from(request_start, opening_start), block_size as int) as i32,
        block_count: trunc_div(minutes_from(request_end, request_start), block_size as int) as i32,
        num_blocks: trunc_div(minutes_from(opening_end, opening_start), block_size as int) as i32,
    }
}

/// Reject a reservation that starts before the opening time starts or ends
/// after it ends.
pub fn check_reservation_bounds(
    min_start_time: TimeOfDay,
    max_end_time: TimeOfDay,
    start_time: TimeOfDay,
    end_time: TimeOfDay,
) -> (r: Result<(), CreateReservationError>)
    requires
        min_start_time.wf(),
        max_end_time.wf(),
        start_time.wf(),
        end_time.wf(),
    ensures
        r == bounds_result(min_start_time, max_end_time, start_time, end_time),
{
    if start_time.lt(&min_start_time) || max_end_time.lt(&end_time) {
        return Err(CreateReservationError::OutOfBounds { start: min_start_time, end: max_end_time });
    }
    Ok(())
}

/// Reject a reservation made before the opening time opens for reservations
/// or after it closed, at the moment `now`.
pub fn check_reservation_period(
    from: Option<DateTime>,
    until: Option<DateTime>,
    now: DateTime,
) -> (r: Result<(), CreateReservationError>)
    requires
        now.wf(),
        from matches Some(f) ==> f.wf(),
        until matches Some(u) ==> u.wf(),
    ensures
        r == period_result(from, until, now),
{
    if let Some(f) = from {
        if now.lt(&f) {
            return Err(CreateReservationError::NotReservableYet(f));
        }
    }
    if let Some(u) = until {
        if u.lt(&now) {
            return Err(CreateReservationError::NotReservableAnymore(u));
        }
    }
    Ok(())
}

/// Reject a reservation made before the opening time opens for reservations
/// or after it closed, reading the clock for each of the two checks.  The
/// outcome is that of the two checks at some two moments the clock can give;
/// which moments they are is not known, but a bound beyond every such moment
/// decides the outcome.
pub fn check_reservation_period_now(from: Option<DateTime>, until: Option<DateTime>) -> (r: Result<
    (),
    CreateReservationError,
>)
    requires
        from matches Some(f) ==> f.wf(),
        until matches Some(u) ==> u.wf(),
    ensures
        exists|first: DateTime, second: DateTime|
            clock_moment(first) && clock_moment(second) && r == #[trigger] period_result_read_twice(
                from,
                until,
                first,
                second,
            ),
        from matches Some(f) && after_every_clock_moment(f) ==> r == Err::<(), CreateReservationError>(
            CreateReservationError::NotReservableYet(from->0),
        ),
        (from matches Some(f) ==> before_every_clock_moment(f)) && (until matches Some(u)
            && before_every_clock_moment(u)) ==> r == Err::<(), CreateReservationError>(
            CreateReservationError::NotReservableAnymore(until->0),
        ),
        (from matches Some(f) ==> before_every_clock_moment(f)) && (until matches Some(u) ==> after_every_clock_moment(u))
            ==> r is Ok,
{
    let ghost mut first = DateTime { days: UNIX_EPOCH_DAY, time: TimeOfDay { secs: 0, nanos: 0 } };
    let ghost mut second = first;
    if let Some(f) = from {
        let now = current_utc();
        proof {
            first = now;
        }
        if now.lt(&f) {
            let r = Err(CreateReservationError::NotReservableYet(f));
            assert(clock_moment(first) && clock_moment(second) && r == period_result_read_twice(from, until, first, second));
            return r;
        }
    }
    if let Some(u) = until {
        let now = current_utc();
        proof {
            second = now;
        }
        if u.lt(&now) {
            let r = Err(CreateReservationError::NotReservableAnymore(u));
            assert(clock_moment(first) && clock_moment(second) && r == period_result_read_twice(from, until, first, second));
            return r;
        }
    }
    assert(clock_moment(first) && clock_moment(second) && period_result_read_twice(from, until, first, second) is Ok);
    Ok(())
}

/// Reject a reservation of fewer than one block, or of more blocks than the
/// location allows.
pub fn check_reservation_length(max: Option<i32>, len: i32) -> (r: Result<(), CreateReservationError>)
    ensures
        r == length_result(max, len),
{
    if len < 1 {
        return Err(CreateReservationError::ReservationTooShort(1));
    }
    if let Some(m) = max {
        if len > m {
            return Err(CreateReservationError::ReservationTooLong(m));
        }
    }
    Ok(())
}

proof fn lemma_occupancy_take(spans: Seq<(i32, i32)>, j: int, block: int)
    requires
        0 <= j < spans.len(),
    ensures
        occupancy(spans.take(j + 1), block) == occupancy(spans.take(j), block) + if covers(
            spans[j],
            block,
        ) {
            1nat
        } else {
            0nat
        },
{
    assert(spans.take(j + 1).drop_last() =~= spans.take(j));
}

proof fn lemma_occupancy_bound(spans: Seq<(i32, i32)>, block: int)
    ensures
        occupancy(spans, block) <= spans.len(),
    decreases spans.len(),
{
    if spans.len() > 0 {
        lemma_occupancy_bound(spans.drop_last(), block);
    }
}

/// Count, for one block, the stored reservations that count against it.
fn count_occupancy(spans: &[(i32, i32)], block: i32) -> (count: i32)
    requires
        spans@.len() < i32::MAX,
        spans_in_range(spans@),
    ensures
        count == occupancy(spans@, block as int),
{
    let mut count: i32 = 0;
    let mut j: usize = 0;
    while j < spans.len()
        invariant
            j <= spans@.len(),
            spans@.len() < i32::MAX,
            spans_in_range(spans@),
            count == occupancy(spans@.take(j as int), block as int),
        decreases spans@.len() - j,
    {
        let span = spans[j];
        proof {
            lemma_occupancy_take(spans@, j as int, block as int);
            lemma_occupancy_bound(spans@.take(j as int), block as int);
            assert(i32::MIN <= spans@[j as int].0 + spans@[j as int].1 <= i32::MAX);
        }
        if span.0 <= block && span.0 + span.1 >= block {
            count = count + 1;
        }
        j = j + 1;
    }
    assert(spans@.take(spans@.len() as int) =~= spans@);
    count
}

/// Reject a reservation when any block of the opening time has no seat left
/// for it, listing those blocks in increasing order.
pub fn check_reservation_occupation(blocks: i32, spans: &[(i32, i32)], seats: i32) -> (r: Result<
    (),
    CreateReservationError,
>)
    requires
        spans@.len() < i32::MAX,
        spans_in_range(spans@),
    ensures
        r is Ok <==> full_blocks(spans@, seats, blocks as int).len() == 0,
        r matches Err(e) ==> e matches CreateReservationError::Full(v) && v@ == full_blocks(
            spans@,
            seats,
            blocks as int,
        ),
{
    let mut full: Vec<i32> = Vec::new();
    let mut i: i32 = 0;
    while i < blocks
        invariant
            0 <= i,
            i <= blocks || i == 0,
            spans@.len() < i32::MAX,
            spans_in_range(spans@),
            full@ == full_blocks(spans@, seats, i as int),
        decreases blocks - i,
    {
        let reservations = count_occupancy(spans, i);
        proof {
            lemma_occupancy_bound(spans@, i as int);
        }
        if reservations + 1 > seats {
            full.push(i);
        }
        i = i + 1;
    }
    if blocks < 0 {
        assert(full_blocks(spans@, seats, blocks as int) =~= Seq::<i32>::empty());
    }
    if full.len() > 0 {
        return Err(CreateReservationError::Full(full));
    }
    Ok(())
}

/// Work out which blocks a request covers: the block it starts in, how many
/// blocks it spans and how many blocks the opening time has; then check the
/// length against the location's maximum.
pub fn plan_reservation_blocks(
    opening_start: TimeOfDay,
    opening_end: TimeOfDay,
    request_start: TimeOfDay,
    request_end: TimeOfDay,
    max_reservation_length: Option<i32>,
    block_size: i32,
) -> (r: Result<BlockPlan, CreateReservationError>)
    requires
        opening_start.wf(),
        opening_end.wf(),
        request_start.wf(),
        request_end.wf(),
        block_size > 0,
    ensures
        ({
            let plan = spec_block_plan(opening_start, opening_end, request_start, request_end, block_size);
            match length_result(max_reservation_length, plan.block_count) {
                Ok(_) => r == Ok::<BlockPlan, CreateReservationError>(plan),
                Err(e) => r == Err::<BlockPlan, CreateReservationError>(e),
            }
        }),
{
    let bs = block_size as i64;
    let offset = minutes_between(&request_start, &opening_start);
    let base_block_index = trunc_div_exec(offset, bs) as i32;
    let span = minutes_between(&request_end, &request_start);
    let block_count = trunc_div_exec(span, bs) as i32;
    match check_reservation_length(max_reservation_length, block_count) {
        Ok(()) => {},
        Err(e) => return Err(e),
    }
    let total = minutes_between(&opening_end, &opening_start);
    let num_blocks = trunc_div_exec(total, bs) as i32;
    Ok(BlockPlan { base_block_index, block_count, num_blocks })
}

/// Division rounding toward zero of a minute count by a block size, as `/`
/// on `i64` does.
fn trunc_div_exec(a: i64, d: i64) -> (r: i64)
    requires
        d > 0,
        -1440 <= a <= 1440,
    ensures
        r == trunc_div(a as int, d as int),
        -1440 <= r <= 1440,
{
    if a >= 0 {
        a / d
    } else {
        -((-a) / d)
    }
}

/// The outcome of the bounds, reservation period and length checks on a
/// request, in that order, and the block plan when all three pass.
pub open spec fn precheck_result(
    slot: OpeningSlot,
    max_reservation_length: Option<i32>,
    request_start: TimeOfDay,
    request_end: TimeOfDay,
    now: DateTime,
    block_size: i32,
) -> Result<BlockPlan, CreateReservationError> {
    let plan = spec_block_plan(slot.start_time, slot.end_time, request_start, request_end, block_size);
    if bounds_result(slot.start_time, slot.end_time, request_start, request_end) is Err {
        Err(bounds_result(slot.start_time, slot.end_time, request_start, request_end)->Err_0)
    } else if period_result(slot.reservable_from, slot.reservable_until, now) is Err {
        Err(period_result(slot.reservable_from, slot.reservable_until, now)->Err_0)
    } else if length_result(max_reservation_length, plan.block_count) is Err {
        Err(length_result(max_reservation_length, plan.block_count)->Err_0)
    } else {
        Ok(plan)
    }
}

/// The seats that count for an opening time: its own, or else the location's.
pub open spec fn slot_seats(slot: OpeningSlot, location_seats: i32) -> i32 {
    match slot.seat_count {
        Some(s) => s,
        None => location_seats,
    }
}

proof fn lemma_minutes_in_day(a: TimeOfDay, b: TimeOfDay)
    requires
        a.wf(),
        b.wf(),
    ensures
        -1440 <= minutes_from(a, b) <= 1440,
{
    let d = a.total_nanos() - b.total_nanos();
    assert(-86_400_000_000_000 < d < 86_400_000_000_000);
    if d >= 0 {
        assert(d / 60_000_000_000 <= 1440);
    } else {
        assert((-d) / 60_000_000_000 <= 1440);
    }
}

/// Check a reservation request against its opening time, the location and
/// the reservations already made, at the moment `now`, and give the blocks it
/// covers.  The checks run in this order: bounds, reservation period, length,
/// occupation; the first that fails decides the error.  The occupation check
/// uses the seats of the opening time, or else those of the location.
pub fn check_reservation_request(
    slot: &OpeningSlot,
    max_reservation_length: Option<i32>,
    location_seats: i32,
    request_start: TimeOfDay,
    request_end: TimeOfDay,
    spans: &[(i32, i32)],
    now: DateTime,
    block_size: i32,
) -> (r: Result<BlockPlan, CreateReservationError>)
    requires
        slot.wf(),
        request_start.wf(),
        request_end.wf(),
        now.wf(),
        block_size > 0,
        spans@.len() < i32::MAX,
        spans_in_range(spans@),
    ensures
        ({
            let pre = precheck_result(*slot, max_reservation_length, request_start, request_end, now, block_size);
            let full = full_blocks(spans@, slot_seats(*slot, location_seats), pre->Ok_0.num_blocks as int);
            &&& pre is Err ==> r == pre
            &&& pre is Ok && full.len() == 0 ==> r == pre
            &&& pre is Ok && full.len() > 0 ==> (r matches Err(e) && e matches CreateReservationError::Full(v) && v@ == full)
        }),
        ({
            let pre = precheck_result(*slot, max_reservation_length, request_start, request_end, now, block_size);
            let seats = match slot.seat_count {
                Some(own) => own,
                None => location_seats,
            };
            pre is Ok ==> (r is Ok <==> full_blocks(spans@, seats, pre->Ok_0.num_blocks as int).len() == 0)
        }),
{
    match check_reservation_bounds(slot.start_time, slot.end_time, request_start, request_end) {
        Ok(()) => {},
        Err(e) => return Err(e),
    }
    match check_reservation_period(slot.reservable_from, slot.reservable_until, now) {
        Ok(()) => {},
        Err(e) => return Err(e),
    }
    proof {
        lemma_minutes_in_day(request_start, slot.start_time);
        lemma_minutes_in_day(request_end, request_start);
        lemma_minutes_in_day(slot.end_time, slot.start_time);
    }
    let plan = match plan_reservation_blocks(
        slot.start_time,
        slot.end_time,
        request_start,
        request_end,
        max_reservation_length,
        block_size,
    ) {
        Ok(p) => p,
        Err(e) => return Err(e),
    };
    let seats = match slot.seat_count {
        Some(s) => s,
        None => location_seats,
    };
    match check_reservation_occupation(plan.num_blocks, spans, seats) {
        Ok(()) => {},
        Err(e) => return Err(e),
    }
    Ok(plan)
}

/// The reservation to store once a request passed every check.
pub fn new_reservation(profile_id: i32, opening_time_id: i32, plan: BlockPlan) -> (r: NewReservation)
    ensures
        r == (NewReservation {
            profile_id,
            opening_time_id,
            base_block_index: plan.base_block_index,
            block_count: plan.block_count,
        }),
{
    NewReservation {
        profile_id,
        opening_time_id,
        base_block_index: plan.base_block_index,
        block_count: plan.block_count,
    }
}

/// The blocks reported as full are exactly the full blocks of the opening
/// time: each listed block lies in `0..blocks` and has no seat left for one
/// more reservation, every such block is listed, and the list is strictly
/// increasing, so no block is listed twice.
pub proof fn lemma_full_blocks_exact(spans: Seq<(i32, i32)>, seats: i32, blocks: i32)
    requires
        0 <= blocks,
    ensures
        forall|k: int|
            0 <= k < full_blocks(spans, seats, blocks as int).len() ==> {
                let b = #[trigger] full_blocks(spans, seats, blocks as int)[k];
                &&& 0 <= b < blocks
                &&& is_full(spans, seats, b as int)
            },
        forall|b: int|
            0 <= b < blocks && is_full(spans, seats, b) ==> full_blocks(
                spans,
                seats,
                blocks as int,
            ).contains(b as i32),
        forall|k1: int, k2: int|
            0 <= k1 < k2 < full_blocks(spans, seats, blocks as int).len() ==> full_blocks(
                spans,
                seats,
                blocks as int,
            )[k1] < full_blocks(spans, seats, blocks as int)[k2],
{
    lemma_full_blocks_exact_upto(spans, seats, blocks as int);
}

proof fn lemma_full_blocks_exact_upto(spans: Seq<(i32, i32)>, seats: i32, n: int)
    requires
        0 <= n <= i32::MAX,
    ensures
        forall|k: int|
            0 <= k < full_blocks(spans, seats, n).len() ==> {
                let b = #[trigger] full_blocks(spans, seats, n)[k];
                &&& 0 <= b < n
                &&& is_full(spans, seats, b as int)
            },
        forall|b: int|
            0 <= b < n && is_full(spans, seats, b) ==> full_blocks(spans, seats, n).contains(
                b as i32,
            ),
        forall|k1: int, k2: int|
            0 <= k1 < k2 < full_blocks(spans, seats, n).len() ==> full_blocks(spans, seats, n)[k1]
                < full_blocks(spans, seats, n)[k2],
    decreases n,
{
    if n > 0 {
        lemma_full_blocks_exact_upto(spans, seats, n - 1);
        let prev = full_blocks(spans, seats, n - 1);
        let cur = full_blocks(spans, seats, n);
        assert forall|b: int| 0 <= b < n && is_full(spans, seats, b) implies cur.contains(
            b as i32,
        ) by {
            if b < n - 1 {
                let k = choose|k: int| 0 <= k < prev.len() && prev[k] == b as i32;
                assert(cur[k] == prev[k]);
            } else {
                assert(cur[prev.len() as int] == (n - 1) as i32);
            }
        }
    }
}

proof fn lemma_trunc_div_nonneg_sum(a: int, b: int, d: int)
    requires
        a >= 0,
        b >= 0,
        d > 0,
    ensures
        a / d + b / d <= (a + b) / d,
{
    assert(a / d + b / d <= (a + b) / d) by (nonlinear_arith)
        requires
            a >= 0,
            b >= 0,
            d > 0,
    ;
}

proof fn lemma_div_monotone(a: int, b: int, d: int)
    requires
        0 <= a <= b,
        d > 0,
    ensures
        a / d <= b / d,
{
    assert(a / d <= b / d) by (nonlinear_arith)
        requires
            0 <= a <= b,
            d > 0,
    ;
}

/// A request that passes the bounds, period and length checks covers blocks
/// of its opening time only: it starts at block 0 or later, spans at least
/// one block, and ends by the last block of the opening time.
pub proof fn lemma_accepted_plan_fits(
    slot: OpeningSlot,
    max_reservation_length: Option<i32>,
    request_start: TimeOfDay,
    request_end: TimeOfDay,
    now: DateTime,
    block_size: i32,
)
    requires
        slot.wf(),
        request_start.wf(),
        request_end.wf(),
        block_size > 0,
        precheck_result(slot, max_reservation_length, request_start, request_end, now, block_size) is Ok,
    ensures
        ({
            let plan = spec_block_plan(slot.start_time, slot.end_time, request_start, request_end, block_size);
            &&& 0 <= plan.base_block_index
            &&& 1 <= plan.block_count
            &&& plan.base_block_index + plan.block_count <= plan.num_blocks
        }),
{
    let os = slot.start_time.total_nanos();
    let oe = slot.end_time.total_nanos();
    let rs = request_start.total_nanos();
    let re = request_end.total_nanos();
    let m = nanos_per_minute();
    let bs = block_size as int;
    let plan = spec_block_plan(slot.start_time, slot.end_time, request_start, request_end, block_size);
    assert(os <= rs && re <= oe);
    // The request has at least one block, so it does not end before it starts.
    if re < rs {
        assert(minutes_from(request_end, request_start) <= 0);
        assert(trunc_div(minutes_from(request_end, request_start), bs) <= 0);
        assert(false);
    }
    let a = (rs - os) / m;
    let b = (re - rs) / m;
    let c = (oe - os) / m;
    lemma_trunc_div_nonneg_sum(rs - os, re - rs, m);
    lemma_div_monotone(re - os, oe - os, m);
    assert(a + b <= c);
    assert(0 <= a <= 1440) by (nonlinear_arith)
        requires
            a == (rs - os) / m,
            0 <= rs - os < 86_400_000_000_000,
            m == 60_000_000_000,
    ;
    assert(0 <= b <= 1440) by (nonlinear_arith)
        requires
            b == (re - rs) / m,
            0 <= re - rs < 86_400_000_000_000,
            m == 60_000_000_000,
    ;
    assert(0 <= c <= 1440) by (nonlinear_arith)
        requires
            c == (oe - os) / m,
            0 <= oe - os < 86_400_000_000_000,
            m == 60_000_000_000,
    ;
    lemma_trunc_div_nonneg_sum(a, b, bs);
    lemma_div_monotone(a + b, c, bs);
    assert(0 <= a / bs <= a) by (nonlinear_arith)
        requires
            a >= 0,
            bs > 0,
    ;
    assert(0 <= b / bs <= b) by (nonlinear_arith)
        requires
            b >= 0,
            bs > 0,
    ;
    assert(0 <= c / bs <= c) by (nonlinear_arith)
        requires
            c >= 0,
            bs > 0,
    ;
}

/// A new reservation never frees a block: every block that counts as full
/// still does after one more reservation is stored.
pub proof fn lemma_full_stays_full(spans: Seq<(i32, i32)>, extra: (i32, i32), seats: i32, block: int)
    requires
        is_full(spans, seats, block),
    ensures
        is_full(spans.push(extra), seats, block),
        occupancy(spans.push(extra), block) >= occupancy(spans, block),
{
    assert(spans.push(extra).drop_last() =~= spans);
}

/// Seats are never overbooked by an accepted reservation: when no block of
/// an opening time is full, storing one more reservation leaves every block
/// of that opening time with at most as many reservations as seats.
pub proof fn lemma_accepted_reservation_fits_seats(
    spans: Seq<(i32, i32)>,
    seats: i32,
    blocks: i32,
    new_span: (i32, i32),
)
    requires
        0 <= blocks,
        full_blocks(spans, seats, blocks as int).len() == 0,
    ensures
        forall|b: int| 0 <= b < blocks ==> #[trigger] occupancy(spans.push(new_span), b) <= seats,
{
    lemma_full_blocks_exact(spans, seats, blocks);
    assert forall|b: int| 0 <= b < blocks implies #[trigger] occupancy(spans.push(new_span), b) <= seats by {
        assert(spans.push(new_span).drop_last() =~= spans);
        if is_full(spans, seats, b) {
            assert(full_blocks(spans, seats, blocks as int).contains(b as i32));
        }
    }
}

/// What an accepted request promises: when a request passes every check of
/// `check_reservation_request`, its blocks lie inside its opening time, it
/// spans at least one block, and storing it leaves no block of the opening
/// time with more reservations than seats.
pub proof fn lemma_accepted_request_is_sound(
    slot: OpeningSlot,
    max_reservation_length: Option<i32>,
    location_seats: i32,
    request_start: TimeOfDay,
    request_end: TimeOfDay,
    spans: Seq<(i32, i32)>,
    now: DateTime,
    block_size: i32,
)
    requires
        slot.wf(),
        request_start.wf(),
        request_end.wf(),
        block_size > 0,
        precheck_result(slot, max_reservation_length, request_start, request_end, now, block_size) is Ok,
        full_blocks(
            spans,
            slot_seats(slot, location_seats),
            precheck_result(slot, max_reservation_length, request_start, request_end, now, block_size)->Ok_0.num_blocks as int,
        ).len() == 0,
    ensures
        ({
            let plan = precheck_result(slot, max_reservation_length, request_start, request_end, now, block_size)->Ok_0;
            &&& 0 <= plan.base_block_index
            &&& 1 <= plan.block_count
            &&& plan.base_block_index + plan.block_count <= plan.num_blocks
            &&& forall|b: int|
                0 <= b < plan.num_blocks ==> #[trigger] occupancy(
                    spans.push((plan.base_block_index, plan.block_count)),
                    b,
                ) <= slot_seats(slot, location_seats)
        }),
{
    let plan = precheck_result(slot, max_reservation_length, request_start, request_end, now, block_size)->Ok_0;
    lemma_accepted_plan_fits(slot, max_reservation_length, request_start, request_end, now, block_size);
    lemma_accepted_reservation_fits_seats(
        spans,
        slot_seats(slot, location_seats),
        plan.num_blocks,
        (plan.base_block_index, plan.block_count),
    );
}

/// Only the owner of a reservation may delete it without holding a
/// management permission on the location.
pub fn delete_requires_permission(reservation_profile_id: i32, session_profile_id: i32) -> (r: bool)
    ensures
        r == (reservation_profile_id != session_profile_id),
{
    reservation_profile_id != session_profile_id
}

/// The seats an occupancy check uses are the opening time's own seat count
/// when it has one, whatever the location holds, and the location's only
/// when the opening time has none.
pub proof fn law_opening_time_seats_come_first(slot: OpeningSlot, location_seats: i32)
    ensures
        slot.seat_count matches Some(own) ==> slot_seats(slot, location_seats) == own,
        slot.seat_count is None ==> slot_seats(slot, location_seats) == location_seats,
{
}

/// The stored reservations `(base, count)` that hold `block`: those from
/// `base` up to and including `base + count`.
pub open spec fn holds_block(block: int) -> spec_fn((i32, i32)) -> bool {
    |x: (i32, i32)| x.0 <= block && block <= x.0 + x.1
}

/// A block is occupied by exactly the stored reservations `(base, count)`
/// with `base <= block <= base + count`.
pub proof fn law_occupancy_counts_reservations_holding_the_block(spans: Seq<(i32, i32)>, block: int)
    ensures
        occupancy(spans, block) == spans.filter(holds_block(block)).len(),
    decreases spans.len(),
{
    let holds = holds_block(block);
    if spans.len() == 0 {
        assert(spans.filter(holds) =~= Seq::<(i32, i32)>::empty()) by {
            reveal(Seq::filter);
        }
    } else {
        law_occupancy_counts_reservations_holding_the_block(spans.drop_last(), block);
        assert(spans =~= spans.drop_last().push(spans.last()));
        spans.drop_last().lemma_filter_len_push(holds, spans.last());
    }
}

/// A block among the first `blocks` is reported full exactly when the stored
/// reservations holding it (`base <= block <= base + count`) leave no seat
/// for one more.
pub proof fn law_full_block_has_no_seat_left(spans: Seq<(i32, i32)>, seats: i32, blocks: i32, block: int)
    requires
        0 <= block < blocks,
    ensures
        full_blocks(spans, seats, blocks as int).contains(block as i32) <==> spans.filter(holds_block(block)).len()
            + 1 > seats,
{
    lemma_full_blocks_exact(spans, seats, blocks);
    law_occupancy_counts_reservations_holding_the_block(spans, block);
    if full_blocks(spans, seats, blocks as int).contains(block as i32) {
        let k = choose|k: int|
            0 <= k < full_blocks(spans, seats, blocks as int).len() && full_blocks(spans, seats, blocks as int)[k]
                == block as i32;
        assert(is_full(spans, seats, full_blocks(spans, seats, blocks as int)[k] as int));
    }
    if is_full(spans, seats, block) {
        assert(full_blocks(spans, seats, blocks as int).contains((block as i32)));
    }
}

} // verus!
