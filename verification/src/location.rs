//! Records read with their related records: which related records a request
//! asks to include, how a joined row becomes a location, a reservation or a
//! record with its authors, how related data is grouped per location, and
//! the week a location search looks at.

use vstd::prelude::*;
use crate::time::{
    MIN_WEEK_DAY, MAX_WEEK_DAY, UNIX_EPOCH_DAY, days_since_monday, week_start, week_bounds, current_utc,
    lemma_week_contains_day, lemma_week_start_monotone,
};
use crate::text::push_char;

verus! {

/// Which related records to include with a location.
#[derive(Clone, Copy, Debug, Default, PartialEq, Eq, Structural)]
pub struct LocationIncludes {
    pub authority: bool,
    pub approved_by: bool,
    pub rejected_by: bool,
    pub created_by: bool,
    pub updated_by: bool,
}

/// A location with its translations and, where asked for, its related
/// records.  An outer `None` means the record was not asked for; an inner
/// `None` means it was asked for but there is none.
#[derive(Clone, Debug)]
pub struct Location<L, T, A, P> {
    pub location: L,
    pub authority: Option<Option<A>>,
    pub description: T,
    pub excerpt: T,
    pub approved_by: Option<Option<P>>,
    pub rejected_by: Option<Option<P>>,
    pub created_by: Option<Option<P>>,
    pub updated_by: Option<Option<P>>,
}

/// Keep a joined record when it was asked for.
pub open spec fn included<X>(asked: bool, joined: Option<X>) -> Option<Option<X>> {
    if asked {
        Some(joined)
    } else {
        None
    }
}

fn keep_if_asked<X>(asked: bool, joined: Option<X>) -> (r: Option<Option<X>>)
    ensures
        r == included(asked, joined),
{
    if asked {
        Some(joined)
    } else {
        None
    }
}

impl<L, T, A, P> Location<L, T, A, P> {
    /// Build a location from the columns of a joined query, keeping only the
    /// related records that were asked for.
    pub fn from_joined(
        includes: LocationIncludes,
        data: (L, T, T, Option<A>, Option<P>, Option<P>, Option<P>, Option<P>),
    ) -> (r: Self)
        ensures
            r.location == data.0,
            r.description == data.1,
            r.excerpt == data.2,
            r.authority == included(includes.authority, data.3),
            r.approved_by == included(includes.approved_by, data.4),
            r.rejected_by == included(includes.rejected_by, data.5),
            r.created_by == included(includes.created_by, data.6),
            r.updated_by == included(includes.updated_by, data.7),
    {
        let (l, d, e, y, a, rj, c, u) = data;
        Location {
            location: l,
            description: d,
            excerpt: e,
            authority: keep_if_asked(includes.authority, y),
            approved_by: keep_if_asked(includes.approved_by, a),
            rejected_by: keep_if_asked(includes.rejected_by, rj),
            created_by: keep_if_asked(includes.created_by, c),
            updated_by: keep_if_asked(includes.updated_by, u),
        }
    }
}

/// Which authors of a record (a tag, an authority, a translation or an
/// opening time) to include: who created it and who last updated it.
#[derive(Clone, Copy, Debug, Default, PartialEq, Eq, Structural)]
pub struct AuthorIncludes {
    pub created_by: bool,
    pub updated_by: bool,
}

/// A record with the authors that were asked for.  An outer `None` means the
/// author was not asked for; an inner `None` means there is none.
#[derive(Clone, Debug)]
pub struct WithAuthors<R, P> {
    pub record: R,
    pub created_by: Option<Option<P>>,
    pub updated_by: Option<Option<P>>,
}

impl<R, P> WithAuthors<R, P> {
    /// Build a record from the columns of a joined query, keeping only the
    /// authors that were asked for.
    pub fn from_joined(includes: AuthorIncludes, data: (R, Option<P>, Option<P>)) -> (r: Self)
        ensures
            r.record == data.0,
            r.created_by == included(includes.created_by, data.1),
            r.updated_by == included(includes.updated_by, data.2),
    {
        let (record, c, u) = data;
        WithAuthors {
            record,
            created_by: keep_if_asked(includes.created_by, c),
            updated_by: keep_if_asked(includes.updated_by, u),
        }
    }
}

/// Which related records to include with a reservation.
#[derive(Clone, Copy, Debug, Default, PartialEq, Eq, Structural)]
pub struct ReservationIncludes {
    pub profile: bool,
    pub confirmed_by: bool,
    pub opening_time: bool,
    pub location: bool,
}

/// A reservation with the related records that were asked for.
#[derive(Clone, Debug)]
pub struct Reservation<R, P, O, L> {
    pub reservation: R,
    pub profile: Option<P>,
    pub confirmed_by: Option<Option<P>>,
    pub opening_time: Option<Option<O>>,
    pub location: Option<Option<L>>,
}

impl ReservationIncludes {
    /// Whether the query joins the opening time: the location is reached
    /// through it, so asking for either joins it.
    pub fn joins_opening_time(&self) -> (r: bool)
        ensures
            r == (self.opening_time || self.location),
    {
        self.opening_time || self.location
    }
}

impl<R, P, O, L> Reservation<R, P, O, L> {
    /// Build a reservation from the columns of a joined query, keeping only
    /// the related records that were asked for.
    pub fn from_joined(
        includes: ReservationIncludes,
        data: (R, Option<P>, Option<P>, Option<O>, Option<L>),
    ) -> (r: Self)
        ensures
            r.reservation == data.0,
            r.profile == (if includes.profile {
                data.1
            } else {
                None
            }),
            r.confirmed_by == included(includes.confirmed_by, data.2),
            r.opening_time == included(includes.opening_time, data.3),
            r.location == included(includes.location, data.4),
    {
        let (res, p, c, o, l) = data;
        Reservation {
            reservation: res,
            profile: if includes.profile {
                p
            } else {
                None
            },
            confirmed_by: keep_if_asked(includes.confirmed_by, c),
            opening_time: keep_if_asked(includes.opening_time, o),
            location: keep_if_asked(includes.location, l),
        }
    }
}

/// The items of `items` whose owner is `id`, in the order they are given.
pub open spec fn owned_by<T>(items: Seq<(i32, T)>, id: i32) -> Seq<T>
    decreases items.len(),
{
    if items.len() == 0 {
        Seq::empty()
    } else {
        owned_by(items.drop_last(), id) + if items.last().0 == id {
            seq![items.last().1]
        } else {
            Seq::empty()
        }
    }
}

/// `r` holds clones of the items of `items` whose owner is `id`, in the
/// order they are given.
pub open spec fn clones_of_owned<T: Clone>(r: Seq<T>, items: Seq<(i32, T)>, id: i32) -> bool {
    &&& r.len() == owned_by(items, id).len()
    &&& forall|j: int| 0 <= j < r.len() ==> cloned(owned_by(items, id)[j], #[trigger] r[j])
}

/// Clones of the items owned by `id`, in the order they are given.
pub fn owned_items<T: Clone>(items: &[(i32, T)], id: i32) -> (r: Vec<T>)
    ensures
        clones_of_owned(r@, items@, id),
{
    let mut r: Vec<T> = Vec::new();
    let mut i: usize = 0;
    while i < items.len()
        invariant
            i <= items@.len(),
            clones_of_owned(r@, items@.take(i as int), id),
        decreases items@.len() - i,
    {
        proof {
            assert(items@.take(i + 1).drop_last() =~= items@.take(i as int));
        }
        if items[i].0 == id {
            let c = items[i].1.clone();
            let ghost before = r@;
            r.push(c);
            proof {
                let prev = owned_by(items@.take(i as int), id);
                assert(owned_by(items@.take(i + 1), id) == prev.push(items@[i as int].1));
                assert forall|j: int| 0 <= j < r@.len() implies cloned(
                    owned_by(items@.take(i + 1), id)[j],
                    #[trigger] r@[j],
                ) by {
                    if j < before.len() {
                        assert(r@[j] == before[j]);
                    }
                }
            }
        }
        i = i + 1;
    }
    assert(items@.take(items@.len() as int) =~= items@);
    r
}

/// Put each location, in order, together with its opening times, tags and
/// images: clones of the related items whose owner id is the location's id,
/// in the order they are given.
pub fn group<L, O: Clone, G: Clone, I: Clone>(
    locs: Vec<(i32, L)>,
    times: &[(i32, O)],
    tags: &[(i32, G)],
    imgs: &[(i32, I)],
) -> (r: Vec<(L, (Vec<O>, Vec<G>, Vec<I>))>)
    ensures
        r@.len() == locs@.len(),
        forall|k: int|
            0 <= k < locs@.len() ==> {
                let (l, (t, g, i)) = #[trigger] r@[k];
                &&& l == locs@[k].1
                &&& clones_of_owned(t@, times@, locs@[k].0)
                &&& clones_of_owned(g@, tags@, locs@[k].0)
                &&& clones_of_owned(i@, imgs@, locs@[k].0)
            },
{
    let ghost all = locs@;
    let n = locs.len();
    let mut front = locs;
    let mut rev: Vec<(i32, L)> = Vec::new();
    while front.len() > 0
        invariant
            front@.len() + rev@.len() == n,
            n == all.len(),
            front@ == all.take(front@.len() as int),
            forall|j: int| 0 <= j < rev@.len() ==> #[trigger] rev@[j] == all[n - 1 - j],
        decreases front@.len(),
    {
        let x = front.pop().unwrap();
        rev.push(x);
        assert(front@ =~= all.take(front@.len() as int));
    }
    let mut out: Vec<(L, (Vec<O>, Vec<G>, Vec<I>))> = Vec::new();
    while rev.len() > 0
        invariant
            out@.len() + rev@.len() == n,
            n == all.len(),
            forall|j: int| 0 <= j < rev@.len() ==> #[trigger] rev@[j] == all[n - 1 - j],
            forall|k: int|
                0 <= k < out@.len() ==> {
                    let (l, (t, g, i)) = #[trigger] out@[k];
                    &&& l == all[k].1
                    &&& clones_of_owned(t@, times@, all[k].0)
                    &&& clones_of_owned(g@, tags@, all[k].0)
                    &&& clones_of_owned(i@, imgs@, all[k].0)
                },
        decreases rev@.len(),
    {
        let (id, l) = rev.pop().unwrap();
        let t = owned_items(times, id);
        let g = owned_items(tags, id);
        let i = owned_items(imgs, id);
        out.push((l, (t, g, i)));
    }
    out
}

/// The week holding `day`, as its first and last day, when `chrono` can
/// represent that week.
pub open spec fn week_holding(day: i32) -> Option<(i32, i32)> {
    if MIN_WEEK_DAY <= day <= MAX_WEEK_DAY {
        Some((week_start(day as int) as i32, (week_start(day as int) + 6) as i32))
    } else {
        None
    }
}

/// The first and last day of the week holding `day`, from Monday to Sunday.
/// Gives `None` when that week would reach outside the dates `chrono` can
/// represent.
pub fn week_of(day: i32) -> (r: Option<(i32, i32)>)
    ensures
        r == week_holding(day),
        r is Some <==> MIN_WEEK_DAY <= day <= MAX_WEEK_DAY,
        r matches Some((first, last)) ==> first == week_start(day as int) && last == first + 6 && first <= day <= last
            && days_since_monday(first as int) == 0,
{
    if day < MIN_WEEK_DAY || day > MAX_WEEK_DAY {
        return None;
    }
    let bounds = week_bounds(day);
    proof {
        lemma_week_contains_day(day as int);
    }
    Some(bounds)
}

/// The first and last day of the week to search in: the week of the asked
/// day, or else of today.  Gives `None` when that week would reach outside the
/// dates `chrono` can represent.  Today is read from the clock and is not
/// known, but its week starts no earlier than the week of the Unix epoch.
pub fn search_week(open_on_day: Option<i32>) -> (r: Option<(i32, i32)>)
    ensures
        open_on_day matches Some(d) ==> r == week_holding(d),
        open_on_day matches Some(d) ==> (r is Some <==> MIN_WEEK_DAY <= d <= MAX_WEEK_DAY),
        open_on_day matches Some(d) ==> (r matches Some((first, last)) ==> first == week_start(d as int)
            && last == first + 6 && first <= d <= last),
        open_on_day is None ==> (r matches Some((first, _)) ==> week_start(UNIX_EPOCH_DAY as int) <= first),
        r matches Some((first, last)) ==> last == first + 6 && days_since_monday(first as int) == 0,
{
    match open_on_day {
        Some(d) => week_of(d),
        None => {
            let today = current_utc().days;
            let r = week_of(today);
            proof {
                lemma_week_start_monotone(UNIX_EPOCH_DAY as int, today as int);
            }
            r
        },
    }
}

/// A character as lower case, when it is an ASCII upper-case letter.
pub open spec fn ascii_lower(c: char) -> char {
    if 'A' <= c <= 'Z' {
        ((c as u32) + 32) as char
    } else {
        c
    }
}

/// The language of a search query, in ASCII lower case: it names the
/// translation column the query is matched against.
pub fn language_column(language: &str) -> (r: String)
    ensures
        r@ == language@.map_values(|c: char| ascii_lower(c)),
{
    let mut r = String::new();
    let ghost all = language@;
    let mut i: usize = 0;
    let n = language.unicode_len();
    while i < n
        invariant
            n == all.len(),
            all == language@,
            i <= n,
            r@ == all.take(i as int).map_values(|c: char| ascii_lower(c)),
        decreases n - i,
    {
        let c = language.get_char(i);
        let lower = if 'A' <= c && c <= 'Z' {
            char_from_ascii_upper(c)
        } else {
            c
        };
        push_char(&mut r, lower);
        assert(all.take(i + 1).map_values(|c: char| ascii_lower(c)) =~= all.take(i as int).map_values(|c: char| ascii_lower(c)).push(ascii_lower(c)));
        i = i + 1;
    }
    assert(all.take(n as int) =~= all);
    r
}

fn char_from_ascii_upper(c: char) -> (r: char)
    requires
        'A' <= c <= 'Z',
    ensures
        r == ascii_lower(c),
{
    ((c as u8) + 32) as char
}

} // verus!
