//! Pages of results: the options a client sends, the SQL limit and offset
//! they give, and slicing an already loaded list of results into a page.

use vstd::prelude::*;
use vstd::string::StringExecFns;
use crate::text::{decimal, push_decimal};

verus! {

/// Loaded queries never hold more rows than this.
pub const QUERY_HARD_LIMIT: usize = 1000;

/// The page that is asked for when none is given.
pub const DEFAULT_PAGE: u32 = 1;

/// The page size that is asked for when none is given.
pub const DEFAULT_PER_PAGE: u32 = 12;

/// The largest page size a client may ask for.
pub const MAX_PER_PAGE: u32 = 75;

/// One page of results, with the options it was made with and the total
/// number of results.
#[derive(Clone, Debug)]
pub struct Paginated<T> {
    pub page: u32,
    pub per_page: u32,
    pub total: i64,
    pub data: T,
}

/// Which page of results a client asks for, and how many results a page
/// holds.  Pages are counted from 1.
#[derive(Clone, Copy, Debug, PartialEq, Eq, Structural)]
pub struct PaginationOptions {
    pub page: u32,
    pub per_page: u32,
}

/// A page option that is out of its allowed range.
#[derive(Clone, Copy, Debug, PartialEq, Eq, Structural)]
pub struct BoundsError {
    pub value: u32,
    pub start: u32,
    pub end: u32,
}

/// Why a page of loaded results cannot be given.
#[derive(Clone, Copy, Debug, PartialEq, Eq, Structural)]
pub enum PaginationError {
    /// The page starts at or beyond the last result.
    OffsetTooLarge,
}

/// The page asked for when none is given.
pub fn page_default() -> (r: u32)
    ensures
        r == 1,
{
    DEFAULT_PAGE
}

/// The page size asked for when none is given.
pub fn per_page_default() -> (r: u32)
    ensures
        r == 12,
{
    DEFAULT_PER_PAGE
}

impl Default for PaginationOptions {
    fn default() -> (r: Self)
        ensures
            r.page == 1,
            r.per_page == 12,
    {
        PaginationOptions { page: page_default(), per_page: per_page_default() }
    }
}

/// The outcome of checking that `v` lies in `start..=end`.
pub open spec fn bounded_result(v: u32, start: u32, end: u32) -> Result<u32, BoundsError> {
    if start <= v && v <= end {
        Ok(v)
    } else {
        Err(BoundsError { value: v, start, end })
    }
}

/// Accept `v` when it lies in `start..=end`.
pub fn check_bounded(v: u32, start: u32, end: u32) -> (r: Result<u32, BoundsError>)
    ensures
        r == bounded_result(v, start, end),
{
    if start <= v && v <= end {
        Ok(v)
    } else {
        Err(BoundsError { value: v, start, end })
    }
}

/// Accept a page number: any number from 1 up.
pub fn check_page(v: u32) -> (r: Result<u32, BoundsError>)
    ensures
        r == bounded_result(v, 1, u32::MAX),
{
    check_bounded(v, 1, u32::MAX)
}

/// Accept a page size: from 1 to 75.
pub fn check_per_page(v: u32) -> (r: Result<u32, BoundsError>)
    ensures
        r == bounded_result(v, 1, 75),
{
    check_bounded(v, 1, MAX_PER_PAGE)
}

impl BoundsError {
    /// The message of this error:
    /// `invalid value: {value}, expected a number between {start} and {end}`.
    pub fn message(&self) -> (r: String)
        ensures
            r@ == "invalid value: "@ + decimal(self.value as nat) + ", expected a number between "@
                + decimal(self.start as nat) + " and "@ + decimal(self.end as nat),
    {
        let mut s = String::from_str("invalid value: ");
        push_decimal(&mut s, self.value as u64);
        s.append(", expected a number between ");
        push_decimal(&mut s, self.start as u64);
        s.append(" and ");
        push_decimal(&mut s, self.end as u64);
        s
    }

    /// What a value out of range was expected to be:
    /// `a number between {start} and {end}`.
    pub fn expecting(&self) -> (r: String)
        ensures
            r@ == "a number between "@ + decimal(self.start as nat) + " and "@ + decimal(
                self.end as nat,
            ),
    {
        let mut s = String::from_str("a number between ");
        push_decimal(&mut s, self.start as u64);
        s.append(" and ");
        push_decimal(&mut s, self.end as u64);
        s
    }
}

/// The SQL offset of a page: the number of results on the pages before it.
pub open spec fn spec_offset(o: PaginationOptions) -> int {
    (o.page - 1) * o.per_page
}

impl PaginationOptions {
    /// Options that the offset can be computed for: pages count from 1, and
    /// the results before the page fit in a `u32`.
    pub open spec fn wf(self) -> bool {
        self.page >= 1 && spec_offset(self) <= u32::MAX
    }

    /// Wrap `data` with these options and the total number of results.
    pub fn paginate<T>(&self, total: i64, data: T) -> (r: Paginated<T>)
        ensures
            r.page == self.page,
            r.per_page == self.per_page,
            r.total == total,
            r.data == data,
    {
        Paginated { page: self.page, per_page: self.per_page, total, data }
    }

    /// The SQL `LIMIT` of these options: the page size.
    pub fn limit(&self) -> (r: i64)
        ensures
            r == self.per_page,
    {
        self.per_page as i64
    }

    /// The SQL `OFFSET` of these options: the results on the earlier pages.
    pub fn offset(&self) -> (r: i64)
        requires
            self.wf(),
        ensures
            r == spec_offset(*self),
    {
        proof {
            assert((self.page - 1) * self.per_page <= u32::MAX);
        }
        ((self.page - 1) * self.per_page) as i64
    }
}

/// Consecutive pages tile the results: the next page starts where this one
/// ends, so no result is skipped or shown twice.
pub proof fn lemma_pages_tile(o: PaginationOptions)
    requires
        1 <= o.page < u32::MAX,
    ensures
        spec_offset(PaginationOptions { page: (o.page + 1) as u32, ..o }) == spec_offset(o)
            + o.per_page,
        spec_offset(o) >= 0,
{
    let next = PaginationOptions { page: (o.page + 1) as u32, ..o };
    assert(next.page - 1 == o.page);
    let p = o.page as int;
    let n = o.per_page as int;
    assert(p * n == (p - 1) * n + n) by (nonlinear_arith);
    assert((o.page - 1) * o.per_page >= 0) by (nonlinear_arith)
        requires
            o.page >= 1,
    ;
}

/// How many results a page at `offset` of `limit` holds out of `total`.
pub open spec fn page_len(total: int, limit: int, offset: int) -> int {
    if limit > total - offset {
        total - offset
    } else {
        limit
    }
}

/// The page of `items` that starts at `offset` and holds at most `limit`
/// results.
pub open spec fn spec_page<T>(items: Seq<T>, limit: int, offset: int) -> Seq<T> {
    items.subrange(offset, offset + page_len(items.len() as int, limit, offset))
}

/// Take one page out of a loaded list of results.  An empty list gives an
/// empty page; otherwise the page must start before the last result.  The
/// result holds the total number of results, whether the list was cut off at
/// the query limit, and the page.
pub fn manual_pagination<T>(items: Vec<T>, limit: usize, offset: usize) -> (r: Result<
    (usize, bool, Vec<T>),
    PaginationError,
>)
    ensures
        items@.len() == 0 ==> (r matches Ok((total, truncated, page)) && total == 0 && !truncated
            && page@ == items@),
        items@.len() > 0 && offset >= items@.len() ==> r == Err::<(usize, bool, Vec<T>), PaginationError>(
            PaginationError::OffsetTooLarge,
        ),
        items@.len() > 0 && offset < items@.len() ==> (r matches Ok((total, truncated, page))
            && total == items@.len() && truncated == (total == QUERY_HARD_LIMIT) && page@
            == spec_page(items@, limit as int, offset as int)),
{
    let total = items.len();
    if total == 0 {
        return Ok((total, false, items));
    }
    if offset >= total {
        return Err(PaginationError::OffsetTooLarge);
    }
    let truncated = total == QUERY_HARD_LIMIT;
    let remaining = total - offset;
    let limit = if limit > remaining {
        remaining
    } else {
        limit
    };
    let ghost all = items@;
    let mut items = items;
    let mut page = items.split_off(offset);
    page.truncate(limit);
    assert(page@ =~= spec_page(all, limit as int, offset as int));
    Ok((total, truncated, page))
}

/// How many results the location search puts on a page at `offset` of
/// `limit` out of `total`: when fewer results remain than asked for, the
/// search takes the remaining count minus the offset.
pub open spec fn search_page_len(total: int, limit: int, offset: int) -> int {
    if limit > total - offset {
        total - offset - offset
    } else {
        limit
    }
}

/// Take one page out of the loaded results of a location search.  The page
/// must start before the last result.  When fewer results remain than the
/// page size, the page holds the remaining count minus the offset (inputs on
/// which that would be negative are left out).
pub fn paginate_search_results<T>(items: Vec<T>, limit: usize, offset: usize) -> (r: Result<
    (usize, Vec<T>),
    PaginationError,
>)
    requires
        offset < items@.len() && limit > items@.len() - offset ==> items@.len() - offset >= offset,
    ensures
        offset >= items@.len() ==> r == Err::<(usize, Vec<T>), PaginationError>(
            PaginationError::OffsetTooLarge,
        ),
        offset < items@.len() ==> (r matches Ok((total, page)) && total == items@.len() && page@
            == items@.subrange(
            offset as int,
            offset + search_page_len(items@.len() as int, limit as int, offset as int),
        )),
{
    let total = items.len();
    if offset >= total {
        return Err(PaginationError::OffsetTooLarge);
    }
    let remaining = total - offset;
    let limit = if limit > remaining {
        remaining - offset
    } else {
        limit
    };
    let ghost all = items@;
    let mut items = items;
    let mut page = items.split_off(offset);
    page.truncate(limit);
    assert(page@ =~= all.subrange(offset as int, offset + limit));
    Ok((total, page))
}

/// Pages taken at consecutive offsets are adjacent: the page at `offset`
/// followed by the page right after it is the run of results from `offset`
/// holding up to twice the page size.
pub proof fn lemma_consecutive_pages<T>(items: Seq<T>, limit: nat, offset: nat)
    requires
        offset + limit < items.len(),
    ensures
        spec_page(items, limit as int, offset as int) + spec_page(
            items,
            limit as int,
            (offset + limit) as int,
        ) =~= items.subrange(
            offset as int,
            offset + page_len(items.len() as int, (2 * limit) as int, offset as int),
        ),
{
}

} // verus!
