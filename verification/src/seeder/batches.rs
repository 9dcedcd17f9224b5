//! Bulk inserts in batches: how large a batch is, how the items split into
//! batches, and the progress of an insert.

use vstd::prelude::*;
use vstd::string::StringExecFns;
use crate::text::{decimal, push_decimal};

verus! {

/// PostgreSQL accepts at most 65,535 parameters per query; batches stay
/// below this many.
pub const MAX_PARAMS: usize = 65_000;

/// A batch holds at least this many items.
pub const MIN_BATCH_SIZE: usize = 100;

/// The batch size for items of `params_per_item` parameters: as many as fit
/// under the parameter limit, but at least 100.
pub open spec fn spec_batch_size(params_per_item: usize) -> usize {
    let optimal = MAX_PARAMS / params_per_item;
    if optimal >= MIN_BATCH_SIZE {
        optimal
    } else {
        MIN_BATCH_SIZE
    }
}

/// The batch size for items of `params_per_item` parameters.
pub fn calculate_optimal_batch_size(params_per_item: usize) -> (r: usize)
    requires
        params_per_item > 0,
    ensures
        r == spec_batch_size(params_per_item),
        r >= MIN_BATCH_SIZE,
{
    let optimal_size = MAX_PARAMS / params_per_item;
    if optimal_size >= MIN_BATCH_SIZE {
        optimal_size
    } else {
        MIN_BATCH_SIZE
    }
}

/// A batch stays under the parameter limit whenever a batch of the minimum
/// size does: for items of at most 650 parameters a batch holds at most
/// 65,000 parameters; for larger items the batch has the minimum size.
pub proof fn lemma_batch_fits_parameter_limit(params_per_item: usize)
    requires
        params_per_item > 0,
    ensures
        params_per_item <= MAX_PARAMS / MIN_BATCH_SIZE ==> spec_batch_size(params_per_item) * params_per_item
            <= MAX_PARAMS,
        params_per_item > MAX_PARAMS / MIN_BATCH_SIZE ==> spec_batch_size(params_per_item) == MIN_BATCH_SIZE,
{
    let p = params_per_item as int;
    let q: int = 65_000int / p;
    assert(q * p <= 65_000) by (nonlinear_arith)
        requires
            p > 0,
            q == 65_000int / p,
    ;
    if p > 650 {
        assert(q < 100) by (nonlinear_arith)
            requires
                p > 650,
                q == 65_000int / p,
        ;
    } else {
        assert(q >= 100) by (nonlinear_arith)
            requires
                0 < p <= 650,
                q == 65_000int / p,
        ;
    }
}

/// The sizes of the batches `total` items are inserted in: full batches of
/// `size`, then the rest.
pub open spec fn batch_sizes(total: nat, size: nat) -> Seq<usize>
    decreases total,
{
    if total == 0 || size == 0 {
        Seq::empty()
    } else if total <= size {
        seq![total as usize]
    } else {
        seq![size as usize] + batch_sizes((total - size) as nat, size)
    }
}

/// The sum of a sequence of sizes.
pub open spec fn sum_sizes(s: Seq<usize>) -> nat
    decreases s.len(),
{
    if s.len() == 0 {
        0
    } else {
        (s[0] as nat) + sum_sizes(s.drop_first())
    }
}

/// Why a bulk insert stopped.
#[derive(Clone, Copy, Debug, PartialEq, Eq, Structural)]
pub struct BatchError {
    pub batch: usize,
    pub inserted: usize,
    pub expected: usize,
}

impl BatchError {
    /// `Batch {batch}: inserted {inserted} items but expected {expected}`.
    pub fn message(&self) -> (r: String)
        ensures
            r@ == "Batch "@ + decimal(self.batch as nat) + ": inserted "@ + decimal(self.inserted as nat)
                + " items but expected "@ + decimal(self.expected as nat),
    {
        let mut s = String::from_str("Batch ");
        push_decimal(&mut s, self.batch as u64);
        s.append(": inserted ");
        push_decimal(&mut s, self.inserted as u64);
        s.append(" items but expected ");
        push_decimal(&mut s, self.expected as u64);
        s
    }
}

/// The progress of a bulk insert: the items still to insert, the batch size,
/// how many were inserted and how many batches ran.
#[derive(Clone, Copy, Debug, PartialEq, Eq, Structural)]
pub struct BatchInsert {
    pub remaining: usize,
    pub batch_size: usize,
    pub total_inserted: usize,
    pub batch_count: usize,
}

impl BatchInsert {
    /// The items inserted and still to insert add up to the items given.
    pub open spec fn accounts_for(self, total: nat) -> bool {
        self.total_inserted + self.remaining == total
    }

    /// Start inserting `total` items of `params_per_item` parameters each.
    pub fn start(total: usize, params_per_item: usize) -> (r: BatchInsert)
        requires
            params_per_item > 0,
        ensures
            r.remaining == total,
            r.batch_size == spec_batch_size(params_per_item),
            r.total_inserted == 0,
            r.batch_count == 0,
            r.accounts_for(total as nat),
    {
        BatchInsert {
            remaining: total,
            batch_size: calculate_optimal_batch_size(params_per_item),
            total_inserted: 0,
            batch_count: 0,
        }
    }

    /// Whether every item was inserted.
    pub fn is_done(&self) -> (r: bool)
        ensures
            r == (self.remaining == 0),
    {
        self.remaining == 0
    }

    /// The size of the next batch: a full batch, or the items left.
    pub fn next_batch_size(&self) -> (r: usize)
        ensures
            r == if self.batch_size < self.remaining {
                self.batch_size
            } else {
                self.remaining
            },
    {
        if self.batch_size < self.remaining {
            self.batch_size
        } else {
            self.remaining
        }
    }

    /// Record that the next batch was inserted and the database reported
    /// `inserted` rows.  Fewer or more rows than the batch held stop the
    /// insert with an error naming the batch.
    pub fn record(&mut self, inserted: usize) -> (r: Result<(), BatchError>)
        requires
            old(self).remaining > 0,
            old(self).batch_count < usize::MAX,
            old(self).total_inserted + old(self).remaining <= usize::MAX,
        ensures
            ({
                let chunk = if old(self).batch_size < old(self).remaining {
                    old(self).batch_size
                } else {
                    old(self).remaining
                };
                &&& inserted == chunk ==> r is Ok && *final(self) == BatchInsert {
                    remaining: (old(self).remaining - chunk) as usize,
                    batch_size: old(self).batch_size,
                    total_inserted: (old(self).total_inserted + chunk) as usize,
                    batch_count: (old(self).batch_count + 1) as usize,
                }
                &&& inserted == chunk ==> final(self).total_inserted + final(self).remaining
                    == old(self).total_inserted + old(self).remaining
                &&& inserted != chunk ==> r == Err::<(), BatchError>(BatchError {
                    batch: (old(self).batch_count + 1) as usize,
                    inserted,
                    expected: chunk,
                })
            }),
    {
        let chunk = self.next_batch_size();
        self.batch_count = self.batch_count + 1;
        if inserted != chunk {
            return Err(BatchError { batch: self.batch_count, inserted, expected: chunk });
        }
        self.total_inserted = self.total_inserted + chunk;
        self.remaining = self.remaining - chunk;
        Ok(())
    }
}

/// The sizes of the batches to insert `total` items in, for items of
/// `params_per_item` parameters.
pub fn plan_batches(total: usize, params_per_item: usize) -> (r: Vec<usize>)
    requires
        params_per_item > 0,
    ensures
        r@ == batch_sizes(total as nat, spec_batch_size(params_per_item) as nat),
{
    let size = calculate_optimal_batch_size(params_per_item);
    let mut r: Vec<usize> = Vec::new();
    let mut remaining = total;
    while remaining > 0
        invariant
            size >= MIN_BATCH_SIZE,
            size == spec_batch_size(params_per_item),
            r@ + batch_sizes(remaining as nat, size as nat) == batch_sizes(total as nat, size as nat),
        decreases remaining,
    {
        let chunk = if size < remaining {
            size
        } else {
            remaining
        };
        proof {
            let rest = batch_sizes((remaining - chunk) as nat, size as nat);
            assert(batch_sizes(remaining as nat, size as nat) =~= seq![chunk] + rest);
            assert(r@.push(chunk) + rest =~= r@ + (seq![chunk] + rest));
        }
        r.push(chunk);
        remaining = remaining - chunk;
    }
    assert(r@ + batch_sizes(0, size as nat) =~= r@);
    r
}

/// Batches cover every item exactly once: their sizes add up to the number
/// of items, none is empty and none is larger than the batch size.
pub proof fn lemma_batches_cover(total: nat, size: nat)
    requires
        0 < size <= usize::MAX,
        total <= usize::MAX,
    ensures
        sum_sizes(batch_sizes(total, size)) == total,
        forall|k: int|
            0 <= k < batch_sizes(total, size).len() ==> 0 < #[trigger] batch_sizes(total, size)[k]
                <= size,
    decreases total,
{
    if total > size {
        lemma_batches_cover((total - size) as nat, size);
        let s = batch_sizes(total, size);
        assert(s.drop_first() =~= batch_sizes((total - size) as nat, size));
        assert(s[0] == size);
        assert(sum_sizes(s) == s[0] as nat + sum_sizes(s.drop_first()));
        assert forall|k: int| 0 <= k < s.len() implies 0 < #[trigger] s[k] <= size by {
            if k > 0 {
                assert(s[k] == batch_sizes((total - size) as nat, size)[k - 1]);
            }
        }
    } else if total > 0 {
        let s = batch_sizes(total, size);
        assert(s.drop_first() =~= Seq::<usize>::empty());
        assert(s[0] == total);
        assert(sum_sizes(s) == s[0] as nat + sum_sizes(s.drop_first()));
    }
}

/// A bulk insert runs the planned batches: the next batch of an insert with
/// `remaining` items left is the first planned batch for them, and the
/// batches planned after it are those planned for the items left then.
pub proof fn lemma_insert_follows_plan(remaining: nat, size: nat)
    requires
        remaining > 0,
        0 < size <= usize::MAX,
        remaining <= usize::MAX,
    ensures
        ({
            let chunk = if size < remaining { size } else { remaining };
            batch_sizes(remaining, size) =~= seq![chunk as usize] + batch_sizes((remaining - chunk) as nat, size)
        }),
{
    if remaining <= size {
        assert(batch_sizes(0, size) =~= Seq::<usize>::empty());
    }
}

} // verus!
