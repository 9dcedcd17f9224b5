//! Distinct random values: fake values with random suffixes, kept only when
//! not seen before.

use vstd::prelude::*;
use vstd::string::StringExecFns;
use crate::seeder::random::{is_alphanumeric, random_alphanumeric};
use crate::text::push_char;

verus! {

/// A random string of `len` ASCII letters and digits.
pub fn random_suffix(len: usize) -> (r: String)
    ensures
        r@.len() == len,
        forall|i: int| 0 <= i < len ==> is_alphanumeric(#[trigger] r@[i]),
{
    let mut s = String::new();
    let mut i: usize = 0;
    while i < len
        invariant
            i <= len,
            s@.len() == i,
            forall|k: int| 0 <= k < i ==> is_alphanumeric(#[trigger] s@[k]),
        decreases len - i,
    {
        let c = random_alphanumeric();
        push_char(&mut s, c);
        i = i + 1;
    }
    s
}

/// A candidate value: the base, an underscore and the suffix.
pub fn candidate(base: String, suffix: &str) -> (r: String)
    ensures
        r@ == base@ + "_"@ + suffix@,
{
    let mut v = base;
    v.append("_");
    v.append(suffix);
    v
}

/// No value occurs twice.
pub open spec fn all_distinct(s: Seq<Seq<char>>) -> bool {
    forall|i: int, j: int| 0 <= i < j < s.len() ==> s[i] != s[j]
}

/// A set of distinct values being filled up to a wanted count.
#[derive(Debug)]
pub struct UniqueValues {
    values: Vec<String>,
    count: usize,
}

impl View for UniqueValues {
    type V = Seq<Seq<char>>;

    closed spec fn view(&self) -> Seq<Seq<char>> {
        self.values@.map_values(|v: String| v@)
    }
}

impl UniqueValues {
    /// The number of values wanted.
    pub closed spec fn wanted(self) -> nat {
        self.count as nat
    }

    /// Values are distinct and never more than wanted.
    #[verifier::type_invariant]
    spec fn distinct_and_bounded(self) -> bool {
        &&& all_distinct(self@)
        &&& self@.len() <= self.count
    }

    /// Start collecting `count` distinct values.
    pub fn new(count: usize) -> (r: UniqueValues)
        ensures
            r@ == Seq::<Seq<char>>::empty(),
            r.wanted() == count,
    {
        let r = UniqueValues { values: Vec::new(), count };
        assert(r@ =~= Seq::<Seq<char>>::empty());
        r
    }

    /// Whether enough values were collected.
    pub fn is_complete(&self) -> (r: bool)
        ensures
            r == (self@.len() == self.wanted()),
            all_distinct(self@),
            self@.len() <= self.wanted(),
    {
        proof {
            use_type_invariant(self);
        }
        self.values.len() >= self.count
    }

    /// Offer a value: it is kept when more values are wanted and it is not
    /// there yet.  Tells whether it was kept.
    pub fn offer(&mut self, value: String) -> (r: bool)
        ensures
            all_distinct(final(self)@),
            final(self)@.len() <= final(self).wanted(),
            final(self).wanted() == old(self).wanted(),
            r == (old(self)@.len() < old(self).wanted() && !old(self)@.contains(value@)),
            r ==> final(self)@ == old(self)@.push(value@),
            !r ==> final(self)@ == old(self)@,
    {
        proof {
            use_type_invariant(&*self);
        }
        if self.values.len() >= self.count {
            return false;
        }
        let mut i: usize = 0;
        while i < self.values.len()
            invariant
                *self == *old(self),
                all_distinct(self@),
                self@.len() < self.count,
                i <= self.values@.len(),
                forall|k: int| 0 <= k < i ==> self.values@[k]@ != value@,
            decreases self.values@.len() - i,
        {
            if self.values[i] == value {
                assert(self@[i as int] == value@);
                return false;
            }
            i = i + 1;
        }
        assert(!self@.contains(value@)) by {
            if self@.contains(value@) {
                let k = choose|k: int| 0 <= k < self@.len() && self@[k] == value@;
                assert(self.values@[k]@ == value@);
            }
        }
        let ghost before = self@;
        let mut values: Vec<String> = Vec::new();
        std::mem::swap(&mut self.values, &mut values);
        values.push(value);
        proof {
            assert(values@.map_values(|v: String| v@) =~= before.push(value@));
            assert(all_distinct(before.push(value@)));
        }
        std::mem::swap(&mut self.values, &mut values);
        assert(self@ =~= before.push(value@));
        true
    }

    /// The collected values, in the order they were kept.
    pub fn into_values(self) -> (r: Vec<String>)
        ensures
            r@.map_values(|v: String| v@) == self@,
            all_distinct(self@),
            self@.len() <= self.wanted(),
    {
        proof {
            use_type_invariant(&self);
        }
        self.values
    }
}

/// `v` was made from a result of `f`: that result, an underscore and
/// `suffix_len` ASCII letters or digits.
pub open spec fn made_from<F: Fn() -> String>(f: F, v: Seq<char>, suffix_len: int) -> bool {
    &&& v.len() >= suffix_len + 1
    &&& v[v.len() - suffix_len - 1] == '_'
    &&& forall|i: int| v.len() - suffix_len <= i < v.len() ==> is_alphanumeric(#[trigger] v[i])
    &&& exists|b: String| #[trigger] f.ensures((), b) && b@ == v.subrange(0, v.len() - suffix_len - 1)
}

/// Collect up to `count` distinct values of the form `{f()}_{suffix}`,
/// trying at most `2 * count` random suffixes of 8 letters and digits and
/// stopping once `count` values are kept.  The values are distinct and each
/// was made from a result of `f`; the first value tried is always kept, so
/// when any value is wanted at least one comes out.  How many of the later
/// tries repeat an earlier value is left to chance.
pub fn collect_unique_values<F: Fn() -> String>(count: usize, f: &F) -> (r: UniqueValues)
    requires
        count <= usize::MAX / 2,
        forall|| #[trigger] f.requires(()),
    ensures
        all_distinct(r@),
        r@.len() <= count,
        r.wanted() == count,
        count > 0 ==> r@.len() >= 1,
        forall|k: int| 0 <= k < r@.len() ==> made_from(*f, #[trigger] r@[k], 8),
{
    let mut set = UniqueValues::new(count);
    let mut suffix_idx: usize = 0;
    let tries = count * 2;
    while !set.is_complete() && suffix_idx < tries
        invariant
            set.wanted() == count,
            suffix_idx <= tries,
            forall|| #[trigger] f.requires(()),
            forall|k: int| 0 <= k < set@.len() ==> made_from(*f, #[trigger] set@[k], 8),
            tries == count * 2,
            suffix_idx == 0 ==> set@.len() == 0,
            suffix_idx > 0 && count > 0 ==> set@.len() >= 1,
        decreases tries - suffix_idx,
    {
        let base = f();
        let suffix = random_suffix(8);
        let ghost b = base;
        let value = candidate(base, suffix.as_str());
        proof {
            reveal_strlit("_");
            let v = value@;
            assert(v.len() == b@.len() + 9);
            assert(v.subrange(0, v.len() - 9) =~= b@);
            assert(v[v.len() - 9] == '_');
            assert forall|i: int| v.len() - 8 <= i < v.len() implies is_alphanumeric(#[trigger] v[i]) by {
                assert(v[i] == suffix@[i - (v.len() - 8)]);
            }
            assert(made_from(*f, v, 8));
        }
        let ghost before = set@;
        set.offer(value);
        proof {
            assert forall|k: int| 0 <= k < set@.len() implies made_from(*f, #[trigger] set@[k], 8) by {
                if k < before.len() {
                    assert(set@[k] == before[k]);
                }
            }
        }
        suffix_idx = suffix_idx + 1;
    }
    proof {
        use_type_invariant(&set);
    }
    set
}

} // verus!
