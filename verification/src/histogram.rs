//! A bucket histogram of counts and per-bucket value sums, mergeable across
//! workers.

use vstd::pervasive::VecAdditionalExecFns;
use vstd::prelude::*;

verus! {

/// Addition on bucket contents that stops at the largest representable
/// count instead of overflowing.
pub open spec fn sat_add_usize(a: usize, b: usize) -> usize {
    if a + b > usize::MAX {
        usize::MAX
    } else {
        (a + b) as usize
    }
}

/// A histogram: how many samples fell in each bucket, and the sum of the
/// samples' secondary values per bucket. Buckets exist from zero up to the
/// highest one ever touched; callers choose the bucketing.
#[derive(Debug)]
pub struct Histogram {
    data: Vec<usize>,
    data_sums: Vec<usize>,
}

impl Histogram {
    /// Both vectors always describe the same buckets.
    pub closed spec fn well_formed(self) -> bool {
        self.data@.len() == self.data_sums@.len()
    }

    /// How many samples each bucket holds.
    pub closed spec fn counts(self) -> Seq<usize> {
        self.data@
    }

    /// The per-bucket sums of the samples' secondary values.
    pub closed spec fn sums(self) -> Seq<usize> {
        self.data_sums@
    }

    /// A bucket's sample count, zero where the bucket does not exist yet.
    pub open spec fn count_of(self, index: int) -> usize {
        if 0 <= index < self.counts().len() {
            self.counts()[index]
        } else {
            0
        }
    }

    /// A bucket's value sum, zero where the bucket does not exist yet.
    pub open spec fn sum_of(self, index: int) -> usize {
        if 0 <= index < self.sums().len() {
            self.sums()[index]
        } else {
            0
        }
    }

    /// A histogram with no buckets.
    pub fn new() -> (r: Histogram)
        ensures
            r.well_formed(),
            r.counts().len() == 0,
    {
        Histogram { data: Vec::new(), data_sums: Vec::new() }
    }

    /// How many buckets exist.
    pub fn len(&self) -> (r: usize)
        requires
            self.well_formed(),
        ensures
            r == self.counts().len(),
    {
        self.data.len()
    }

    /// A bucket's sample count.
    pub fn count_at(&self, index: usize) -> (r: usize)
        requires
            self.well_formed(),
        ensures
            r == self.count_of(index as int),
    {
        if index < self.data.len() {
            self.data[index]
        } else {
            0
        }
    }

    /// A bucket's value sum.
    pub fn sum_at(&self, index: usize) -> (r: usize)
        requires
            self.well_formed(),
        ensures
            r == self.sum_of(index as int),
    {
        if index < self.data_sums.len() {
            self.data_sums[index]
        } else {
            0
        }
    }

    /// Makes at least `length` buckets exist; new buckets start empty and
    /// existing buckets are untouched.
    pub fn grow(&mut self, length: usize)
        requires
            old(self).well_formed(),
        ensures
            final(self).well_formed(),
            final(self).counts().len() == if length > old(self).counts().len() {
                length as nat
            } else {
                old(self).counts().len()
            },
            forall|j: int| final(self).count_of(j) == old(self).count_of(j),
            forall|j: int| final(self).sum_of(j) == old(self).sum_of(j),
    {
        while self.data.len() < length
            invariant
                self.well_formed(),
                old(self).counts().len() <= self.counts().len(),
                self.counts().len() <= if length > old(self).counts().len() {
                    length as nat
                } else {
                    old(self).counts().len()
                },
                forall|j: int| self.count_of(j) == old(self).count_of(j),
                forall|j: int| self.sum_of(j) == old(self).sum_of(j),
            decreases length - self.data.len(),
        {
            self.data.push(0);
            self.data_sums.push(0);
        }
    }

    /// Records one sample in the bucket at `index`, carrying `sub_value`
    /// into the bucket's value sum. The bucket is created if needed; counts
    /// saturate rather than overflow.
    pub fn add(&mut self, index: usize, sub_value: usize)
        requires
            old(self).well_formed(),
            index < usize::MAX,
        ensures
            final(self).well_formed(),
            final(self).counts().len() == if index + 1 > old(self).counts().len() {
                (index + 1) as nat
            } else {
                old(self).counts().len()
            },
            final(self).count_of(index as int) == sat_add_usize(
                old(self).count_of(index as int),
                1,
            ),
            final(self).sum_of(index as int) == sat_add_usize(
                old(self).sum_of(index as int),
                sub_value,
            ),
            forall|j: int|
                j != index ==> final(self).count_of(j) == old(self).count_of(j)
                    && final(self).sum_of(j) == old(self).sum_of(j),
    {
        self.grow(index + 1);
        let count = self.data[index].saturating_add(1);
        self.data.set(index, count);
        let sum = self.data_sums[index].saturating_add(sub_value);
        self.data_sums.set(index, sum);
    }

    /// Merges another histogram in: every bucket's count and sum are added,
    /// saturating; merge order does not matter for the result.
    pub fn merge(&mut self, other: &Histogram)
        requires
            old(self).well_formed(),
            other.well_formed(),
        ensures
            final(self).well_formed(),
            final(self).counts().len() == if other.counts().len() > old(self).counts().len() {
                other.counts().len()
            } else {
                old(self).counts().len()
            },
            forall|j: int|
                #![trigger final(self).count_of(j)]
                #![trigger final(self).sum_of(j)]
                final(self).count_of(j) == sat_add_usize(
                    old(self).count_of(j),
                    other.count_of(j),
                ) && final(self).sum_of(j) == sat_add_usize(old(self).sum_of(j), other.sum_of(j)),
    {
        self.grow(other.data.len());
        let mut i: usize = 0;
        while i < other.data.len()
            invariant
                self.well_formed(),
                other.well_formed(),
                other.counts().len() <= self.counts().len(),
                i <= other.counts().len(),
                self.counts().len() == if other.counts().len() > old(self).counts().len() {
                    other.counts().len()
                } else {
                    old(self).counts().len()
                },
                forall|j: int|
                    0 <= j < i ==> self.count_of(j) == sat_add_usize(
                        #[trigger] old(self).count_of(j),
                        other.count_of(j),
                    ) && self.sum_of(j) == sat_add_usize(old(self).sum_of(j), other.sum_of(j)),
                forall|j: int|
                    !(0 <= j < i) ==> self.count_of(j) == #[trigger] old(self).count_of(j)
                        && self.sum_of(j) == old(self).sum_of(j),
            decreases other.data.len() - i,
        {
            let count = self.data[i].saturating_add(other.data[i]);
            self.data.set(i, count);
            let sum = self.data_sums[i].saturating_add(other.data_sums[i]);
            self.data_sums.set(i, sum);
            i = i + 1;
        }
    }
}

} // verus!
