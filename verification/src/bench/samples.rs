//! What the tasks of a benchmark have reported.

use vstd::multiset::Multiset;
use vstd::prelude::*;
use vstd::relations::{sorted_by, total_ordering};
use vstd::seq_lib::lemma_sorted_unique;

use crate::outside::sort;
use crate::sequences::lemma_drop_last;

verus! {

/// The order of iteration counts.
pub open spec fn at_most() -> spec_fn(usize, usize) -> bool {
    |a: usize, b: usize| a <= b
}

/// The upper median of `counts`: what stands in the middle once they are in ascending order.
pub open spec fn median_of(counts: Seq<usize>) -> usize {
    counts.sort_by(at_most())[counts.len() as int / 2]
}

/// The iteration counts that the tasks of a number of runs report.
pub struct SamplesModel {
    /// How many runs are still to come.
    pub left: nat,
    /// The counts of the runs so far, in the order in which they came in.
    pub counts: Seq<usize>,
}

impl SamplesModel {
    /// Before the first of `runs` runs.
    pub open spec fn initial(runs: nat) -> SamplesModel {
        SamplesModel { left: runs, counts: Seq::empty() }
    }

    /// After one more run has reported `run`.
    pub open spec fn after_run(self, run: Seq<usize>) -> SamplesModel {
        SamplesModel { left: (self.left - 1) as nat, counts: self.counts + run }
    }

    /// After each of `runs` in turn has reported.
    pub open spec fn after_runs(self, runs: Seq<Seq<usize>>) -> SamplesModel
        decreases runs.len(),
    {
        if runs.len() == 0 {
            self
        } else {
            self.after_runs(runs.drop_last()).after_run(runs.last())
        }
    }
}

/// The iteration counts that the tasks of a number of runs report.
pub struct Samples {
    left: usize,
    counts: Vec<usize>,
}

impl View for Samples {
    type V = SamplesModel;

    closed spec fn view(&self) -> SamplesModel {
        SamplesModel { left: self.left as nat, counts: self.counts@ }
    }
}

impl Samples {
    /// No counts yet, with `runs` runs to come.
    pub fn new(runs: usize) -> (samples: Samples)
        ensures
            samples@ == SamplesModel::initial(runs as nat),
    {
        Samples { left: runs, counts: Vec::new() }
    }

    /// Whether another run is to come.
    pub fn awaits_run(&self) -> (more: bool)
        ensures
            more <==> self@.left > 0,
    {
        self.left > 0
    }

    /// Adds the counts of one more run.
    pub fn add_run(&mut self, run: &Vec<usize>)
        requires
            old(self)@.left > 0,
        ensures
            final(self)@ == old(self)@.after_run(run@),
    {
        self.left = self.left - 1;
        self.counts.extend_from_slice(run.as_slice());
        assert(self.counts@ =~= old(self)@.counts + run@);
    }

    /// The counts, in the order in which they came in.
    pub fn counts(&self) -> (counts: &Vec<usize>)
        ensures
            counts@ == self@.counts,
    {
        &self.counts
    }

    /// The upper median of the counts, of which there has to be one.
    pub fn median(&self) -> (median: usize)
        requires
            self@.counts.len() > 0,
        ensures
            median == median_of(self@.counts),
    {
        let mut sorted = self.counts.clone();
        assert(sorted@ == self@.counts);
        sort(&mut sorted);
        proof {
            lemma_sorted_is_sort_by(self@.counts, sorted@);
        }
        sorted[sorted.len() / 2]
    }
}

/// What the writers and what the readers of a number of runs report.
pub struct ReadWriteSamplesModel {
    pub writers: SamplesModel,
    pub readers: SamplesModel,
}

/// The iteration counts that the writers and the readers of a number of runs report.
pub struct ReadWriteSamples {
    left: usize,
    writers: Vec<usize>,
    readers: Vec<usize>,
}

impl View for ReadWriteSamples {
    type V = ReadWriteSamplesModel;

    closed spec fn view(&self) -> ReadWriteSamplesModel {
        ReadWriteSamplesModel {
            writers: SamplesModel { left: self.left as nat, counts: self.writers@ },
            readers: SamplesModel { left: self.left as nat, counts: self.readers@ },
        }
    }
}

impl ReadWriteSamples {
    /// No counts yet, with `runs` runs to come.
    pub fn new(runs: usize) -> (samples: ReadWriteSamples)
        ensures
            samples@.writers == SamplesModel::initial(runs as nat),
            samples@.readers == SamplesModel::initial(runs as nat),
    {
        ReadWriteSamples { left: runs, writers: Vec::new(), readers: Vec::new() }
    }

    /// Whether another run is to come.
    pub fn awaits_run(&self) -> (more: bool)
        ensures
            more <==> self@.writers.left > 0,
            more <==> self@.readers.left > 0,
    {
        self.left > 0
    }

    /// Adds the counts of the writers and of the readers of one more run.
    pub fn add_run(&mut self, writers: &Vec<usize>, readers: &Vec<usize>)
        requires
            old(self)@.writers.left > 0,
        ensures
            final(self)@.writers == old(self)@.writers.after_run(writers@),
            final(self)@.readers == old(self)@.readers.after_run(readers@),
    {
        self.left = self.left - 1;
        self.writers.extend_from_slice(writers.as_slice());
        self.readers.extend_from_slice(readers.as_slice());
        assert(self.writers@ =~= old(self)@.writers.counts + writers@);
        assert(self.readers@ =~= old(self)@.readers.counts + readers@);
    }

    /// The counts of the writers, in the order in which they came in.
    pub fn writers(&self) -> (counts: &Vec<usize>)
        ensures
            counts@ == self@.writers.counts,
    {
        &self.writers
    }

    /// The counts of the readers, in the order in which they came in.
    pub fn readers(&self) -> (counts: &Vec<usize>)
        ensures
            counts@ == self@.readers.counts,
    {
        &self.readers
    }
}

/// Runs are asked for until there were as many as there were to be, and their counts are joined
/// in the order of the runs.
pub proof fn law_all_runs_are_joined_in_order(tests: nat, runs: Seq<Seq<usize>>)
    requires
        runs.len() <= tests,
    ensures
        SamplesModel::initial(tests).after_runs(runs).left == tests - runs.len(),
        SamplesModel::initial(tests).after_runs(runs).counts == runs.flatten(),
    decreases runs.len(),
{
    if runs.len() > 0 {
        law_all_runs_are_joined_in_order(tests, runs.drop_last());
        runs.lemma_flatten_and_flatten_alt_are_equivalent();
        runs.drop_last().lemma_flatten_and_flatten_alt_are_equivalent();
    }
}

proof fn lemma_sorted_is_sort_by(counts: Seq<usize>, sorted: Seq<usize>)
    requires
        sorted.to_multiset() == counts.to_multiset(),
        forall|i: int, j: int| 0 <= i < j < sorted.len() ==> sorted[i] <= sorted[j],
    ensures
        sorted == counts.sort_by(at_most()),
        sorted.len() == counts.len(),
{
    broadcast use vstd::seq_lib::group_to_multiset_ensures;

    assert(total_ordering(at_most()));
    counts.lemma_sort_by_ensures(at_most());
    lemma_sorted_unique(sorted, counts.sort_by(at_most()), at_most());
    assert(sorted.len() == sorted.to_multiset().len());
    assert(counts.len() == counts.to_multiset().len());
}

/// The order in which tasks report, and in which runs are added, has no bearing on the median.
pub proof fn law_median_ignores_order(a: Seq<usize>, b: Seq<usize>)
    requires
        a.to_multiset() == b.to_multiset(),
    ensures
        median_of(a) == median_of(b),
{
    assert(total_ordering(at_most()));
    b.lemma_sort_by_ensures(at_most());
    let sorted = b.sort_by(at_most());
    assert forall|i: int, j: int| 0 <= i < j < sorted.len() implies sorted[i] <= sorted[j] by {
        assert(at_most()(sorted[i], sorted[j]));
    }
    lemma_sorted_is_sort_by(a, sorted);
    lemma_sorted_is_sort_by(b, sorted);
}

/// The median is one of the counts, no more than half of them are smaller than it, and fewer than
/// half of them are greater.
pub proof fn law_median_is_in_the_middle(counts: Seq<usize>)
    requires
        counts.len() > 0,
    ensures
        counts.contains(median_of(counts)),
        2 * counts.filter(|count: usize| count < median_of(counts)).len() <= counts.len(),
        2 * counts.filter(|count: usize| count > median_of(counts)).len() < counts.len(),
{
    broadcast use vstd::seq_lib::group_to_multiset_ensures;

    let sorted = counts.sort_by(at_most());
    let middle = counts.len() as int / 2;
    let median = median_of(counts);
    let smaller = |count: usize| count < median_of(counts);
    let greater = |count: usize| count > median_of(counts);
    assert(total_ordering(at_most()));
    counts.lemma_sort_by_ensures(at_most());
    assert(sorted.len() == sorted.to_multiset().len());
    assert(counts.len() == counts.to_multiset().len());
    assert(sorted.contains(median)) by {
        assert(sorted[middle] == median);
    }
    assert(counts.to_multiset().count(median) > 0);
    assert forall|i: int| middle <= i < sorted.len() implies !smaller(#[trigger] sorted[i]) by {
        assert(i > middle ==> at_most()(sorted[middle], sorted[i]));
    }
    assert forall|i: int| 0 <= i < middle + 1 implies !greater(#[trigger] sorted[i]) by {
        assert(i < middle ==> at_most()(sorted[i], sorted[middle]));
    }
    lemma_filter_len_of_permutation(counts, smaller);
    lemma_filter_len_of_permutation(sorted, smaller);
    lemma_filter_len_of_permutation(counts, greater);
    lemma_filter_len_of_permutation(sorted, greater);
    lemma_filter_rejects_tail(sorted, smaller, middle);
    lemma_filter_rejects_head(sorted, greater, middle + 1);
}

proof fn lemma_filter_len_of_permutation(counts: Seq<usize>, keep: spec_fn(usize) -> bool)
    ensures
        counts.filter(keep).len() == counts.to_multiset().filter(keep).len(),
    decreases counts.len(),
{
    broadcast use vstd::seq_lib::group_to_multiset_ensures;

    reveal(Seq::filter);
    if counts.len() == 0 {
        assert(counts.to_multiset().len() == 0);
        assert(counts.to_multiset().filter(keep) =~= Multiset::empty());
    } else {
        let rest = counts.drop_last();
        lemma_filter_len_of_permutation(rest, keep);
        assert(counts =~= rest.push(counts.last()));
        assert(counts.to_multiset() =~= rest.to_multiset().insert(counts.last()));
        if keep(counts.last()) {
            assert(counts.to_multiset().filter(keep) =~= rest.to_multiset().filter(keep).insert(
                counts.last(),
            ));
        } else {
            assert(counts.to_multiset().filter(keep) =~= rest.to_multiset().filter(keep));
        }
    }
}

proof fn lemma_filter_rejects_tail(counts: Seq<usize>, keep: spec_fn(usize) -> bool, from: int)
    requires
        0 <= from <= counts.len(),
        forall|i: int| from <= i < counts.len() ==> !keep(#[trigger] counts[i]),
    ensures
        counts.filter(keep).len() <= from,
    decreases counts.len(),
{
    reveal(Seq::filter);
    if counts.len() > from {
        lemma_drop_last(counts);
        lemma_filter_rejects_tail(counts.drop_last(), keep, from);
        assert(!keep(counts[counts.len() - 1]));
    } else if counts.len() > 0 {
        lemma_filter_rejects_tail(counts.drop_last(), keep, from - 1);
    }
}

proof fn lemma_filter_rejects_head(counts: Seq<usize>, keep: spec_fn(usize) -> bool, up_to: int)
    requires
        0 <= up_to <= counts.len(),
        forall|i: int| 0 <= i < up_to ==> !keep(#[trigger] counts[i]),
    ensures
        counts.filter(keep).len() <= counts.len() - up_to,
    decreases counts.len(),
{
    reveal(Seq::filter);
    if counts.len() > 0 {
        let rest = counts.drop_last();
        lemma_drop_last(counts);
        if up_to == counts.len() {
            assert(!keep(counts[up_to - 1]));
            lemma_filter_rejects_head(rest, keep, up_to - 1);
        } else {
            lemma_filter_rejects_head(rest, keep, up_to);
        }
    }
}

} // verus!
