//! A bounded ordered collection of organisms.  After ranking it is sorted
//! ascending by fitness, so the worst organism sits first, the best last and
//! the median in the middle.

use vstd::prelude::*;
use vstd::seq_lib::group_to_multiset_ensures;

use crate::fitness_engine::{fitness_le, fs_le, Fitness};

verus! {

broadcast use group_to_multiset_ensures;

pub struct Population<O> {
    pub members: Vec<O>,
    pub capacity: usize,
}

impl<O: Fitness> Population<O> {
    /// The population never outgrows its fixed capacity.
    pub open spec fn wf(&self) -> bool {
        self.members@.len() <= self.capacity
    }

    /// Sorted ascending by fitness: the worst first, the best last.
    pub open spec fn sorted(&self) -> bool {
        forall|i: int, j: int|
            0 <= i < j < self.members@.len() ==> fs_le(
                #[trigger] self.members@[i].fitness_spec(),
                #[trigger] self.members@[j].fitness_spec(),
            )
    }

    pub open spec fn worst_spec(&self) -> O
        recommends
            self.members@.len() >= 1,
    {
        self.members@[0]
    }

    pub open spec fn median_spec(&self) -> O
        recommends
            self.members@.len() >= 1,
    {
        self.members@[self.members@.len() as int / 2]
    }

    pub open spec fn best_spec(&self) -> O
        recommends
            self.members@.len() >= 1,
    {
        self.members@[self.members@.len() - 1]
    }

    pub fn new(capacity: usize) -> (r: Self)
        ensures
            r.wf(),
            r.capacity == capacity,
            r.members@.len() == 0,
    {
        Population { members: Vec::new(), capacity }
    }

    pub fn len(&self) -> (r: usize)
        ensures
            r == self.members@.len(),
    {
        self.members.len()
    }

    pub fn capacity(&self) -> (r: usize)
        ensures
            r == self.capacity,
    {
        self.capacity
    }

    pub fn push(&mut self, organism: O)
        requires
            old(self).members@.len() < old(self).capacity,
        ensures
            final(self).members@ == old(self).members@.push(organism),
            final(self).capacity == old(self).capacity,
            final(self).wf(),
    {
        self.members.push(organism);
    }

    pub fn get(&self, i: usize) -> (r: &O)
        requires
            i < self.members@.len(),
        ensures
            *r == self.members@[i as int],
    {
        &self.members[i]
    }

    /// The worst organism of a ranked population.
    pub fn worst(&self) -> (r: Option<&O>)
        ensures
            (r is Some) <==> self.members@.len() >= 1,
            r matches Some(x) ==> *x == self.worst_spec(),
    {
        if self.members.len() == 0 {
            None
        } else {
            Some(&self.members[0])
        }
    }

    /// The median organism of a ranked population.
    pub fn median(&self) -> (r: Option<&O>)
        ensures
            (r is Some) <==> self.members@.len() >= 1,
            r matches Some(x) ==> *x == self.median_spec(),
    {
        if self.members.len() == 0 {
            None
        } else {
            Some(&self.members[self.members.len() / 2])
        }
    }

    /// The best organism of a ranked population.
    pub fn best(&self) -> (r: Option<&O>)
        ensures
            (r is Some) <==> self.members@.len() >= 1,
            r matches Some(x) ==> *x == self.best_spec(),
    {
        if self.members.len() == 0 {
            None
        } else {
            Some(&self.members[self.members.len() - 1])
        }
    }

    /// Remove the `k` worst organisms of a ranked population: the survivors
    /// are the k-th slot onward, in order.
    pub fn drop_worst(&mut self, k: usize)
        requires
            k <= old(self).members@.len(),
        ensures
            final(self).members@ == old(self).members@.subrange(
                k as int,
                old(self).members@.len() as int,
            ),
            final(self).capacity == old(self).capacity,
    {
        let mut dropped: usize = 0;
        while dropped < k
            invariant
                dropped <= k,
                k <= old(self).members@.len(),
                self.capacity == old(self).capacity,
                self.members@ =~= old(self).members@.subrange(
                    dropped as int,
                    old(self).members@.len() as int,
                ),
            decreases k - dropped,
        {
            self.members.remove(0);
            proof {
                assert(self.members@ =~= old(self).members@.subrange(
                    dropped + 1,
                    old(self).members@.len() as int,
                ));
            }
            dropped += 1;
        }
    }

    /// Sort ascending by fitness.  The result is a permutation of the input:
    /// the same organisms, as a multiset, in fitness order.  Sorting is
    /// deterministic, so one seed reproduces one ranking.
    pub fn sort(&mut self)
        ensures
            final(self).sorted(),
            final(self).members@.to_multiset() == old(self).members@.to_multiset(),
            final(self).members@.len() == old(self).members@.len(),
            final(self).capacity == old(self).capacity,
    {
        let n = self.members.len();
        let mut i: usize = 1;
        while i < n && n > 0
            invariant
                1 <= i <= n || n == 0,
                n == self.members@.len(),
                self.capacity == old(self).capacity,
                self.members@.to_multiset() == old(self).members@.to_multiset(),
                forall|k1: int, k2: int|
                    0 <= k1 < k2 < i ==> fs_le(
                        #[trigger] self.members@[k1].fitness_spec(),
                        #[trigger] self.members@[k2].fitness_spec(),
                    ),
            decreases n - i,
        {
            let ghost pre = self.members@;
            let x = self.members.remove(i);
            let p = find_insert_pos(&self.members, i, &x);
            self.members.insert(p, x);
            proof {
                let cur = self.members@;
                let rem = pre.remove(i as int);
                assert(cur == rem.insert(p as int, x));
                assert(pre.contains(x)) by {
                    assert(pre[i as int] == x);
                }
                assert(pre.remove(i as int).to_multiset() == pre.to_multiset().remove(x));
                assert(rem.insert(p as int, x).to_multiset() == rem.to_multiset().insert(x));
                assert(pre.to_multiset().remove(x).insert(x) =~= pre.to_multiset());
                assert(cur.to_multiset() == old(self).members@.to_multiset());
                assert forall|k1: int, k2: int| 0 <= k1 < k2 < i + 1 implies fs_le(
                    #[trigger] cur[k1].fitness_spec(),
                    #[trigger] cur[k2].fitness_spec(),
                ) by {
                    if k2 < p {
                        assert(cur[k1] == pre[k1] && cur[k2] == pre[k2]);
                    } else if k2 == p {
                        if k1 < p {
                            assert(cur[k1] == pre[k1]);
                            if p > 0 {
                                assert(fs_le(
                                    rem[p - 1].fitness_spec(),
                                    x.fitness_spec(),
                                ));
                                assert(rem[p - 1] == pre[p - 1]);
                                assert(fs_le(cur[k1].fitness_spec(), pre[p - 1].fitness_spec()));
                            }
                        }
                    } else {
                        if k1 < p {
                            assert(cur[k1] == pre[k1]);
                            assert(cur[k2] == rem[k2 - 1]);
                        } else if k1 == p {
                            assert(cur[k2] == rem[k2 - 1]);
                        } else {
                            assert(cur[k1] == rem[k1 - 1] && cur[k2] == rem[k2 - 1]);
                        }
                    }
                }
            }
            i += 1;
        }
    }
}

/// Scan downward from `upto` for the first slot where `x` may sit without
/// breaking the order: everything at or beyond the slot is strictly above
/// `x`, everything before it at or below.
fn find_insert_pos<O: Fitness>(members: &Vec<O>, upto: usize, x: &O) -> (p: usize)
    requires
        upto <= members@.len(),
    ensures
        p <= upto,
        forall|k: int|
            p <= k < upto ==> !fs_le((#[trigger] members@[k]).fitness_spec(), x.fitness_spec()),
        p > 0 ==> fs_le(members@[p - 1].fitness_spec(), x.fitness_spec()),
{
    let mut p: usize = upto;
    while p > 0
        invariant
            p <= upto,
            upto <= members@.len(),
            forall|k: int|
                p <= k < upto ==> !fs_le(
                    (#[trigger] members@[k]).fitness_spec(),
                    x.fitness_spec(),
                ),
        decreases p,
    {
        let prev = members[p - 1].get_fitness();
        if fitness_le(prev, x.get_fitness()) {
            return p;
        }
        p -= 1;
    }
    0
}

/// In a ranked, non-empty population the worst organism is at or below the
/// median and the median at or below the best, under the fitness order.
pub proof fn lemma_ranked_order<O: Fitness>(pop: &Population<O>)
    requires
        pop.sorted(),
        pop.members@.len() >= 1,
    ensures
        fs_le(pop.worst_spec().fitness_spec(), pop.median_spec().fitness_spec()),
        fs_le(pop.median_spec().fitness_spec(), pop.best_spec().fitness_spec()),
{
    let n = pop.members@.len() as int;
    let m = n / 2;
    assert(0 <= m < n);
    if m > 0 {
        assert(fs_le(pop.members@[0].fitness_spec(), pop.members@[m].fitness_spec()));
    }
    if m < n - 1 {
        assert(fs_le(pop.members@[m].fitness_spec(), pop.members@[n - 1].fitness_spec()));
    }
}

} // verus!
