//! The register machine's state: a fixed-length vector of 64-bit integer
//! cells.  The first `n_actions` cells form the action window whose argmax
//! names a program's decision; the rest are input mirrors and scratch space.
//! Arithmetic that leaves the representable range sets a sticky overflow
//! mark; a marked vector yields no decision, which callers surface as an
//! out-of-bounds fitness.

use vstd::prelude::*;

verus! {

/// Upper bound on the register count; keeps every index castable and every
/// count sum far from overflow.
pub const MAX_REGISTERS: usize = 4096;

/// `i` indexes a maximal cell of `s`.
pub open spec fn is_max_index(s: Seq<i64>, i: int) -> bool {
    &&& 0 <= i < s.len()
    &&& forall|k: int| 0 <= k < s.len() ==> s[k] <= s[i]
}

/// The register state after a reset: every cell zero.
pub open spec fn reset_post(n: nat) -> Seq<i64> {
    Seq::new(n, |i: int| 0i64)
}

/// What `Registers::reset` does to the observable state — the cell vector
/// and the overflow mark: every cell becomes zero and the mark clears; only
/// the length of the old vector matters.
pub open spec fn reset_model(data: Seq<i64>, overflowed: bool) -> (Seq<i64>, bool) {
    (reset_post(data.len()), false)
}

/// Resetting is idempotent: resetting a state twice is resetting it once.
pub proof fn lemma_reset_idempotent(data: Seq<i64>, overflowed: bool)
    ensures
        reset_model(reset_model(data, overflowed).0, reset_model(data, overflowed).1)
            == reset_model(data, overflowed),
{
    assert(reset_post(reset_post(data.len()).len()) =~= reset_post(data.len()));
}

#[derive(Debug)]
pub struct Registers {
    pub data: Vec<i64>,
    pub n_actions: usize,
    pub overflowed: bool,
}

impl Clone for Registers {
    fn clone(&self) -> (r: Self)
        ensures
            r.data@ == self.data@,
            r.n_actions == self.n_actions,
            r.overflowed == self.overflowed,
    {
        let n = self.data.len();
        let mut data: Vec<i64> = Vec::new();
        let mut i: usize = 0;
        while i < n
            invariant
                i <= n,
                n == self.data@.len(),
                data@ =~= self.data@.subrange(0, i as int),
            decreases n - i,
        {
            data.push(self.data[i]);
            i += 1;
        }
        assert(data@ =~= self.data@);
        Registers { data, n_actions: self.n_actions, overflowed: self.overflowed }
    }
}

impl Registers {
    /// The vector's length is fixed for its lifetime and the action window is
    /// a non-empty prefix.
    pub open spec fn wf(&self) -> bool {
        &&& 1 <= self.n_actions <= self.data@.len() <= MAX_REGISTERS
    }

    /// A zeroed vector of `n_total` cells with an action window of
    /// `n_actions`.
    pub fn new(n_actions: usize, n_total: usize) -> (r: Registers)
        requires
            1 <= n_actions <= n_total <= MAX_REGISTERS,
        ensures
            r.wf(),
            r.data@ == reset_post(n_total as nat),
            r.n_actions == n_actions,
            !r.overflowed,
    {
        let mut data: Vec<i64> = Vec::new();
        let mut i: usize = 0;
        while i < n_total
            invariant
                i <= n_total,
                data@ =~= reset_post(i as nat),
            decreases n_total - i,
        {
            data.push(0);
            assert(data@ =~= reset_post((i + 1) as nat));
            i += 1;
        }
        Registers { data, n_actions, overflowed: false }
    }

    pub open spec fn len_spec(&self) -> nat {
        self.data@.len()
    }

    pub fn len(&self) -> (r: usize)
        ensures
            r == self.len_spec(),
    {
        self.data.len()
    }

    /// Zero every cell and clear the overflow mark; length and window stay.
    pub fn reset(&mut self)
        ensures
            final(self).data@ == reset_model(old(self).data@, old(self).overflowed).0,
            final(self).overflowed == reset_model(old(self).data@, old(self).overflowed).1,
            final(self).data@ == reset_post(old(self).data@.len()),
            final(self).n_actions == old(self).n_actions,
            !final(self).overflowed,
    {
        let n = self.data.len();
        let mut i: usize = 0;
        while i < n
            invariant
                i <= n,
                self.data@.len() == n,
                self.n_actions == old(self).n_actions,
                self.overflowed == old(self).overflowed,
                forall|k: int| 0 <= k < i ==> self.data@[k] == 0i64,
            decreases n - i,
        {
            self.data[i] = 0;
            i += 1;
        }
        self.overflowed = false;
        assert(self.data@ =~= reset_post(old(self).data@.len()));
    }

    /// The indices of the tied maximal cells, in increasing order — or no
    /// decision at all if the vector is marked overflowed.
    pub fn all_argmax(&self) -> (r: Option<Vec<usize>>)
        requires
            self.wf(),
        ensures
            (r is Some) <==> !self.overflowed,
            r is Some ==> {
                let v = r->Some_0;
                &&& v@.len() >= 1
                &&& forall|j: int|
                    0 <= j < v@.len() ==> is_max_index(self.data@, #[trigger] v@[j] as int)
                &&& forall|i: int| is_max_index(self.data@, i) ==> v@.contains(i as usize)
                &&& forall|j1: int, j2: int| 0 <= j1 < j2 < v@.len() ==> v@[j1] < v@[j2]
            },
    {
        if self.overflowed {
            return None;
        }
        let n = self.data.len();
        let mut max: i64 = self.data[0];
        let mut i: usize = 1;
        while i < n
            invariant
                1 <= i <= n,
                n == self.data@.len(),
                exists|k: int| 0 <= k < i && self.data@[k] == max,
                forall|k: int| 0 <= k < i ==> self.data@[k] <= max,
            decreases n - i,
        {
            if self.data[i] > max {
                max = self.data[i];
            }
            i += 1;
        }
        let mut ties: Vec<usize> = Vec::new();
        let mut j: usize = 0;
        while j < n
            invariant
                j <= n,
                n == self.data@.len(),
                exists|k: int| 0 <= k < n && self.data@[k] == max,
                forall|k: int| 0 <= k < n ==> self.data@[k] <= max,
                forall|t: int|
                    0 <= t < ties@.len() ==> {
                        &&& #[trigger] ties@[t] < j
                        &&& self.data@[ties@[t] as int] == max
                    },
                forall|k: int| 0 <= k < j && self.data@[k] == max ==> ties@.contains(k as usize),
                forall|t1: int, t2: int| 0 <= t1 < t2 < ties@.len() ==> ties@[t1] < ties@[t2],
            decreases n - j,
        {
            let ghost pre = ties@;
            if self.data[j] == max {
                ties.push(j);
            }
            proof {
                assert forall|k: int| 0 <= k < j + 1 && self.data@[k] == max implies ties@.contains(
                    k as usize,
                ) by {
                    if k < j {
                        let t = choose|t: int| 0 <= t < pre.len() && pre[t] == k as usize;
                        assert(ties@[t] == k as usize);
                    } else {
                        assert(ties@[ties@.len() - 1] == j);
                    }
                }
            }
            j += 1;
        }
        proof {
            assert(forall|t: int| 0 <= t < ties@.len() ==> is_max_index(
                self.data@,
                #[trigger] ties@[t] as int,
            ));
            let w = choose|k: int| 0 <= k < n && self.data@[k] == max;
            assert(ties@.contains(w as usize));
            assert(ties@.len() >= 1);
        }
        Some(ties)
    }

    /// The decision of the action window: the index of its single maximal
    /// cell, or `-1` when the maximum is tied or the vector is marked
    /// overflowed.  A tie can never equal a class index, so classification
    /// counts it as a miss.
    pub fn argmax(&self) -> (r: i64)
        requires
            self.wf(),
        ensures
            self.overflowed ==> r == -1,
            !self.overflowed ==> {
                let w = self.data@.subrange(0, self.n_actions as int);
                if r == -1 {
                    exists|i: int, j: int|
                        #![trigger is_max_index(w, i), is_max_index(w, j)]
                        i != j && is_max_index(w, i) && is_max_index(w, j)
                } else {
                    &&& 0 <= r < self.n_actions
                    &&& is_max_index(w, r as int)
                    &&& forall|k: int| 0 <= k < w.len() && k != r ==> w[k] < w[r as int]
                }
            },
    {
        if self.overflowed {
            return -1;
        }
        let ghost w = self.data@.subrange(0, self.n_actions as int);
        let n = self.n_actions;
        let mut max: i64 = self.data[0];
        let mut arg: usize = 0;
        let mut tied: bool = false;
        let mut i: usize = 1;
        while i < n
            invariant
                1 <= i <= n,
                n == self.n_actions,
                self.wf(),
                w == self.data@.subrange(0, self.n_actions as int),
                arg < i,
                self.data@[arg as int] == max,
                forall|k: int| 0 <= k < i ==> self.data@[k] <= max,
                tied <==> exists|k: int|
                    0 <= k < i && k != arg && #[trigger] self.data@[k] == max,
            decreases n - i,
        {
            if self.data[i] > max {
                max = self.data[i];
                arg = i;
                tied = false;
            } else if self.data[i] == max {
                tied = true;
            }
            i += 1;
        }
        if tied {
            proof {
                let k = choose|k: int|
                    0 <= k < n && k != arg && #[trigger] self.data@[k] == max;
                assert(w[k] == self.data@[k]);
                assert(is_max_index(w, k));
                assert(is_max_index(w, arg as int));
            }
            -1
        } else {
            assert(is_max_index(w, arg as int));
            assert(forall|k: int| 0 <= k < w.len() && k != arg ==> w[k] < w[arg as int]);
            assert(arg < MAX_REGISTERS);
            arg as i64
        }
    }
}

} // verus!
