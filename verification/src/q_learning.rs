//! Tabular Q-learning fused with program evolution.  Each program carries a
//! Q-table indexed by winning register and action; the table is updated
//! online with the canonical temporal-difference rule while the program
//! interacts with an environment, and only when the winning register
//! changes between steps.  Learning constants are permille.

use core::marker::PhantomData;
use vstd::prelude::*;
use vstd::seq_lib::group_to_multiset_ensures;

use crate::algorithm::GeneticAlgorithm;
use crate::characteristics::Organism;
use crate::fitness_engine::{Fitness, FitnessScore};
use crate::instruction::{clamp_i64, trunc_div};
use crate::program::{Program, ProgramGeneratorParameters};
use crate::registers::{is_max_index, Registers};
use crate::reinforcement_learning::{
    ReinforcementLearningInput, ReinforcementLearningParameters, MAX_INITIAL_STATES,
};
use crate::rng::rand_below;

verus! {

broadcast use group_to_multiset_ensures;

/// `v` scaled by a permille factor, truncating toward zero.
pub open spec fn scaled(perm: int, v: int) -> int {
    trunc_div(perm * v, 1000)
}

/// The temporal-difference target: `reward + gamma * next_max`.
pub open spec fn td_target(reward: int, next_max: int, gamma: int) -> int {
    reward + scaled(gamma, next_max)
}

/// The canonical temporal-difference update of one cell:
/// `q + alpha * (reward + gamma * next_max - q)`, clamped to the 64-bit
/// range.
pub open spec fn td_update(q: int, reward: int, next_max: int, alpha: int, gamma: int) -> i64 {
    clamp_i64(q + scaled(alpha, td_target(reward, next_max, gamma) - q))
}

/// The largest value of a non-empty row.
pub open spec fn row_max(s: Seq<i64>) -> int
    recommends
        s.len() >= 1,
    decreases s.len(),
{
    if s.len() <= 1 {
        s[0] as int
    } else {
        let m = row_max(s.drop_last());
        if (s.last() as int) > m {
            s.last() as int
        } else {
            m
        }
    }
}

/// The learning constants, each in permille of one: step size `alpha`,
/// discount `gamma`, exploration rate `epsilon`.
#[derive(Clone, Copy, Debug, PartialEq, Eq, Structural)]
pub struct QConsts {
    pub alpha: u32,
    pub gamma: u32,
    pub epsilon: u32,
}

impl QConsts {
    pub open spec fn wf(&self) -> bool {
        &&& self.alpha <= 1000
        &&& self.gamma <= 1000
        &&& self.epsilon <= 1000
    }

    pub fn new(alpha: u32, gamma: u32, epsilon: u32) -> (r: Self)
        requires
            alpha <= 1000,
            gamma <= 1000,
            epsilon <= 1000,
        ensures
            r == (QConsts { alpha, gamma, epsilon }),
            r.wf(),
    {
        QConsts { alpha, gamma, epsilon }
    }
}

impl Default for QConsts {
    /// A quarter step size, an eighth discount, a twentieth exploration.
    fn default() -> (r: Self)
        ensures
            r == (QConsts { alpha: 250u32, gamma: 125u32, epsilon: 50u32 }),
            r.wf(),
    {
        QConsts { alpha: 250, gamma: 125, epsilon: 50 }
    }
}

/// A winning register paired with the action chosen for it.
#[derive(Clone, Copy, Debug, PartialEq, Eq, Structural)]
pub struct ActionRegisterPair {
    pub action: usize,
    pub register: usize,
}

/// A `[n_registers x n_actions]` matrix of action values plus the learning
/// constants.  Dimensions are fixed at construction.
pub struct QTable {
    pub table: Vec<Vec<i64>>,
    pub n_actions: usize,
    pub n_registers: usize,
    pub q_consts: QConsts,
}

impl QTable {
    pub open spec fn wf(&self) -> bool {
        &&& self.table@.len() == self.n_registers
        &&& 1 <= self.n_registers
        &&& 1 <= self.n_actions
        &&& forall|r: int|
            0 <= r < self.table@.len() ==> (#[trigger] self.table@[r])@.len() == self.n_actions
        &&& self.q_consts.wf()
    }

    /// The matrix as a sequence of rows of values.
    pub open spec fn table_spec(&self) -> Seq<Seq<i64>> {
        self.table@.map_values(|row: Vec<i64>| row@)
    }

    /// A freshly zeroed table with `parent`'s dimensions and constants.
    pub open spec fn fresh_like(&self, parent: &QTable) -> bool {
        &&& self.n_actions == parent.n_actions
        &&& self.n_registers == parent.n_registers
        &&& self.q_consts == parent.q_consts
        &&& forall|i: int, j: int|
            0 <= i < self.n_registers && 0 <= j < self.n_actions ==> self.table_spec()[i][j]
                == 0i64
    }

    /// A freshly zeroed table.
    pub fn new(n_actions: usize, n_registers: usize, q_consts: QConsts) -> (r: Self)
        requires
            1 <= n_actions,
            1 <= n_registers,
            q_consts.wf(),
        ensures
            r.wf(),
            r.n_actions == n_actions,
            r.n_registers == n_registers,
            r.q_consts == q_consts,
            forall|i: int, j: int|
                0 <= i < n_registers && 0 <= j < n_actions ==> r.table_spec()[i][j] == 0i64,
    {
        let mut table: Vec<Vec<i64>> = Vec::new();
        let mut i: usize = 0;
        while i < n_registers
            invariant
                i <= n_registers,
                table@.len() == i,
                forall|r: int| 0 <= r < i ==> (#[trigger] table@[r])@.len() == n_actions,
                forall|r: int, c: int|
                    0 <= r < i && 0 <= c < n_actions ==> #[trigger] table@[r]@[c] == 0i64,
            decreases n_registers - i,
        {
            let mut row: Vec<i64> = Vec::new();
            let mut j: usize = 0;
            while j < n_actions
                invariant
                    j <= n_actions,
                    row@.len() == j,
                    forall|c: int| 0 <= c < j ==> row@[c] == 0i64,
                decreases n_actions - j,
            {
                row.push(0);
                j += 1;
            }
            table.push(row);
            i += 1;
        }
        QTable { table, n_actions, n_registers, q_consts }
    }

    /// A freshly zeroed table of the same shape and constants: learning does
    /// not survive duplication.
    pub fn duplicate_new(&self) -> (r: Self)
        requires
            self.wf(),
        ensures
            r.wf(),
            r.n_actions == self.n_actions,
            r.n_registers == self.n_registers,
            r.q_consts == self.q_consts,
            forall|i: int, j: int|
                0 <= i < r.n_registers && 0 <= j < r.n_actions ==> r.table_spec()[i][j] == 0i64,
    {
        QTable::new(self.n_actions, self.n_registers, self.q_consts)
    }

    /// Read one cell.
    pub fn cell(&self, register: usize, action: usize) -> (r: i64)
        requires
            self.wf(),
            register < self.n_registers,
            action < self.n_actions,
        ensures
            r == self.table_spec()[register as int][action as int],
    {
        self.table[register][action]
    }

    /// A uniformly random action.
    pub fn action_random(&self, rng: &mut rand::rngs::StdRng) -> (r: usize)
        requires
            self.wf(),
        ensures
            r < self.n_actions,
    {
        rand_below(rng, self.n_actions)
    }

    /// The greedy action for a register: the first action whose value is the
    /// row's maximum.
    pub fn action_argmax(&self, register_number: usize) -> (r: usize)
        requires
            self.wf(),
            register_number < self.n_registers,
        ensures
            r < self.n_actions,
            ({
                let row = self.table_spec()[register_number as int];
                &&& row[r as int] as int == row_max(row)
                &&& forall|k: int| 0 <= k < r ==> row[k] < row[r as int]
            }),
    {
        let row = &self.table[register_number];
        let n = row.len();
        let mut best: usize = 0;
        let mut max: i64 = row[0];
        let mut i: usize = 1;
        proof {
            assert(row@.subrange(0, 1) =~= seq![row@[0]]);
        }
        while i < n
            invariant
                1 <= i <= n,
                n == row@.len(),
                best < i,
                max == row@[best as int],
                max as int == row_max(row@.subrange(0, i as int)),
                forall|k: int| 0 <= k < best ==> row@[k] < max,
                forall|k: int| 0 <= k < i ==> row@[k] <= max,
            decreases n - i,
        {
            proof {
                assert(row@.subrange(0, i + 1).drop_last() =~= row@.subrange(0, i as int));
            }
            if row[i] > max {
                max = row[i];
                best = i;
            }
            i += 1;
        }
        proof {
            assert(row@.subrange(0, n as int) =~= row@);
        }
        best
    }

    /// The winning action-register pair for a register state: one winning
    /// register uniformly among the tied maxima, and with probability
    /// `epsilon` a random action, otherwise the greedy one.  No pair exists
    /// when the register vector is marked overflowed.
    pub fn eval(&self, registers: &Registers, rng: &mut rand::rngs::StdRng) -> (r: Option<
        ActionRegisterPair,
    >)
        requires
            self.wf(),
            registers.wf(),
            registers.data@.len() == self.n_registers,
        ensures
            (r is Some) <==> !registers.overflowed,
            r matches Some(pair) ==> {
                &&& pair.register < self.n_registers
                &&& pair.action < self.n_actions
                &&& is_max_index(registers.data@, pair.register as int)
                &&& self.q_consts.epsilon == 0 ==> {
                    let row = self.table_spec()[pair.register as int];
                    row[pair.action as int] as int == row_max(row)
                }
            },
    {
        let winners = match registers.all_argmax() {
            None => {
                return None;
            },
            Some(w) => w,
        };
        let wi = rand_below(rng, winners.len());
        let winning_register = winners[wi];
        let u = rand_below(rng, 1000);
        let winning_action = if (u as u32) < self.q_consts.epsilon {
            self.action_random(rng)
        } else {
            proof {
                assert(is_max_index(registers.data@, winners@[wi as int] as int));
            }
            self.action_argmax(winning_register)
        };
        proof {
            assert(is_max_index(registers.data@, winners@[wi as int] as int));
        }
        Some(ActionRegisterPair { action: winning_action, register: winning_register })
    }

    /// Apply the temporal-difference update to the cell of the current
    /// pair, against the best value of the next pair's register.  Only that
    /// one cell changes.
    pub fn update(
        &mut self,
        current_action_state: ActionRegisterPair,
        current_reward: i64,
        next_action_state: ActionRegisterPair,
    )
        requires
            old(self).wf(),
            current_action_state.register < old(self).n_registers,
            current_action_state.action < old(self).n_actions,
            next_action_state.register < old(self).n_registers,
        ensures
            final(self).wf(),
            final(self).n_actions == old(self).n_actions,
            final(self).n_registers == old(self).n_registers,
            final(self).q_consts == old(self).q_consts,
            ({
                let reg = current_action_state.register as int;
                let act = current_action_state.action as int;
                let pre = old(self).table_spec();
                let next_max = row_max(pre[next_action_state.register as int]);
                final(self).table_spec() == pre.update(
                    reg,
                    pre[reg].update(
                        act,
                        td_update(
                            pre[reg][act] as int,
                            current_reward as int,
                            next_max,
                            old(self).q_consts.alpha as int,
                            old(self).q_consts.gamma as int,
                        ),
                    ),
                )
            }),
    {
        let next_best_action = self.action_argmax(next_action_state.register);
        let next_q_value: i64 = self.table[next_action_state.register][next_best_action];
        let current_q_value: i64 = self.table[current_action_state.register][current_action_state.action];
        let target_minus_q: i128 = (current_reward as i128) + (scaled_exec(
            self.q_consts.gamma,
            next_q_value as i128,
        )) - (current_q_value as i128);
        let delta: i128 = scaled_exec(self.q_consts.alpha, target_minus_q);
        let sum: i128 = (current_q_value as i128) + delta;
        let new_q_value: i64 = if sum > (i64::MAX as i128) {
            i64::MAX
        } else if sum < (i64::MIN as i128) {
            i64::MIN
        } else {
            sum as i64
        };
        let ghost pre = self.table@;
        let mut row = self.table.remove(current_action_state.register);
        row[current_action_state.action] = new_q_value;
        self.table.insert(current_action_state.register, row);
        proof {
            let reg = current_action_state.register as int;
            assert(self.table@ =~= pre.update(reg, self.table@[reg]));
            assert(self.table@[reg]@ =~= pre[reg]@.update(
                current_action_state.action as int,
                new_q_value,
            ));
            assert(final(self).table_spec() =~= old(self).table_spec().update(
                reg,
                old(self).table_spec()[reg].update(
                    current_action_state.action as int,
                    new_q_value,
                ),
            ));
        }
    }
}

impl Clone for QTable {
    fn clone(&self) -> (r: Self)
        ensures
            r.table_spec() == self.table_spec(),
            r.table@.len() == self.table@.len(),
            forall|i: int| 0 <= i < r.table@.len() ==> #[trigger] r.table@[i]@ == self.table@[i]@,
            r.n_actions == self.n_actions,
            r.n_registers == self.n_registers,
            r.q_consts == self.q_consts,
            self.wf() ==> r.wf(),
    {
        let n = self.table.len();
        let mut table: Vec<Vec<i64>> = Vec::new();
        let mut i: usize = 0;
        while i < n
            invariant
                i <= n,
                n == self.table@.len(),
                table@.len() == i,
                forall|r: int| 0 <= r < i ==> #[trigger] table@[r]@ == self.table@[r]@,
            decreases n - i,
        {
            let src = &self.table[i];
            let m = src.len();
            let mut row: Vec<i64> = Vec::new();
            let mut j: usize = 0;
            while j < m
                invariant
                    j <= m,
                    m == src@.len(),
                    row@ =~= src@.subrange(0, j as int),
                decreases m - j,
            {
                row.push(src[j]);
                j += 1;
            }
            proof {
                assert(row@ =~= src@);
            }
            table.push(row);
            i += 1;
        }
        let r = QTable {
            table,
            n_actions: self.n_actions,
            n_registers: self.n_registers,
            q_consts: self.q_consts,
        };
        proof {
            assert(r.table_spec() =~= self.table_spec());
        }
        r
    }
}

/// Apply the Q-update only when the winning register changed between two
/// steps: a stationary decision context leaves the table untouched.
pub fn maybe_update(
    q_table: &mut QTable,
    current: ActionRegisterPair,
    reward: i64,
    next: ActionRegisterPair,
)
    requires
        old(q_table).wf(),
        current.register < old(q_table).n_registers,
        current.action < old(q_table).n_actions,
        next.register < old(q_table).n_registers,
    ensures
        final(q_table).wf(),
        final(q_table).n_actions == old(q_table).n_actions,
        final(q_table).n_registers == old(q_table).n_registers,
        final(q_table).q_consts == old(q_table).q_consts,
        current.register == next.register ==> final(q_table).table_spec() == old(
            q_table,
        ).table_spec(),
        current.register != next.register ==> ({
            let reg = current.register as int;
            let act = current.action as int;
            let pre = old(q_table).table_spec();
            final(q_table).table_spec() == pre.update(
                reg,
                pre[reg].update(
                    act,
                    td_update(
                        pre[reg][act] as int,
                        reward as int,
                        row_max(pre[next.register as int]),
                        old(q_table).q_consts.alpha as int,
                        old(q_table).q_consts.gamma as int,
                    ),
                ),
            )
        }),
{
    if current.register != next.register {
        q_table.update(current, reward, next);
    }
}

/// Episode outcomes of one evaluation, in visiting order: the accumulated
/// return and the Q-table the trial ended with.
pub open spec fn trials_sorted(s: Seq<(i64, QTable)>) -> bool {
    forall|i: int, j: int| 0 <= i < j < s.len() ==> (#[trigger] s[i]).0 <= (#[trigger] s[j]).0
}

/// Scan downward for the slot where a score may sit without breaking the
/// order.
fn find_trial_pos(trials: &Vec<(i64, QTable)>, upto: usize, score: i64) -> (p: usize)
    requires
        upto <= trials@.len(),
    ensures
        p <= upto,
        forall|k: int| p <= k < upto ==> (#[trigger] trials@[k]).0 > score,
        p > 0 ==> trials@[p - 1].0 <= score,
{
    let mut p: usize = upto;
    while p > 0
        invariant
            p <= upto,
            upto <= trials@.len(),
            forall|k: int| p <= k < upto ==> (#[trigger] trials@[k]).0 > score,
        decreases p,
    {
        if trials[p - 1].0 <= score {
            return p;
        }
        p -= 1;
    }
    0
}

/// Sort the trials ascending by score, stably; the result is a permutation.
fn sort_trials(trials: &mut Vec<(i64, QTable)>)
    ensures
        trials_sorted(final(trials)@),
        final(trials)@.to_multiset() == old(trials)@.to_multiset(),
        final(trials)@.len() == old(trials)@.len(),
{
    let n = trials.len();
    let mut i: usize = 1;
    while i < n && n > 0
        invariant
            1 <= i <= n || n == 0,
            n == trials@.len(),
            trials@.to_multiset() == old(trials)@.to_multiset(),
            forall|k1: int, k2: int|
                0 <= k1 < k2 < i ==> (#[trigger] trials@[k1]).0 <= (#[trigger] trials@[k2]).0,
        decreases n - i,
    {
        let ghost pre = trials@;
        let x = trials.remove(i);
        let p = find_trial_pos(trials, i, x.0);
        trials.insert(p, x);
        proof {
            let cur = trials@;
            let rem = pre.remove(i as int);
            assert(cur == rem.insert(p as int, x));
            assert(pre.contains(x)) by {
                assert(pre[i as int] == x);
            }
            assert(pre.remove(i as int).to_multiset() == pre.to_multiset().remove(x));
            assert(rem.insert(p as int, x).to_multiset() == rem.to_multiset().insert(x));
            assert(pre.to_multiset().remove(x).insert(x) =~= pre.to_multiset());
            assert forall|k1: int, k2: int| 0 <= k1 < k2 < i + 1 implies (#[trigger] cur[k1]).0
                <= (#[trigger] cur[k2]).0 by {
                if k2 < p {
                    assert(cur[k1] == pre[k1] && cur[k2] == pre[k2]);
                } else if k2 == p {
                    if k1 < p {
                        assert(cur[k1] == pre[k1]);
                        assert(rem[p - 1] == pre[p - 1]);
                    }
                } else {
                    if k1 < p {
                        assert(cur[k1] == pre[k1]);
                        assert(cur[k2] == rem[k2 - 1]);
                    } else if k1 == p {
                        assert(cur[k2] == rem[k2 - 1]);
                    } else {
                        assert(cur[k1] == rem[k1 - 1] && cur[k2] == rem[k2 - 1]);
                    }
                }
            }
        }
        i += 1;
    }
}

/// The median trial: sort the `(score, table)` pairs ascending by score and
/// take the pair at the middle index.  The result is one of the given
/// trials, and its score is the median score.
pub fn median_trial(trials: Vec<(i64, QTable)>) -> (r: (i64, QTable))
    requires
        trials@.len() >= 1,
    ensures
        trials@.contains(r),
        exists|s: Seq<(i64, QTable)>|
            {
                &&& #[trigger] s.to_multiset() == trials@.to_multiset()
                &&& trials_sorted(s)
                &&& s.len() == trials@.len()
                &&& r == s[s.len() as int / 2]
            },
{
    let mut sorted_trials = trials;
    sort_trials(&mut sorted_trials);
    let n = sorted_trials.len();
    let ghost s = sorted_trials@;
    let r = sorted_trials.swap_remove(n / 2);
    proof {
        assert(s.contains(r)) by {
            assert(s[n as int / 2] == r);
        }
        assert(trials@.to_multiset().count(r) > 0);
    }
    r
}

/// `v` scaled by a permille factor, truncating toward zero, exactly
/// `scaled(perm, v)`; the result never exceeds `v` in magnitude.
fn scaled_exec(perm: u32, v: i128) -> (r: i128)
    requires
        perm <= 1000,
        -170141183460469231731687303715884105 <= v <= 170141183460469231731687303715884105,
    ensures
        r == scaled(perm as int, v as int),
        crate::instruction::abs_int(r as int) <= crate::instruction::abs_int(v as int),
{
    let neg = v < 0;
    let mag: u128 = if neg {
        (-v) as u128
    } else {
        v as u128
    };
    proof {
        assert(mag as int <= 170141183460469231731687303715884105int);
        assert((perm as int) * (mag as int)
            <= 170141183460469231731687303715884105000int) by (nonlinear_arith)
            requires
                0 <= perm as int <= 1000,
                0 <= mag as int <= 170141183460469231731687303715884105int,
        ;
    }
    let prod: u128 = (perm as u128) * mag;
    let q: u128 = prod / 1000;
    proof {
        assert((perm as int) * (mag as int) == prod as int);
        assert(prod as int <= 1000 * (mag as int)) by (nonlinear_arith)
            requires
                0 <= perm as int <= 1000,
                mag as int >= 0,
                prod as int == (perm as int) * (mag as int),
        ;
        vstd::arithmetic::div_mod::lemma_div_is_ordered(prod as int, 1000 * (mag as int), 1000);
        vstd::arithmetic::div_mod::lemma_div_multiples_vanish(mag as int, 1000);
        if neg {
            assert((perm as int) * (v as int) == -(prod as int)) by (nonlinear_arith)
                requires
                    v < 0,
                    mag as int == -(v as int),
                    prod as int == (perm as int) * (mag as int),
            ;
        } else {
            assert((perm as int) * (v as int) == prod as int) by (nonlinear_arith)
                requires
                    v >= 0,
                    mag as int == v as int,
                    prod as int == (perm as int) * (mag as int),
            ;
        }
    }
    if neg {
        -(q as i128)
    } else {
        q as i128
    }
}

/// Clamped 64-bit addition, for accumulating episode rewards.
fn add_saturating(a: i64, b: i64) -> (r: i64)
    ensures
        r == clamp_i64(a + b),
{
    let v: i128 = (a as i128) + (b as i128);
    if v > (i64::MAX as i128) {
        i64::MAX
    } else if v < (i64::MIN as i128) {
        i64::MIN
    } else {
        v as i64
    }
}

/// A program with its own Q-table.  The table has one row per register and
/// one column per action register.
pub struct QProgram<T: ReinforcementLearningInput> {
    pub q_table: QTable,
    pub program: Program<ReinforcementLearningParameters<T>>,
}

impl<T: ReinforcementLearningInput> QProgram<T> {
    pub open spec fn wf_spec(&self) -> bool {
        &&& self.program.wf()
        &&& self.q_table.wf()
        &&& self.q_table.n_registers == self.program.registers.data@.len()
        &&& self.q_table.n_actions == self.program.registers.n_actions
    }
}

/// Decide from a flattened state: run the program on it, then ask the
/// Q-table for the winning action-register pair.  A pair exists exactly
/// when the state's arity matches the program and execution stays in
/// bounds; on an arity mismatch the program is untouched.
fn decide_action<T: ReinforcementLearningInput>(
    q_table: &QTable,
    program: &mut Program<ReinforcementLearningParameters<T>>,
    flat: &Vec<i64>,
    rng: &mut rand::rngs::StdRng,
) -> (r: Option<ActionRegisterPair>)
    requires
        old(program).wf(),
        q_table.wf(),
        q_table.n_registers == old(program).registers.data@.len(),
    ensures
        final(program).wf(),
        final(program).instructions@ == old(program).instructions@,
        final(program).id == old(program).id,
        final(program).fitness == old(program).fitness,
        final(program).n_inputs == old(program).n_inputs,
        final(program).registers.data@.len() == old(program).registers.data@.len(),
        final(program).registers.n_actions == old(program).registers.n_actions,
        flat@.len() == old(program).n_inputs ==> ({
            let out = crate::program::run_instrs(
                old(program).instructions@,
                old(program).registers.data@,
                old(program).registers.overflowed,
                flat@,
            );
            &&& final(program).registers.data@ == out.0
            &&& final(program).registers.overflowed == out.1
            &&& ((r is Some) <==> !out.1)
        }),
        flat@.len() != old(program).n_inputs ==> {
            &&& r is None
            &&& final(program).registers.data@ == old(program).registers.data@
            &&& final(program).registers.overflowed == old(program).registers.overflowed
        },
        r matches Some(pair) ==> {
            &&& pair.register < q_table.n_registers
            &&& pair.action < q_table.n_actions
            &&& !final(program).registers.overflowed
            &&& is_max_index(final(program).registers.data@, pair.register as int)
            &&& q_table.q_consts.epsilon == 0 ==> ({
                let row = q_table.table_spec()[pair.register as int];
                row[pair.action as int] as int == row_max(row)
            })
        },
{
    if flat.len() != program.n_inputs {
        return None;
    }
    program.exec(flat);
    q_table.eval(&program.registers, rng)
}

/// Run the program on the environment's flattened state, then ask the
/// Q-table for the winning action-register pair.  There is none when the
/// state's arity does not match the program or execution overflowed; the
/// decision itself is `decide_action`, exact in the flattened state.
fn get_action_state<T: ReinforcementLearningInput>(
    environment: &mut T,
    q_table: &QTable,
    program: &mut Program<ReinforcementLearningParameters<T>>,
    rng: &mut rand::rngs::StdRng,
) -> (r: Option<ActionRegisterPair>)
    requires
        old(program).wf(),
        q_table.wf(),
        q_table.n_registers == old(program).registers.data@.len(),
    ensures
        final(program).wf(),
        final(program).instructions@ == old(program).instructions@,
        final(program).id == old(program).id,
        final(program).fitness == old(program).fitness,
        final(program).n_inputs == old(program).n_inputs,
        final(program).registers.data@.len() == old(program).registers.data@.len(),
        final(program).registers.n_actions == old(program).registers.n_actions,
        r matches Some(pair) ==> {
            &&& pair.register < q_table.n_registers
            &&& pair.action < q_table.n_actions
            &&& !final(program).registers.overflowed
            &&& is_max_index(final(program).registers.data@, pair.register as int)
            &&& q_table.q_consts.epsilon == 0 ==> ({
                let row = q_table.table_spec()[pair.register as int];
                row[pair.action as int] as int == row_max(row)
            })
        },
        r is None ==> (final(program).registers.overflowed || (final(program).registers.data@
            == old(program).registers.data@ && final(program).registers.overflowed == old(
            program,
        ).registers.overflowed)),
{
    let flat = environment.flat();
    decide_action(q_table, program, &flat, rng)
}

impl<T: ReinforcementLearningInput> Fitness for QProgram<T> {
    type FitnessParameters = ReinforcementLearningParameters<T>;

    open spec fn well_formed(&self) -> bool {
        self.wf_spec()
    }

    open spec fn shape(&self) -> Seq<int> {
        seq![
            self.program.registers.data@.len() as int,
            self.program.registers.n_actions as int,
            self.program.n_inputs as int,
        ]
    }

    open spec fn fitness_spec(&self) -> FitnessScore {
        self.program.fitness
    }

    open spec fn fitness_params_wf(params: &Self::FitnessParameters) -> bool {
        params.wf()
    }

    fn check_fitness_params(params: &Self::FitnessParameters) -> (r: bool) {
        let n = params.initial_states.len();
        1 <= n && n <= MAX_INITIAL_STATES
    }

    /// For each initial state, run one episode: act on the environment,
    /// accumulate the reward, and apply the Q-update whenever the winning
    /// register changes.  The fitness becomes the median episode return and
    /// the program adopts the median trial's table; a program that fails to
    /// produce a decision scores out of bounds.  Whatever the environment
    /// hands back, the fitness slot ends filled.
    fn eval_fitness(
        &mut self,
        params: &mut Self::FitnessParameters,
        rng: &mut rand::rngs::StdRng,
    )
        ensures
            final(self).program.instructions@ == old(self).program.instructions@,
            final(self).program.id == old(self).program.id,
            final(self).q_table.q_consts == old(self).q_table.q_consts,
            final(self).q_table.n_registers == old(self).q_table.n_registers,
            final(self).q_table.n_actions == old(self).q_table.n_actions,
            final(self).program.fitness is OutOfBounds ==> final(self).q_table.table_spec()
                == old(self).q_table.table_spec(),
            final(params).initial_states@ == old(params).initial_states@,
            final(params).max_episode_length == old(params).max_episode_length,
    {
        let k = params.initial_states.len();
        let mut trials: Vec<(i64, QTable)> = Vec::new();
        let mut t: usize = 0;
        while t < k
            invariant
                t <= k,
                k == params.initial_states@.len(),
                params.initial_states@ == old(params).initial_states@,
                params.max_episode_length == old(params).max_episode_length,
                self.wf_spec(),
                self.program.instructions@ == old(self).program.instructions@,
                self.program.id == old(self).program.id,
                self.program.n_inputs == old(self).program.n_inputs,
                self.program.registers.data@.len() == old(self).program.registers.data@.len(),
                self.program.registers.n_actions == old(self).program.registers.n_actions,
                self.q_table.table_spec() == old(self).q_table.table_spec(),
                self.q_table.n_actions == old(self).q_table.n_actions,
                self.q_table.n_registers == old(self).q_table.n_registers,
                self.q_table.q_consts == old(self).q_table.q_consts,
                self.program.fitness == old(self).program.fitness,
                params.wf(),
                trials@.len() == t,
                forall|j: int|
                    0 <= j < t ==> {
                        &&& (#[trigger] trials@[j]).1.wf()
                        &&& trials@[j].1.n_registers == self.q_table.n_registers
                        &&& trials@[j].1.n_actions == self.q_table.n_actions
                        &&& trials@[j].1.q_consts == self.q_table.q_consts
                    },
            decreases k - t,
        {
            let mut current_q = self.q_table.clone();
            let mut score: i64 = 0;
            params.environment.update_state(&params.initial_states[t]);
            let first = get_action_state(
                &mut params.environment,
                &current_q,
                &mut self.program,
                rng,
            );
            let mut current_pair = match first {
                None => {
                    self.program.fitness = FitnessScore::OutOfBounds;
                    return ;
                },
                Some(pair) => pair,
            };
            let mut step: usize = 0;
            let mut failed: bool = false;
            while step < params.max_episode_length && !failed
                invariant
                    self.wf_spec(),
                    self.program.instructions@ == old(self).program.instructions@,
                    self.program.id == old(self).program.id,
                    self.program.n_inputs == old(self).program.n_inputs,
                    self.program.registers.data@.len() == old(
                        self,
                    ).program.registers.data@.len(),
                    self.program.registers.n_actions == old(self).program.registers.n_actions,
                    self.program.fitness == old(self).program.fitness,
                    self.q_table.table_spec() == old(self).q_table.table_spec(),
                    self.q_table.n_actions == old(self).q_table.n_actions,
                    self.q_table.n_registers == old(self).q_table.n_registers,
                    self.q_table.q_consts == old(self).q_table.q_consts,
                    current_q.wf(),
                    current_q.n_registers == self.q_table.n_registers,
                    current_q.n_actions == self.q_table.n_actions,
                    current_q.q_consts == self.q_table.q_consts,
                    !failed ==> {
                        &&& current_pair.register < current_q.n_registers
                        &&& current_pair.action < current_q.n_actions
                    },
                    params.initial_states@ == old(params).initial_states@,
                    params.max_episode_length == old(params).max_episode_length,
                    k == params.initial_states@.len(),
                decreases params.max_episode_length - step,
            {
                let state_reward_pair = params.environment.sim(current_pair.action);
                score = add_saturating(score, state_reward_pair.get_value());
                if state_reward_pair.is_terminal() {
                    break ;
                }
                let next = get_action_state(
                    &mut params.environment,
                    &current_q,
                    &mut self.program,
                    rng,
                );
                match next {
                    None => {
                        failed = true;
                        break ;
                    },
                    Some(next_pair) => {
                        maybe_update(
                            &mut current_q,
                            current_pair,
                            state_reward_pair.get_value(),
                            next_pair,
                        );
                        current_pair = next_pair;
                        step += 1;
                    },
                }
            }
            if failed {
                self.program.fitness = FitnessScore::OutOfBounds;
                return ;
            }
            self.program.registers.reset();
            params.environment.reset();
            trials.push((score, current_q));
            t += 1;
        }
        let median = median_trial(trials);
        proof {
            let pre = trials@;
            assert(exists|j: int| 0 <= j < pre.len() && pre[j] == median);
            let j = choose|j: int| 0 <= j < pre.len() && pre[j] == median;
            assert(pre[j].1.wf());
            assert(pre[j].1.n_registers == self.q_table.n_registers);
            assert(pre[j].1.n_actions == self.q_table.n_actions);
            assert(pre[j].1.q_consts == self.q_table.q_consts);
        }
        let (median_score, median_table) = median;
        self.program.fitness = FitnessScore::Valid(median_score);
        self.q_table = median_table;
    }

    fn get_fitness(&self) -> (r: FitnessScore) {
        self.program.fitness
    }
}

#[derive(Clone, Copy, Debug, PartialEq, Eq, Structural)]
pub struct QProgramGeneratorParameters {
    pub program_parameters: ProgramGeneratorParameters,
    pub consts: QConsts,
}

impl QProgramGeneratorParameters {
    pub open spec fn wf(&self) -> bool {
        &&& self.program_parameters.wf()
        &&& self.consts.wf()
    }

    pub fn new(program_parameters: ProgramGeneratorParameters, consts: QConsts) -> (r: Self)
        ensures
            r == (QProgramGeneratorParameters { program_parameters, consts }),
    {
        QProgramGeneratorParameters { program_parameters, consts }
    }
}

impl<T: ReinforcementLearningInput> Organism for QProgram<T> {
    type GeneratorParameters = QProgramGeneratorParameters;

    open spec fn gen_params_wf(p: &QProgramGeneratorParameters) -> bool {
        p.wf()
    }

    fn check_gen_params(p: &QProgramGeneratorParameters) -> (r: bool) {
        crate::classification::check_program_params(&p.program_parameters) && p.consts.alpha
            <= 1000 && p.consts.gamma <= 1000 && p.consts.epsilon <= 1000
    }

    open spec fn compatible(&self, p: &QProgramGeneratorParameters) -> bool {
        self.program.shaped_by(&p.program_parameters)
    }

    open spec fn breeds_with(&self, other: &Self) -> bool {
        self.program.same_shape(&other.program)
    }

    open spec fn child_of_crossover(&self, a: &Self, b: &Self) -> bool {
        &&& self.program.child_of_crossover_spec(&a.program, &b.program)
        &&& self.q_table.fresh_like(&a.q_table)
    }

    open spec fn child_of_mutation(&self, parent: &Self) -> bool {
        &&& self.program.child_of_mutation_spec(&parent.program)
        &&& self.q_table.fresh_like(&parent.q_table)
    }

    open spec fn duplicate_of(&self, parent: &Self) -> bool {
        &&& self.program.duplicate_of_spec(&parent.program)
        &&& self.q_table.fresh_like(&parent.q_table)
    }

    proof fn lemma_compatible_from_shape(a: &Self, b: &Self, p: &QProgramGeneratorParameters) {
        assert(b.program.registers.data@.len() as int == b.shape()[0]);
        assert(a.program.registers.data@.len() as int == a.shape()[0]);
        assert(b.program.registers.n_actions as int == b.shape()[1]);
        assert(b.program.n_inputs as int == b.shape()[2]);
    }

    proof fn lemma_compatible_breeds(a: &Self, b: &Self, p: &QProgramGeneratorParameters) {
    }

    /// A fresh program within the instruction cap, paired with a freshly
    /// zeroed table of the machine's dimensions and the given constants.
    fn generate(p: &QProgramGeneratorParameters, rng: &mut rand::rngs::StdRng) -> (r: Self)
        ensures
            1 <= r.program.instructions@.len() <= p.program_parameters.max_instructions,
            r.program.registers.data@ == crate::registers::reset_post(
                p.program_parameters.instruction_generator_parameters.n_registers_spec() as nat,
            ),
            r.q_table.n_actions
                == p.program_parameters.instruction_generator_parameters.n_actions,
            r.q_table.n_registers as int
                == p.program_parameters.instruction_generator_parameters.n_registers_spec(),
            r.q_table.q_consts == p.consts,
            forall|i: int, j: int|
                0 <= i < r.q_table.n_registers && 0 <= j < r.q_table.n_actions
                    ==> r.q_table.table_spec()[i][j] == 0i64,
    {
        let program = Program::generate(&p.program_parameters, rng);
        let igp = &p.program_parameters.instruction_generator_parameters;
        let q_table = QTable::new(igp.n_actions, igp.n_registers(), p.consts);
        QProgram { q_table, program }
    }

    /// The program mutates by one edit, staying within the instruction cap
    /// whenever the parent was within it; the child's table starts freshly
    /// zeroed with the parent's dimensions and constants.
    fn mutate(&self, p: &QProgramGeneratorParameters, rng: &mut rand::rngs::StdRng) -> (r: Self)
        ensures
            1 <= r.program.instructions@.len() <= self.program.instructions@.len() + 1,
            self.program.instructions@.len() <= p.program_parameters.max_instructions
                ==> r.program.instructions@.len() <= p.program_parameters.max_instructions,
            exists|idx: int, ins: crate::instruction::Instruction|
                {
                    &&& #[trigger] crate::program::mutated_from(
                        r.program.instructions@,
                        self.program.instructions@,
                        idx,
                        ins,
                        p.program_parameters.max_instructions as int,
                    )
                    &&& ins.wf(
                        p.program_parameters.instruction_generator_parameters.n_registers_spec(),
                        p.program_parameters.instruction_generator_parameters.n_inputs as int,
                    )
                },
            r.q_table.n_actions == self.q_table.n_actions,
            r.q_table.n_registers == self.q_table.n_registers,
            r.q_table.q_consts == self.q_table.q_consts,
            forall|i: int, j: int|
                0 <= i < r.q_table.n_registers && 0 <= j < r.q_table.n_actions
                    ==> r.q_table.table_spec()[i][j] == 0i64,
    {
        let program = Program::mutate(&self.program, &p.program_parameters, rng);
        let child = QProgram { q_table: self.q_table.duplicate_new(), program };
        proof {
            let (idx, ins) = choose|idx: int, ins: crate::instruction::Instruction|
                {
                    &&& #[trigger] crate::program::mutated_from(
                        child.program.instructions@,
                        self.program.instructions@,
                        idx,
                        ins,
                        p.program_parameters.max_instructions as int,
                    )
                    &&& ins.wf(
                        p.program_parameters.instruction_generator_parameters.n_registers_spec(),
                        p.program_parameters.instruction_generator_parameters.n_inputs as int,
                    )
                };
            assert(crate::program::edited_from(
                child.program.instructions@,
                self.program.instructions@,
                idx,
                ins,
            ));
        }
        child
    }

    /// Only the programs cross, at one random chunk of each parent; each
    /// child receives a freshly zeroed table with the parent's dimensions
    /// and constants — learning does not survive reproduction.
    fn two_point_crossover(&self, mate: &Self, rng: &mut rand::rngs::StdRng) -> (r: (Self, Self))
        ensures
            1 <= r.0.program.instructions@.len() <= self.program.instructions@.len()
                + mate.program.instructions@.len(),
            1 <= r.1.program.instructions@.len() <= self.program.instructions@.len()
                + mate.program.instructions@.len(),
            exists|i: int, j: int, k: int, l: int|
                {
                    &&& #[trigger] crate::instructions::valid_cuts(
                        self.program.instructions@,
                        i,
                        j,
                    )
                    &&& #[trigger] crate::instructions::valid_cuts(mate.program.instructions@, k, l)
                    &&& r.0.program.instructions@ == crate::instructions::crossed(
                        self.program.instructions@,
                        mate.program.instructions@,
                        i,
                        j,
                        k,
                        l,
                    )
                    &&& r.1.program.instructions@ == crate::instructions::crossed(
                        mate.program.instructions@,
                        self.program.instructions@,
                        k,
                        l,
                        i,
                        j,
                    )
                },
            r.0.q_table.n_actions == self.q_table.n_actions,
            r.0.q_table.n_registers == self.q_table.n_registers,
            r.0.q_table.q_consts == self.q_table.q_consts,
            r.1.q_table.n_actions == self.q_table.n_actions,
            r.1.q_table.n_registers == self.q_table.n_registers,
            r.1.q_table.q_consts == self.q_table.q_consts,
            forall|i: int, j: int|
                0 <= i < self.q_table.n_registers && 0 <= j < self.q_table.n_actions
                    ==> r.0.q_table.table_spec()[i][j] == 0i64
                        && r.1.q_table.table_spec()[i][j] == 0i64,
    {
        let children = Program::two_point_crossover(&self.program, &mate.program, rng);
        proof {
            let (i, j, k, l) = choose|i: int, j: int, k: int, l: int|
                {
                    &&& #[trigger] crate::instructions::valid_cuts(
                        self.program.instructions@,
                        i,
                        j,
                    )
                    &&& #[trigger] crate::instructions::valid_cuts(mate.program.instructions@, k, l)
                    &&& children.0.instructions@ == crate::instructions::crossed(
                        self.program.instructions@,
                        mate.program.instructions@,
                        i,
                        j,
                        k,
                        l,
                    )
                    &&& children.1.instructions@ == crate::instructions::crossed(
                        mate.program.instructions@,
                        self.program.instructions@,
                        k,
                        l,
                        i,
                        j,
                    )
                };
            assert(crate::instructions::valid_cuts(self.program.instructions@, i, j));
            assert(crate::instructions::valid_cuts(mate.program.instructions@, k, l));
        }
        (
            QProgram { q_table: self.q_table.duplicate_new(), program: children.0 },
            QProgram { q_table: self.q_table.duplicate_new(), program: children.1 },
        )
    }

    fn duplicate_new(&self) -> (r: Self) {
        QProgram {
            q_table: self.q_table.duplicate_new(),
            program: Program::duplicate_new(&self.program),
        }
    }

    fn replicate(&self) -> (r: Self) {
        QProgram { q_table: self.q_table.clone(), program: Program::replicate(&self.program) }
    }
}

/// The genetic algorithm over Q-learning programs: the environment session
/// opens before evaluation and closes after ranking.
pub struct QLgp<T: ReinforcementLearningInput> {
    pub marker: PhantomData<T>,
}

impl<T: ReinforcementLearningInput> GeneticAlgorithm for QLgp<T> {
    type O = QProgram<T>;

    fn on_pre_eval_fitness(
        population: &crate::population::Population<Self::O>,
        params: &mut crate::algorithm::HyperParameters<Self::O>,
    ) {
        params.fitness_parameters.environment.init();
    }

    fn on_post_rank(
        population: &crate::population::Population<Self::O>,
        params: &mut crate::algorithm::HyperParameters<Self::O>,
    ) {
        params.fitness_parameters.environment.finish();
    }
}

} // verus!
