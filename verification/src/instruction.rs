//! A single register-machine instruction: a four-tuple of operation, mode and
//! two indices.  Execution folds one operand into a target register.  The
//! arithmetic is total: a result outside the 64-bit range is clamped and sets
//! the register vector's sticky overflow mark, which later poisons the
//! program's fitness.

use vstd::prelude::*;

use crate::registers::{Registers, MAX_REGISTERS};
use crate::rng::rand_below;

verus! {

#[derive(Clone, Copy, Debug, PartialEq, Eq, Structural)]
pub enum Op {
    Add,
    Sub,
    Mul,
    Div,
}

/// Where the operand comes from: the input vector or a register.
#[derive(Clone, Copy, Debug, PartialEq, Eq, Structural)]
pub enum Mode {
    External,
    Internal,
}

#[derive(Clone, Copy, Debug, PartialEq, Eq, Structural)]
pub struct Instruction {
    pub op_code: Op,
    pub mode: Mode,
    pub source_index: usize,
    pub target_index: usize,
}

pub open spec fn abs_int(a: int) -> int {
    if a < 0 {
        -a
    } else {
        a
    }
}

/// Division truncating toward zero, as the machine's division does.
pub open spec fn trunc_div(a: int, b: int) -> int
    recommends
        b != 0,
{
    let q = abs_int(a) / abs_int(b);
    if (a < 0) != (b < 0) {
        -q
    } else {
        q
    }
}

/// The exact mathematical result of an operation; division by zero divides by
/// two instead, so every operation is total.
pub open spec fn op_value(op: Op, target: int, source: int) -> int {
    match op {
        Op::Add => target + source,
        Op::Sub => target - source,
        Op::Mul => target * source,
        Op::Div => if source == 0 {
            trunc_div(target, 2)
        } else {
            trunc_div(target, source)
        },
    }
}

pub open spec fn in_i64(v: int) -> bool {
    i64::MIN <= v <= i64::MAX
}

pub open spec fn clamp_i64(v: int) -> i64 {
    if v > i64::MAX {
        i64::MAX
    } else if v < i64::MIN {
        i64::MIN
    } else {
        v as i64
    }
}

impl Instruction {
    /// Indices are in bounds for a machine of `n_registers` registers fed by
    /// `n_inputs` input cells.
    pub open spec fn wf(&self, n_registers: int, n_inputs: int) -> bool {
        &&& (self.target_index as int) < n_registers
        &&& (self.mode is External ==> (self.source_index as int) < n_inputs)
        &&& (self.mode is Internal ==> (self.source_index as int) < n_registers)
    }

    /// The register vector and overflow mark after executing `self`.
    pub open spec fn apply_spec(&self, data: Seq<i64>, flag: bool, input: Seq<i64>) -> (Seq<
        i64,
    >, bool) {
        let source: int = if self.mode is External {
            input[self.source_index as int] as int
        } else {
            data[self.source_index as int] as int
        };
        let target: int = data[self.target_index as int] as int;
        let v = op_value(self.op_code, target, source);
        (data.update(self.target_index as int, clamp_i64(v)), flag || !in_i64(v))
    }

    /// Execute against a register vector and an input vector:
    /// `R[target] = op(R[target], src)` with `src` drawn from the input
    /// vector in external mode and from the registers in internal mode.
    pub fn apply(&self, regs: &mut Registers, input: &Vec<i64>)
        requires
            old(regs).wf(),
            self.wf(old(regs).data@.len() as int, input@.len() as int),
        ensures
            final(regs).wf(),
            final(regs).n_actions == old(regs).n_actions,
            final(regs).data@ == self.apply_spec(
                old(regs).data@,
                old(regs).overflowed,
                input@,
            ).0,
            final(regs).overflowed == self.apply_spec(
                old(regs).data@,
                old(regs).overflowed,
                input@,
            ).1,
    {
        let source: i64 = match self.mode {
            Mode::External => input[self.source_index],
            Mode::Internal => regs.data[self.source_index],
        };
        let target: i64 = regs.data[self.target_index];
        let (v, out) = match self.op_code {
            Op::Add => add_clamped(target, source),
            Op::Sub => sub_clamped(target, source),
            Op::Mul => mul_clamped(target, source),
            Op::Div => div_clamped(target, source),
        };
        regs.data[self.target_index] = v;
        if out {
            regs.overflowed = true;
        }
    }

    /// A uniformly random instruction whose indices are in bounds for the
    /// machine that `params` describes.
    pub fn generate(
        params: &InstructionGeneratorParameters,
        rng: &mut rand::rngs::StdRng,
    ) -> (r: Instruction)
        requires
            params.wf(),
        ensures
            r.wf(params.n_registers_spec(), params.n_inputs as int),
    {
        let n_registers = params.n_registers();
        let op_code = match rand_below(rng, 4) {
            0 => Op::Add,
            1 => Op::Sub,
            2 => Op::Mul,
            _ => Op::Div,
        };
        let mode = if rand_below(rng, 2) == 0 {
            Mode::External
        } else {
            Mode::Internal
        };
        let source_index = match mode {
            Mode::External => rand_below(rng, params.n_inputs),
            Mode::Internal => rand_below(rng, n_registers),
        };
        let target_index = rand_below(rng, n_registers);
        Instruction { op_code, mode, source_index, target_index }
    }
}

/// How instructions are sampled: the machine has one register per action and
/// per input plus `n_extras` scratch registers.
#[derive(Clone, Copy, Debug, PartialEq, Eq, Structural)]
pub struct InstructionGeneratorParameters {
    pub n_extras: usize,
    pub n_inputs: usize,
    pub n_actions: usize,
}

impl InstructionGeneratorParameters {
    pub open spec fn wf(&self) -> bool {
        &&& 1 <= self.n_actions
        &&& 1 <= self.n_inputs
        &&& self.n_actions + self.n_inputs + self.n_extras <= MAX_REGISTERS
    }

    pub open spec fn n_registers_spec(&self) -> int {
        self.n_actions + self.n_inputs + self.n_extras
    }

    pub fn n_registers(&self) -> (r: usize)
        requires
            self.wf(),
        ensures
            r == self.n_registers_spec(),
    {
        self.n_actions + self.n_inputs + self.n_extras
    }
}

fn add_clamped(a: i64, b: i64) -> (r: (i64, bool))
    ensures
        r.0 == clamp_i64(a + b),
        r.1 == !in_i64(a + b),
{
    let v: i128 = a as i128 + b as i128;
    if v > i64::MAX as i128 {
        (i64::MAX, true)
    } else if v < i64::MIN as i128 {
        (i64::MIN, true)
    } else {
        (v as i64, false)
    }
}

fn sub_clamped(a: i64, b: i64) -> (r: (i64, bool))
    ensures
        r.0 == clamp_i64(a - b),
        r.1 == !in_i64(a - b),
{
    let v: i128 = a as i128 - b as i128;
    if v > i64::MAX as i128 {
        (i64::MAX, true)
    } else if v < i64::MIN as i128 {
        (i64::MIN, true)
    } else {
        (v as i64, false)
    }
}

fn mul_clamped(a: i64, b: i64) -> (r: (i64, bool))
    ensures
        r.0 == clamp_i64(a * b),
        r.1 == !in_i64(a * b),
{
    proof {
        assert((a as int) * (b as int) <= 85070591730234615865843651857942052864int && (a as int)
            * (b as int) >= -85070591730234615865843651857942052864int) by (nonlinear_arith)
            requires
                -9223372036854775808int <= (a as int) <= 9223372036854775807int,
                -9223372036854775808int <= (b as int) <= 9223372036854775807int,
        ;
    }
    let v: i128 = (a as i128) * (b as i128);
    if v > i64::MAX as i128 {
        (i64::MAX, true)
    } else if v < i64::MIN as i128 {
        (i64::MIN, true)
    } else {
        (v as i64, false)
    }
}

fn abs_to_u64(a: i64) -> (r: u64)
    ensures
        r == abs_int(a as int),
{
    if a >= 0 {
        a as u64
    } else {
        (-(a as i128)) as u64
    }
}

fn div_clamped(a: i64, b: i64) -> (r: (i64, bool))
    ensures
        r.0 == clamp_i64(op_value(Op::Div, a as int, b as int)),
        r.1 == !in_i64(op_value(Op::Div, a as int, b as int)),
{
    let d: i64 = if b == 0 {
        2
    } else {
        b
    };
    let neg: bool = (a < 0) != (d < 0);
    let ma: u64 = abs_to_u64(a);
    let md: u64 = abs_to_u64(d);
    let q: u64 = ma / md;
    assert(q <= ma);
    if neg {
        if q == 9223372036854775808u64 {
            (i64::MIN, false)
        } else {
            ((-(q as i64)) as i64, false)
        }
    } else {
        if q > i64::MAX as u64 {
            (i64::MAX, true)
        } else {
            (q as i64, false)
        }
    }
}

} // verus!
