//! Two-point crossover of instruction sequences.  A contiguous non-empty
//! chunk of each parent is chosen and the chunks are exchanged; both children
//! therefore keep at least one instruction and never exceed the parents'
//! combined length.

use vstd::prelude::*;

use crate::instruction::Instruction;
use crate::rng::rand_below;

verus! {

pub type Instructions = Vec<Instruction>;

/// `start..end` is a non-empty chunk of `s`.
pub open spec fn valid_cuts(s: Seq<Instruction>, start: int, end: int) -> bool {
    0 <= start < end <= s.len()
}

/// The child that keeps `a`'s flanks and receives `b`'s chunk.
pub open spec fn crossed(
    a: Seq<Instruction>,
    b: Seq<Instruction>,
    a_start: int,
    a_end: int,
    b_start: int,
    b_end: int,
) -> Seq<Instruction> {
    a.subrange(0, a_start) + b.subrange(b_start, b_end) + a.subrange(a_end, a.len() as int)
}

/// Both children of one crossover, as a pair: the one that keeps `a`'s
/// flanks, then the one that keeps `b`'s.
pub open spec fn crossover_children(
    a: Seq<Instruction>,
    b: Seq<Instruction>,
    a_start: int,
    a_end: int,
    b_start: int,
    b_end: int,
) -> (Seq<Instruction>, Seq<Instruction>) {
    (
        crossed(a, b, a_start, a_end, b_start, b_end),
        crossed(b, a, b_start, b_end, a_start, a_end),
    )
}

/// Crossover is symmetric: crossing `a` with `b` at given cut points yields
/// the same two children as crossing `b` with `a` at the mirrored cut points,
/// only in swapped order.  Taken over all cut points, both directions offer
/// the same collection of child pairs.
pub proof fn lemma_crossover_symmetric(
    a: Seq<Instruction>,
    b: Seq<Instruction>,
    a_start: int,
    a_end: int,
    b_start: int,
    b_end: int,
)
    requires
        valid_cuts(a, a_start, a_end),
        valid_cuts(b, b_start, b_end),
    ensures
        crossover_children(a, b, a_start, a_end, b_start, b_end).0 == crossover_children(
            b,
            a,
            b_start,
            b_end,
            a_start,
            a_end,
        ).1,
        crossover_children(a, b, a_start, a_end, b_start, b_end).1 == crossover_children(
            b,
            a,
            b_start,
            b_end,
            a_start,
            a_end,
        ).0,
{
}

/// An element-wise copy of an instruction sequence.
pub fn copy_instructions(v: &Vec<Instruction>) -> (r: Vec<Instruction>)
    ensures
        r@ == v@,
{
    let n = v.len();
    let mut out: Vec<Instruction> = Vec::new();
    let mut i: usize = 0;
    while i < n
        invariant
            i <= n,
            n == v@.len(),
            out@ =~= v@.subrange(0, i as int),
        decreases n - i,
    {
        out.push(v[i]);
        i += 1;
    }
    assert(out@ =~= v@);
    out
}

/// Copy `a[0..a_start]`, then `b[b_start..b_end]`, then `a[a_end..]`.
fn splice(
    a: &Vec<Instruction>,
    a_start: usize,
    a_end: usize,
    b: &Vec<Instruction>,
    b_start: usize,
    b_end: usize,
) -> (r: Vec<Instruction>)
    requires
        valid_cuts(a@, a_start as int, a_end as int),
        valid_cuts(b@, b_start as int, b_end as int),
    ensures
        r@ == crossed(a@, b@, a_start as int, a_end as int, b_start as int, b_end as int),
{
    let mut out: Vec<Instruction> = Vec::new();
    let mut i: usize = 0;
    while i < a_start
        invariant
            i <= a_start,
            a_start <= a@.len(),
            out@ =~= a@.subrange(0, i as int),
        decreases a_start - i,
    {
        out.push(a[i]);
        i += 1;
    }
    let mut j: usize = b_start;
    while j < b_end
        invariant
            b_start <= j <= b_end,
            b_end <= b@.len(),
            a_start <= a@.len(),
            out@ =~= a@.subrange(0, a_start as int) + b@.subrange(b_start as int, j as int),
        decreases b_end - j,
    {
        out.push(b[j]);
        j += 1;
    }
    let mut k: usize = a_end;
    let n = a.len();
    while k < n
        invariant
            a_end <= k <= n,
            n == a@.len(),
            b_start <= b_end <= b@.len(),
            a_start <= a_end <= a@.len(),
            out@ =~= a@.subrange(0, a_start as int) + b@.subrange(b_start as int, b_end as int)
                + a@.subrange(a_end as int, k as int),
        decreases n - k,
    {
        out.push(a[k]);
        k += 1;
    }
    assert(out@ =~= crossed(a@, b@, a_start as int, a_end as int, b_start as int, b_end as int));
    out
}

/// The deterministic core of crossover: exchange the chunks at the given
/// cut points.  Exactly the pair that `crossover_children` describes.
pub fn crossover_at(
    a: &Vec<Instruction>,
    a_start: usize,
    a_end: usize,
    b: &Vec<Instruction>,
    b_start: usize,
    b_end: usize,
) -> (r: (Vec<Instruction>, Vec<Instruction>))
    requires
        valid_cuts(a@, a_start as int, a_end as int),
        valid_cuts(b@, b_start as int, b_end as int),
    ensures
        r.0@ == crossover_children(
            a@,
            b@,
            a_start as int,
            a_end as int,
            b_start as int,
            b_end as int,
        ).0,
        r.1@ == crossover_children(
            a@,
            b@,
            a_start as int,
            a_end as int,
            b_start as int,
            b_end as int,
        ).1,
{
    (
        splice(a, a_start, a_end, b, b_start, b_end),
        splice(b, b_start, b_end, a, a_start, a_end),
    )
}

/// Sample a non-empty chunk of a sequence of length `len`: a start below
/// `len`, then an end strictly beyond it.  A start on the last element takes
/// the chunk to the end.
fn sample_cuts(len: usize, rng: &mut rand::rngs::StdRng) -> (r: (usize, usize))
    requires
        1 <= len,
    ensures
        r.0 < r.1 <= len,
{
    let start = rand_below(rng, len);
    let end = if start == len - 1 {
        len
    } else {
        start + 1 + rand_below(rng, len - start - 1)
    };
    (start, end)
}

/// Exchange one random non-empty chunk of each parent.  Both children keep at
/// least one instruction and stay within the parents' combined length.
pub fn two_point_crossover(
    a: &Vec<Instruction>,
    mate: &Vec<Instruction>,
    rng: &mut rand::rngs::StdRng,
) -> (r: (Vec<Instruction>, Vec<Instruction>))
    requires
        1 <= a@.len(),
        1 <= mate@.len(),
    ensures
        1 <= r.0@.len() <= a@.len() + mate@.len(),
        1 <= r.1@.len() <= a@.len() + mate@.len(),
        exists|i: int, j: int, k: int, l: int|
            {
                &&& #[trigger] valid_cuts(a@, i, j)
                &&& #[trigger] valid_cuts(mate@, k, l)
                &&& r.0@ == crossed(a@, mate@, i, j, k, l)
                &&& r.1@ == crossed(mate@, a@, k, l, i, j)
            },
{
    let (a_start, a_end) = sample_cuts(a.len(), rng);
    let (b_start, b_end) = sample_cuts(mate.len(), rng);
    let child_a = splice(a, a_start, a_end, mate, b_start, b_end);
    let child_b = splice(mate, b_start, b_end, a, a_start, a_end);
    proof {
        assert(valid_cuts(a@, a_start as int, a_end as int));
        assert(valid_cuts(mate@, b_start as int, b_end as int));
    }
    (child_a, child_b)
}

} // verus!
