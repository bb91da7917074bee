use vstd::prelude::*;
use vstd::arithmetic::power2::{pow2, lemma2_to64, lemma_pow2_strictly_increases, lemma_pow2_pos};
use vstd::arithmetic::div_mod::{
    lemma_fundamental_div_mod_converse, lemma_fundamental_div_mod, lemma_div_is_ordered,
    lemma_div_pos_is_pos, lemma_mod_pos_bound,
};
use vstd::arithmetic::mul::lemma_mul_inequality;
use vstd::bits::{lemma_u64_shl_is_mul, lemma_u64_pow2_no_overflow};
use crate::circuit::CircuitType;

verus! {

/// One atomic unit of proof work: the blocks `start..=end` for one circuit type.
#[derive(Clone, Copy, Debug, PartialEq, Eq, Structural)]
pub struct Task {
    pub start: u32,
    pub end: u32,
    pub circuit_type: CircuitType,
}

impl Task {
    pub fn new(start: u32, end: u32, circuit_type: CircuitType) -> (r: Task)
        ensures
            r.start == start,
            r.end == end,
            r.circuit_type == circuit_type,
    {
        Task { start, end, circuit_type }
    }
}

/// The largest number of blocks a task may span at `depth`.
pub open spec fn stride(depth: nat) -> int {
    pow2(depth) as int
}

/// How many tasks chunking `[start, end]` at `depth` yields.
pub open spec fn chunk_count(start: int, end: int, depth: nat) -> int {
    (end - start) / stride(depth) + 1
}

/// First block of the `k`-th task.
pub open spec fn chunk_lo(start: int, depth: nat, k: int) -> int {
    start + k * stride(depth)
}

/// Last block of the `k`-th task: a full stride, clamped at `end`.
pub open spec fn chunk_hi(start: int, end: int, depth: nat, k: int) -> int {
    if chunk_lo(start, depth, k) + stride(depth) - 1 <= end {
        chunk_lo(start, depth, k) + stride(depth) - 1
    } else {
        end
    }
}

/// `tasks` is the chunking of `[start, end]` at `depth`, every task of `circuit_type`.
pub open spec fn is_chunking(
    tasks: Seq<Task>,
    start: int,
    end: int,
    depth: nat,
    circuit_type: CircuitType,
) -> bool {
    &&& tasks.len() == chunk_count(start, end, depth)
    &&& forall|k: int|
        0 <= k < tasks.len() ==> {
            &&& #[trigger] tasks[k].start == chunk_lo(start, depth, k)
            &&& tasks[k].end == chunk_hi(start, end, depth, k)
            &&& tasks[k].circuit_type == circuit_type
        }
}

/// Block `u` lies in the `k`-th task of chunking `[start, end]` at `depth`.
pub open spec fn chunk_covers(start: int, end: int, depth: nat, k: int, u: int) -> bool {
    chunk_lo(start, depth, k) <= u <= chunk_hi(start, end, depth, k)
}

/// The index of the task that block `u` falls in.
pub open spec fn chunk_of(start: int, depth: nat, u: int) -> int {
    (u - start) / stride(depth)
}

/// Chunking `[start, end]` at any depth partitions the range exactly: there is
/// at least one task, the first starts at `start`, the last ends at `end`, each
/// task starts on the block right after the previous one ends, no task is empty
/// or spans more than `2^depth` blocks, and every block of the range lies in
/// exactly one task.
pub proof fn lemma_chunks_partition(start: int, end: int, depth: nat)
    requires
        start <= end,
    ensures
        chunk_count(start, end, depth) >= 1,
        chunk_lo(start, depth, 0) == start,
        chunk_hi(start, end, depth, chunk_count(start, end, depth) - 1) == end,
        forall|k: int|
            0 <= k < chunk_count(start, end, depth) ==> chunk_lo(start, depth, k)
                <= #[trigger] chunk_hi(start, end, depth, k) && chunk_hi(start, end, depth, k)
                - chunk_lo(start, depth, k) + 1 <= stride(depth),
        forall|k: int|
            0 <= k < chunk_count(start, end, depth) - 1 ==> #[trigger] chunk_hi(
                start,
                end,
                depth,
                k,
            ) + 1 == chunk_lo(start, depth, k + 1),
        forall|u: int|
            start <= u <= end ==> 0 <= #[trigger] chunk_of(start, depth, u) < chunk_count(
                start,
                end,
                depth,
            ) && chunk_covers(start, end, depth, chunk_of(start, depth, u), u),
        forall|u: int, j: int, k: int|
            0 <= j < chunk_count(start, end, depth) && 0 <= k < chunk_count(start, end, depth)
                && #[trigger] chunk_covers(start, end, depth, j, u) && #[trigger] chunk_covers(
                start,
                end,
                depth,
                k,
                u,
            ) ==> j == k,
{
    let w = stride(depth);
    let x = end - start;
    let q = x / w;
    lemma_pow2_pos(depth);
    lemma_div_pos_is_pos(x, w);
    lemma_fundamental_div_mod(x, w);
    lemma_mod_pos_bound(x, w);
    assert(chunk_lo(start, depth, 0) == start) by (nonlinear_arith)
        requires
            chunk_lo(start, depth, 0) == start + 0 * w,
    ;
    assert(start + q * w + w - 1 >= end && start + q * w <= end) by (nonlinear_arith)
        requires
            x == w * q + x % w,
            0 <= x % w < w,
            x == end - start,
    ;
    assert forall|k: int| 0 <= k < chunk_count(start, end, depth) implies chunk_lo(start, depth, k)
        <= #[trigger] chunk_hi(start, end, depth, k) && chunk_hi(start, end, depth, k) - chunk_lo(
        start,
        depth,
        k,
    ) + 1 <= stride(depth) by {
        lemma_mul_inequality(k, q, w);
        assert(q * w <= x) by (nonlinear_arith)
            requires
                x == w * q + x % w,
                0 <= x % w,
        ;
    }
    assert forall|k: int| 0 <= k < chunk_count(start, end, depth) - 1 implies #[trigger] chunk_hi(
        start,
        end,
        depth,
        k,
    ) + 1 == chunk_lo(start, depth, k + 1) by {
        lemma_mul_inequality(k + 1, q, w);
        assert((k + 1) * w == k * w + w) by (nonlinear_arith);
        assert(q * w <= x) by (nonlinear_arith)
            requires
                x == w * q + x % w,
                0 <= x % w,
        ;
    }
    assert forall|u: int| start <= u <= end implies 0 <= #[trigger] chunk_of(start, depth, u)
        < chunk_count(start, end, depth) && chunk_covers(
        start,
        end,
        depth,
        chunk_of(start, depth, u),
        u,
    ) by {
        let y = u - start;
        let k = y / w;
        lemma_div_pos_is_pos(y, w);
        lemma_div_is_ordered(y, x, w);
        lemma_fundamental_div_mod(y, w);
        lemma_mod_pos_bound(y, w);
        assert(k * w <= y && y <= k * w + w - 1) by (nonlinear_arith)
            requires
                y == w * k + y % w,
                0 <= y % w < w,
        ;
        assert(chunk_covers(start, end, depth, k, u));
    }
    assert forall|u: int, j: int, k: int|
        0 <= j < chunk_count(start, end, depth) && 0 <= k < chunk_count(start, end, depth)
            && #[trigger] chunk_covers(start, end, depth, j, u) && #[trigger] chunk_covers(
            start,
            end,
            depth,
            k,
            u,
        ) implies j == k by {
        if j < k {
            lemma_mul_inequality(j + 1, k, w);
            assert((j + 1) * w == j * w + w) by (nonlinear_arith);
        } else if k < j {
            lemma_mul_inequality(k + 1, j, w);
            assert((k + 1) * w == k * w + w) by (nonlinear_arith);
        }
    }
}

/// Splits the blocks `start..=end` into tasks of at most `2^depth` blocks each,
/// stepping from `start` in strides of `2^depth` and clamping the last task at `end`.
pub fn chunk(start: u32, end: u32, depth: usize, circuit_type: CircuitType) -> (r: Vec<Task>)
    requires
        start <= end,
    ensures
        is_chunking(r@, start as int, end as int, depth as nat, circuit_type),
{
    let mut out: Vec<Task> = Vec::new();
    if depth >= 32 {
        proof {
            lemma2_to64();
            if depth > 32 {
                lemma_pow2_strictly_increases(32, depth as nat);
            }
            assert(0 <= end - start < stride(depth as nat));
            lemma_fundamental_div_mod_converse(end - start, stride(depth as nat), 0, end - start);
        }
        out.push(Task::new(start, end, circuit_type));
        return out;
    }
    let w: u64 = 1u64 << (depth as u64);
    proof {
        lemma_u64_pow2_no_overflow(depth as nat);
        lemma_u64_shl_is_mul(1, depth as u64);
        lemma_pow2_pos(depth as nat);
        vstd::bits::lemma_u32_pow2_no_overflow(depth as nat);
    }
    assert(w == stride(depth as nat));
    let mut lo: u64 = start as u64;
    assert(out@.len() == 0);
    assert(lo as int == start as int + out.len() as int * w as int) by (nonlinear_arith)
        requires
            lo == start,
            out.len() == 0,
    ;
    while lo <= end as u64
        invariant
            w == stride(depth as nat),
            0 < w <= u32::MAX,
            start <= end,
            lo as int == start as int + out.len() as int * w as int,
            start as int <= lo as int <= end as int + w as int,
            out.len() > 0 ==> lo as int - w as int <= end as int,
            forall|k: int|
                0 <= k < out.len() ==> {
                    &&& #[trigger] out@[k].start == chunk_lo(start as int, depth as nat, k)
                    &&& out@[k].end == chunk_hi(start as int, end as int, depth as nat, k)
                    &&& out@[k].circuit_type == circuit_type
                },
        decreases (end as int) + (w as int) - (lo as int),
    {
        let hi: u64 = if lo + w - 1 <= end as u64 {
            lo + w - 1
        } else {
            end as u64
        };
        let ghost k = out.len() as int;
        assert(lo == chunk_lo(start as int, depth as nat, k));
        assert(hi == chunk_hi(start as int, end as int, depth as nat, k));
        let ghost prev = out@;
        out.push(Task::new(lo as u32, hi as u32, circuit_type));
        assert(forall|i: int| 0 <= i < k ==> out@[i] == prev[i]);
        lo = lo + w;
        assert(lo as int == start as int + out.len() as int * w as int) by (nonlinear_arith)
            requires
                lo as int == start as int + k * w as int + w as int,
                out.len() as int == k + 1,
        ;
    }
    proof {
        let n = out.len() as int;
        let x = end - start;
        assert(x == (n - 1) * w + (x - (n - 1) * w)) by (nonlinear_arith);
        assert((n - 1) * w == n * w - w) by (nonlinear_arith);
        lemma_fundamental_div_mod_converse(x, w as int, n - 1, x - (n - 1) * w);
    }
    out
}

} // verus!
