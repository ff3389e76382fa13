//! Splitting a known content length into ordered byte ranges.

use vstd::arithmetic::div_mod::{lemma_fundamental_div_mod, lemma_fundamental_div_mod_converse};
use vstd::arithmetic::mul::{lemma_mul_inequality, lemma_mul_is_distributive_add_other_way};
use vstd::prelude::*;

verus! {

/// A plan describing how a file of `total` bytes is divided into chunks of at
/// most `chunk_size` bytes each.
#[derive(Debug, Clone, Copy)]
pub struct ChunkPlan {
    pub total: u64,
    pub chunk_size: u64,
    pub num_chunks: u64,
}

/// How many pieces of `size` bytes it takes to hold `total` bytes.
pub open spec fn chunk_count(total: int, size: int) -> int {
    (total + size - 1) / size
}

impl ChunkPlan {
    /// The chunk count is the one that the total and the chunk size call for.
    pub open spec fn wf(self) -> bool {
        &&& self.chunk_size > 0
        &&& self.num_chunks == chunk_count(self.total as int, self.chunk_size as int)
    }

    /// Offset of the first byte of chunk `index`.
    pub open spec fn chunk_start(self, index: int) -> int {
        index * self.chunk_size
    }

    /// Offset one past the last byte of chunk `index`.
    pub open spec fn chunk_stop(self, index: int) -> int {
        if (index + 1) * self.chunk_size < self.total {
            (index + 1) * self.chunk_size
        } else {
            self.total as int
        }
    }

    /// The bytes of `file` that chunk `index` covers.
    pub open spec fn slice(self, file: Seq<u8>, index: int) -> Seq<u8> {
        file.subrange(self.chunk_start(index), self.chunk_stop(index))
    }

    /// Build a plan for `total` bytes split into `chunk_size` pieces.
    pub fn new(total: u64, chunk_size: u64) -> (plan: Self)
        requires
            chunk_size > 0,
        ensures
            plan.wf(),
            plan.total == total,
            plan.chunk_size == chunk_size,
    {
        let whole: u64 = total / chunk_size;
        let rest: u64 = total % chunk_size;
        proof {
            lemma_chunk_count(total as int, chunk_size as int);
        }
        let num_chunks: u64 = if rest == 0 { whole } else { whole + 1 };
        ChunkPlan { total, chunk_size, num_chunks }
    }

    /// Inclusive byte range `[start, end]` for chunk `index`, as used in an
    /// HTTP `Range: bytes=start-end` header.
    pub fn range(&self, index: u64) -> (r: (u64, u64))
        requires
            self.wf(),
            index < self.num_chunks,
        ensures
            r.0 == self.chunk_start(index as int),
            r.1 == self.chunk_stop(index as int) - 1,
            r.0 <= r.1 < self.total,
    {
        proof {
            law_chunk_bounds(*self, index as int);
        }
        let start: u64 = index * self.chunk_size;
        let stop: u64 = start.saturating_add(self.chunk_size);
        assert((index + 1) * self.chunk_size == start + self.chunk_size) by {
            lemma_mul_is_distributive_add_other_way(self.chunk_size as int, index as int, 1);
        }
        let end: u64 = if stop < self.total { stop - 1 } else { self.total - 1 };
        (start, end)
    }

    /// Number of bytes in chunk `index`.
    pub fn len(&self, index: u64) -> (n: u64)
        requires
            self.wf(),
            index < self.num_chunks,
        ensures
            n == self.chunk_stop(index as int) - self.chunk_start(index as int),
            1 <= n <= self.chunk_size,
    {
        let (start, end) = self.range(index);
        proof {
            law_chunk_bounds(*self, index as int);
        }
        end - start + 1
    }
}

/// The chunk count in terms of quotient and remainder.
pub(crate) proof fn lemma_chunk_count(total: int, size: int)
    requires
        0 <= total,
        0 < size,
    ensures
        chunk_count(total, size) == total / size + (if total % size == 0 { 0int } else { 1int }),
        0 <= total / size <= total,
        total % size != 0 ==> total / size < total,
        (chunk_count(total, size) - 1) * size < total || total == 0,
        total <= chunk_count(total, size) * size,
        total == 0 ==> chunk_count(total, size) == 0,
{
    let q = total / size;
    let r = total % size;
    lemma_fundamental_div_mod(total, size);
    vstd::arithmetic::mul::lemma_mul_is_commutative(size, q);
    vstd::arithmetic::div_mod::lemma_div_pos_is_pos(total, size);
    vstd::arithmetic::div_mod::lemma_mod_bound(total, size);
    lemma_mul_is_distributive_add_other_way(size, q, 1);
    lemma_mul_is_distributive_add_other_way(size, q, -1);
    if r == 0 {
        lemma_fundamental_div_mod_converse(total + size - 1, size, q, size - 1);
    } else {
        lemma_fundamental_div_mod_converse(total + size - 1, size, q + 1, r - 1);
    }
    assert(q <= q * size) by (nonlinear_arith)
        requires
            q >= 0,
            size >= 1,
    ;
}

/// Every chunk lies inside the file, holds at least one byte and at most
/// `chunk_size` bytes, and only the last chunk may hold fewer.
pub proof fn law_chunk_bounds(plan: ChunkPlan, index: int)
    requires
        plan.wf(),
        0 <= index < plan.num_chunks,
    ensures
        0 <= plan.chunk_start(index) < plan.chunk_stop(index) <= plan.total,
        plan.chunk_stop(index) - plan.chunk_start(index) <= plan.chunk_size,
        index + 1 < plan.num_chunks ==> plan.chunk_stop(index) - plan.chunk_start(index)
            == plan.chunk_size,
        index + 1 == plan.num_chunks ==> plan.chunk_stop(index) == plan.total,
{
    let size = plan.chunk_size as int;
    let total = plan.total as int;
    let n = plan.num_chunks as int;
    lemma_chunk_count(total, size);
    lemma_mul_inequality(index, n - 1, size);
    lemma_mul_is_distributive_add_other_way(size, index, 1);
    if index + 1 < n {
        lemma_mul_inequality(index + 1, n - 1, size);
    }
    vstd::arithmetic::mul::lemma_mul_nonnegative(index, size);
}

/// The ranges tile the file without gaps or overlap: the first chunk starts at
/// offset zero, each chunk starts where the one before it stopped, and the last
/// one stops at the end of the file. A file has no chunk exactly when it is
/// empty.
pub proof fn law_ranges_tile(plan: ChunkPlan)
    requires
        plan.wf(),
    ensures
        plan.num_chunks == 0 <==> plan.total == 0,
        plan.chunk_start(0) == 0,
        forall|i: int|
            0 <= i < plan.num_chunks - 1 ==> #[trigger] plan.chunk_stop(i) == plan.chunk_start(
                i + 1,
            ),
        plan.num_chunks > 0 ==> plan.chunk_stop(plan.num_chunks - 1) == plan.total,
{
    lemma_chunk_count(plan.total as int, plan.chunk_size as int);
    assert forall|i: int| 0 <= i < plan.num_chunks - 1 implies #[trigger] plan.chunk_stop(i)
        == plan.chunk_start(i + 1) by {
        law_chunk_bounds(plan, i + 1);
    }
    if plan.num_chunks > 0 {
        law_chunk_bounds(plan, plan.num_chunks - 1);
    }
}

/// Every byte of the file belongs to exactly one chunk.
pub proof fn law_each_byte_in_one_chunk(plan: ChunkPlan, offset: int)
    requires
        plan.wf(),
        0 <= offset < plan.total,
    ensures
        exists|i: int|
            0 <= i < plan.num_chunks && #[trigger] plan.chunk_start(i) <= offset
                < plan.chunk_stop(i),
        forall|i: int, j: int|
            0 <= i < plan.num_chunks && 0 <= j < plan.num_chunks && (#[trigger] plan.chunk_start(i))
                <= offset < plan.chunk_stop(i) && (#[trigger] plan.chunk_start(j)) <= offset
                < plan.chunk_stop(j) ==> i == j,
{
    let size = plan.chunk_size as int;
    let k = offset / size;
    lemma_fundamental_div_mod(offset, size);
    vstd::arithmetic::mul::lemma_mul_is_commutative(size, k);
    vstd::arithmetic::div_mod::lemma_div_pos_is_pos(offset, size);
    vstd::arithmetic::div_mod::lemma_mod_bound(offset, size);
    lemma_mul_is_distributive_add_other_way(size, k, 1);
    lemma_chunk_count(plan.total as int, size);
    if k >= plan.num_chunks {
        lemma_mul_inequality(plan.num_chunks as int, k, size);
    }
    assert(plan.chunk_start(k) <= offset < plan.chunk_stop(k));
    assert forall|i: int, j: int|
        0 <= i < plan.num_chunks && 0 <= j < plan.num_chunks && (#[trigger] plan.chunk_start(i))
            <= offset < plan.chunk_stop(i) && (#[trigger] plan.chunk_start(j)) <= offset
            < plan.chunk_stop(j) implies i == j by {
        if i < j {
            lemma_mul_inequality(i + 1, j, size);
        }
        if j < i {
            lemma_mul_inequality(j + 1, i, size);
        }
    }
}

/// The bytes of the first `count` chunks of `file`, one after the other.
pub open spec fn joined_slices(plan: ChunkPlan, file: Seq<u8>, count: nat) -> Seq<u8>
    decreases count,
{
    if count == 0 {
        Seq::empty()
    } else {
        joined_slices(plan, file, (count - 1) as nat) + plan.slice(file, count - 1)
    }
}

/// Total number of bytes in the first `count` chunks.
pub open spec fn summed_lengths(plan: ChunkPlan, count: nat) -> int
    decreases count,
{
    if count == 0 {
        0
    } else {
        summed_lengths(plan, (count - 1) as nat) + plan.chunk_stop(count - 1) - plan.chunk_start(
            count - 1,
        )
    }
}

/// The first `count` chunks in index order are the front of the file, up to
/// where chunk `count - 1` stops.
pub proof fn law_joined_prefix(plan: ChunkPlan, file: Seq<u8>, count: nat)
    requires
        plan.wf(),
        file.len() == plan.total,
        count <= plan.num_chunks,
    ensures
        count > 0 ==> joined_slices(plan, file, count) == file.subrange(
            0,
            plan.chunk_stop(count - 1),
        ),
        count == 0 ==> joined_slices(plan, file, count) == Seq::<u8>::empty(),
        summed_lengths(plan, count) == joined_slices(plan, file, count).len(),
    decreases count,
{
    if count > 0 {
        law_joined_prefix(plan, file, (count - 1) as nat);
        law_chunk_bounds(plan, count - 1);
        law_ranges_tile(plan);
        if count > 1 {
            law_chunk_bounds(plan, count - 2);
            assert(plan.chunk_stop(count - 2) == plan.chunk_start(count - 1));
        }
        assert(joined_slices(plan, file, count) =~= file.subrange(0, plan.chunk_stop(count - 1)));
    }
}

/// Joining all chunks in index order gives the file back, byte for byte, and
/// the chunk lengths add up to its size.
pub proof fn law_join_is_identity(plan: ChunkPlan, file: Seq<u8>)
    requires
        plan.wf(),
        file.len() == plan.total,
    ensures
        joined_slices(plan, file, plan.num_chunks as nat) == file,
        summed_lengths(plan, plan.num_chunks as nat) == plan.total,
{
    law_joined_prefix(plan, file, plan.num_chunks as nat);
    law_ranges_tile(plan);
    assert(joined_slices(plan, file, plan.num_chunks as nat) =~= file);
}

/// A plan is the right one exactly when its chunks are enough for the file and one fewer would
/// not be.
pub proof fn law_plan_has_just_enough_chunks(plan: ChunkPlan)
    requires
        plan.chunk_size > 0,
    ensures
        plan.wf() <==> (if plan.total == 0 {
            plan.num_chunks == 0
        } else {
            (plan.num_chunks - 1) * plan.chunk_size < plan.total <= plan.num_chunks
                * plan.chunk_size
        }),
{
    let size = plan.chunk_size as int;
    let n = plan.num_chunks as int;
    let right = chunk_count(plan.total as int, size);
    lemma_chunk_count(plan.total as int, size);
    if plan.total > 0 && (n - 1) * size < plan.total <= n * size {
        if n < right {
            lemma_mul_inequality(n, right - 1, size);
        }
        if right < n {
            lemma_mul_inequality(right, n - 1, size);
        }
    }
}

/// Where a chunk lies: it starts behind as many whole chunks as its index says, and stops a
/// chunk later or at the end of the file; its bytes are those of the file in between.
pub proof fn law_chunk_lies_behind_those_before(plan: ChunkPlan, index: int, file: Seq<u8>, k: int)
    requires
        plan.wf(),
        0 <= index < plan.num_chunks,
        file.len() == plan.total,
    ensures
        plan.chunk_start(index) == index * plan.chunk_size,
        plan.chunk_stop(index) == (if index * plan.chunk_size + plan.chunk_size < plan.total {
            index * plan.chunk_size + plan.chunk_size
        } else {
            plan.total as int
        }),
        plan.slice(file, index).len() == plan.chunk_stop(index) - plan.chunk_start(index),
        0 <= k < plan.slice(file, index).len() ==> plan.slice(file, index)[k] == file[index
            * plan.chunk_size + k],
{
    law_chunk_bounds(plan, index);
    lemma_mul_is_distributive_add_other_way(plan.chunk_size as int, index, 1);
}

} // verus!
