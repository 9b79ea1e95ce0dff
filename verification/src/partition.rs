//! Splitting the requested total into per-worker contiguous index ranges,
//! and the proofs that the split is complete, disjoint, and invisible in
//! the concatenated output.
use vstd::prelude::*;

use vstd::arithmetic::div_mod::lemma_fundamental_div_mod;
use vstd::arithmetic::mul::lemma_mul_inequality;

use crate::generator::{batch_ok_indices, lemma_batch_indices_ordered, lemma_batch_split};

verus! {

/// The width of each worker's index range: the ceiling of total / workers.
pub open spec fn chunk_size(total: nat, workers: nat) -> nat
    recommends
        workers >= 1,
{
    ((total + workers - 1) as nat) / workers
}

/// Where worker `id`'s contiguous range begins.
pub open spec fn worker_start(total: nat, workers: nat, id: nat) -> nat {
    id * chunk_size(total, workers)
}

/// How many indices worker `id` processes: a full chunk, truncated at the
/// total; zero once the start lies at or past the total.
pub open spec fn worker_len(total: nat, workers: nat, id: nat) -> nat {
    let s = worker_start(total, workers, id);
    let c = chunk_size(total, workers);
    if s >= total {
        0
    } else if c <= total - s {
        c
    } else {
        (total - s) as nat
    }
}

/// Worker `id`'s range contains the index `k`.
pub open spec fn in_worker_range(total: nat, workers: nat, id: nat, k: nat) -> bool {
    worker_start(total, workers, id) <= k < worker_start(total, workers, id) + worker_len(
        total,
        workers,
        id,
    )
}

/// The combined length of the ranges of workers `0 .. upto`.
pub open spec fn sum_worker_lens(total: nat, workers: nat, upto: nat) -> nat
    decreases upto,
{
    if upto == 0 {
        0
    } else {
        sum_worker_lens(total, workers, (upto - 1) as nat) + worker_len(
            total,
            workers,
            (upto - 1) as nat,
        )
    }
}

/// Computes worker `id`'s sub-range of `[0, total)` as (start, length).
pub fn partition_range(total: usize, workers: usize, id: usize) -> (r: (usize, usize))
    requires
        1 <= workers,
        id < workers,
        total + workers <= usize::MAX,
    ensures
        r.0 == worker_start(total as nat, workers as nat, id as nat),
        r.1 == worker_len(total as nat, workers as nat, id as nat),
{
    let chunk = (total + workers - 1) / workers;
    proof {
        lemma_chunk_bounds(total as nat, workers as nat);
        lemma_mul_inequality(id as int, workers as int - 1, chunk as int);
        assert((workers as int - 1) * chunk + chunk == workers as int * chunk)
            by (nonlinear_arith);
    }
    let start = id * chunk;
    let len = if start >= total {
        0
    } else {
        let rem = total - start;
        if chunk <= rem {
            chunk
        } else {
            rem
        }
    };
    (start, len)
}

/// The chunk width satisfies `workers * chunk >= total` (every index is
/// covered) and `workers * chunk <= total + workers - 1` (so each start
/// fits in the machine range the caller checked).
pub proof fn lemma_chunk_bounds(total: nat, workers: nat)
    requires
        workers >= 1,
    ensures
        workers * chunk_size(total, workers) >= total,
        workers * chunk_size(total, workers) <= total + workers - 1,
{
    let t = (total + workers - 1) as int;
    lemma_fundamental_div_mod(t, workers as int);
    assert(t == workers * (t / (workers as int)) + t % (workers as int));
    assert(0 <= t % (workers as int) < workers as int);
}

/// The combined length of the first `upto` ranges: `upto` full chunks,
/// truncated at the total.
pub proof fn lemma_sum_worker_lens(total: nat, workers: nat, upto: nat)
    requires
        workers >= 1,
    ensures
        sum_worker_lens(total, workers, upto) == if upto * chunk_size(total, workers) <= total {
            upto * chunk_size(total, workers)
        } else {
            total
        },
    decreases upto,
{
    let c = chunk_size(total, workers);
    if upto > 0 {
        let p = (upto - 1) as nat;
        lemma_sum_worker_lens(total, workers, p);
        assert(upto * c == p * c + c) by (nonlinear_arith)
            requires
                upto >= 1,
                p == upto - 1,
        ;
        let s = worker_start(total, workers, p);
        assert(s == p * c);
        if s >= total {
            assert(sum_worker_lens(total, workers, upto) == total);
            assert(upto * c >= total);
        } else if c <= total - s {
            assert(sum_worker_lens(total, workers, upto) == upto * c);
        } else {
            assert(sum_worker_lens(total, workers, upto) == total);
            assert(upto * c > total);
        }
    } else {
        assert(upto * c == 0) by (nonlinear_arith)
            requires
                upto == 0,
        ;
        assert(sum_worker_lens(total, workers, upto) == 0);
    }
}

/// Some worker's range contains the index `k`.
pub open spec fn some_worker_covers(total: nat, workers: nat, k: nat) -> bool {
    exists|id: nat| id < workers && #[trigger] in_worker_range(total, workers, id, k)
}

/// Partition completeness: the worker ranges cover `[0, total)` without gap
/// or overlap, and their lengths add up to exactly the total.
pub proof fn lemma_partition_complete(total: nat, workers: nat)
    requires
        workers >= 1,
    ensures
        sum_worker_lens(total, workers, workers) == total,
        forall|k: nat| k < total ==> #[trigger] some_worker_covers(total, workers, k),
        forall|id1: nat, id2: nat, k: nat|
            id1 < workers && id2 < workers && #[trigger] in_worker_range(total, workers, id1, k)
                && #[trigger] in_worker_range(total, workers, id2, k) ==> id1 == id2,
{
    let c = chunk_size(total, workers);
    lemma_sum_worker_lens(total, workers, workers);
    lemma_chunk_bounds(total, workers);
    assert forall|k: nat| k < total implies #[trigger] some_worker_covers(total, workers, k) by {
        lemma_partition_covers(total, workers, k);
    }
    assert forall|id1: nat, id2: nat, k: nat|
        id1 < workers && id2 < workers && #[trigger] in_worker_range(total, workers, id1, k)
            && #[trigger] in_worker_range(total, workers, id2, k) implies id1 == id2 by {
        if id1 < id2 {
            lemma_partition_disjoint(total, workers, id1, id2, k);
        } else if id2 < id1 {
            lemma_partition_disjoint(total, workers, id2, id1, k);
        }
    }
}

/// Every index below the total falls in the range of the worker `k / chunk`.
proof fn lemma_partition_covers(total: nat, workers: nat, k: nat)
    requires
        workers >= 1,
        k < total,
    ensures
        some_worker_covers(total, workers, k),
{
    let c = chunk_size(total, workers);
    lemma_chunk_bounds(total, workers);
    if c == 0 {
        assert(workers * 0 == 0) by (nonlinear_arith);
        assert(false);
    }
    let id = k / c;
    lemma_fundamental_div_mod(k as int, c as int);
    assert(0 <= (k as int) % (c as int) < c as int);
    assert(worker_start(total, workers, id) == id * c);
    assert(id * c <= k < id * c + c);
    if id >= workers {
        lemma_mul_inequality(workers as int, id as int, c as int);
        assert(false);
    }
    assert(in_worker_range(total, workers, id, k));
    assert(id < workers && in_worker_range(total, workers, id, k));
}

/// Two distinct workers' ranges share no index.
proof fn lemma_partition_disjoint(total: nat, workers: nat, id1: nat, id2: nat, k: nat)
    requires
        workers >= 1,
        id1 < id2 < workers,
        in_worker_range(total, workers, id1, k),
    ensures
        !in_worker_range(total, workers, id2, k),
{
    let c = chunk_size(total, workers);
    assert((id1 + 1) * c == id1 * c + c) by (nonlinear_arith);
    lemma_mul_inequality(id1 as int + 1, id2 as int, c as int);
}

/// The per-worker outputs, concatenated in worker order: the indices kept by
/// workers `0 .. upto`.
pub open spec fn concat_ok_indices(
    seed: Seq<u8>,
    total: nat,
    workers: nat,
    upto: nat,
) -> Seq<nat>
    decreases upto,
{
    if upto == 0 {
        Seq::empty()
    } else {
        concat_ok_indices(seed, total, workers, (upto - 1) as nat) + batch_ok_indices(
            seed,
            worker_start(total, workers, (upto - 1) as nat),
            worker_len(total, workers, (upto - 1) as nat),
        )
    }
}

/// The first `upto` workers together yield exactly the single-batch output
/// of the first `sum_worker_lens` indices.
proof fn lemma_concat_prefix(seed: Seq<u8>, total: nat, workers: nat, upto: nat)
    requires
        workers >= 1,
        upto <= workers,
    ensures
        concat_ok_indices(seed, total, workers, upto) == batch_ok_indices(
            seed,
            0,
            sum_worker_lens(total, workers, upto),
        ),
    decreases upto,
{
    if upto == 0 {
        assert(concat_ok_indices(seed, total, workers, 0) =~= batch_ok_indices(seed, 0, 0));
    } else {
        lemma_concat_prefix(seed, total, workers, (upto - 1) as nat);
        let prev = (upto - 1) as nat;
        let s_prev = sum_worker_lens(total, workers, prev);
        let start = worker_start(total, workers, prev);
        let len = worker_len(total, workers, prev);
        let c = chunk_size(total, workers);
        lemma_sum_worker_lens(total, workers, prev);
        if start >= total {
            assert(len == 0);
            assert(s_prev == total);
            assert(batch_ok_indices(seed, start, 0) == Seq::<nat>::empty());
            assert(concat_ok_indices(seed, total, workers, upto) =~= batch_ok_indices(
                seed,
                0,
                s_prev,
            ));
            assert(sum_worker_lens(total, workers, upto) == s_prev);
        } else {
            assert(s_prev == start);
            lemma_batch_split(seed, 0, s_prev, len);
            assert(sum_worker_lens(total, workers, upto) == s_prev + len);
        }
    }
}

/// Partition invariance: concatenating the per-worker outputs in worker
/// order yields exactly the output of one batch over the whole range
/// `[0, total)`, whatever the worker count.
pub proof fn lemma_concat_matches_whole(seed: Seq<u8>, total: nat, workers: nat)
    requires
        workers >= 1,
    ensures
        concat_ok_indices(seed, total, workers, workers) == batch_ok_indices(seed, 0, total),
{
    lemma_concat_prefix(seed, total, workers, workers);
    lemma_partition_complete(total, workers);
}

/// Order preservation: the concatenated output is strictly ascending by
/// derivation index, however the workers were scheduled.
pub proof fn lemma_output_strictly_ascending(seed: Seq<u8>, total: nat, workers: nat)
    requires
        workers >= 1,
    ensures
        forall|j1: int, j2: int|
            0 <= j1 < j2 < concat_ok_indices(seed, total, workers, workers).len()
                ==> #[trigger] concat_ok_indices(seed, total, workers, workers)[j1]
                < #[trigger] concat_ok_indices(seed, total, workers, workers)[j2],
{
    lemma_concat_matches_whole(seed, total, workers);
    lemma_batch_indices_ordered(seed, 0, total);
}

} // verus!
