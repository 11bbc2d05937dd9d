//! Splitting a target list among the workers of a scan.
//!
//! A list of `total` items is cut into contiguous groups, one per worker.
//! Every group but the last holds `total / workers` items; the last one also
//! takes what the division leaves over. The number of workers is the pool
//! size, held between one and the number of items, so no group is empty.

use crate::order::reversed;
use vstd::prelude::*;

verus! {

/// The number of workers that a scan of `total` targets runs when it is given
/// a pool of `pool_size`: none for an empty list, else the pool size held
/// between 1 and `total`.
pub open spec fn worker_count(total: nat, pool_size: int) -> nat {
    if total == 0 {
        0
    } else if pool_size <= 1 {
        1
    } else if pool_size >= total {
        total
    } else {
        pool_size as nat
    }
}

/// The size of every group but the last.
pub open spec fn chunk_len(total: nat, workers: nat) -> nat {
    if workers == 0 {
        0
    } else {
        total / workers
    }
}

/// The position at which group `k` begins.
pub open spec fn group_start(total: nat, workers: nat, k: nat) -> nat {
    k * chunk_len(total, workers)
}

/// The position just behind group `k`.
pub open spec fn group_end(total: nat, workers: nat, k: nat) -> nat {
    if k + 1 >= workers {
        total
    } else {
        (k + 1) * chunk_len(total, workers)
    }
}

/// Whether position `i` lies in group `k`.
pub open spec fn in_group(total: nat, workers: nat, k: nat, i: nat) -> bool {
    group_start(total, workers, k) <= i < group_end(total, workers, k)
}

/// The group that position `i` lies in.
pub open spec fn group_of(total: nat, workers: nat, i: nat) -> nat {
    if workers == 0 || chunk_len(total, workers) == 0 {
        0
    } else if i / chunk_len(total, workers) >= workers {
        (workers - 1) as nat
    } else {
        i / chunk_len(total, workers)
    }
}

/// The items of group `k`.
pub open spec fn group<T>(items: Seq<T>, workers: nat, k: nat) -> Seq<T> {
    items.subrange(
        group_start(items.len(), workers, k) as int,
        group_end(items.len(), workers, k) as int,
    )
}

/// All groups, in order.
pub open spec fn groups<T>(items: Seq<T>, workers: nat) -> Seq<Seq<T>> {
    Seq::new(workers, |k: int| group(items, workers, k as nat))
}

/// The sizes of the first `upto` groups, added up.
pub open spec fn sizes_sum(total: nat, workers: nat, upto: nat) -> int
    decreases upto,
{
    if upto == 0 {
        0
    } else {
        sizes_sum(total, workers, (upto - 1) as nat) + group_end(
            total,
            workers,
            (upto - 1) as nat,
        ) - group_start(total, workers, (upto - 1) as nat)
    }
}

/// What each vector of `parts` holds, in order.
pub open spec fn contents<T>(parts: Seq<Vec<T>>) -> Seq<Seq<T>> {
    Seq::new(parts.len(), |k: int| parts[k]@)
}

/// With at least one worker and at least one item for each, a chunk is not
/// empty and the chunks of all workers fit into the list, with less than one
/// item per worker left over.
pub proof fn lemma_chunk_bounds(total: nat, workers: nat)
    requires
        1 <= workers <= total,
    ensures
        chunk_len(total, workers) >= 1,
        workers * chunk_len(total, workers) <= total,
        total < workers * chunk_len(total, workers) + workers,
{
    let c = total as int / workers as int;
    assert(c >= 1 && workers * c <= total && total < workers * c + workers)
        by (nonlinear_arith)
        requires
            1 <= workers <= total,
            c == total as int / workers as int,
    ;
}

/// Group starts grow with the group's number, by one chunk per group.
proof fn lemma_starts_step(total: nat, workers: nat, j: nat, k: nat)
    requires
        j <= k,
    ensures
        group_start(total, workers, j) <= group_start(total, workers, k),
        group_start(total, workers, k + 1) == group_start(total, workers, k) + chunk_len(
            total,
            workers,
        ),
{
    let c = chunk_len(total, workers);
    assert(j * c <= k * c && (k + 1) * c == k * c + c) by (nonlinear_arith)
        requires
            j <= k,
    ;
}

/// Every group begins where the one before it ends, and lies within the list.
pub proof fn lemma_group_bounds(total: nat, workers: nat, k: nat)
    requires
        1 <= workers <= total,
        k < workers,
    ensures
        group_start(total, workers, k) < group_end(total, workers, k) <= total,
        k + 1 < workers ==> group_end(total, workers, k) == group_start(total, workers, k + 1),
        k + 1 < workers ==> group_end(total, workers, k) - group_start(total, workers, k)
            == chunk_len(total, workers),
        k + 1 == workers ==> group_end(total, workers, k) - group_start(total, workers, k)
            == chunk_len(total, workers) + total % workers,
{
    let c = chunk_len(total, workers);
    lemma_chunk_bounds(total, workers);
    lemma_starts_step(total, workers, k, k);
    lemma_starts_step(total, workers, k, (workers - 1) as nat);
    lemma_starts_step(total, workers, (workers - 1) as nat, (workers - 1) as nat);
    if k + 1 == workers {
        assert(total as int == workers * c + total % workers) by (nonlinear_arith)
            requires
                workers >= 1,
                c == total as int / workers as int,
        ;
    } else {
        lemma_starts_step(total, workers, k + 1, (workers - 1) as nat);
    }
}

/// The position just behind the first `upto` groups.
pub open spec fn prefix_end(total: nat, workers: nat, upto: nat) -> nat {
    if upto == 0 {
        0
    } else {
        group_end(total, workers, (upto - 1) as nat)
    }
}

/// The first `upto` groups, put end to end, are the items in front of the
/// place where the last of them ends.
proof fn lemma_prefix_rejoins<T>(items: Seq<T>, workers: nat, upto: nat)
    requires
        1 <= workers <= items.len(),
        upto <= workers,
    ensures
        prefix_end(items.len(), workers, upto) <= items.len(),
        groups(items, workers).take(upto as int).flatten() == items.subrange(
            0,
            prefix_end(items.len(), workers, upto) as int,
        ),
    decreases upto,
{
    let all = groups(items, workers);
    let total = items.len();
    if upto == 0 {
        assert(all.take(0) =~= Seq::<Seq<T>>::empty());
    } else {
        let k = (upto - 1) as nat;
        lemma_prefix_rejoins(items, workers, k);
        lemma_group_bounds(total, workers, k);
        if k > 0 {
            lemma_group_bounds(total, workers, (k - 1) as nat);
        } else {
            lemma_starts_step(total, workers, 0, 0);
        }
        assert(all.take(upto as int) =~= all.take(k as int).push(all[k as int]));
        all.take(k as int).lemma_flatten_push(all[k as int]);
        assert(items.subrange(0, prefix_end(total, workers, k) as int) + group(items, workers, k)
            =~= items.subrange(0, prefix_end(total, workers, upto) as int));
    }
}

/// Put end to end in order, the groups are the list that was split: nothing
/// is lost, nothing comes twice, and the order stays.
pub proof fn lemma_groups_rejoin<T>(items: Seq<T>, pool_size: int)
    ensures
        groups(items, worker_count(items.len(), pool_size)).flatten() == items,
{
    let workers = worker_count(items.len(), pool_size);
    if workers == 0 {
        assert(groups(items, workers) =~= Seq::<Seq<T>>::empty());
        assert(items =~= Seq::<T>::empty());
    } else {
        lemma_prefix_rejoins(items, workers, workers);
        assert(groups(items, workers).take(workers as int) =~= groups(items, workers));
        assert(items.subrange(0, items.len() as int) =~= items);
    }
}

/// The sizes of the first `upto` groups add up to the place where the last of
/// them ends.
proof fn lemma_sizes_sum_prefix(total: nat, workers: nat, upto: nat)
    requires
        1 <= workers <= total,
        upto <= workers,
    ensures
        sizes_sum(total, workers, upto) == prefix_end(total, workers, upto),
    decreases upto,
{
    if upto > 0 {
        let k = (upto - 1) as nat;
        lemma_sizes_sum_prefix(total, workers, k);
        lemma_group_bounds(total, workers, k);
        if k > 0 {
            lemma_group_bounds(total, workers, (k - 1) as nat);
        } else {
            lemma_starts_step(total, workers, 0, 0);
        }
    }
}

/// The sizes of all groups add up to the length of the list.
pub proof fn lemma_sizes_add_up(total: nat, pool_size: int)
    ensures
        sizes_sum(total, worker_count(total, pool_size), worker_count(total, pool_size))
            == total,
{
    let workers = worker_count(total, pool_size);
    if workers > 0 {
        lemma_sizes_sum_prefix(total, workers, workers);
    }
}

/// No worker is left without work: every group holds at least one item. All
/// groups but the last hold one chunk; the last holds a chunk and the
/// remainder of the division.
pub proof fn lemma_no_group_is_empty(total: nat, pool_size: int, k: nat)
    requires
        k < worker_count(total, pool_size),
    ensures
        ({
            let workers = worker_count(total, pool_size);
            let size = group_end(total, workers, k) - group_start(total, workers, k);
            &&& size >= 1
            &&& group_end(total, workers, k) <= total
            &&& k + 1 < workers ==> size == total / workers
            &&& k + 1 == workers ==> size == total / workers + total % workers
        }),
{
    lemma_group_bounds(total, worker_count(total, pool_size), k);
}

/// Every position of the list lies in exactly one group, the one that
/// `group_of` names.
pub proof fn lemma_one_group_per_item(total: nat, pool_size: int, i: nat)
    requires
        i < total,
    ensures
        ({
            let workers = worker_count(total, pool_size);
            let k = group_of(total, workers, i);
            &&& k < workers
            &&& in_group(total, workers, k, i)
            &&& forall|j: nat| j < workers && #[trigger] in_group(total, workers, j, i) ==> j == k
        }),
{
    let workers = worker_count(total, pool_size);
    let c = chunk_len(total, workers);
    let k = group_of(total, workers, i);
    lemma_chunk_bounds(total, workers);
    let q = i as int / c as int;
    assert(q * c <= i < q * c + c && q >= 0) by (nonlinear_arith)
        requires
            c >= 1,
            q == i as int / c as int,
    ;
    lemma_group_bounds(total, workers, k);
    if q >= workers {
        lemma_starts_step(total, workers, k, q as nat);
    } else {
        lemma_starts_step(total, workers, k, k);
    }
    assert(in_group(total, workers, k, i));
    assert forall|j: nat| j < workers && #[trigger] in_group(total, workers, j, i) implies j
        == k by {
        lemma_group_bounds(total, workers, j);
        if j < k {
            lemma_starts_step(total, workers, j + 1, k);
        } else if j > k {
            lemma_starts_step(total, workers, k + 1, j);
        }
    }
}

/// A scan of nothing runs no worker, and a pool size of zero or less stands
/// for one worker. There are never more workers than targets, nor more than
/// the pool allows.
pub proof fn lemma_worker_count_is_clamped(total: nat, pool_size: int)
    ensures
        total == 0 ==> worker_count(total, pool_size) == 0,
        total > 0 ==> 1 <= worker_count(total, pool_size) <= total,
        total > 0 && pool_size <= 0 ==> worker_count(total, pool_size) == 1,
        1 <= pool_size <= total ==> worker_count(total, pool_size) == pool_size,
        pool_size > total ==> worker_count(total, pool_size) == total,
        pool_size >= 1 ==> worker_count(total, pool_size) <= pool_size,
{
}

/// The number of workers for `total` targets and a pool of `pool_size`.
pub fn effective_workers(total: usize, pool_size: i64) -> (workers: usize)
    ensures
        workers == worker_count(total as nat, pool_size as int),
{
    if total == 0 {
        0
    } else if pool_size <= 1 {
        1
    } else if pool_size as u64 >= total as u64 {
        total
    } else {
        pool_size as usize
    }
}

/// Splits `items` into the groups of a scan with a pool of `pool_size`.
///
/// The groups come in the order of the list and hold its items in their
/// order, so that group `k` is `group(items, workers, k)`.
pub fn partition<T>(items: Vec<T>, pool_size: i64) -> (parts: Vec<Vec<T>>)
    ensures
        parts@.len() == worker_count(items@.len(), pool_size as int),
        contents(parts@) == groups(items@, worker_count(items@.len(), pool_size as int)),
{
    let total = items.len();
    let workers = effective_workers(total, pool_size);
    if workers == 0 {
        return Vec::new();
    }
    let chunk = total / workers;
    let mut last = workers - 1;
    proof {
        lemma_chunk_bounds(total as nat, workers as nat);
        lemma_group_bounds(total as nat, workers as nat, last as nat);
    }
    let mut at = last * chunk;
    let mut rest = items;
    let mut backwards: Vec<Vec<T>> = Vec::new();
    while last > 0
        invariant
            1 <= workers <= total,
            total == items@.len(),
            chunk == chunk_len(total as nat, workers as nat),
            last < workers,
            at == group_start(total as nat, workers as nat, last as nat),
            rest@ == items@.subrange(
                0,
                group_end(total as nat, workers as nat, last as nat) as int,
            ),
            backwards@.len() == workers - 1 - last,
            forall|j: int|
                0 <= j < backwards@.len() ==> (#[trigger] backwards@[j])@ == group(
                    items@,
                    workers as nat,
                    (workers - 1 - j) as nat,
                ),
        decreases last,
    {
        proof {
            lemma_group_bounds(total as nat, workers as nat, last as nat);
            lemma_group_bounds(total as nat, workers as nat, (last - 1) as nat);
        }
        let tail = rest.split_off(at);
        backwards.push(tail);
        last = last - 1;
        at = at - chunk;
    }
    backwards.push(rest);
    let parts = reversed(backwards);
    proof {
        lemma_group_bounds(total as nat, workers as nat, 0);
        assert(contents(parts@) =~= groups(items@, workers as nat));
    }
    parts
}

} // verus!
