//! The coordinator of a scan: it splits the targets among the workers, lets
//! each worker go through its group, and joins what they found.

use crate::order::reversed;
use crate::partition::{contents, group, group_end, group_start, groups, lemma_group_bounds,
    lemma_groups_rejoin, partition, worker_count};
use crate::probe::ProbeError;
use crate::status::ServerStatus;
use crate::target::ScanTarget;
use crate::worker::{lemma_every_outcome_counts_once, lemma_successes_push, successes, Worker};
use vstd::prelude::*;

verus! {

/// What one worker hands in: its findings, or nothing where the worker broke
/// off abnormally.
pub open spec fn contribution<T>(part: Option<Vec<T>>) -> Seq<T> {
    match part {
        Some(found) => found@,
        None => Seq::empty(),
    }
}

/// What the workers hand in, in the order of their groups.
pub open spec fn contributions<T>(parts: Seq<Option<Vec<T>>>) -> Seq<Seq<T>> {
    Seq::new(parts.len(), |k: int| contribution(parts[k]))
}

/// The statuses that each worker finds when the probes of the targets end as
/// `outcomes` says, target by target, and the pool has `pool_size` workers.
pub open spec fn found_by_workers(
    outcomes: Seq<Result<ServerStatus, ProbeError>>,
    pool_size: int,
) -> Seq<Seq<ServerStatus>> {
    let per_worker = groups(outcomes, worker_count(outcomes.len(), pool_size));
    Seq::new(per_worker.len(), |k: int| successes(per_worker[k]))
}

/// The result of a scan in which no worker breaks off: the workers' findings,
/// joined in the order of their groups.
pub open spec fn scan_result(
    outcomes: Seq<Result<ServerStatus, ProbeError>>,
    pool_size: int,
) -> Seq<ServerStatus> {
    found_by_workers(outcomes, pool_size).flatten()
}

/// How many of `outcomes` are a status.
pub open spec fn succeeded(outcomes: Seq<Result<ServerStatus, ProbeError>>) -> nat {
    outcomes.filter(|outcome: Result<ServerStatus, ProbeError>| outcome is Ok).len()
}

/// The statuses among two runs of outcomes, one behind the other, are those
/// of the first followed by those of the second.
pub proof fn lemma_successes_add(
    first: Seq<Result<ServerStatus, ProbeError>>,
    second: Seq<Result<ServerStatus, ProbeError>>,
)
    ensures
        successes(first + second) == successes(first) + successes(second),
    decreases second.len(),
{
    if second.len() == 0 {
        assert(first + second =~= first);
        assert(successes(second) =~= Seq::<ServerStatus>::empty());
    } else {
        let front = second.drop_last();
        let last = second.last();
        assert(first + second =~= (first + front).push(last));
        assert(second =~= front.push(last));
        lemma_successes_add(first, front);
        lemma_successes_push(first + front, last);
        lemma_successes_push(front, last);
    }
}

/// Taking the statuses group by group and joining them gives the statuses of
/// the groups joined.
proof fn lemma_successes_of_joined(per_worker: Seq<Seq<Result<ServerStatus, ProbeError>>>)
    ensures
        Seq::new(per_worker.len(), |k: int| successes(per_worker[k])).flatten() == successes(
            per_worker.flatten(),
        ),
    decreases per_worker.len(),
{
    let mapped = Seq::new(per_worker.len(), |k: int| successes(per_worker[k]));
    if per_worker.len() == 0 {
        assert(mapped =~= Seq::<Seq<ServerStatus>>::empty());
        assert(successes(per_worker.flatten()) =~= Seq::<ServerStatus>::empty());
    } else {
        let front = per_worker.drop_last();
        let last = per_worker.last();
        let mapped_front = Seq::new(front.len(), |k: int| successes(front[k]));
        lemma_successes_of_joined(front);
        assert(per_worker =~= front.push(last));
        assert(mapped =~= mapped_front.push(successes(last)));
        front.lemma_flatten_push(last);
        mapped_front.lemma_flatten_push(successes(last));
        lemma_successes_add(front.flatten(), last);
    }
}

/// There are as many statuses as outcomes that are a status.
pub proof fn lemma_successes_len(outcomes: Seq<Result<ServerStatus, ProbeError>>)
    ensures
        successes(outcomes).len() == succeeded(outcomes),
        succeeded(outcomes) <= outcomes.len(),
    decreases outcomes.len(),
{
    let is_status = |outcome: Result<ServerStatus, ProbeError>| outcome is Ok;
    outcomes.lemma_filter_len(is_status);
    if outcomes.len() > 0 {
        let front = outcomes.drop_last();
        let last = outcomes.last();
        assert(outcomes =~= front.push(last));
        lemma_successes_len(front);
        lemma_successes_push(front, last);
        front.lemma_filter_push(last, is_status);
    }
}

/// A scan returns one status for each target whose probe succeeded, and none
/// else: whatever the pool size, its result is the statuses among the
/// outcomes, in the order of the targets. So it never holds more entries
/// than there are targets.
pub proof fn lemma_scan_keeps_every_success(
    outcomes: Seq<Result<ServerStatus, ProbeError>>,
    pool_size: int,
)
    ensures
        scan_result(outcomes, pool_size) == successes(outcomes),
        scan_result(outcomes, pool_size).len() == succeeded(outcomes),
        scan_result(outcomes, pool_size).len() <= outcomes.len(),
{
    let per_worker = groups(outcomes, worker_count(outcomes.len(), pool_size));
    lemma_groups_rejoin(outcomes, pool_size);
    lemma_successes_of_joined(per_worker);
    lemma_successes_len(outcomes);
}

/// One target's failure costs no other target its entry: with a failed probe
/// between them, the scan returns what the probes before it and the probes
/// behind it found, and with a successful one its status stands between
/// theirs.
pub proof fn lemma_failure_is_isolated(
    before: Seq<Result<ServerStatus, ProbeError>>,
    outcome: Result<ServerStatus, ProbeError>,
    behind: Seq<Result<ServerStatus, ProbeError>>,
    pool_size: int,
)
    ensures
        scan_result(before.push(outcome) + behind, pool_size) == match outcome {
            Ok(status) => successes(before).push(status) + successes(behind),
            Err(_) => successes(before) + successes(behind),
        },
{
    lemma_scan_keeps_every_success(before.push(outcome) + behind, pool_size);
    lemma_successes_add(before.push(outcome), behind);
    lemma_successes_push(before, outcome);
}

/// Whether each status among `outcomes` bears the address of the target at
/// its place in `targets`.
pub open spec fn answers_for_targets(
    targets: Seq<ScanTarget>,
    outcomes: Seq<Result<ServerStatus, ProbeError>>,
) -> bool {
    &&& outcomes.len() == targets.len()
    &&& forall|i: int|
        0 <= i < targets.len() ==> (#[trigger] outcomes[i] matches Ok(status)
            ==> status.address@ == targets[i].address@)
}

/// Whether `own` is the address `address`.
pub open spec fn is_at(own: Seq<char>, address: Seq<char>) -> bool {
    own == address
}

/// How many of `targets` have the address `address`.
pub open spec fn targets_at(targets: Seq<ScanTarget>, address: Seq<char>) -> nat {
    targets.filter(|target: ScanTarget| is_at(target.address@, address)).len()
}

/// How many of `found` have the address `address`.
pub open spec fn statuses_at(found: Seq<ServerStatus>, address: Seq<char>) -> nat {
    found.filter(|status: ServerStatus| is_at(status.address@, address)).len()
}

/// A target behind a list is counted under its own address and no other.
proof fn lemma_targets_at_push(targets: Seq<ScanTarget>, last: ScanTarget, address: Seq<char>)
    ensures
        targets_at(targets.push(last), address) == if last.address@ == address {
            targets_at(targets, address) + 1
        } else {
            targets_at(targets, address)
        },
{
    targets.lemma_filter_push(last, |target: ScanTarget| is_at(target.address@, address));
}

/// A status behind a list is counted under its own address and no other.
proof fn lemma_statuses_at_push(found: Seq<ServerStatus>, last: ServerStatus, address: Seq<char>)
    ensures
        statuses_at(found.push(last), address) == if last.address@ == address {
            statuses_at(found, address) + 1
        } else {
            statuses_at(found, address)
        },
{
    found.lemma_filter_push(last, |status: ServerStatus| is_at(status.address@, address));
}

/// Among the statuses of `outcomes`, an address comes no more often than
/// among the targets.
proof fn lemma_successes_at(
    targets: Seq<ScanTarget>,
    outcomes: Seq<Result<ServerStatus, ProbeError>>,
    address: Seq<char>,
)
    requires
        answers_for_targets(targets, outcomes),
    ensures
        statuses_at(successes(outcomes), address) <= targets_at(targets, address),
    decreases targets.len(),
{
    if targets.len() == 0 {
        assert(successes(outcomes) =~= Seq::<ServerStatus>::empty());
        successes(outcomes).lemma_filter_len(
            |status: ServerStatus| is_at(status.address@, address),
        );
    } else {
        let front_targets = targets.drop_last();
        let front = outcomes.drop_last();
        let last = outcomes.last();
        assert(targets =~= front_targets.push(targets.last()));
        assert(outcomes =~= front.push(last));
        assert(answers_for_targets(front_targets, front)) by {
            assert forall|i: int| 0 <= i < front_targets.len() implies (
            #[trigger] front[i] matches Ok(status) ==> status.address@
                == front_targets[i].address@) by {
                assert(front[i] == outcomes[i]);
            }
        }
        lemma_successes_at(front_targets, front, address);
        lemma_successes_push(front, last);
        lemma_targets_at_push(front_targets, targets.last(), address);
        assert(outcomes[targets.len() - 1] == last);
        match last {
            Ok(status) => {
                lemma_statuses_at_push(successes(front), status, address);
            },
            Err(_) => {},
        }
    }
}

/// A target gives one status at most, so a scan's result holds an address no
/// more often than the targets do.
pub proof fn lemma_no_address_gains_entries(
    targets: Seq<ScanTarget>,
    outcomes: Seq<Result<ServerStatus, ProbeError>>,
    pool_size: int,
    address: Seq<char>,
)
    requires
        answers_for_targets(targets, outcomes),
    ensures
        statuses_at(scan_result(outcomes, pool_size), address) <= targets_at(targets, address),
{
    lemma_scan_keeps_every_success(outcomes, pool_size);
    lemma_successes_at(targets, outcomes, address);
}

/// A scan of no targets runs no worker and finds nothing.
pub proof fn lemma_scan_of_nothing(pool_size: int)
    ensures
        found_by_workers(Seq::empty(), pool_size).len() == 0,
        scan_result(Seq::empty(), pool_size) == Seq::<ServerStatus>::empty(),
{
    lemma_scan_keeps_every_success(Seq::empty(), pool_size);
    lemma_successes_len(Seq::empty());
}

/// Joins what the workers hand in, in the order of their groups. A worker
/// that broke off (`None`) adds nothing and takes nothing from the others.
pub fn aggregate<T>(parts: Vec<Option<Vec<T>>>) -> (all: Vec<T>)
    ensures
        all@ == contributions(parts@).flatten(),
{
    let mut pending = reversed(parts);
    let mut all: Vec<T> = Vec::new();
    let ghost handed = contributions(parts@);
    assert(handed.take(0) =~= Seq::<Seq<T>>::empty());
    while pending.len() > 0
        invariant
            handed == contributions(parts@),
            pending@.len() <= parts@.len(),
            forall|j: int|
                0 <= j < pending@.len() ==> #[trigger] pending@[j] == parts@[parts@.len() - 1 - j],
            all@ == handed.take(parts@.len() - pending@.len()).flatten(),
        decreases pending@.len(),
    {
        let ghost k = parts@.len() - pending@.len();
        let part = pending.pop().unwrap();
        proof {
            assert(handed.take(k + 1) =~= handed.take(k).push(handed[k]));
            handed.take(k).lemma_flatten_push(handed[k]);
        }
        match part {
            Some(mut found) => {
                all.append(&mut found);
            },
            None => {},
        }
    }
    proof {
        assert(handed.take(parts@.len() as int) =~= handed);
    }
    all
}

/// Whether `outcomes` can be what `probe` returns for `targets`, one outcome
/// for each target.
pub open spec fn probed<F: Fn(&ScanTarget, u64) -> Result<ServerStatus, ProbeError>>(
    probe: F,
    targets: Seq<ScanTarget>,
    timeout_ms: u64,
    outcomes: Seq<Result<ServerStatus, ProbeError>>,
) -> bool {
    &&& outcomes.len() == targets.len()
    &&& forall|i: int|
        0 <= i < targets.len() ==> probe.ensures((&#[trigger] targets[i], timeout_ms), outcomes[i])
}

/// Scans `targets` on the calling thread: the groups are taken one after
/// another, each by a worker of its own, and `probe` is called once for each
/// target, with the time budget `timeout_ms`.
///
/// The result holds the status of every target whose probe succeeded, in the
/// order of the targets, and nothing else.
pub fn scan_with<F: Fn(&ScanTarget, u64) -> Result<ServerStatus, ProbeError>>(
    targets: Vec<ScanTarget>,
    pool_size: i64,
    timeout_ms: u64,
    probe: F,
) -> (found: Vec<ServerStatus>)
    requires
        forall|i: int|
            0 <= i < targets@.len() ==> probe.requires((&#[trigger] targets@[i], timeout_ms)),
    ensures
        (exists|outcomes: Seq<Result<ServerStatus, ProbeError>>|
            {
                &&& probed(probe, targets@, timeout_ms, outcomes)
                &&& found@ == #[trigger] successes(outcomes)
                &&& found@ == scan_result(outcomes, pool_size as int)
            }),
        found@.len() <= targets@.len(),
{
    let ghost all = targets@;
    let ghost total = all.len();
    let ghost workers = worker_count(total, pool_size as int);
    let split = partition(targets, pool_size);
    let mut pending = reversed(split);
    let mut parts: Vec<Option<Vec<ServerStatus>>> = Vec::new();
    let ghost mut outcomes: Seq<Result<ServerStatus, ProbeError>> = Seq::empty();
    proof {
        assert(contributions(parts@) =~= Seq::<Seq<ServerStatus>>::empty());
        assert(successes(outcomes) =~= Seq::<ServerStatus>::empty());
        if workers > 0 {
            lemma_group_bounds(total, workers, 0);
        }
        assert forall|j: int| 0 <= j < pending@.len() implies (#[trigger] pending@[j])@ == group(
            all,
            workers,
            (workers - 1 - j) as nat,
        ) by {
            assert(pending@[j] == split@[workers - 1 - j]);
            assert(contents(split@)[workers - 1 - j] == split@[workers - 1 - j]@);
        }
    }
    while pending.len() > 0
        invariant
            total == all.len(),
            workers == worker_count(total, pool_size as int),
            parts@.len() + pending@.len() == workers,
            forall|j: int|
                0 <= j < pending@.len() ==> (#[trigger] pending@[j])@ == group(
                    all,
                    workers,
                    (workers - 1 - j) as nat,
                ),
            forall|i: int| 0 <= i < total ==> probe.requires((&#[trigger] all[i], timeout_ms)),
            pending@.len() > 0 ==> outcomes.len() == group_start(
                total,
                workers,
                parts@.len() as nat,
            ),
            pending@.len() == 0 ==> outcomes.len() == total,
            outcomes.len() <= total,
            forall|i: int|
                0 <= i < outcomes.len() ==> probe.ensures(
                    (&#[trigger] all[i], timeout_ms),
                    outcomes[i],
                ),
            contributions(parts@).flatten() == successes(outcomes),
        decreases pending@.len(),
    {
        let ghost k = parts@.len() as nat;
        let ghost before = outcomes;
        let ghost start = group_start(total, workers, k);
        let ghost handed = contributions(parts@);
        proof {
            lemma_group_bounds(total, workers, k);
        }
        let mut worker = Worker::new(pending.pop().unwrap());
        loop
            invariant
                total == all.len(),
                1 <= workers <= total,
                k < workers,
                start == group_start(total, workers, k),
                start < group_end(total, workers, k) <= total,
                worker.wf(),
                worker.assigned() == group(all, workers, k),
                outcomes == before + worker.history(),
                before.len() == start,
                outcomes.len() <= total,
                forall|i: int| 0 <= i < total ==> probe.requires((&#[trigger] all[i], timeout_ms)),
                forall|i: int|
                    0 <= i < outcomes.len() ==> probe.ensures(
                        (&#[trigger] all[i], timeout_ms),
                        outcomes[i],
                    ),
                worker.history().len() <= worker.assigned().len(),
            ensures
                worker.done(),
            decreases worker.assigned().len() - worker.history().len(),
        {
            let ghost h = worker.history().len() as int;
            let outcome = match worker.current() {
                Some(target) => {
                    assert(*target == all[start + h]);
                    probe(target, timeout_ms)
                },
                None => {
                    break ;
                },
            };
            worker.record(outcome);
            proof {
                outcomes = outcomes.push(outcome);
                assert(outcomes =~= before + worker.history());
            }
        }
        let ghost history = worker.history();
        let found = worker.finish();
        parts.push(Some(found));
        proof {
            assert(contributions(parts@) =~= handed.push(successes(history)));
            handed.lemma_flatten_push(successes(history));
            lemma_successes_add(before, history);
            if k + 1 < workers {
                lemma_group_bounds(total, workers, k + 1);
            }
        }
    }
    proof {
        lemma_every_outcome_counts_once(outcomes);
        lemma_scan_keeps_every_success(outcomes, pool_size as int);
        assert(probed(probe, all, timeout_ms, outcomes));
    }
    aggregate(parts)
}

} // verus!
