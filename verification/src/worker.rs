//! One worker of a scan: it takes the targets of its group one after another
//! and keeps the statuses of those that answered.

use crate::probe::ProbeError;
use crate::status::ServerStatus;
use crate::target::ScanTarget;
use vstd::prelude::*;

verus! {

/// The statuses among `outcomes`, in order; failed probes leave nothing.
pub open spec fn successes(outcomes: Seq<Result<ServerStatus, ProbeError>>) -> Seq<ServerStatus> {
    outcomes.filter_map(
        |outcome: Result<ServerStatus, ProbeError>|
            match outcome {
                Ok(status) => Some(status),
                Err(_) => None,
            },
    )
}

/// How many of `outcomes` failed with `error`.
pub open spec fn failures(
    outcomes: Seq<Result<ServerStatus, ProbeError>>,
    error: ProbeError,
) -> nat {
    outcomes.filter(
        |outcome: Result<ServerStatus, ProbeError>|
            outcome == Err::<ServerStatus, ProbeError>(error),
    ).len()
}

/// A success adds its status behind those found so far; a failure adds
/// nothing.
pub proof fn lemma_successes_push(
    outcomes: Seq<Result<ServerStatus, ProbeError>>,
    outcome: Result<ServerStatus, ProbeError>,
)
    ensures
        successes(outcomes.push(outcome)) == match outcome {
            Ok(status) => successes(outcomes).push(status),
            Err(_) => successes(outcomes),
        },
{
    assert(outcomes.push(outcome).drop_last() =~= outcomes);
}

/// A failure is counted under its own kind and no other; a success is not
/// counted as a failure.
pub proof fn lemma_failures_push(
    outcomes: Seq<Result<ServerStatus, ProbeError>>,
    outcome: Result<ServerStatus, ProbeError>,
    error: ProbeError,
)
    ensures
        failures(outcomes.push(outcome), error) == if outcome == Err::<ServerStatus, ProbeError>(
            error,
        ) {
            failures(outcomes, error) + 1
        } else {
            failures(outcomes, error)
        },
{
    outcomes.lemma_filter_push(
        outcome,
        |outcome: Result<ServerStatus, ProbeError>|
            outcome == Err::<ServerStatus, ProbeError>(error),
    );
}

/// Every outcome counts once: as a status found, as an unreachable target or
/// as a protocol failure.
pub proof fn lemma_every_outcome_counts_once(outcomes: Seq<Result<ServerStatus, ProbeError>>)
    ensures
        successes(outcomes).len() + failures(outcomes, ProbeError::Unreachable) + failures(
            outcomes,
            ProbeError::ProtocolError,
        ) == outcomes.len(),
    decreases outcomes.len(),
{
    if outcomes.len() == 0 {
        assert(failures(outcomes, ProbeError::Unreachable) == 0) by {
            outcomes.lemma_filter_len(
                |outcome: Result<ServerStatus, ProbeError>|
                    outcome == Err::<ServerStatus, ProbeError>(ProbeError::Unreachable),
            );
        }
        assert(failures(outcomes, ProbeError::ProtocolError) == 0) by {
            outcomes.lemma_filter_len(
                |outcome: Result<ServerStatus, ProbeError>|
                    outcome == Err::<ServerStatus, ProbeError>(ProbeError::ProtocolError),
            );
        }
    } else {
        let front = outcomes.drop_last();
        let last = outcomes.last();
        assert(front.push(last) =~= outcomes);
        lemma_every_outcome_counts_once(front);
        lemma_successes_push(front, last);
        lemma_failures_push(front, last, ProbeError::Unreachable);
        lemma_failures_push(front, last, ProbeError::ProtocolError);
        match last {
            Ok(_) => {},
            Err(ProbeError::Unreachable) => {},
            Err(ProbeError::ProtocolError) => {},
        }
    }
}

/// A worker with its group of targets, the place it has reached in it, and
/// what it has found so far.
pub struct Worker {
    targets: Vec<ScanTarget>,
    position: usize,
    found: Vec<ServerStatus>,
    unreachable: usize,
    protocol_errors: usize,
    history: Ghost<Seq<Result<ServerStatus, ProbeError>>>,
}

impl Worker {
    /// The targets of the worker's group, in the order in which it takes them.
    pub closed spec fn assigned(&self) -> Seq<ScanTarget> {
        self.targets@
    }

    /// The outcomes recorded so far, the first target's first.
    pub closed spec fn history(&self) -> Seq<Result<ServerStatus, ProbeError>> {
        self.history@
    }

    /// The worker's invariant: it has recorded one outcome for each target
    /// that it has passed, it keeps exactly the statuses among them, and its
    /// two counts are those of the failures among them.
    pub closed spec fn wf(&self) -> bool {
        &&& self.position <= self.targets@.len()
        &&& self.history@.len() == self.position
        &&& self.found@ == successes(self.history@)
        &&& self.unreachable == failures(self.history@, ProbeError::Unreachable)
        &&& self.protocol_errors == failures(self.history@, ProbeError::ProtocolError)
    }

    /// Whether the worker has an outcome for each of its targets.
    pub open spec fn done(&self) -> bool {
        self.history().len() >= self.assigned().len()
    }

    /// A worker at the start of `targets`, with nothing found yet.
    pub fn new(targets: Vec<ScanTarget>) -> (worker: Worker)
        ensures
            worker.wf(),
            worker.assigned() == targets@,
            worker.history() == Seq::<Result<ServerStatus, ProbeError>>::empty(),
    {
        let worker = Worker {
            targets,
            position: 0,
            found: Vec::new(),
            unreachable: 0,
            protocol_errors: 0,
            history: Ghost(Seq::empty()),
        };
        proof {
            lemma_every_outcome_counts_once(worker.history@);
        }
        worker
    }

    /// The target to probe next: the first one without an outcome, or `None`
    /// when the group is finished.
    pub fn current(&self) -> (next: Option<&ScanTarget>)
        requires
            self.wf(),
        ensures
            match next {
                Some(target) => !self.done() && *target == self.assigned()[
                    self.history().len() as int
                ],
                None => self.done(),
            },
    {
        if self.position < self.targets.len() {
            Some(&self.targets[self.position])
        } else {
            None
        }
    }

    /// Takes the outcome of the probe of the current target and moves on to
    /// the next target. A status is kept; a failure is counted and otherwise
    /// dropped. Returns `false`, and changes nothing, when the group was
    /// finished already.
    pub fn record(&mut self, outcome: Result<ServerStatus, ProbeError>) -> (taken: bool)
        requires
            old(self).wf(),
        ensures
            final(self).wf(),
            final(self).assigned() == old(self).assigned(),
            taken == !old(self).done(),
            taken ==> final(self).history() == old(self).history().push(outcome),
            !taken ==> final(self).history() == old(self).history(),
    {
        if self.position >= self.targets.len() {
            return false;
        }
        proof {
            lemma_successes_push(self.history@, outcome);
            lemma_failures_push(self.history@, outcome, ProbeError::Unreachable);
            lemma_failures_push(self.history@, outcome, ProbeError::ProtocolError);
            lemma_every_outcome_counts_once(self.history@);
            self.history@ = self.history@.push(outcome);
        }
        match outcome {
            Ok(status) => {
                self.found.push(status);
            },
            Err(ProbeError::Unreachable) => {
                self.unreachable = self.unreachable + 1;
            },
            Err(ProbeError::ProtocolError) => {
                self.protocol_errors = self.protocol_errors + 1;
            },
        }
        self.position = self.position + 1;
        true
    }

    /// How many targets the worker gave up as unreachable.
    pub fn unreachable(&self) -> (count: usize)
        requires
            self.wf(),
        ensures
            count == failures(self.history(), ProbeError::Unreachable),
    {
        self.unreachable
    }

    /// How many targets the worker gave up over a failed status exchange.
    pub fn protocol_errors(&self) -> (count: usize)
        requires
            self.wf(),
        ensures
            count == failures(self.history(), ProbeError::ProtocolError),
    {
        self.protocol_errors
    }

    /// Ends the worker and hands out what it found: the statuses among the
    /// outcomes it recorded, in the order of its targets.
    pub fn finish(self) -> (found: Vec<ServerStatus>)
        requires
            self.wf(),
        ensures
            found@ == successes(self.history()),
            found@.len() <= self.history().len(),
    {
        proof {
            lemma_every_outcome_counts_once(self.history@);
        }
        self.found
    }
}

} // verus!
