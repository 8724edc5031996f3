//! Everything stored for one task: the task itself, its votes in arrival
//! order, and the vote count of each digest.
use vstd::prelude::*;

use crate::consensus::settlement;
use crate::ledger::{
    count_in, frequencies, has_submitted, lemma_votes_bounded, lemma_votes_push, record_vote,
    submissions_view, tally_hashes_distinct, tally_map, worker_has_submitted, workers_distinct,
    votes_for, HashTally, Submission,
};
use crate::task::{transfers_view, ContractError, StateError, Task, TaskModel, TaskStatus, Transfer};

verus! {

/// Mathematical view of a [`TaskEntry`].
pub struct TaskRecord {
    pub task: TaskModel,
    /// (worker, digest) pairs in arrival order.
    pub submissions: Seq<(Seq<u8>, Seq<u8>)>,
    /// Vote count of each digest that received a vote.
    pub hash_frequency: Map<Seq<u8>, nat>,
}

/// The stored state of one task.
pub struct TaskEntry {
    pub task: Task,
    pub submissions: Vec<Submission>,
    pub hash_frequency: Vec<HashTally>,
}

impl View for TaskEntry {
    type V = TaskRecord;

    open spec fn view(&self) -> TaskRecord {
        TaskRecord {
            task: self.task@,
            submissions: submissions_view(self.submissions@),
            hash_frequency: tally_map(self.hash_frequency@),
        }
    }
}

/// The counters agree with the votes: one vote per worker, no more votes
/// than the quota, and each digest's count equal to its votes.
pub open spec fn record_consistent(r: TaskRecord) -> bool {
    &&& r.task.reward_amount > 0
    &&& r.task.max_workers >= 1
    &&& r.task.submissions_count == r.submissions.len()
    &&& r.task.submissions_count <= r.task.max_workers
    &&& workers_distinct(r.submissions)
    &&& r.hash_frequency == frequencies(r.submissions)
}

/// A stored task between calls: consistent, `Open` exactly while its quota
/// is not full, and never caught in `InVerification`.
pub open spec fn record_wf(r: TaskRecord) -> bool {
    &&& record_consistent(r)
    &&& (r.task.status == TaskStatus::Open <==> r.task.submissions_count < r.task.max_workers)
    &&& r.task.status != TaskStatus::InVerification
}

/// The stored representation agrees with its view.
pub open spec fn ledger_consistent(e: &TaskEntry) -> bool {
    &&& tally_hashes_distinct(e.hash_frequency@)
    &&& record_consistent(e@)
}

/// A newly posted task: `Open`, with no votes.
pub open spec fn new_record(
    creator: Seq<u8>,
    docker_image_uri: Seq<u8>,
    input_data_uri: Seq<u8>,
    reward_amount: nat,
    max_workers: nat,
) -> TaskRecord {
    TaskRecord {
        task: TaskModel {
            creator,
            docker_image_uri,
            input_data_uri,
            reward_amount,
            max_workers,
            submissions_count: 0,
            status: TaskStatus::Open,
        },
        submissions: seq![],
        hash_frequency: Map::empty(),
    }
}

/// What a vote by `worker` for digest `h` does to a task, and what it returns:
/// refused on a task that is not `Open` or from a worker that already voted;
/// otherwise recorded, and the vote that fills the quota also settles the task.
pub open spec fn submit_to_record(r: TaskRecord, worker: Seq<u8>, h: Seq<u8>) -> (
    TaskRecord,
    Result<Seq<(Seq<u8>, nat)>, ContractError>,
) {
    if r.task.status != TaskStatus::Open {
        (r, Err(ContractError::State(StateError::TaskNotOpen)))
    } else if has_submitted(r.submissions, worker) {
        (r, Err(ContractError::State(StateError::DuplicateSubmission)))
    } else {
        let subs = r.submissions.push((worker, h));
        let freq = r.hash_frequency.insert(h, count_in(r.hash_frequency, h) + 1);
        let count = r.task.submissions_count + 1;
        if count >= r.task.max_workers {
            let (status, transfers) = settlement(r.task, subs);
            (
                TaskRecord {
                    task: TaskModel { submissions_count: count, status, ..r.task },
                    submissions: subs,
                    hash_frequency: freq,
                },
                Ok(transfers),
            )
        } else {
            (
                TaskRecord {
                    task: TaskModel { submissions_count: count, ..r.task },
                    submissions: subs,
                    hash_frequency: freq,
                },
                Ok(seq![]),
            )
        }
    }
}

/// The view of an operation's outcome that hands out transfers.
pub open spec fn outcome_view(r: Result<Vec<Transfer>, ContractError>) -> Result<
    Seq<(Seq<u8>, nat)>,
    ContractError,
> {
    match r {
        Ok(v) => Ok(transfers_view(v@)),
        Err(e) => Err(e),
    }
}

/// The counts of a consistent ledger after one more vote.
pub proof fn lemma_frequencies_push(subs: Seq<(Seq<u8>, Seq<u8>)>, v: (Seq<u8>, Seq<u8>))
    ensures
        frequencies(subs.push(v)) == frequencies(subs).insert(
            v.1,
            count_in(frequencies(subs), v.1) + 1,
        ),
{
    assert forall|h: Seq<u8>| #[trigger] votes_for(subs.push(v), h) == votes_for(subs, h) + if v.1
        == h {
        1nat
    } else {
        0nat
    } by {
        lemma_votes_push(subs, v, h);
    }
    assert(frequencies(subs.push(v)) =~= frequencies(subs).insert(
        v.1,
        count_in(frequencies(subs), v.1) + 1,
    ));
}

impl TaskEntry {
    /// Creates the entry of a newly posted task.
    pub fn new(task: Task) -> (r: TaskEntry)
        requires
            task.submissions_count == 0,
            task.status == TaskStatus::Open,
            task.reward_amount > 0,
            task.max_workers >= 1,
        ensures
            r@ == new_record(
                task.creator@,
                task.docker_image_uri@,
                task.input_data_uri@,
                task.reward_amount as nat,
                task.max_workers as nat,
            ),
            ledger_consistent(&r),
    {
        let r = TaskEntry { task, submissions: Vec::new(), hash_frequency: Vec::new() };
        assert(r@.submissions =~= seq![]);
        assert(r@.hash_frequency =~= Map::empty());
        assert(frequencies(seq![]) =~= Map::empty());
        r
    }

    /// The task record.
    pub fn task(&self) -> (r: &Task)
        ensures
            r == &self.task,
    {
        &self.task
    }

    /// Records a vote by `worker` for `result_hash`; the vote that fills the
    /// quota settles the task and returns the transfers that settle it.
    pub fn submit(&mut self, worker: Vec<u8>, result_hash: Vec<u8>) -> (r: Result<
        Vec<Transfer>,
        ContractError,
    >)
        requires
            ledger_consistent(old(self)),
            record_wf(old(self)@),
        ensures
            ledger_consistent(final(self)),
            record_wf(final(self)@),
            (final(self)@, outcome_view(r)) == submit_to_record(old(self)@, worker@, result_hash@),
    {
        if self.task.status != TaskStatus::Open {
            return Err(ContractError::State(StateError::TaskNotOpen));
        }
        if worker_has_submitted(&self.submissions, &worker) {
            return Err(ContractError::State(StateError::DuplicateSubmission));
        }
        let ghost r0 = self@;
        proof {
            lemma_votes_bounded(r0.submissions, result_hash@);
            lemma_frequencies_push(r0.submissions, (worker@, result_hash@));
        }
        record_vote(&mut self.hash_frequency, &result_hash);
        self.submissions.push(Submission { worker, hash: result_hash });
        self.task.submissions_count = self.task.submissions_count + 1;
        proof {
            assert(self@.submissions =~= r0.submissions.push((worker@, result_hash@)));
            assert forall|i: int, j: int| 0 <= i < j < self@.submissions.len() implies #[trigger] self@.submissions[i].0
                != #[trigger] self@.submissions[j].0 by {
                if j == self@.submissions.len() - 1 {
                    assert(self@.submissions[i] == r0.submissions[i]);
                }
            }
        }
        if self.task.submissions_count == self.task.max_workers {
            self.task.status = TaskStatus::InVerification;
            let transfers = self.finalize_task();
            Ok(transfers)
        } else {
            let transfers: Vec<Transfer> = Vec::new();
            assert(transfers_view(transfers@) =~= seq![]);
            Ok(transfers)
        }
    }
}

} // verus!
