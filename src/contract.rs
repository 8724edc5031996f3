//! The contract's store of tasks and its public operations: posting a task,
//! voting on one, and reading a task back.
use vstd::prelude::*;

use crate::bytes::{bytes_eq, copy_bytes};
use crate::ledger::{count_in, frequency_of};
use crate::record::{
    ledger_consistent, new_record, outcome_view, record_wf, submit_to_record, TaskEntry, TaskRecord,
};
use crate::task::{ContractError, Task, TaskStatus, Transfer, ValidationError};

verus! {

/// Every stored task is well formed.
pub open spec fn state_wf(s: Seq<TaskRecord>) -> bool {
    forall|i: int| 0 <= i < s.len() ==> record_wf(#[trigger] s[i])
}

/// What `post_task` does to the store, and what it returns: the input is
/// validated in order (reward, quota, payment) and a valid task is stored
/// under the next identifier.
pub open spec fn post_spec(
    s: Seq<TaskRecord>,
    creator: Seq<u8>,
    docker_image_uri: Seq<u8>,
    input_data_uri: Seq<u8>,
    reward_amount: nat,
    max_workers: nat,
    attached_payment: nat,
) -> (Seq<TaskRecord>, Result<u64, ContractError>) {
    if reward_amount == 0 {
        (s, Err(ContractError::Validation(ValidationError::ZeroReward)))
    } else if max_workers == 0 {
        (s, Err(ContractError::Validation(ValidationError::NoWorkers)))
    } else if attached_payment != reward_amount {
        (s, Err(ContractError::Validation(ValidationError::PaymentMismatch)))
    } else {
        (
            s.push(
                new_record(creator, docker_image_uri, input_data_uri, reward_amount, max_workers),
            ),
            Ok(s.len() as u64),
        )
    }
}

/// What `submit_result` does to the store, and what it returns.
pub open spec fn submit_spec(s: Seq<TaskRecord>, task_id: u64, worker: Seq<u8>, h: Seq<u8>) -> (
    Seq<TaskRecord>,
    Result<Seq<(Seq<u8>, nat)>, ContractError>,
) {
    if task_id >= s.len() {
        (s, Err(ContractError::NotFound))
    } else {
        let (r, out) = submit_to_record(s[task_id as int], worker, h);
        (s.update(task_id as int, r), out)
    }
}

/// The tasks posted so far; a task's identifier is its position.
pub struct DistributedComputing {
    tasks: Vec<TaskEntry>,
}

impl View for DistributedComputing {
    type V = Seq<TaskRecord>;

    closed spec fn view(&self) -> Seq<TaskRecord> {
        self.tasks@.map_values(|e: TaskEntry| e@)
    }
}

impl DistributedComputing {
    /// The representation agrees with the view, and every task is well formed.
    pub closed spec fn wf(&self) -> bool {
        &&& forall|i: int| 0 <= i < self.tasks@.len() ==> ledger_consistent(#[trigger] &self.tasks@[i])
        &&& state_wf(self@)
    }

    /// An empty store: no task posted yet.
    pub fn init() -> (r: DistributedComputing)
        ensures
            r.wf(),
            state_wf(r@),
            r@ == Seq::<TaskRecord>::empty(),
    {
        let r = DistributedComputing { tasks: Vec::new() };
        assert(r@ =~= Seq::<TaskRecord>::empty());
        r
    }

    /// Posts a task whose reward `attached_payment` pays for. The reward must
    /// be positive, the quota at least one, and the payment equal to the
    /// reward; the task is stored `Open` under the next identifier, which is
    /// returned.
    pub fn post_task(
        &mut self,
        creator: Vec<u8>,
        docker_image_uri: Vec<u8>,
        input_data_uri: Vec<u8>,
        reward_amount: u128,
        max_workers: usize,
        attached_payment: u128,
    ) -> (r: Result<u64, ContractError>)
        requires
            old(self).wf(),
        ensures
            final(self).wf(),
            state_wf(final(self)@),
            (final(self)@, r) == post_spec(
                old(self)@,
                creator@,
                docker_image_uri@,
                input_data_uri@,
                reward_amount as nat,
                max_workers as nat,
                attached_payment as nat,
            ),
    {
        if reward_amount == 0 {
            return Err(ContractError::Validation(ValidationError::ZeroReward));
        }
        if max_workers < 1 {
            return Err(ContractError::Validation(ValidationError::NoWorkers));
        }
        if attached_payment != reward_amount {
            return Err(ContractError::Validation(ValidationError::PaymentMismatch));
        }
        let task_id = self.tasks.len() as u64;
        let task = Task {
            creator,
            docker_image_uri,
            input_data_uri,
            reward_amount,
            max_workers,
            submissions_count: 0,
            status: TaskStatus::Open,
        };
        let ghost s0 = self@;
        self.tasks.push(TaskEntry::new(task));
        assert(self@ =~= s0.push(self.tasks@.last()@));
        Ok(task_id)
    }

    /// Records the vote of `worker` for `result_hash` on task `task_id`.
    /// Fails with `NotFound` for an unknown task, with `TaskNotOpen` once the
    /// task is settled, and with `DuplicateSubmission` on a worker's second
    /// vote; nothing changes then. The vote that fills the quota settles the
    /// task and returns the transfers that settle it; any other returns none.
    pub fn submit_result(&mut self, task_id: u64, worker: Vec<u8>, result_hash: Vec<u8>) -> (r:
        Result<Vec<Transfer>, ContractError>)
        requires
            old(self).wf(),
        ensures
            final(self).wf(),
            state_wf(final(self)@),
            (final(self)@, outcome_view(r)) == submit_spec(
                old(self)@,
                task_id,
                worker@,
                result_hash@,
            ),
    {
        if task_id >= self.tasks.len() as u64 {
            return Err(ContractError::NotFound);
        }
        let i = task_id as usize;
        let ghost s0 = self@;
        assert(ledger_consistent(&self.tasks@[i as int]));
        assert(record_wf(s0[i as int]));
        let r = self.tasks[i].submit(worker, result_hash);
        proof {
            assert(self@ =~= s0.update(i as int, self.tasks@[i as int]@));
            assert forall|k: int| 0 <= k < self.tasks@.len() implies ledger_consistent(
                #[trigger] &self.tasks@[k],
            ) by {
                if k != i {
                    assert(self@[k] == s0[k]);
                }
            }
        }
        r
    }

    /// The task stored under `task_id`.
    pub fn get_task(&self, task_id: u64) -> (r: Result<&Task, ContractError>)
        ensures
            task_id < self@.len() ==> (r matches Ok(t) && t@ == self@[task_id as int].task),
            task_id >= self@.len() ==> r == Err::<&Task, ContractError>(ContractError::NotFound),
    {
        if task_id >= self.tasks.len() as u64 {
            return Err(ContractError::NotFound);
        }
        Ok(self.tasks[task_id as usize].task())
    }

    /// The status of the task stored under `task_id`.
    pub fn get_task_status(&self, task_id: u64) -> (r: Result<TaskStatus, ContractError>)
        ensures
            task_id < self@.len() ==> r == Ok::<TaskStatus, ContractError>(
                self@[task_id as int].task.status,
            ),
            task_id >= self@.len() ==> r == Err::<TaskStatus, ContractError>(ContractError::NotFound),
    {
        match self.get_task(task_id) {
            Ok(t) => Ok(t.status),
            Err(e) => Err(e),
        }
    }

    /// The identifier the next posted task will receive.
    pub fn task_id_counter(&self) -> (r: u64)
        ensures
            r == self@.len(),
    {
        self.tasks.len() as u64
    }

    /// The digest that `worker` submitted for task `task_id`, if any.
    pub fn worker_submissions(&self, task_id: u64, worker: &Vec<u8>) -> (r: Option<Vec<u8>>)
        requires
            self.wf(),
        ensures
            r is Some <==> task_id < self@.len() && crate::ledger::has_submitted(
                self@[task_id as int].submissions,
                worker@,
            ),
            r matches Some(h) ==> exists|i: int|
                0 <= i < self@[task_id as int].submissions.len()
                    && #[trigger] self@[task_id as int].submissions[i] == (worker@, h@),
    {
        if task_id >= self.tasks.len() as u64 {
            return None;
        }
        let subs = &self.tasks[task_id as usize].submissions;
        let ghost sv = self@[task_id as int].submissions;
        assert(sv == crate::ledger::submissions_view(subs@));
        let mut i: usize = 0;
        while i < subs.len()
            invariant
                i <= subs@.len(),
                task_id < self@.len(),
                sv == self@[task_id as int].submissions,
                sv == crate::ledger::submissions_view(subs@),
                forall|k: int| 0 <= k < i ==> sv[k].0 != worker@,
            decreases subs@.len() - i,
        {
            if bytes_eq(&subs[i].worker, worker) {
                let h = copy_bytes(&subs[i].hash);
                assert(sv[i as int] == (worker@, h@));
                assert(sv[i as int].0 == worker@);
                return Some(h);
            }
            i += 1;
        }
        None
    }

    /// The workers that voted on task `task_id`, in arrival order; empty for
    /// an unknown task.
    pub fn task_worker_list(&self, task_id: u64) -> (r: Vec<Vec<u8>>)
        ensures
            task_id < self@.len() ==> r@.map_values(|w: Vec<u8>| w@)
                == self@[task_id as int].submissions.map_values(|s: (Seq<u8>, Seq<u8>)| s.0),
            task_id >= self@.len() ==> r@.len() == 0,
    {
        let mut out: Vec<Vec<u8>> = Vec::new();
        if task_id >= self.tasks.len() as u64 {
            return out;
        }
        let subs = &self.tasks[task_id as usize].submissions;
        let ghost sv = self@[task_id as int].submissions;
        let mut i: usize = 0;
        while i < subs.len()
            invariant
                i <= subs@.len(),
                sv == crate::ledger::submissions_view(subs@),
                out@.len() == i,
                forall|k: int| 0 <= k < i ==> #[trigger] out@[k]@ == sv[k].0,
            decreases subs@.len() - i,
        {
            out.push(copy_bytes(&subs[i].worker));
            i += 1;
        }
        assert(out@.map_values(|w: Vec<u8>| w@) =~= sv.map_values(|s: (Seq<u8>, Seq<u8>)| s.0));
        out
    }

    /// How many workers voted for `hash` on task `task_id`; zero for an
    /// unknown task or digest.
    pub fn hash_frequency(&self, task_id: u64, hash: &Vec<u8>) -> (r: usize)
        requires
            self.wf(),
        ensures
            task_id < self@.len() ==> r == count_in(self@[task_id as int].hash_frequency, hash@),
            task_id >= self@.len() ==> r == 0,
    {
        if task_id >= self.tasks.len() as u64 {
            return 0;
        }
        assert(ledger_consistent(&self.tasks@[task_id as int]));
        frequency_of(&self.tasks[task_id as usize].hash_frequency, hash)
    }
}

} // verus!
