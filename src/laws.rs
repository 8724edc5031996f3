//! Laws of the task store, stated over the effects of its operations.
use vstd::prelude::*;

use crate::consensus::{
    has_majority, lemma_winner_payouts_shape, majority_threshold, settlement, winner_payouts,
};
use crate::contract::{post_spec, state_wf, submit_spec};
use crate::ledger::{has_submitted, votes_for, workers_distinct};
use crate::record::{lemma_frequencies_push, new_record, record_wf, submit_to_record, TaskRecord};
use crate::task::{ContractError, StateError, TaskModel, TaskStatus};

verus! {

/// No task holds more submissions than its quota.
pub open spec fn quota_respected(s: Seq<TaskRecord>) -> bool {
    forall|i: int|
        0 <= i < s.len() ==> 0 <= (#[trigger] s[i]).task.submissions_count <= s[i].task.max_workers
}

/// No worker has two submissions for one task.
pub open spec fn one_submission_per_worker(s: Seq<TaskRecord>) -> bool {
    forall|i: int| 0 <= i < s.len() ==> workers_distinct((#[trigger] s[i]).submissions)
}

/// The sum of the amounts of a list of transfers.
pub open spec fn total_amount(t: Seq<(Seq<u8>, nat)>) -> nat
    decreases t.len(),
{
    if t.len() == 0 {
        0
    } else {
        total_amount(t.drop_last()) + t.last().1
    }
}

/// Paying `share` to each voter of `h` pays `share` times their number.
pub proof fn lemma_total_of_payouts(subs: Seq<(Seq<u8>, Seq<u8>)>, h: Seq<u8>, share: nat)
    ensures
        total_amount(winner_payouts(subs, h, share)) == votes_for(subs, h) * share,
    decreases subs.len(),
{
    if subs.len() > 0 {
        lemma_total_of_payouts(subs.drop_last(), h, share);
        let p = winner_payouts(subs.drop_last(), h, share);
        let v = votes_for(subs.drop_last(), h);
        if subs.last().1 == h {
            let x = (subs.last().0, share);
            assert(p.push(x).drop_last() =~= p);
            assert(total_amount(p.push(x)) == total_amount(p) + share);
            assert(votes_for(subs, h) == v + 1);
            assert((v + 1) * share == v * share + share) by (nonlinear_arith);
        } else {
            assert(winner_payouts(subs, h, share) == p);
            assert(votes_for(subs, h) == v);
        }
    } else {
        assert(0 * share == 0) by (nonlinear_arith);
    }
}

/// Settling a task whose votes fill at most its quota either pays each voter
/// of the winning digest the floor share `reward / winners`, so that
/// `winners * (reward / winners)` is paid in all and the remainder of the
/// division is paid to nobody, or refunds the whole reward to the creator.
/// It never pays out more than the reward.
pub proof fn law_settlement_pays_floor_shares(task: TaskModel, subs: Seq<(Seq<u8>, Seq<u8>)>)
    requires
        subs.len() <= task.max_workers,
    ensures
        ({
            let (status, t) = settlement(task, subs);
            &&& status == TaskStatus::Completed || status == TaskStatus::Failed
            &&& status == TaskStatus::Completed ==> {
                &&& t.len() >= majority_threshold(task.max_workers)
                &&& forall|k: int| 0 <= k < t.len() ==> (#[trigger] t[k]).1 == task.reward_amount / t.len()
                &&& total_amount(t) == t.len() * (task.reward_amount / t.len())
            }
            &&& status == TaskStatus::Failed ==> t == seq![(task.creator, task.reward_amount)]
                && total_amount(t) == task.reward_amount
            &&& total_amount(t) <= task.reward_amount
        }),
{
    let (status, t) = settlement(task, subs);
    if exists|h: Seq<u8>| has_majority(subs, h, task.max_workers) {
        let h = choose|h: Seq<u8>| has_majority(subs, h, task.max_workers);
        let w = votes_for(subs, h);
        let share = task.reward_amount / w;
        lemma_winner_payouts_shape(subs, h, share);
        lemma_total_of_payouts(subs, h, share);
        assert(w * share <= task.reward_amount) by (nonlinear_arith)
            requires
                w > 0,
                share == task.reward_amount / w,
        ;
        assert(t == winner_payouts(subs, h, share));
        assert(t.len() == w);
    } else {
        assert(t.drop_last() =~= Seq::<(Seq<u8>, nat)>::empty());
        assert(total_amount(t) == total_amount(t.drop_last()) + t.last().1);
    }
}

/// The empty store is well formed.
pub proof fn lemma_initial_state_wf()
    ensures
        state_wf(Seq::<TaskRecord>::empty()),
{
}

/// Posting a task keeps the store well formed.
pub proof fn lemma_post_preserves_wf(
    s: Seq<TaskRecord>,
    creator: Seq<u8>,
    docker_image_uri: Seq<u8>,
    input_data_uri: Seq<u8>,
    reward_amount: nat,
    max_workers: nat,
    attached_payment: nat,
)
    requires
        state_wf(s),
    ensures
        state_wf(
            post_spec(
                s,
                creator,
                docker_image_uri,
                input_data_uri,
                reward_amount,
                max_workers,
                attached_payment,
            ).0,
        ),
{
    if reward_amount > 0 && max_workers > 0 && attached_payment == reward_amount {
        let r = new_record(creator, docker_image_uri, input_data_uri, reward_amount, max_workers);
        assert(crate::ledger::frequencies(seq![]) =~= Map::empty());
        let s2 = s.push(r);
        assert forall|i: int| 0 <= i < s2.len() implies record_wf(#[trigger] s2[i]) by {
            if i < s.len() {
                assert(s2[i] == s[i]);
            }
        }
    }
}

/// A vote keeps its task well formed.
pub proof fn lemma_submit_preserves_record_wf(r: TaskRecord, worker: Seq<u8>, h: Seq<u8>)
    requires
        record_wf(r),
    ensures
        record_wf(submit_to_record(r, worker, h).0),
{
    if r.task.status == TaskStatus::Open && !has_submitted(r.submissions, worker) {
        let subs = r.submissions.push((worker, h));
        lemma_frequencies_push(r.submissions, (worker, h));
        assert forall|i: int, j: int| 0 <= i < j < subs.len() implies #[trigger] subs[i].0
            != #[trigger] subs[j].0 by {
            if j == subs.len() - 1 {
                assert(subs[i] == r.submissions[i]);
            }
        }
    }
}

/// A vote keeps the store well formed.
pub proof fn lemma_submit_preserves_wf(s: Seq<TaskRecord>, task_id: u64, worker: Seq<u8>, h: Seq<u8>)
    requires
        state_wf(s),
    ensures
        state_wf(submit_spec(s, task_id, worker, h).0),
{
    if task_id < s.len() {
        lemma_submit_preserves_record_wf(s[task_id as int], worker, h);
        let s2 = submit_spec(s, task_id, worker, h).0;
        assert forall|i: int| 0 <= i < s2.len() implies record_wf(#[trigger] s2[i]) by {
            if i != task_id {
                assert(s2[i] == s[i]);
            }
        }
    }
}

/// In every well-formed store, and so after any sequence of operations from
/// the empty store, each task's submission count lies between zero and its
/// quota.
pub proof fn law_submissions_within_quota(s: Seq<TaskRecord>)
    requires
        state_wf(s),
    ensures
        quota_respected(s),
{
    assert forall|i: int| 0 <= i < s.len() implies 0 <= (#[trigger] s[i]).task.submissions_count
        <= s[i].task.max_workers by {
        assert(record_wf(s[i]));
    }
}

/// In every well-formed store, and so after any sequence of operations from
/// the empty store, no worker has more than one submission per task.
pub proof fn law_one_submission_per_worker(s: Seq<TaskRecord>)
    requires
        state_wf(s),
    ensures
        one_submission_per_worker(s),
{
    assert forall|i: int| 0 <= i < s.len() implies workers_distinct((#[trigger] s[i]).submissions) by {
        assert(record_wf(s[i]));
    }
}

/// A vote changes a task's status only from `Open` to `Completed` or
/// `Failed`; a settled status never changes, and `InVerification` is never
/// left behind.
pub proof fn law_status_monotonic(s: Seq<TaskRecord>, task_id: u64, worker: Seq<u8>, h: Seq<u8>)
    requires
        state_wf(s),
    ensures
        s.len() == submit_spec(s, task_id, worker, h).0.len(),
        forall|k: int|
            0 <= k < s.len() ==> {
                let before = s[k].task.status;
                let after = (#[trigger] submit_spec(s, task_id, worker, h).0[k]).task.status;
                &&& after != TaskStatus::InVerification
                &&& before != TaskStatus::Open ==> after == before
                &&& after != before ==> before == TaskStatus::Open && (after
                    == TaskStatus::Completed || after == TaskStatus::Failed)
            },
{
    lemma_submit_preserves_wf(s, task_id, worker, h);
    let s2 = submit_spec(s, task_id, worker, h).0;
    assert forall|k: int| 0 <= k < s.len() implies (#[trigger] s2[k]).task.status
        != TaskStatus::InVerification by {
        assert(record_wf(s2[k]));
    }
}

/// Posting a task leaves every existing task as it was.
pub proof fn law_post_leaves_existing_tasks(
    s: Seq<TaskRecord>,
    creator: Seq<u8>,
    docker_image_uri: Seq<u8>,
    input_data_uri: Seq<u8>,
    reward_amount: nat,
    max_workers: nat,
    attached_payment: nat,
)
    ensures
        forall|k: int|
            0 <= k < s.len() ==> #[trigger] post_spec(
                s,
                creator,
                docker_image_uri,
                input_data_uri,
                reward_amount,
                max_workers,
                attached_payment,
            ).0[k] == s[k],
{
}

/// A vote on a task that is `Completed` or `Failed` fails with a state error
/// and changes nothing: not its submission count, its vote counts or its
/// worker order.
pub proof fn law_settled_task_rejects_votes(
    s: Seq<TaskRecord>,
    task_id: u64,
    worker: Seq<u8>,
    h: Seq<u8>,
)
    requires
        task_id < s.len(),
        s[task_id as int].task.status == TaskStatus::Completed || s[task_id as int].task.status
            == TaskStatus::Failed,
    ensures
        submit_spec(s, task_id, worker, h) == (s, Err::<Seq<(Seq<u8>, nat)>, ContractError>(
            ContractError::State(StateError::TaskNotOpen),
        )),
{
    assert(s.update(task_id as int, s[task_id as int]) =~= s);
}

/// A worker's second vote on a task fails with a state error and changes
/// nothing, whatever digest it carries: in particular the vote counts stay
/// as the first vote left them.
pub proof fn law_second_vote_rejected(
    s: Seq<TaskRecord>,
    task_id: u64,
    worker: Seq<u8>,
    h1: Seq<u8>,
    h2: Seq<u8>,
)
    requires
        submit_spec(s, task_id, worker, h1).1 is Ok,
    ensures
        ({
            let s1 = submit_spec(s, task_id, worker, h1).0;
            &&& submit_spec(s1, task_id, worker, h2).0 == s1
            &&& submit_spec(s1, task_id, worker, h2).1 matches Err(ContractError::State(_))
        }),
{
    let s1 = submit_spec(s, task_id, worker, h1).0;
    let r1 = s1[task_id as int];
    assert(r1.submissions.last().0 == worker);
    assert(has_submitted(r1.submissions, worker));
    assert(s1.update(task_id as int, r1) =~= s1);
}

} // verus!
