//! Consensus over the votes of one task: the majority threshold, the
//! winning digest, and the transfers that settle the task.
use vstd::prelude::*;

use crate::bytes::{bytes_eq, copy_bytes};
use crate::ledger::{
    frequency_of, lemma_submitted_hash_voted, lemma_voted_hash_submitted, lemma_votes_disjoint,
    submissions_view, votes_for,
};
use crate::record::{ledger_consistent, TaskEntry};
use crate::task::{transfers_view, TaskModel, TaskStatus, Transfer};

verus! {

/// The least number of identical votes that wins: more than half the quota.
pub open spec fn majority_threshold(max_workers: nat) -> nat {
    max_workers / 2 + 1
}

/// Digest `h` has reached the majority threshold of a task with quota `max_workers`.
pub open spec fn has_majority(subs: Seq<(Seq<u8>, Seq<u8>)>, h: Seq<u8>, max_workers: nat) -> bool {
    votes_for(subs, h) >= majority_threshold(max_workers)
}

/// One transfer of `share` to each worker that voted for `h`, in arrival order.
pub open spec fn winner_payouts(subs: Seq<(Seq<u8>, Seq<u8>)>, h: Seq<u8>, share: nat) -> Seq<
    (Seq<u8>, nat),
>
    decreases subs.len(),
{
    if subs.len() == 0 {
        seq![]
    } else {
        let p = winner_payouts(subs.drop_last(), h, share);
        if subs.last().1 == h {
            p.push((subs.last().0, share))
        } else {
            p
        }
    }
}

/// How a task with the votes `subs` ends: `Completed`, paying each voter of
/// the majority digest an equal floor share of the reward, or `Failed`,
/// refunding the whole reward to the creator.
pub open spec fn settlement(task: TaskModel, subs: Seq<(Seq<u8>, Seq<u8>)>) -> (
    TaskStatus,
    Seq<(Seq<u8>, nat)>,
) {
    if exists|h: Seq<u8>| has_majority(subs, h, task.max_workers) {
        let h = choose|h: Seq<u8>| has_majority(subs, h, task.max_workers);
        (
            TaskStatus::Completed,
            winner_payouts(subs, h, task.reward_amount / votes_for(subs, h)),
        )
    } else {
        (TaskStatus::Failed, seq![(task.creator, task.reward_amount)])
    }
}

/// Among at most `max_workers` votes, at most one digest reaches the threshold.
pub proof fn lemma_majority_unique(
    subs: Seq<(Seq<u8>, Seq<u8>)>,
    h1: Seq<u8>,
    h2: Seq<u8>,
    max_workers: nat,
)
    requires
        subs.len() <= max_workers,
        has_majority(subs, h1, max_workers),
        has_majority(subs, h2, max_workers),
    ensures
        h1 == h2,
{
    if h1 != h2 {
        lemma_votes_disjoint(subs, h1, h2);
    }
}

/// Exactly one transfer per voter of `h`, each of `share`.
pub proof fn lemma_winner_payouts_shape(subs: Seq<(Seq<u8>, Seq<u8>)>, h: Seq<u8>, share: nat)
    ensures
        winner_payouts(subs, h, share).len() == votes_for(subs, h),
        forall|k: int|
            0 <= k < winner_payouts(subs, h, share).len() ==> (#[trigger] winner_payouts(
                subs,
                h,
                share,
            )[k]).1 == share,
    decreases subs.len(),
{
    if subs.len() > 0 {
        lemma_winner_payouts_shape(subs.drop_last(), h, share);
    }
}

impl TaskEntry {
    /// Settles a task whose quota is full: finds the digest that reached the
    /// majority threshold, first in arrival order, and pays its voters, or
    /// refunds the creator when no digest did.
    pub fn finalize_task(&mut self) -> (r: Vec<Transfer>)
        requires
            ledger_consistent(old(self)),
            old(self).task.submissions_count == old(self).task.max_workers,
            old(self).task.status == TaskStatus::InVerification,
        ensures
            ledger_consistent(final(self)),
            final(self).submissions == old(self).submissions,
            final(self).hash_frequency == old(self).hash_frequency,
            final(self).task@ == (TaskModel {
                status: settlement(old(self).task@, submissions_view(old(self).submissions@)).0,
                ..old(self).task@
            }),
            transfers_view(r@) == settlement(
                old(self).task@,
                submissions_view(old(self).submissions@),
            ).1,
    {
        let ghost subs = submissions_view(self.submissions@);
        let ghost max = self.task.max_workers as nat;
        let threshold: usize = self.task.max_workers / 2 + 1;
        let mut winner: Option<(usize, usize)> = None;
        let mut i: usize = 0;
        while i < self.submissions.len()
            invariant_except_break
                winner is None,
            invariant
                i <= self.submissions@.len(),
                ledger_consistent(self),
                subs == submissions_view(self.submissions@),
                threshold == majority_threshold(max),
                forall|k: int| 0 <= k < i ==> !has_majority(subs, #[trigger] subs[k].1, max),
            ensures
                winner matches Some((j, votes)) ==> j < subs.len() && votes == votes_for(
                    subs,
                    subs[j as int].1,
                ) && has_majority(subs, subs[j as int].1, max),
                winner is None ==> forall|k: int|
                    0 <= k < subs.len() ==> !has_majority(subs, #[trigger] subs[k].1, max),
            decreases self.submissions@.len() - i,
        {
            let votes = frequency_of(&self.hash_frequency, &self.submissions[i].hash);
            proof {
                lemma_submitted_hash_voted(subs, i as int);
                assert(subs[i as int].1 == self.submissions@[i as int].hash@);
            }
            if votes >= threshold {
                winner = Some((i, votes));
                break;
            }
            i += 1;
        }
        match winner {
            Some((j, votes)) => {
                proof {
                    let h = subs[j as int].1;
                    let c = choose|c: Seq<u8>| has_majority(subs, c, max);
                    lemma_majority_unique(subs, h, c, max);
                }
                let transfers = self.distribute_rewards(&self.submissions[j].hash, votes);
                self.task.status = TaskStatus::Completed;
                transfers
            },
            None => {
                proof {
                    if exists|h: Seq<u8>| has_majority(subs, h, max) {
                        let h = choose|h: Seq<u8>| has_majority(subs, h, max);
                        lemma_voted_hash_submitted(subs, h);
                    }
                }
                let refund = Transfer { to: copy_bytes(&self.task.creator), amount: self.task.reward_amount };
                self.task.status = TaskStatus::Failed;
                let transfers = vec![refund];
                assert(transfers_view(transfers@) =~= seq![(self.task.creator@, self.task.reward_amount as nat)]);
                transfers
            },
        }
    }

    /// One transfer of the reward's floor share to each worker that voted for
    /// `winning_hash`, in arrival order; the remainder of the division is not
    /// transferred.
    pub fn distribute_rewards(&self, winning_hash: &Vec<u8>, winner_count: usize) -> (r: Vec<Transfer>)
        requires
            winner_count > 0,
        ensures
            transfers_view(r@) == winner_payouts(
                submissions_view(self.submissions@),
                winning_hash@,
                self.task.reward_amount as nat / winner_count as nat,
            ),
    {
        let ghost subs = submissions_view(self.submissions@);
        let share: u128 = self.task.reward_amount / (winner_count as u128);
        let mut out: Vec<Transfer> = Vec::new();
        let mut i: usize = 0;
        while i < self.submissions.len()
            invariant
                i <= self.submissions@.len(),
                subs == submissions_view(self.submissions@),
                share as nat == self.task.reward_amount as nat / winner_count as nat,
                transfers_view(out@) == winner_payouts(subs.subrange(0, i as int), winning_hash@, share as nat),
            decreases self.submissions@.len() - i,
        {
            let ghost prev = out@;
            assert(subs.subrange(0, i as int + 1).drop_last() =~= subs.subrange(0, i as int));
            if bytes_eq(&self.submissions[i].hash, winning_hash) {
                out.push(Transfer { to: copy_bytes(&self.submissions[i].worker), amount: share });
                assert(transfers_view(out@) =~= transfers_view(prev).push((subs[i as int].0, share as nat)));
            }
            i += 1;
        }
        assert(subs.subrange(0, subs.len() as int) =~= subs);
        out
    }
}

} // verus!
