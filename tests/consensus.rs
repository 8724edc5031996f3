use distributed_computing::{
    ContractError, DistributedComputing, StateError, TaskStatus, Transfer, ValidationError,
};

fn b(s: &str) -> Vec<u8> {
    s.as_bytes().to_vec()
}

fn post(dc: &mut DistributedComputing, reward: u128, max_workers: usize) -> u64 {
    dc.post_task(b("creator"), b("docker://image"), b("s3://input"), reward, max_workers, reward)
        .unwrap()
}

fn transfer(to: &str, amount: u128) -> Transfer {
    Transfer { to: b(to), amount }
}

fn total(t: &[Transfer]) -> u128 {
    t.iter().map(|x| x.amount).sum()
}

#[test]
fn post_task_assigns_sequential_ids() {
    let mut dc = DistributedComputing::init();
    assert_eq!(dc.task_id_counter(), 0);
    assert_eq!(post(&mut dc, 10, 1), 0);
    assert_eq!(post(&mut dc, 10, 2), 1);
    assert_eq!(post(&mut dc, 10, 3), 2);
    assert_eq!(dc.task_id_counter(), 3);
}

#[test]
fn post_task_stores_open_task() {
    let mut dc = DistributedComputing::init();
    let id = dc.post_task(b("alice"), b("img"), b("data"), 500, 3, 500).unwrap();
    let t = dc.get_task(id).unwrap();
    assert_eq!(t.creator, b("alice"));
    assert_eq!(t.docker_image_uri, b("img"));
    assert_eq!(t.input_data_uri, b("data"));
    assert_eq!(t.reward_amount, 500);
    assert_eq!(t.max_workers, 3);
    assert_eq!(t.submissions_count, 0);
    assert_eq!(t.status, TaskStatus::Open);
    assert_eq!(dc.get_task_status(id), Ok(TaskStatus::Open));
}

#[test]
fn post_task_rejects_zero_reward() {
    let mut dc = DistributedComputing::init();
    let r = dc.post_task(b("c"), b(""), b(""), 0, 3, 0);
    assert_eq!(r, Err(ContractError::Validation(ValidationError::ZeroReward)));
    assert_eq!(dc.task_id_counter(), 0);
}

#[test]
fn post_task_rejects_zero_workers() {
    let mut dc = DistributedComputing::init();
    let r = dc.post_task(b("c"), b(""), b(""), 100, 0, 100);
    assert_eq!(r, Err(ContractError::Validation(ValidationError::NoWorkers)));
    assert_eq!(dc.task_id_counter(), 0);
}

#[test]
fn post_task_rejects_payment_mismatch() {
    let mut dc = DistributedComputing::init();
    let r = dc.post_task(b("c"), b(""), b(""), 100, 3, 99);
    assert_eq!(r, Err(ContractError::Validation(ValidationError::PaymentMismatch)));
    assert_eq!(dc.task_id_counter(), 0);
    assert_eq!(post(&mut dc, 100, 3), 0);
}

#[test]
fn unknown_task_is_not_found() {
    let mut dc = DistributedComputing::init();
    post(&mut dc, 100, 3);
    assert_eq!(dc.get_task(1).err(), Some(ContractError::NotFound));
    assert_eq!(dc.get_task_status(7), Err(ContractError::NotFound));
    assert_eq!(dc.submit_result(1, b("w"), b("h")), Err(ContractError::NotFound));
    assert_eq!(dc.hash_frequency(1, &b("h")), 0);
    assert!(dc.task_worker_list(1).is_empty());
    assert_eq!(dc.worker_submissions(1, &b("w")), None);
}

#[test]
fn votes_before_quota_only_record() {
    let mut dc = DistributedComputing::init();
    let id = post(&mut dc, 100, 3);
    assert_eq!(dc.submit_result(id, b("A"), b("X")), Ok(vec![]));
    assert_eq!(dc.submit_result(id, b("B"), b("Y")), Ok(vec![]));
    let t = dc.get_task(id).unwrap();
    assert_eq!(t.submissions_count, 2);
    assert_eq!(t.status, TaskStatus::Open);
    assert_eq!(dc.hash_frequency(id, &b("X")), 1);
    assert_eq!(dc.hash_frequency(id, &b("Y")), 1);
    assert_eq!(dc.hash_frequency(id, &b("Z")), 0);
    assert_eq!(dc.task_worker_list(id), vec![b("A"), b("B")]);
    assert_eq!(dc.worker_submissions(id, &b("B")), Some(b("Y")));
    assert_eq!(dc.worker_submissions(id, &b("C")), None);
}

#[test]
fn majority_payout() {
    let mut dc = DistributedComputing::init();
    let id = post(&mut dc, 100, 3);
    assert_eq!(dc.submit_result(id, b("A"), b("X")), Ok(vec![]));
    assert_eq!(dc.submit_result(id, b("B"), b("X")), Ok(vec![]));
    let out = dc.submit_result(id, b("C"), b("Y")).unwrap();
    assert_eq!(out, vec![transfer("A", 50), transfer("B", 50)]);
    assert_eq!(dc.get_task_status(id), Ok(TaskStatus::Completed));
    assert_eq!(dc.get_task(id).unwrap().submissions_count, 3);
}

#[test]
fn majority_payout_odd_reward_floors_share() {
    let mut dc = DistributedComputing::init();
    let id = post(&mut dc, 101, 3);
    dc.submit_result(id, b("A"), b("X")).unwrap();
    dc.submit_result(id, b("B"), b("X")).unwrap();
    let out = dc.submit_result(id, b("C"), b("Y")).unwrap();
    assert_eq!(out, vec![transfer("A", 50), transfer("B", 50)]);
    assert_eq!(total(&out), 100);
}

#[test]
fn majority_found_after_minority_vote() {
    let mut dc = DistributedComputing::init();
    let id = post(&mut dc, 90, 3);
    dc.submit_result(id, b("C"), b("Y")).unwrap();
    dc.submit_result(id, b("A"), b("X")).unwrap();
    let out = dc.submit_result(id, b("B"), b("X")).unwrap();
    assert_eq!(out, vec![transfer("A", 45), transfer("B", 45)]);
    assert_eq!(dc.get_task_status(id), Ok(TaskStatus::Completed));
}

#[test]
fn no_majority_refund() {
    let mut dc = DistributedComputing::init();
    let id = dc.post_task(b("creator"), b(""), b(""), 1000, 4, 1000).unwrap();
    dc.submit_result(id, b("A"), b("X")).unwrap();
    dc.submit_result(id, b("B"), b("Y")).unwrap();
    dc.submit_result(id, b("C"), b("X")).unwrap();
    let out = dc.submit_result(id, b("D"), b("Y")).unwrap();
    assert_eq!(out, vec![transfer("creator", 1000)]);
    assert_eq!(dc.get_task_status(id), Ok(TaskStatus::Failed));
}

#[test]
fn all_different_votes_refund() {
    let mut dc = DistributedComputing::init();
    let id = post(&mut dc, 70, 3);
    dc.submit_result(id, b("A"), b("X")).unwrap();
    dc.submit_result(id, b("B"), b("Y")).unwrap();
    let out = dc.submit_result(id, b("C"), b("Z")).unwrap();
    assert_eq!(out, vec![transfer("creator", 70)]);
    assert_eq!(dc.get_task_status(id), Ok(TaskStatus::Failed));
}

#[test]
fn remainder_not_distributed_unanimous() {
    let mut dc = DistributedComputing::init();
    let id = post(&mut dc, 100, 3);
    dc.submit_result(id, b("A"), b("X")).unwrap();
    dc.submit_result(id, b("B"), b("X")).unwrap();
    let out = dc.submit_result(id, b("C"), b("X")).unwrap();
    assert_eq!(out, vec![transfer("A", 33), transfer("B", 33), transfer("C", 33)]);
    assert_eq!(total(&out), 99);
}

#[test]
fn remainder_not_distributed_three_of_five() {
    let mut dc = DistributedComputing::init();
    let id = post(&mut dc, 100, 5);
    dc.submit_result(id, b("A"), b("X")).unwrap();
    dc.submit_result(id, b("B"), b("Y")).unwrap();
    dc.submit_result(id, b("C"), b("X")).unwrap();
    dc.submit_result(id, b("D"), b("Y")).unwrap();
    let out = dc.submit_result(id, b("E"), b("X")).unwrap();
    assert_eq!(out, vec![transfer("A", 33), transfer("C", 33), transfer("E", 33)]);
    assert_eq!(total(&out), 99);
    assert_eq!(dc.get_task_status(id), Ok(TaskStatus::Completed));
}

#[test]
fn single_worker_task_pays_whole_reward() {
    let mut dc = DistributedComputing::init();
    let id = post(&mut dc, 42, 1);
    let out = dc.submit_result(id, b("A"), b("X")).unwrap();
    assert_eq!(out, vec![transfer("A", 42)]);
    assert_eq!(dc.get_task_status(id), Ok(TaskStatus::Completed));
}

#[test]
fn completed_task_rejects_votes_without_change() {
    let mut dc = DistributedComputing::init();
    let id = post(&mut dc, 100, 3);
    dc.submit_result(id, b("A"), b("X")).unwrap();
    dc.submit_result(id, b("B"), b("X")).unwrap();
    dc.submit_result(id, b("C"), b("Y")).unwrap();
    let r = dc.submit_result(id, b("D"), b("X"));
    assert_eq!(r, Err(ContractError::State(StateError::TaskNotOpen)));
    let t = dc.get_task(id).unwrap();
    assert_eq!(t.submissions_count, 3);
    assert_eq!(t.status, TaskStatus::Completed);
    assert_eq!(dc.hash_frequency(id, &b("X")), 2);
    assert_eq!(dc.hash_frequency(id, &b("Y")), 1);
    assert_eq!(dc.task_worker_list(id), vec![b("A"), b("B"), b("C")]);
}

#[test]
fn failed_task_rejects_votes_without_change() {
    let mut dc = DistributedComputing::init();
    let id = post(&mut dc, 100, 2);
    dc.submit_result(id, b("A"), b("X")).unwrap();
    dc.submit_result(id, b("B"), b("Y")).unwrap();
    assert_eq!(dc.get_task_status(id), Ok(TaskStatus::Failed));
    let r = dc.submit_result(id, b("C"), b("X"));
    assert_eq!(r, Err(ContractError::State(StateError::TaskNotOpen)));
    assert_eq!(dc.get_task(id).unwrap().submissions_count, 2);
    assert_eq!(dc.hash_frequency(id, &b("X")), 1);
    assert_eq!(dc.task_worker_list(id), vec![b("A"), b("B")]);
}

#[test]
fn duplicate_vote_rejected() {
    let mut dc = DistributedComputing::init();
    let id = post(&mut dc, 100, 3);
    dc.submit_result(id, b("A"), b("X")).unwrap();
    let r = dc.submit_result(id, b("A"), b("Y"));
    assert_eq!(r, Err(ContractError::State(StateError::DuplicateSubmission)));
    let r = dc.submit_result(id, b("A"), b("X"));
    assert_eq!(r, Err(ContractError::State(StateError::DuplicateSubmission)));
    assert_eq!(dc.hash_frequency(id, &b("X")), 1);
    assert_eq!(dc.hash_frequency(id, &b("Y")), 0);
    assert_eq!(dc.get_task(id).unwrap().submissions_count, 1);
    assert_eq!(dc.task_worker_list(id), vec![b("A")]);
    assert_eq!(dc.worker_submissions(id, &b("A")), Some(b("X")));
}

#[test]
fn same_worker_may_vote_on_other_tasks() {
    let mut dc = DistributedComputing::init();
    let t0 = post(&mut dc, 100, 2);
    let t1 = post(&mut dc, 100, 2);
    dc.submit_result(t0, b("A"), b("X")).unwrap();
    assert_eq!(dc.submit_result(t1, b("A"), b("X")), Ok(vec![]));
    assert_eq!(dc.get_task(t0).unwrap().submissions_count, 1);
    assert_eq!(dc.get_task(t1).unwrap().submissions_count, 1);
}

#[test]
fn submissions_never_exceed_quota() {
    let mut dc = DistributedComputing::init();
    let id = post(&mut dc, 100, 2);
    for w in ["A", "B", "C", "D"] {
        let _ = dc.submit_result(id, b(w), b("X"));
        let t = dc.get_task(id).unwrap();
        assert!(t.submissions_count <= t.max_workers);
    }
    assert_eq!(dc.get_task(id).unwrap().submissions_count, 2);
}

#[test]
fn status_only_moves_forward() {
    let mut dc = DistributedComputing::init();
    let id = post(&mut dc, 100, 3);
    let mut seen = vec![dc.get_task_status(id).unwrap()];
    for (w, h) in [("A", "X"), ("B", "Y"), ("C", "Z"), ("D", "X"), ("A", "X")] {
        let _ = dc.submit_result(id, b(w), b(h));
        seen.push(dc.get_task_status(id).unwrap());
    }
    assert_eq!(
        seen,
        vec![
            TaskStatus::Open,
            TaskStatus::Open,
            TaskStatus::Open,
            TaskStatus::Failed,
            TaskStatus::Failed,
            TaskStatus::Failed
        ]
    );
    assert!(!seen.contains(&TaskStatus::InVerification));
}

#[test]
fn posting_leaves_existing_tasks() {
    let mut dc = DistributedComputing::init();
    let id = post(&mut dc, 100, 1);
    dc.submit_result(id, b("A"), b("X")).unwrap();
    post(&mut dc, 5, 2);
    let t = dc.get_task(id).unwrap();
    assert_eq!(t.status, TaskStatus::Completed);
    assert_eq!(t.reward_amount, 100);
    assert_eq!(dc.get_task_status(1), Ok(TaskStatus::Open));
}
