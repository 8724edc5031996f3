//! Task records, their lifecycle status, the errors of the public operations
//! and the transfer instructions handed to the payment side.
use vstd::prelude::*;

verus! {

/// Lifecycle of a task: `Open` until its quota of submissions is reached,
/// then `Completed` (a majority was found and paid) or `Failed` (refunded).
/// `InVerification` only guards finalization while it runs.
#[derive(Clone, Copy, Debug, PartialEq, Eq, Structural)]
pub enum TaskStatus {
    Open,
    InVerification,
    Completed,
    Failed,
}

/// A posted unit of work with its escrowed reward and worker quota.
#[derive(Clone, Debug, PartialEq, Eq)]
pub struct Task {
    pub creator: Vec<u8>,
    pub docker_image_uri: Vec<u8>,
    pub input_data_uri: Vec<u8>,
    pub reward_amount: u128,
    pub max_workers: usize,
    pub submissions_count: usize,
    pub status: TaskStatus,
}

/// Mathematical view of a [`Task`].
pub struct TaskModel {
    pub creator: Seq<u8>,
    pub docker_image_uri: Seq<u8>,
    pub input_data_uri: Seq<u8>,
    pub reward_amount: nat,
    pub max_workers: nat,
    pub submissions_count: nat,
    pub status: TaskStatus,
}

impl View for Task {
    type V = TaskModel;

    open spec fn view(&self) -> TaskModel {
        TaskModel {
            creator: self.creator@,
            docker_image_uri: self.docker_image_uri@,
            input_data_uri: self.input_data_uri@,
            reward_amount: self.reward_amount as nat,
            max_workers: self.max_workers as nat,
            submissions_count: self.submissions_count as nat,
            status: self.status,
        }
    }
}

/// Malformed input to `post_task`.
#[derive(Clone, Copy, Debug, PartialEq, Eq, Structural)]
pub enum ValidationError {
    /// The declared reward is zero.
    ZeroReward,
    /// The worker quota is zero.
    NoWorkers,
    /// The attached payment differs from the declared reward.
    PaymentMismatch,
}

/// An operation that the task's current state forbids.
#[derive(Clone, Copy, Debug, PartialEq, Eq, Structural)]
pub enum StateError {
    /// The task no longer accepts submissions.
    TaskNotOpen,
    /// A vote from this worker on the task is already recorded.
    DuplicateSubmission,
}

/// Errors of the public operations; each is raised before any state changes.
#[derive(Clone, Copy, Debug, PartialEq, Eq, Structural)]
pub enum ContractError {
    Validation(ValidationError),
    NotFound,
    State(StateError),
}

/// An instruction to the payment side: send `amount` to account `to`.
#[derive(Clone, Debug, PartialEq, Eq)]
pub struct Transfer {
    pub to: Vec<u8>,
    pub amount: u128,
}

impl View for Transfer {
    type V = (Seq<u8>, nat);

    open spec fn view(&self) -> (Seq<u8>, nat) {
        (self.to@, self.amount as nat)
    }
}

/// The view of a list of transfers, in order.
pub open spec fn transfers_view(v: Seq<Transfer>) -> Seq<(Seq<u8>, nat)> {
    v.map_values(|t: Transfer| t@)
}

} // verus!
