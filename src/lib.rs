//! A verified task-consensus engine: requesters post tasks with an escrowed
//! reward, workers vote with a content hash, and a strict majority decides
//! who is paid; without a majority the reward goes back to the requester.
pub mod bytes;
pub mod consensus;
pub mod contract;
pub mod laws;
pub mod ledger;
pub mod record;
pub mod task;

pub use contract::DistributedComputing;
pub use ledger::{HashTally, Submission};
pub use record::TaskEntry;
pub use task::{ContractError, StateError, Task, TaskStatus, Transfer, ValidationError};
