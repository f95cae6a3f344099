//! Model provisioning: the plan of a resumable download and what is done with each answer.

pub mod discovery;
pub mod range;
pub mod transfer;
