//! What holds of the operations of the library, in terms of what goes in and what comes out.

pub mod candidates;
pub mod evaluations;
pub mod feedback;
pub mod fingerprint;
pub mod json;
pub mod obliq;
pub mod operations;
pub mod order;
pub mod proposals;
pub mod reports;
pub mod run;
pub mod scores;
pub mod selection;
pub mod summary;
pub mod synthetic;
pub mod task_operations;
pub mod text;
pub mod text_operations;
