//! Verified core of a download-job CRUD service: the job entity and its
//! validation rules, the repository operations over the job table with their
//! exact contracts, pagination ordered by creation date, and the domain error
//! taxonomy with its stable (code, message) pairs.

pub mod engine;
pub mod errors;
pub mod handler;
pub mod model;
pub mod order;
pub mod utils;
