//! Decision logic of a forum-thread archiver: request admission and retry
//! rules, download bookkeeping, post transformation, name masking and
//! pagination, each stated as a contract over plain values.

pub mod archiver;
pub mod atomic_file;
pub mod client;
pub mod error;
pub mod html;
pub mod middleware;
pub mod models;
pub mod pattern;
pub mod preloaded_store;
pub mod shared_promise;
pub mod text;
