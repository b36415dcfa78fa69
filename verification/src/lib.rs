//! Supervision of a fixed set of interdependent long-running processes:
//! lifecycle bookkeeping, dependency ordering, readiness and recovery policy.

pub mod state;
pub mod text;
pub mod deps;
pub mod config;
pub mod matching;
pub mod clock;
pub mod process;
pub mod manager;
pub mod recovery;
pub mod readiness;
pub mod supervisor;
pub mod commands;
pub mod sleep;
