//! Job scheduling for NPU workloads: a priority queue with bounded concurrency,
//! a bounded history, and the texts that the daemon and its client exchange.

pub mod api;
pub mod capture;
pub mod client;
pub mod history;
pub mod job;
pub mod job_id;
pub mod laws;
pub mod npu;
pub mod output;
pub mod promises;
pub mod queue;
pub mod report;
pub mod run;
pub mod scheduler;
pub mod supervise;
pub mod text;
pub mod time;
pub mod url;
