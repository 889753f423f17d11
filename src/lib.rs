//! Planning, bookkeeping and statistics for a filesystem read-latency probe.
//!
//! The library decides which fixture files to create and how to write them,
//! which offsets each probe reads, how many probes run at once, and how the
//! timings of all probes reduce to run-level averages. Performing the I/O and
//! reading the clock is left to the caller.

pub mod config;
pub mod fixture;
pub mod probe;
pub mod sampling;
pub mod scheduler;
pub mod summary;

pub use config::{
    Config, ConfigError, FarDivisor, DEFAULT_FAR_END, DEFAULT_FAR_FIRST, DEFAULT_FAR_SAMPLES,
    DEFAULT_FAR_STRIDE, DEFAULT_FILE_SIZE, DEFAULT_NEAR_OFFSET, DEFAULT_NUM_FILES,
    DEFAULT_READ_LEN, DEFAULT_WRITE_CHUNK,
};
pub use fixture::{file_names, format_file_name, files_to_create, next_write_len};
pub use probe::{ProbeAction, ProbeResult, ProbeSession};
pub use sampling::{count_candidates, far_candidates, pick_far_offsets, take_samples};
pub use scheduler::{ScheduleError, Scheduler};
pub use summary::{sum_category, summarize, Category, RunSummary};
