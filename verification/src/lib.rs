//! Download-time estimation with machine-checked contracts.
//!
//! Two questions are answered here: how long a transfer of a given size takes
//! at a given rate, and at which time of day (UTC) it will be finished.  Every
//! function states its result exactly and is proved to meet that statement;
//! the few calls into `chrono` are the only trusted parts.

pub mod download;
pub mod error;
pub mod finish;
pub mod probe;

pub use download::{calculate_download_time, DownloadTime, MAX_SECONDS};
pub use error::EstimateError;
pub use finish::{calculate_finish_time, finish_time_at, MAX_TIMESTAMP, MIN_TIMESTAMP};
pub use probe::PROBE_PAYLOAD_BYTES;
