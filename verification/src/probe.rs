//! What the estimator fixes about a throughput measurement.
//!
//! The measurement itself is network traffic and happens outside this
//! library; a run that cannot complete is reported as
//! [`EstimateError::ProbeFailed`](crate::error::EstimateError::ProbeFailed).

use vstd::prelude::*;

verus! {

/// The size, in bytes, of the payload that one measurement downloads.
pub const PROBE_PAYLOAD_BYTES: usize = 10_000_000;

} // verus!
