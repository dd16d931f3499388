use download_estimator::{EstimateError, PROBE_PAYLOAD_BYTES};

#[test]
fn each_failure_has_its_text() {
    assert_eq!(
        EstimateError::InvalidInput.message(),
        "Download speed must be greater than zero."
    );
    assert_eq!(
        EstimateError::Overflow.message(),
        "Download time exceeds the bounds of what can be calculated."
    );
    assert_eq!(EstimateError::ProbeFailed.message(), "Failed to run speed test");
}

#[test]
fn failures_are_distinct() {
    assert_ne!(EstimateError::InvalidInput, EstimateError::Overflow);
    assert_ne!(EstimateError::Overflow, EstimateError::ProbeFailed);
    assert_ne!(EstimateError::InvalidInput, EstimateError::ProbeFailed);
}

#[test]
fn probe_payload_is_ten_million_bytes() {
    assert_eq!(PROBE_PAYLOAD_BYTES, 10_000_000);
}
