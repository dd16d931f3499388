//! How long a transfer takes, as hours, minutes and seconds.
//!
//! Sizes are whole bytes and rates are whole bytes per second.  The estimate is
//! the quotient of the two, cut down to whole seconds.

use vstd::prelude::*;
use vstd::arithmetic::div_mod::lemma_fundamental_div_mod;
use crate::error::EstimateError;

verus! {

/// The longest duration an estimate may span, in seconds: the whole seconds
/// contained in `i64::MAX` nanoseconds.
pub const MAX_SECONDS: u64 = 9_223_372_036;

/// A duration split into hours, minutes and seconds.
#[derive(Clone, Copy, Debug, PartialEq, Eq, Structural)]
pub struct DownloadTime {
    pub hours: u64,
    pub minutes: u64,
    pub seconds: u64,
}

impl DownloadTime {
    /// The duration in seconds that the three fields stand for.
    pub open spec fn total_seconds(&self) -> nat {
        (self.hours * 3600 + self.minutes * 60 + self.seconds) as nat
    }

    /// Minutes and seconds are below sixty and the whole does not pass
    /// [`MAX_SECONDS`].
    pub open spec fn wf(&self) -> bool {
        &&& self.minutes < 60
        &&& self.seconds < 60
        &&& self.total_seconds() <= MAX_SECONDS
    }

    /// Splits a number of seconds into hours, minutes and seconds.
    ///
    /// Fails with [`EstimateError::Overflow`] exactly when `total` is above
    /// [`MAX_SECONDS`].
    pub fn from_seconds(total: u64) -> (r: Result<DownloadTime, EstimateError>)
        ensures
            total <= MAX_SECONDS ==> (r matches Ok(t) && t.wf() && t.total_seconds() == total),
            total > MAX_SECONDS ==> r == Err::<DownloadTime, EstimateError>(
                EstimateError::Overflow,
            ),
    {
        if total > MAX_SECONDS {
            return Err(EstimateError::Overflow);
        }
        Ok(DownloadTime { hours: total / 3600, minutes: (total % 3600) / 60, seconds: total % 60 })
    }
}

/// Whether `file_size / download_speed`, taken as an exact fraction, lies
/// above [`MAX_SECONDS`].
pub open spec fn exceeds_ceiling(file_size: int, download_speed: int) -> bool {
    file_size > MAX_SECONDS * download_speed
}

/// Estimates how long it takes to transfer `file_size` bytes at
/// `download_speed` bytes per second.
///
/// * A rate of zero or less is refused with [`EstimateError::InvalidInput`].
/// * A quotient above [`MAX_SECONDS`] is refused with
///   [`EstimateError::Overflow`].
/// * Otherwise the result is the quotient rounded down to whole seconds.
pub fn calculate_download_time(file_size: u64, download_speed: i64) -> (r: Result<
    DownloadTime,
    EstimateError,
>)
    ensures
        download_speed <= 0 ==> r == Err::<DownloadTime, EstimateError>(
            EstimateError::InvalidInput,
        ),
        download_speed > 0 && exceeds_ceiling(file_size as int, download_speed as int) ==> r
            == Err::<DownloadTime, EstimateError>(EstimateError::Overflow),
        download_speed > 0 && !exceeds_ceiling(file_size as int, download_speed as int) ==> (r
            matches Ok(t) && t.wf() && t.total_seconds() == file_size as int
            / download_speed as int),
{
    if download_speed <= 0 {
        return Err(EstimateError::InvalidInput);
    }
    let rate: u64 = download_speed as u64;
    let whole: u64 = file_size / rate;
    let rest: u64 = file_size % rate;
    proof {
        lemma_fundamental_div_mod(file_size as int, rate as int);
        lemma_ceiling_by_quotient(whole as int, rest as int, rate as int);
    }
    if whole > MAX_SECONDS || (whole == MAX_SECONDS && rest > 0) {
        return Err(EstimateError::Overflow);
    }
    DownloadTime::from_seconds(whole)
}

/// A dividend `rate * whole + rest` lies above `MAX_SECONDS * rate` exactly
/// when its quotient does, or equals it with something left over.
proof fn lemma_ceiling_by_quotient(whole: int, rest: int, rate: int)
    requires
        rate > 0,
        0 <= rest < rate,
        0 <= whole,
    ensures
        exceeds_ceiling(rate * whole + rest, rate) <==> (whole > MAX_SECONDS || (whole
            == MAX_SECONDS && rest > 0)),
{
    let ceiling: int = MAX_SECONDS as int;
    if whole > ceiling {
        assert(rate * whole >= rate * (ceiling + 1)) by (nonlinear_arith)
            requires
                rate > 0,
                whole >= ceiling + 1,
        ;
        assert(rate * (ceiling + 1) == ceiling * rate + rate) by (nonlinear_arith);
    } else if whole == ceiling {
        assert(rate * whole == ceiling * rate) by (nonlinear_arith)
            requires
                whole == ceiling,
        ;
    } else {
        assert(rate * whole <= rate * (ceiling - 1)) by (nonlinear_arith)
            requires
                rate > 0,
                whole <= ceiling - 1,
        ;
        assert(rate * (ceiling - 1) == ceiling * rate - rate) by (nonlinear_arith);
    }
}

/// Two well-formed breakdowns of the same number of seconds are the same
/// breakdown: the total decides all three fields.
pub proof fn lemma_breakdown_unique(a: DownloadTime, b: DownloadTime)
    requires
        a.wf(),
        b.wf(),
        a.total_seconds() == b.total_seconds(),
    ensures
        a == b,
{
}

} // verus!
