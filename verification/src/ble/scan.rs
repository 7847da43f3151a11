//! Passive scanning, shared by the split central and the dongle.

use vstd::prelude::*;

verus! {

/// Split central: the radio is shared with the host link and the peripheral
/// connections, so it can spare only 30ms of every 100ms.
pub const SPLIT_CENTRAL_SCAN_WINDOW_MS: u64 = 30;

/// Dongle: USB-powered with a single link, so favor fast discovery.
pub const DONGLE_SCAN_WINDOW_MS: u64 = 60;

/// How long to wait before a refused scan is tried again.
pub const SCAN_RETRY_MS: u64 = 500;

/// How to scan.
#[derive(Clone, Copy, Debug, PartialEq, Eq, Structural)]
pub struct ScanParams {
    /// Whether to ask advertisers for more.
    pub active: bool,
    pub interval_ms: u64,
    pub window_ms: u64,
}

/// A passive scan listening for `window_ms` out of every 100ms.
pub fn scan_config(window_ms: u64) -> (r: ScanParams)
    ensures
        r == (ScanParams { active: false, interval_ms: 100, window_ms }),
{
    ScanParams { active: false, interval_ms: 100, window_ms }
}

/// What follows an attempt to start a scan.
#[derive(Clone, Copy, Debug, PartialEq, Eq, Structural)]
pub enum ScanStep {
    /// The scan runs.
    Started,
    /// Wait this long and try again: the controller refuses a scan until a
    /// previous connect's initiator has stopped.
    RetryAfterMillis(u64),
}

/// Decides whether a scan has to be started again.
pub fn start_scan(accepted: bool) -> (r: ScanStep)
    ensures
        r == if accepted {
            ScanStep::Started
        } else {
            ScanStep::RetryAfterMillis(SCAN_RETRY_MS)
        },
{
    if accepted {
        ScanStep::Started
    } else {
        ScanStep::RetryAfterMillis(SCAN_RETRY_MS)
    }
}

// ---------------------------------------------------------------------------
// Laws
// ---------------------------------------------------------------------------

/// A scan only listens, and one that was refused is tried again half a second later.
pub proof fn law_a_scan_listens_and_is_tried_again(
    window_ms: u64,
    params: ScanParams,
    accepted: bool,
    step: ScanStep,
)
    requires
        scan_config.ensures((window_ms,), params),
        start_scan.ensures((accepted,), step),
    ensures
        !params.active,
        params.interval_ms == 100,
        params.window_ms == window_ms,
        step is Started <==> accepted,
        step matches ScanStep::RetryAfterMillis(ms) ==> ms == 500,
{
}

} // verus!
