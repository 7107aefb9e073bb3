//! The interface of congestion controllers, and the integer rules of the CUBIC controller.
//!
//! Times are nanoseconds since an arbitrary epoch.
use vstd::prelude::*;

use crate::paths::RttEstimator;

verus! {

/// Datagram size that congestion windows are counted against
pub const BASE_DATAGRAM_SIZE: u64 = 1200;

/// Common interface for different congestion controllers
pub trait Controller {
    /// Number of ack-eliciting bytes that may be in flight
    fn window(&self) -> u64;

    /// Initial congestion window
    fn initial_window(&self) -> u64;

    /// One or more packets were just sent
    fn on_sent(&mut self, now: u64, bytes: u64, last_packet_number: u64) {
    }

    /// Packet deliveries were confirmed; `app_limited` indicates whether the connection was
    /// blocked on outgoing application data prior to receiving these acknowledgements
    fn on_ack(&mut self, now: u64, sent: u64, bytes: u64, app_limited: bool, rtt: &RttEstimator) {
    }

    /// Packets are acked in batches, all with the same `now` argument; one of those batches
    /// has completed
    fn on_end_acks(
        &mut self,
        now: u64,
        in_flight: u64,
        app_limited: bool,
        largest_packet_num_acked: Option<u64>,
    ) {
    }
}

/// Constructs controllers on demand
pub trait ControllerFactory {
    /// The controllers built
    type Output: Controller;

    /// Construct a fresh controller, at time `now`, for a path of MTU `current_mtu`
    fn build(&self, now: u64, current_mtu: u16) -> Self::Output;
}

/// Configuration for the CUBIC congestion controller
#[derive(Debug, Copy, Clone, PartialEq, Eq, Structural)]
pub struct CubicConfig {
    /// Initial congestion window, in bytes
    pub initial_window: u64,
}

impl Default for CubicConfig {
    /// An initial window of 14720 bytes, kept between two and ten base datagrams
    fn default() -> (r: CubicConfig)
        ensures
            r.initial_window == 12000,
    {
        let w: u64 = 14720;
        let lo = 2 * BASE_DATAGRAM_SIZE;
        let hi = 10 * BASE_DATAGRAM_SIZE;
        let initial_window = if w < lo {
            lo
        } else if w > hi {
            hi
        } else {
            w
        };
        CubicConfig { initial_window }
    }
}

/// The smallest congestion window: two datagrams of the current MTU
pub fn minimum_window(current_mtu: u64) -> (r: u64)
    requires
        current_mtu <= u16::MAX,
    ensures
        r == 2 * current_mtu,
{
    2 * current_mtu
}

/// The congestion window after the MTU changed to `new_mtu`: kept, but not below the minimum
/// window
pub fn window_after_mtu_update(window: u64, new_mtu: u16) -> (r: u64)
    ensures
        r == if window > 2 * new_mtu {
            window
        } else {
            (2 * new_mtu) as u64
        },
{
    let min = minimum_window(new_mtu as u64);
    if window > min {
        window
    } else {
        min
    }
}

/// Whether a packet sent at `sent` was sent before recovery started at `recovery_start`:
/// its acknowledgement or loss is then ignored
pub fn sent_before_recovery(recovery_start: Option<u64>, sent: u64) -> (r: bool)
    ensures
        r == (recovery_start matches Some(t) && sent <= t),
{
    match recovery_start {
        Some(t) => sent <= t,
        None => false,
    }
}

/// The slow start threshold after a congestion event: the reduced window `reduced`, but not
/// below the minimum window
pub fn ssthresh_after_loss(reduced: u64, current_mtu: u64) -> (r: u64)
    requires
        current_mtu <= u16::MAX,
    ensures
        r == if reduced > 2 * current_mtu {
            reduced
        } else {
            (2 * current_mtu) as u64
        },
{
    let min = minimum_window(current_mtu);
    if reduced > min {
        reduced
    } else {
        min
    }
}

} // verus!
