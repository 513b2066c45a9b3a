//! Settings fixed at startup.

use crate::constants::MTU_OVERHEAD;
use std::time::Duration;
use vstd::prelude::*;

verus! {

/// The duration that `std::time::Duration::from_secs` makes of a number of seconds.
pub uninterp spec fn duration_from_secs(secs: u64) -> Duration;

/// `std::time::Duration::from_secs` is a function of its argument alone.
pub assume_specification[ Duration::from_secs ](secs: u64) -> (d: Duration)
    ensures
        d == duration_from_secs(secs),
;

/// Settings of the service.
#[derive(Clone, Debug)]
pub struct Config {
    /// Advertised service name.
    pub name: String,
    /// Timeout of an HTTP request, in seconds.
    pub timeout: u64,
    /// MTU override in bytes; zero leaves the negotiated MTU in force.
    pub mtu: usize,
}

impl Config {
    /// The payload size that paging works with on a link that negotiated
    /// `established_mtu`: the override where it is set and smaller than the
    /// negotiated value, else the negotiated value less the protocol overhead.
    pub open spec fn spec_effective_mtu(&self, established_mtu: usize) -> int {
        if 0 < self.mtu && self.mtu < established_mtu {
            self.mtu as int
        } else {
            established_mtu - MTU_OVERHEAD
        }
    }

    /// The request timeout as a duration.
    pub fn timeout_duration(&self) -> (d: Duration)
        ensures
            d == duration_from_secs(self.timeout),
    {
        Duration::from_secs(self.timeout)
    }

    /// The effective MTU on a link that negotiated `established_mtu`.
    pub fn effective_mtu(&self, established_mtu: usize) -> (mtu: usize)
        requires
            (0 < self.mtu && self.mtu < established_mtu) || established_mtu >= MTU_OVERHEAD,
        ensures
            mtu as int == self.spec_effective_mtu(established_mtu),
    {
        if self.mtu > 0 && self.mtu < established_mtu {
            self.mtu
        } else {
            established_mtu - MTU_OVERHEAD
        }
    }
}

} // verus!
