//! Reservations that are not being used, and why they are thought so.
use crate::domain::resource::{Gpu, ResourceUsage};
use vstd::prelude::*;

verus! {

/// Why a reservation is thought unused.
#[derive(Debug)]
pub enum IdleEvidence {
    /// No process of the owner was seen on the reserved resources.
    NoProcesses,
    /// The owner holds reserved GPUs on which nothing computes.
    HeldWithoutComputing {
        /// The GPUs held without computing.
        at_rest: Vec<Gpu>,
        /// How many reserved GPUs were observed.
        observed_count: u64,
        /// The highest utilization seen on the GPUs at rest, in percent.
        peak_utilization_percent: u32,
        /// The memory they hold, in MiB, when known.
        used_memory_mib: Option<u64>,
    },
}

impl IdleEvidence {
    /// Only some of the observed GPUs are at rest.
    pub open spec fn partial(&self) -> bool {
        match self {
            IdleEvidence::NoProcesses => false,
            IdleEvidence::HeldWithoutComputing { at_rest, observed_count, .. } => at_rest@.len()
                < *observed_count,
        }
    }

    /// Whether only some of the observed GPUs are at rest.
    pub fn is_partial(&self) -> (b: bool)
        ensures
            b == self.partial(),
    {
        match self {
            IdleEvidence::NoProcesses => false,
            IdleEvidence::HeldWithoutComputing { at_rest, observed_count, .. } => (at_rest.len()
                as u64) < *observed_count,
        }
    }
}

/// A reservation thought unused since an instant, and why.
#[derive(Debug)]
pub struct IdleReservation {
    pub reservation: ResourceUsage,
    /// Since when, in seconds since the Unix epoch.
    pub idle_since: i64,
    pub evidence: IdleEvidence,
}

} // verus!
