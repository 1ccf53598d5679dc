//! Proposals to reserve, after the fact, resources used without a reservation.
use crate::domain::identity::{ExternalIdentity, Instant};
use crate::domain::resource::Resource;
use vstd::prelude::*;

verus! {

/// A proposal to reserve resources someone is using without a reservation.
#[derive(Debug)]
pub struct ReservationProposal {
    pub resources: Vec<Resource>,
    pub owner_email: String,
    /// The identity the use was seen under.
    pub observed_identity: ExternalIdentity,
    /// Since when the resources are used.
    pub active_since: Instant,
    /// The durations offered, in seconds.
    pub duration_candidates: Vec<i64>,
}

/// What an accept button carries to rebuild the reservation: the server, its device
/// numbers, the owner, the start and the duration. Model names are looked up again on
/// acceptance, so that the value stays short.
#[derive(Debug)]
pub struct ProposalAcceptPayload {
    pub server: String,
    pub device_numbers: Vec<u32>,
    pub owner_email: String,
    pub active_since: Instant,
    pub duration_minutes: i64,
}

} // verus!
