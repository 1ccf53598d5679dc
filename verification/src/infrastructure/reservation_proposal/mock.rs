//! A proposal notifier for tests and development that only records its proposals.
use crate::domain::notification::NotificationError;
use crate::domain::proposal::ReservationProposal;
use vstd::prelude::*;

verus! {

/// Records the proposals it is asked to send.
#[derive(Debug)]
pub struct MockReservationProposalNotifier {
    pub proposals: Vec<ReservationProposal>,
}

impl MockReservationProposalNotifier {
    /// A notifier that has sent nothing.
    pub fn new() -> (n: MockReservationProposalNotifier)
        ensures
            n.proposals@.len() == 0,
    {
        MockReservationProposalNotifier { proposals: Vec::new() }
    }

    /// The proposals sent so far.
    pub fn sent_proposals(&self) -> (p: &[ReservationProposal])
        ensures
            p@ == self.proposals@,
    {
        self.proposals.as_slice()
    }

    /// Records the proposal.
    pub fn propose(&mut self, proposal: ReservationProposal) -> (r: Result<(), NotificationError>)
        ensures
            r is Ok,
            final(self).proposals@ == old(self).proposals@.push(proposal),
    {
        self.proposals.push(proposal);
        Ok(())
    }
}

} // verus!
