//! An unauthorized-use notifier for tests and development that only records its notices.
use crate::domain::notification::NotificationError;
use crate::domain::resource::ResourceUsage;
use vstd::prelude::*;

verus! {

/// Records the notices it is asked to send: the reservation and who was using it.
#[derive(Debug)]
pub struct MockUnauthorizedUsageNotifier {
    pub notified: Vec<(ResourceUsage, String)>,
}

impl MockUnauthorizedUsageNotifier {
    /// A notifier that has sent nothing.
    pub fn new() -> (n: MockUnauthorizedUsageNotifier)
        ensures
            n.notified@.len() == 0,
    {
        MockUnauthorizedUsageNotifier { notified: Vec::new() }
    }

    /// The notices sent so far.
    pub fn notified(&self) -> (n: &[(ResourceUsage, String)])
        ensures
            n@ == self.notified@,
    {
        self.notified.as_slice()
    }

    /// Records that the user of the email was told about the reservation.
    pub fn notify(&mut self, reserved_usage: ResourceUsage, actual_user_email: String) -> (r: Result<
        (),
        NotificationError,
    >)
        ensures
            r is Ok,
            final(self).notified@ == old(self).notified@.push((reserved_usage, actual_user_email)),
    {
        self.notified.push((reserved_usage, actual_user_email));
        Ok(())
    }
}

} // verus!
