//! Notification events and failures.
use crate::domain::resource::ResourceUsage;
use vstd::prelude::*;

verus! {

/// Something about a reservation that its resources' destinations are told.
#[derive(Debug)]
pub enum NotificationEvent {
    /// A reservation was made.
    ResourceUsageCreated(ResourceUsage),
    /// A reservation was changed.
    ResourceUsageUpdated(ResourceUsage),
    /// A reservation was removed.
    ResourceUsageDeleted(ResourceUsage),
}

impl NotificationEvent {
    /// The reservation the event is about.
    pub open spec fn usage(&self) -> ResourceUsage {
        match self {
            NotificationEvent::ResourceUsageCreated(u) => *u,
            NotificationEvent::ResourceUsageUpdated(u) => *u,
            NotificationEvent::ResourceUsageDeleted(u) => *u,
        }
    }

    /// The reservation the event is about.
    pub fn usage_of(&self) -> (u: &ResourceUsage)
        ensures
            *u == self.usage(),
    {
        match self {
            NotificationEvent::ResourceUsageCreated(u) => u,
            NotificationEvent::ResourceUsageUpdated(u) => u,
            NotificationEvent::ResourceUsageDeleted(u) => u,
        }
    }
}

/// Why a notification could not be delivered.
#[derive(Debug)]
pub enum NotificationError {
    /// Sending failed.
    SendFailure(String),
    /// A store the delivery needed could not be read.
    RepositoryError(String),
}

} // verus!
