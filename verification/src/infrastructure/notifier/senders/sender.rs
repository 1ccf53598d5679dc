//! What a channel needs to build its message for an event.
use crate::domain::identity::IdentityLink;
use crate::domain::notification::NotificationEvent;
use crate::infrastructure::config::notification_format::NotificationCustomization;
use vstd::prelude::*;

verus! {

/// The event, the owner's linked identities, the zone setting and the destination's
/// templates and styles.
pub struct NotificationContext<'a> {
    pub event: &'a NotificationEvent,
    pub identity_link: Option<&'a IdentityLink>,
    pub timezone: Option<&'a str>,
    pub customization: &'a NotificationCustomization,
}

} // verus!
