//! The Slack message of a reservation event: heading, owner, period, kind and resources.
use crate::domain::identity::{
    first_in_system, record_identities, ExternalSystem, ExternalSystemView, IdentityLink,
};
use crate::domain::notification::NotificationEvent;
use crate::domain::resource::{resources_view, Resource};
use crate::infrastructure::config::notification_format::{DateFormat, ResourceStyle, TimeStyle};
use crate::infrastructure::notifier::formatter::{
    format_resources_styled, format_time_styled, period_in_range, spec_format_resources,
    time_styled_ok,
};
use crate::infrastructure::notifier::local_time::tz_view;
use crate::infrastructure::notifier::senders::sender::NotificationContext;
use crate::infrastructure::notifier::template_renderer::{resource_label, resource_label_of};
use crate::text::{owned, push_str};
use vstd::prelude::*;

verus! {

/// How the owner is shown: a Slack mention when a Slack identity is linked (the first one),
/// otherwise the email address.
pub open spec fn user_display(email: Seq<char>, link: Option<&IdentityLink>) -> Seq<char> {
    match link {
        Some(l) => match first_in_system(record_identities(l.records@), ExternalSystemView::Slack) {
            Some(i) => "<@"@ + l.records@[i].identity.user_id@ + ">"@,
            None => email,
        },
        None => email,
    }
}

/// The first line of the message for an event.
pub open spec fn event_heading(event: NotificationEvent) -> Seq<char> {
    match event {
        NotificationEvent::ResourceUsageCreated(_) => "🔔 新規予約"@,
        NotificationEvent::ResourceUsageUpdated(_) => "🔄 予約更新"@,
        NotificationEvent::ResourceUsageDeleted(_) => "🗑️ 予約削除"@,
    }
}

/// The message: heading, owner, period, kind label and resources on their lines.
pub open spec fn slack_message(
    heading: Seq<char>,
    user: Seq<char>,
    time: Seq<char>,
    label: Seq<char>,
    resources: Seq<char>,
) -> Seq<char> {
    heading + "\n👤 "@ + user + "\n\n📅 期間\n"@ + time + "\n\n"@ + label + "\n"@ + resources
}

/// `r` is the message for the context, with the period in the full style.
pub open spec fn formatted_for(r: Seq<char>, context: NotificationContext) -> bool {
    let usage = context.event.usage();
    exists|time: Seq<char>|
        #![trigger time_styled_ok(time, usage.time_period, tz_view(context.timezone), TimeStyle::Full, DateFormat::Ymd)]
        time_styled_ok(
            time,
            usage.time_period,
            tz_view(context.timezone),
            TimeStyle::Full,
            DateFormat::Ymd,
        ) && r == slack_message(
            event_heading(*context.event),
            user_display(usage@.owner_email, context.identity_link),
            time,
            resource_label(usage@.resources),
            spec_format_resources(usage@.resources, ResourceStyle::Full),
        )
}

/// Builds the Slack messages of reservation events.
pub struct SlackMessageFormatter {}

impl SlackMessageFormatter {
    /// The label of the kind of the resources: GPUs only, rooms only, or anything else.
    pub fn get_resource_label(resources: &[Resource]) -> (s: &'static str)
        ensures
            s@ == resource_label(resources_view(resources@)),
    {
        resource_label_of(resources)
    }

    /// How the owner is shown: a mention of their linked Slack identity, else their email.
    pub fn format_user(email: &str, identity_link: Option<&IdentityLink>) -> (s: String)
        ensures
            s@ == user_display(email@, identity_link),
    {
        match identity_link {
            Some(identity) => match identity.get_identity_for_system(&ExternalSystem::Slack) {
                Some(slack_identity) => {
                    let mut s = owned("<@");
                    push_str(&mut s, slack_identity.user_id());
                    push_str(&mut s, ">");
                    s
                },
                None => owned(email),
            },
            None => owned(email),
        }
    }

    /// The message for the event of the context.
    pub fn format_message(context: &NotificationContext) -> (r: String)
        requires
            period_in_range(context.event.usage().time_period),
        ensures
            formatted_for(r@, *context),
    {
        let usage = context.event.usage_of();
        let user = Self::format_user(usage.owner_email(), context.identity_link);
        let resources = format_resources_styled(usage.resources(), ResourceStyle::Full);
        let time = format_time_styled(
            &usage.time_period,
            context.timezone,
            TimeStyle::Full,
            DateFormat::Ymd,
        );
        let label = Self::get_resource_label(usage.resources());
        let mut r = match context.event {
            NotificationEvent::ResourceUsageCreated(_) => owned("🔔 新規予約"),
            NotificationEvent::ResourceUsageUpdated(_) => owned("🔄 予約更新"),
            NotificationEvent::ResourceUsageDeleted(_) => owned("🗑️ 予約削除"),
        };
        push_str(&mut r, "\n👤 ");
        push_str(&mut r, user.as_str());
        push_str(&mut r, "\n\n📅 期間\n");
        push_str(&mut r, time.as_str());
        push_str(&mut r, "\n\n");
        push_str(&mut r, label);
        push_str(&mut r, "\n");
        push_str(&mut r, resources.as_str());
        r
    }
}

} // verus!
