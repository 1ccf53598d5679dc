//! A channel for tests and development that prints its messages.
use crate::domain::notification::NotificationEvent;
use crate::infrastructure::notifier::formatter::period_in_range;
use crate::infrastructure::notifier::senders::sender::NotificationContext;
use crate::infrastructure::notifier::template_renderer::{
    chosen_template, TemplateRenderer, DEFAULT_CREATED, DEFAULT_DELETED, DEFAULT_UPDATED,
};
use vstd::prelude::*;

verus! {

/// A channel that prints its messages instead of sending them.
#[derive(Debug)]
pub struct MockSender {}

/// The template the destination uses for the event.
pub open spec fn event_template(context: NotificationContext) -> Seq<char> {
    let t = context.customization.templates;
    match context.event {
        NotificationEvent::ResourceUsageCreated(_) => chosen_template(t.created, DEFAULT_CREATED),
        NotificationEvent::ResourceUsageUpdated(_) => chosen_template(t.updated, DEFAULT_UPDATED),
        NotificationEvent::ResourceUsageDeleted(_) => chosen_template(t.deleted, DEFAULT_DELETED),
    }
}

impl MockSender {
    /// A new mock channel.
    pub fn new() -> (s: MockSender) {
        MockSender {  }
    }

    /// The message for the event: the destination's template for it, rendered with the
    /// owner's email address as the user.
    pub fn format_message(&self, context: &NotificationContext) -> (r: String)
        requires
            period_in_range(context.event.usage().time_period),
        ensures
            (TemplateRenderer {
                templates: &context.customization.templates,
                format: &context.customization.format,
                timezone: context.timezone,
            }).rendered(
                r@,
                event_template(*context),
                context.event.usage()@.resources,
                context.event.usage().time_period,
                context.event.usage()@.notes,
                context.event.usage()@.owner_email,
            ),
    {
        let renderer = TemplateRenderer::new(
            &context.customization.templates,
            &context.customization.format,
            context.timezone,
        );
        match context.event {
            NotificationEvent::ResourceUsageCreated(usage) => renderer.render_created(
                usage,
                usage.owner_email(),
            ),
            NotificationEvent::ResourceUsageUpdated(usage) => renderer.render_updated(
                usage,
                usage.owner_email(),
            ),
            NotificationEvent::ResourceUsageDeleted(usage) => renderer.render_deleted(
                usage,
                usage.owner_email(),
            ),
        }
    }
}

} // verus!
