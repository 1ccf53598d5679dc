//! Slack messages of reservation events: the text and its blocks.
pub mod block_builder;
pub mod formatter;

use crate::domain::notification::NotificationEvent;
use crate::infrastructure::notifier::formatter::period_in_range;
use crate::infrastructure::notifier::senders::mock::event_template;
use crate::infrastructure::notifier::senders::sender::NotificationContext;
use crate::infrastructure::notifier::senders::slack::block_builder::{
    is_message_only, is_message_with_buttons, MessageBlock, SlackBlockBuilder,
};
use crate::infrastructure::notifier::senders::slack::formatter::{user_display, SlackMessageFormatter};
use crate::infrastructure::notifier::template_renderer::TemplateRenderer;
use vstd::prelude::*;

verus! {

/// Builds what is posted to Slack for a reservation event.
pub struct SlackSender {}

impl SlackSender {
    /// The message for the event: the destination's template for it, rendered with the
    /// owner shown as a Slack mention when one is linked.
    pub fn format_message(context: &NotificationContext) -> (r: String)
        requires
            period_in_range(context.event.usage().time_period),
        ensures
            (TemplateRenderer {
                templates: &context.customization.templates,
                format: &context.customization.format,
                timezone: context.timezone,
            }).rendered(
                r@,
                event_template(*context),
                context.event.usage()@.resources,
                context.event.usage().time_period,
                context.event.usage()@.notes,
                user_display(context.event.usage()@.owner_email, context.identity_link),
            ),
    {
        let renderer = TemplateRenderer::new(
            &context.customization.templates,
            &context.customization.format,
            context.timezone,
        );
        match context.event {
            NotificationEvent::ResourceUsageCreated(usage) => {
                let user = SlackMessageFormatter::format_user(
                    usage.owner_email(),
                    context.identity_link,
                );
                renderer.render_created(usage, user.as_str())
            },
            NotificationEvent::ResourceUsageUpdated(usage) => {
                let user = SlackMessageFormatter::format_user(
                    usage.owner_email(),
                    context.identity_link,
                );
                renderer.render_updated(usage, user.as_str())
            },
            NotificationEvent::ResourceUsageDeleted(usage) => {
                let user = SlackMessageFormatter::format_user(
                    usage.owner_email(),
                    context.identity_link,
                );
                renderer.render_deleted(usage, user.as_str())
            },
        }
    }

    /// The blocks of the message: with the edit and cancel buttons of the reservation for a
    /// created or updated one, the text alone for a deleted one.
    pub fn build_message_blocks(message: &str, context: &NotificationContext) -> (blocks: Vec<
        MessageBlock,
    >)
        ensures
            match context.event {
                NotificationEvent::ResourceUsageDeleted(_) => is_message_only(blocks@, message@),
                _ => is_message_with_buttons(blocks@, message@, context.event.usage()@.id),
            },
    {
        let usage = context.event.usage_of();
        match context.event {
            NotificationEvent::ResourceUsageDeleted(_) => SlackBlockBuilder::build_message_only(
                message,
            ),
            _ => SlackBlockBuilder::build_message_with_buttons(message, usage.id()),
        }
    }
}

} // verus!
