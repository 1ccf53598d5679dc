//! Slack message blocks: a text section and, for reservations that still stand, the
//! buttons to change or cancel them.
use crate::text::owned;
use vstd::prelude::*;

verus! {

/// How a button is shown.
#[derive(Debug, Clone, Copy, PartialEq, Eq, Structural)]
pub enum ButtonStyle {
    Primary,
    Danger,
}

/// What a button sends back when pressed.
#[derive(Debug)]
pub enum ButtonValue {
    /// A plain value, such as a reservation id.
    Text(String),
    /// A reservation proposal to accept, sent back in its JSON form.
    Proposal(crate::domain::proposal::ProposalAcceptPayload),
}

/// A button that sends its action and value back when pressed.
#[derive(Debug)]
pub struct Button {
    /// The label (plain text).
    pub text: String,
    pub style: Option<ButtonStyle>,
    /// What pressing it asks for.
    pub action_id: String,
    /// The value sent back with the action.
    pub value: ButtonValue,
}

/// The plain value of a button, if it has one.
pub open spec fn text_value(v: ButtonValue) -> Option<Seq<char>> {
    match v {
        ButtonValue::Text(t) => Some(t@),
        ButtonValue::Proposal(_) => None,
    }
}

/// One block of a message.
#[derive(Debug)]
pub enum MessageBlock {
    /// A section of Markdown text.
    Section { text: String },
    /// A row of buttons.
    Actions { elements: Vec<Button> },
}

/// The action of the button that changes a reservation.
pub const ACTION_EDIT_RESERVATION: &'static str = "edit_reservation";

/// The action of the button that cancels a reservation.
pub const ACTION_CANCEL_RESERVATION: &'static str = "cancel_reservation";

/// Model of a button with a plain value: label, style, action and value.
pub open spec fn button_view(b: Button) -> (Seq<char>, Option<ButtonStyle>, Seq<char>, Option<Seq<char>>) {
    (b.text@, b.style, b.action_id@, text_value(b.value))
}

/// The blocks are one text section with the message and a row of two buttons, "🔄 更新"
/// (primary, editing) and "❌ キャンセル" (danger, cancelling), both carrying the reservation id.
pub open spec fn is_message_with_buttons(
    blocks: Seq<MessageBlock>,
    message: Seq<char>,
    usage_id: Seq<char>,
) -> bool {
    &&& blocks.len() == 2
    &&& blocks[0] matches MessageBlock::Section { text } && text@ == message
    &&& blocks[1] matches MessageBlock::Actions { elements } && elements@.len() == 2 && button_view(
        elements@[0],
    ) == ("🔄 更新"@, Some(ButtonStyle::Primary), ACTION_EDIT_RESERVATION@, Some(usage_id))
        && button_view(elements@[1]) == (
        "❌ キャンセル"@,
        Some(ButtonStyle::Danger),
        ACTION_CANCEL_RESERVATION@,
        Some(usage_id),
    )
}

/// The blocks are one text section with the message.
pub open spec fn is_message_only(blocks: Seq<MessageBlock>, message: Seq<char>) -> bool {
    &&& blocks.len() == 1
    &&& blocks[0] matches MessageBlock::Section { text } && text@ == message
}

/// Builds Slack message blocks.
pub struct SlackBlockBuilder {}

impl SlackBlockBuilder {
    /// The message as a text section followed by the edit and cancel buttons of the
    /// reservation.
    pub fn build_message_with_buttons(message: &str, usage_id: &str) -> (blocks: Vec<MessageBlock>)
        ensures
            is_message_with_buttons(blocks@, message@, usage_id@),
    {
        let edit = Button {
            text: owned("🔄 更新"),
            style: Some(ButtonStyle::Primary),
            action_id: owned(ACTION_EDIT_RESERVATION),
            value: ButtonValue::Text(owned(usage_id)),
        };
        let cancel = Button {
            text: owned("❌ キャンセル"),
            style: Some(ButtonStyle::Danger),
            action_id: owned(ACTION_CANCEL_RESERVATION),
            value: ButtonValue::Text(owned(usage_id)),
        };
        let mut elements: Vec<Button> = Vec::new();
        elements.push(edit);
        elements.push(cancel);
        let mut blocks: Vec<MessageBlock> = Vec::new();
        blocks.push(MessageBlock::Section { text: owned(message) });
        blocks.push(MessageBlock::Actions { elements });
        blocks
    }

    /// The message as a single text section.
    pub fn build_message_only(message: &str) -> (blocks: Vec<MessageBlock>)
        ensures
            is_message_only(blocks@, message@),
    {
        let mut blocks: Vec<MessageBlock> = Vec::new();
        blocks.push(MessageBlock::Section { text: owned(message) });
        blocks
    }
}

} // verus!
