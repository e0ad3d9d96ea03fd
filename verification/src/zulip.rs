//! The shapes of inbound team-chat webhook notifications.
//!
//! Only direct messages trigger command processing; mentions are acknowledged
//! without a reply. Timestamps arrive as UNIX seconds.

use vstd::prelude::*;

verus! {

/// What aspect of a message triggered the notification.
#[derive(Debug, Clone, Copy, PartialEq, Eq, Structural)]
pub enum Trigger {
    DirectMessage,
    Mention,
}

/// How the message body is encoded.
#[derive(Debug, Clone, Copy, PartialEq, Eq, Structural)]
pub enum ContentType {
    Html,
    Markdown,
}

/// Whether the message went to a stream or to people directly.
#[derive(Debug, Clone, Copy, PartialEq, Eq, Structural)]
pub enum MessageType {
    Stream,
    Private,
}

/// A chat user, as named in a recipient list.
#[derive(Debug)]
pub struct User {
    pub email: String,
    pub full_name: String,
    pub id: u64,
    pub is_mirror_dummy: bool,
}

/// Who received the message: a list of users or a stream name.
#[derive(Debug)]
pub enum DisplayRecipient {
    Recipients(Vec<User>),
    Stream(String),
}

/// The chat message that triggered the notification.
#[derive(Debug)]
pub struct Message {
    /// The sender's avatar URL, where the chat exposes one.
    pub avatar_url: Option<String>,
    /// Which chat client sent the message.
    pub client: String,
    /// The message body.
    pub content: String,
    /// How the body is encoded.
    pub content_type: ContentType,
    /// Who received the message.
    pub display_recipient: DisplayRecipient,
    /// The unique message id.
    pub id: u64,
    /// Whether the message is a `/me` status message.
    pub is_me_message: bool,
    /// When the message was last edited, in UNIX seconds.
    pub last_edit_timestamp: i64,
    /// A unique id for the set of receivers.
    pub recipient_id: u64,
    /// The chat email address of the sender.
    pub sender_email: String,
    /// The full display name of the sender; the engine matches on this.
    pub sender_full_name: String,
    /// The user id of the sender.
    pub sender_id: u64,
    /// The realm of the sender.
    pub sender_realm_str: String,
    /// The stream id, for stream messages.
    pub stream_id: Option<u64>,
    /// The topic; empty for direct messages.
    pub subject: String,
    /// When the message was sent, in UNIX seconds.
    pub timestamp: i64,
    /// Stream or private.
    pub kind: MessageType,
    /// The body rendered to HTML.
    pub rendered_content: String,
}

/// An inbound webhook notification.
#[derive(Debug)]
pub struct OutgoingWebhook {
    /// The email of the bot user the notification is for.
    pub bot_email: String,
    /// The full name of the bot user.
    pub bot_full_name: String,
    /// The raw command text.
    pub data: String,
    /// What triggered the notification.
    pub trigger: Trigger,
    /// The shared secret that authenticates the webhook.
    pub token: String,
    /// The message that triggered the notification.
    pub message: Message,
}

} // verus!
