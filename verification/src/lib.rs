//! Engine of a chat-triggered status bot for a virtual-office platform.
//!
//! The library turns a free-text chat command into a typed intent, reconciles
//! the chat username with the office-platform username, picks a free grid slot
//! next to the target desk, and renders the user-facing reply. All transport
//! (HTTP, webhooks, environment) lives outside the library.

pub mod bot;
pub mod command;
pub mod consts;
pub mod directory;
pub mod emoji;
pub mod grid;
pub mod rc;
pub mod secret;
pub mod status;
pub mod text;
pub mod timestamp;
pub mod username;
pub mod zulip;

pub use bot::{Bot, Dispatch, Reply};
pub use command::Command;
pub use directory::{Directory, DirectoryFetchError};
pub use emoji::ZulipEmoji;
pub use grid::surrounding_positions;
pub use grid::Position;
pub use secret::Secret;
pub use status::Status;
pub use timestamp::Timestamp;
