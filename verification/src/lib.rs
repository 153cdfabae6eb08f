//! Decision logic of a community-management bot: an interactive wizard that
//! builds a role selector step by step, the handler that applies a member's
//! choices on a published selector, and the small text rules around them.
pub mod actions;
pub mod directory;
pub mod dispatch;
pub mod embed;
pub mod error;
pub mod events;
pub mod introductions;
pub mod invariants;
pub mod json;
pub mod laws;
pub mod mutex;
pub mod numbers;
pub mod ordering;
pub mod registry;
pub mod render;
pub mod rest;
pub mod runtime;
pub mod selection;
pub mod session;
pub mod text;
pub mod twitch;
pub mod voice;
pub mod webblock;
pub mod wizard;
