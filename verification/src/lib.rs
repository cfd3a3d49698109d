//! Verified core of a small notes-and-chat web service: its configuration,
//! the note schemas and the replies the note endpoints give, and the
//! registry of chat rooms with the protocol of a chat session.

pub mod app_config;
pub mod text;
pub mod rooms;
pub mod chat;
pub mod model;
pub mod note_schema;
pub mod notes;
pub mod logger;
