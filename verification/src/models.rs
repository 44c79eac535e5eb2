//! What the application keeps: conversations, questions, users.

pub mod chat;
pub mod question;
pub mod user;
