//! Chat-bot core: command grammar and access control, the quiz-poll
//! conversation engine and the poll-splitting rule.

pub mod access;
pub mod card;
pub mod commands;
pub mod committee;
pub mod config;
pub mod dialogue;
pub mod poll;
pub mod text;
