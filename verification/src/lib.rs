//! A linter for commit messages written in the conventional-commit style.
//!
//! The heart of the crate is [`messages::parse_message`], which decomposes raw
//! message text into a structured [`messages::Message`] (type, scope, title,
//! body, footers, breaking-change flag) and reports structural problems into a
//! [`problems::Problems`] sink. A fixed catalog of style rules in [`rules`]
//! then inspects the parsed message and reports further problems.

pub mod laws;
pub mod messages;
pub mod problems;
pub mod rules;
pub mod text;
