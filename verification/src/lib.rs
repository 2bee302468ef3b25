//! Composing conventional, ticket-linked commit messages.
//!
//! A commit message or a branch name is parsed into a work-item kind, a
//! team/ticket identifier and a free-text body; the result renders back to
//! the canonical `kind: team-id body` form.

pub mod commit_message;
pub mod digits;
pub mod git;
pub mod text;
