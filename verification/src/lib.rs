//! Drives a consensus workflow ("final comment period") on issue discussion
//! threads: comments are parsed into bot commands, gated by team membership,
//! and applied to a store of proposals, review requests, concerns and
//! feedback requests, preserving the store's invariants at every step.

pub mod command;
pub mod github;
pub mod nag;
pub mod store;
pub mod teams;
pub mod text;
