//! Verified core of a terminal client for GitHub pull-request conversations.

pub mod text;
pub mod cli;
pub mod auth;
pub mod github;
pub mod time;
pub mod event;
pub mod app;
pub mod update;
pub mod ui;
