//! The request logic of a chat log service, verified.

pub mod app;
pub mod calendar;
pub mod collections;
pub mod error;
pub mod fetch;
pub mod migration;
pub mod search;
pub mod users;
pub mod web;
