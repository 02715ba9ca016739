//! The requests of the web interface.

pub mod caching;
pub mod firehose;
pub mod handlers;
pub mod optout;
pub mod params;
pub mod redirect;
pub mod steps;
