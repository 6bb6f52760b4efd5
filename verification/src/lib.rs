//! Verified core logic of the Komodo server and its auth layer.

pub mod auth;
pub mod builder;
pub mod client;
pub mod containers;
pub mod listener;
pub mod listing;
pub mod mem;
pub mod permission;
pub mod rand;
pub mod reporting;
pub mod resource_lists;
pub mod schedule;
pub mod sorting;
pub mod stats;
pub mod summary;
pub mod text;
