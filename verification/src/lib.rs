//! A worker that builds, starts, publishes and removes project deployments.
//!
//! Everything that can be decided from plain values is decided here: the names of
//! containers, images and hosts, the commands handed to Docker and git, the rows
//! written to the database, the proxy route, and, in [`run`], what a job does next
//! once the outside world has replied.

pub mod command;
pub mod config;
pub mod effect;
pub mod fault;
pub mod naming;
pub mod proxy;
pub mod run;
pub mod setup;
pub mod slug;
pub mod store;
pub mod text;

