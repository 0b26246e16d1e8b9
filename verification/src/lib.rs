//! Control-plane logic of a multiview appliance.
//!
//! Everything here decides and computes; nothing waits, reads a file or opens a
//! socket. Clocks, random draws and what came over the wire are arguments, and
//! what is to be done is an answer, so that each decision has a contract.
//!
//! - Access: [`auth`], [`concurrency`], [`config_lock`], [`cors`].
//! - The engine: [`command`], [`alarm_store`], [`audio_routing`].
//! - The configuration: [`boot_model`], [`config_watch`], [`config_apply`].
//! - The account: [`account_audit`].
//! - Managed devices: [`devices`].
//!
//! What is believed rather than proved stands in [`crypto`], [`json`], [`text`]
//! and `devices::zowietek::client`: each trusted function names the outside
//! function that it calls.

pub mod account_audit;
pub mod alarm_store;
pub mod audio_routing;
pub mod auth;
pub mod boot_model;
pub mod command;
pub mod concurrency;
pub mod config_apply;
pub mod config_lock;
pub mod config_watch;
pub mod cors;
pub mod crypto;
pub mod devices;
pub mod error;
pub mod json;
pub mod model;
pub mod net_literal;
pub mod sections;
pub mod table;
pub mod text;
pub mod time;
