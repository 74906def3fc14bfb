//! Verified core of the Belarc Inventory workstation inventory system:
//! collector data model, compliance scoring, alerting, incident detection,
//! helpdesk ticket rules and the setup/agent decisions.

pub mod text;
pub mod setup;
pub mod json;
pub mod num;
pub mod models;
pub mod ext;
pub mod certs;
pub mod compliance;
pub mod standard_apps;
pub mod admin;
pub mod alerts;
pub mod freeze;
pub mod incidents;
pub mod tickets;
pub mod winpath;
pub mod agent;
pub mod summary;
pub mod maintenance;
pub mod markdown;
pub mod prompt;
pub mod workflow;
pub mod attach;
pub mod xlsx;
pub mod auth;
pub mod registry;
pub mod commands;
pub mod stats;
pub mod nas;
pub mod portal;

use vstd::prelude::*;

verus! {

} // verus!
