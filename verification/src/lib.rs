//! Durable confession agent: the decisions behind the stage, the Workflows and
//! the model backends, as verified functions over plain values.
use vstd::prelude::*;

pub mod activities;
pub mod agent;
pub mod board;
pub mod config;
pub mod domain;
pub mod fixture;
pub mod http;
pub mod json;
pub mod moderation;
pub mod offline;
pub mod openai;
pub mod phases;
pub mod pipeline;
pub mod stage;
pub mod temporal;
pub mod text;
pub mod twilio;
pub mod twilio_poll;
pub mod workflows;

verus! {

/// Every Workflow identifier starts with this prefix.
pub const WORKFLOW_ID_PREFIX: &'static str = "rust-confession";

} // verus!
