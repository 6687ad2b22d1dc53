//! Core logic of the oqto agent-workspace backend: validation of container
//! settings, agent naming and port planning, authentication configuration,
//! API error classification, chat-history shaping and the administrator
//! CLI's provisioning advice.

pub mod text;
pub mod container;
pub mod agent;
pub mod agent_service;
pub mod auth;
pub mod api_error;
pub mod order;
pub mod history;
pub mod agent_rpc;
pub mod api;
pub mod proxy;
pub mod terminal;
pub mod a2ui;
pub mod ctl;
pub mod pi;
pub mod pi_stream;
pub mod eavs;
pub mod octoctl;
pub mod runner;
pub mod pi_bridge;
pub mod json;
pub mod samples;
