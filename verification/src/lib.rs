//! TTstack: a lightweight private cloud.
//!
//! This crate holds the verified decision logic shared by the controller,
//! the host agent and the command-line client: the data model, input
//! validation, address and port allocation, VM placement, resource
//! accounting and the small text formats the components exchange.

pub mod agent;
pub mod agent_config;
pub mod api;
pub mod cli;
pub mod auth;
pub mod bsd_host;
pub mod controller;
pub mod deploy;
pub mod engines;
pub mod ids;
pub mod images;
pub mod model;
pub mod net;
pub mod num;
pub mod proxy;
pub mod scheduler;
pub mod storage;
pub mod schema;
pub mod text;
pub mod transfer;
