//! Workflow orchestration for a project that moves from an idea through
//! clarification, a requirements document, development and deployment.
//!
//! Every operation is a verified transition on a [`models::StateStore`];
//! remote completions, agent runs and storage are performed by the caller,
//! which hands their results to the transitions as plain values.
//!
//! - [`models`]: the entities, their views, and lookup by identifier.
//! - [`store`]: the single steps that change a store.
//! - [`service`]: the operations of the workflow.
//! - [`clients`]: the resolution of settings and the requests to the
//!   completion service and the coding agent.
//! - [`relay`]: the registry that hands a stream of progress to one
//!   consumer.
//! - [`laws`]: what holds of every store that the operations produce.
//! - [`order`], [`text`], [`utils`], [`files`], [`auth`], [`common`]: the
//!   parts that the above are built from.

pub mod auth;
pub mod clients;
pub mod common;
pub mod files;
pub mod laws;
pub mod models;
pub mod order;
pub mod relay;
pub mod service;
pub mod store;
pub mod text;
pub mod utils;
