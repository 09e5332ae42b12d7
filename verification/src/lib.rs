//! The core of a local observability runtime: budgeted, deterministic queries over
//! resident telemetry, and what its server answers.
//!
//! # Queries
//!
//! [`engine::records`] answers one page of a query, within a budget of five
//! dimensions, and says what it left out. [`budget`] and [`spend`] are the
//! budget, [`cursor`] and [`lease`] are where an answer continues, [`filters`]
//! is what a query selects, and [`order`] is the order of every answer. The
//! store is anything that implements [`storage::TelemetryStore`].
//!
//! [`walk`] says what a page is, given what the store and the clock said on the
//! way, and [`laws`] says what follows: a page stays within its budget, paging
//! to the end returns everything once but for what a page says it passed over,
//! one question has one answer.
//!
//! # The server
//!
//! [`otlp_http`] and [`otlp_grpc`] decide what exports are answered,
//! [`investigation_http`] reads requests for an [`investigation`] and writes its
//! answer as JSON, [`forms`] says what that JSON shows, [`runtime`] holds the clock, the counters and the decisions
//! of the worker that fills the store, [`transport_guard`] bounds what is
//! buffered, and [`cli`] is the command line.
//!
//! # What is not proved
//!
//! The clocks, durations and atomic counters of the standard library, how it
//! shows text for debugging, and the JSON values of `serde_json` are taken at
//! the contracts that [`time`], [`transport_guard`], [`runtime`], [`text`] and
//! [`json`] give them.

pub mod budget;
pub mod cli;
pub mod codec;
pub mod cursor;
pub mod engine;
pub mod filters;
pub mod forms;
pub mod investigation;
pub mod investigation_http;
pub mod json;
pub mod laws;
pub mod lease;
pub mod model;
pub mod order;
pub mod otlp_grpc;
pub mod otlp_http;
pub mod result;
pub mod runtime;
pub mod spend;
pub mod storage;
pub mod text;
pub mod time;
pub mod transport_guard;
pub mod walk;
