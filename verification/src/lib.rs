//! Orchestration core of an incremental-build benchmark driver.
//!
//! The library sequences a benchmark run over a memoized computation engine:
//! it plans which endpoints each route materializes, drives a fail-fast
//! route-build loop with a garbage-collection convergence pass after every
//! route, and replays a bounded prefix of hot-module-reload updates while
//! flagging slow ones. The engine itself (computation, persistence,
//! reclamation) is an outside collaborator: callers run the engine and feed
//! its outcomes back in, and every decision the driver makes about those
//! outcomes is verified here.

pub mod route;
pub mod events;
pub mod gc;
pub mod hmr;
pub mod driver;
pub mod metrics;
pub mod laws;
