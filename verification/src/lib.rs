//! Decisions of a router-only endpoint picker.
//!
//! The crate holds what an endpoint picker decides: which requests it refuses,
//! what it asks the selection service for, which reservations it remembers and
//! releases, how it drives the service's worker catalog, and how a generated
//! stream is tied to the request that asked for it. Sockets, clocks, tasks and
//! the selection service itself stay with the caller, which performs the
//! actions it is given here and hands back what happened.
pub mod epp_router;
pub mod hints;
pub mod picker;
pub mod readiness;
pub mod reconcile;
pub mod reservations;
pub mod routed_engine;
pub mod selection;
pub mod selector;
pub mod text;
pub mod worker;
