//! Dispatch-table synthesis and state-lifecycle logic for message-driven
//! actors running in a content-addressed, single-call-at-a-time host.
//!
//! The crate is organised leaf-first:
//! - [`resolver`] turns the flat `key = value` configuration text attached to
//!   an actor (and the per-handler binding annotations) into typed records;
//! - [`collector`] walks a structured token description of an implementation
//!   block and extracts the exported handlers in declaration order;
//! - [`table`] assigns every handler a dispatch key according to the actor's
//!   dispatch mode and rejects duplicate or malformed keys;
//! - [`lifecycle`] models the content-addressed block store behind a single
//!   mutable root pointer, the `load`/`save` state protocol, and the routing
//!   lookup that maps an incoming call-selector to a table entry;
//! - [`codec`] gives a small fixed-width state encoding used to exercise the
//!   lifecycle round trip end to end.

pub mod codec;
pub mod collector;
pub mod lifecycle;
pub mod resolver;
pub mod table;
