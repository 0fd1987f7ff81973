//! The data-consistency and error-propagation core of a chat-group service:
//! domain operations over a model of the relational store (users, groups,
//! fixed-capacity memberships, ordered messages), a bounded connection-pool
//! model, and the two-layer error taxonomy with its caller-visible response
//! mapping.

pub mod errors;
pub mod respond;
pub mod storage_errors;
pub mod store;
pub mod ops;
pub mod payloads;
pub mod pool;
pub mod laws;
