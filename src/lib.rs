//! Authorization and object-discovery core of a resource gateway backed by a
//! relationship-based access-control authority.
//!
//! The library decides what to ask the authority, how to read its answers,
//! and how the answers of several list queries merge into one result. The
//! transport itself stays with the caller.

pub mod text;
pub mod auth;
pub mod authz;
pub mod relation;
pub mod discovery;
pub mod listing;
pub mod controller;
