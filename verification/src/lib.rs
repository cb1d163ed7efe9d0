//! The core of a household task tracker. Users score tasks for points, log
//! in to sessions and form teams; all of them are entities that live as nodes
//! and edges in a property-graph store.
//!
//! The library words the statements for the store, decodes the rows that
//! come back, and lays down the order of the steps of each exchange, with a
//! transaction around every write. It does no input or output: the caller
//! holds the connection, sends what the library hands out and gives back
//! what the store answered.

pub mod client;
pub mod entity;
pub mod error;
pub mod graph;
pub mod legacy_repository;
pub mod logic;
pub mod login;
pub mod relation;
pub mod repository;
pub mod request;
pub mod session;
pub mod task;
pub mod text;
pub mod user;
pub mod timestamp;
pub mod transaction;
pub mod util;
