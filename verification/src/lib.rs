//! Management of gaming communities: players and teams grouped in
//! communities, and parties (matches) recorded between teams. The core is
//! the dynamic filter-query builder, which turns an arbitrary combination of
//! optional predicates into a parameterized query whose placeholder ordinals
//! always line up with its bound values, and the aggregate hydrator, which
//! expands normalized rows into nested object graphs under the soft-delete
//! visibility rule. Every operation's behaviour is stated in its contract
//! and machine-checked.

#![verifier::loop_isolation(false)]

pub mod api;
pub mod date_time;
pub mod decimal;
pub mod domain;
pub mod dto;
pub mod error;
pub mod filter;
pub mod interfaces;
pub mod query;
pub mod store;
pub mod usecases;
