//! A sharded service of groups, verified with Verus.
//!
//! A directory ([`directory`], [`whitelist`]) knows the nodes that hold the
//! groups, brings up new nodes and hands a full node over to the node that
//! follows it ([`lifecycle`]), and gathers the groups of all nodes chunk by
//! chunk ([`chunk`], [`aggregate`]). A node ([`store`]) keeps its groups under
//! identifiers that it makes itself ([`identifier`]), takes new groups
//! ([`admission`]) and changes to them ([`changes`], [`group_roles`]), checks
//! who may do what ([`roles`], [`access`]) and answers queries ([`queries`],
//! [`filter`], [`paging`]). What holds of the service as a whole is stated
//! and proved in [`laws`].
//!
//! Nothing here reads a clock, a caller or another canister: the time, the
//! caller and what other canisters answered come in as arguments.

pub mod access;
pub mod admission;
pub mod aggregate;
pub mod changes;
pub mod chunk;
pub mod combine_store;
pub mod directory;
pub mod error;
pub mod filter;
pub mod group_model;
pub mod group_roles;
pub mod identifier;
pub mod laws;
pub mod lifecycle;
pub mod migration;
pub mod paging;
pub mod principal;
pub mod principal_map;
pub mod queries;
pub mod roles;
pub mod snapshot;
pub mod store;
pub mod text;
pub mod validation;
pub mod whitelist;
