//! A horizontally sharded, append-heavy record store, split between an
//! orchestrator that tracks shard membership and propagates code upgrades,
//! and data-holding shards that store typed event records, enforce
//! role-gated mutation, and serve filtered/sorted/paginated reads.
//!
//! Everything that decides or computes lives here and carries a contract:
//! the per-shard record store, the filter/sort/paginate engine, the
//! identifier codec, the chunked-transfer codec, the permission evaluation,
//! and the orchestrator registry with its capacity-triggered reshard
//! protocol. Cross-process effects (transport calls, role-service lookups,
//! clock reads, wire serialization) are performed by the surrounding host,
//! which hands their outcomes to these functions as plain values.

pub mod chunks;
pub mod events;
pub mod filters;
pub mod identifier;
pub mod paging;
pub mod registry;
pub mod roles;
pub mod shard;
pub mod sort;
pub mod types;
pub mod validate;
