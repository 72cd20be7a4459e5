//! A sharded, append-only event ledger with range-based routing.
//!
//! Each shard covers an axis-aligned region of a three-dimensional
//! classification space, collects submitted actions in a pending pool, seals
//! them into hash-linked blocks and tracks campaign counters. A coordinator
//! owns the shards, routes identities to them and aggregates their statistics.

pub mod hashing;
pub mod error;
pub mod text;
pub mod clock;
pub mod types;
pub mod merkle;
pub mod metrics;
pub mod builder;
pub mod blockchain;
pub mod coordinator;
pub mod aggregate;
pub mod crypto;
pub mod demo_data;
pub mod fec;
pub mod laws;

pub use blockchain::{IdeologyRange, ShardStats, StanceShard};
pub use coordinator::PolisProtocol;
pub use crypto::{BlockSignature, DIDGenerator, PolisKeypair, PolisPublicKey, SignedAction};
pub use error::ProtocolError;
pub use types::{
    ActionType, CampaignState, CampaignStatus, DecentralizedPoliticianState, ImpactAction,
    MovementManifest, NodeStatus, PolisBlock, ZKActionProof,
};
