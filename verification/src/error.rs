//! The ways in which a ledger operation can be refused.

use vstd::prelude::*;
use vstd::string::StringExecFns;

verus! {

/// Why a ledger or coordinator operation was refused. Every refusal is local
/// and leaves the caller free to try again.
#[derive(Debug, Clone, Copy, PartialEq, Eq, Structural)]
pub enum ProtocolError {
    /// An action's proof token was not accepted.
    InvalidProof,
    /// A block was asked for while nothing was pending.
    EmptyPool,
    /// A block failed its hash, linkage or proof check.
    VerificationFailed,
    /// No shard carries the given label.
    ShardNotFound,
    /// The identity was never registered.
    IdentityNotFound,
    /// A campaign with the given identifier exists already.
    CampaignAlreadyExists,
}

impl ProtocolError {
    /// The text of each refusal.
    pub open spec fn text(self) -> Seq<char> {
        match self {
            ProtocolError::InvalidProof => "Invalid ZK proof"@,
            ProtocolError::EmptyPool => "No pending actions to include in block"@,
            ProtocolError::VerificationFailed => "Block verification failed"@,
            ProtocolError::ShardNotFound => "Shard not found"@,
            ProtocolError::IdentityNotFound => "User not found"@,
            ProtocolError::CampaignAlreadyExists => "Campaign already exists"@,
        }
    }

    /// A sentence that describes the refusal.
    pub fn message(&self) -> (text: String)
        ensures
            text@ == self.text(),
    {
        match self {
            ProtocolError::InvalidProof => String::from_str("Invalid ZK proof"),
            ProtocolError::EmptyPool => String::from_str("No pending actions to include in block"),
            ProtocolError::VerificationFailed => String::from_str("Block verification failed"),
            ProtocolError::ShardNotFound => String::from_str("Shard not found"),
            ProtocolError::IdentityNotFound => String::from_str("User not found"),
            ProtocolError::CampaignAlreadyExists => String::from_str("Campaign already exists"),
        }
    }
}

} // verus!
