//! Ed25519 keys and signatures over actions and blocks, and the identities
//! that are derived from public keys.

use crate::clock::unix_now;
use crate::hashing::{
    hex_decode, hex_decoded, hex_encode, hex_lower, is_hex_text, sha256, sha256_digest, str_bytes,
};
use crate::text::{bytes_start_with, text_join};
use ed25519_dalek::{Signature, Signer, SigningKey, Verifier, VerifyingKey};
use vstd::prelude::*;
use vstd::slice::slice_subrange;
use vstd::string::StringExecFns;

verus! {

/// Why key material was refused.
#[derive(Debug, Clone, Copy, PartialEq, Eq, Structural)]
pub enum KeyError {
    /// A signing key must have 32 bytes.
    InvalidSigningKeyLength,
    /// A public key must have 32 bytes.
    InvalidPublicKeyLength,
    /// The text is not an even number of hexadecimal digits.
    InvalidHex,
}

impl KeyError {
    /// The text of each refusal.
    pub open spec fn text(self) -> Seq<char> {
        match self {
            KeyError::InvalidSigningKeyLength => "Invalid signing key bytes length"@,
            KeyError::InvalidPublicKeyLength => "Invalid public key length"@,
            KeyError::InvalidHex => "Invalid hex"@,
        }
    }

    /// A sentence that describes the refusal.
    pub fn message(&self) -> (text: String)
        ensures
            text@ == self.text(),
    {
        match self {
            KeyError::InvalidSigningKeyLength => String::from_str(
                "Invalid signing key bytes length",
            ),
            KeyError::InvalidPublicKeyLength => String::from_str("Invalid public key length"),
            KeyError::InvalidHex => String::from_str("Invalid hex"),
        }
    }
}

/// The Ed25519 public key that belongs to a 32-byte secret key.
pub uninterp spec fn ed25519_public_key(secret: Seq<u8>) -> Seq<u8>;

/// The Ed25519 signature of a message under a 32-byte secret key.
pub uninterp spec fn ed25519_signature(secret: Seq<u8>, message: Seq<u8>) -> Seq<u8>;

/// Whether 32 bytes are a public key under which 64 bytes are a signature of
/// the message.
pub uninterp spec fn ed25519_accepts(public_key: Seq<u8>, message: Seq<u8>, signature: Seq<u8>) -> bool;

/// Calls `rand::random` for 32 bytes. Trusted: the result has 32 bytes;
/// nothing is claimed of their values, which are random.
#[verifier::external_body]
fn random_seed() -> (seed: Vec<u8>)
    ensures
        seed@.len() == 32,
{
    rand::random::<[u8; 32]>().to_vec()
}

/// Calls `SigningKey::from_bytes` and `SigningKey::verifying_key`. Trusted:
/// the result is the public key of the secret key, in 32 bytes.
#[verifier::external_body]
fn derive_public_key(secret: &[u8]) -> (public: Vec<u8>)
    requires
        secret@.len() == 32,
    ensures
        public@ == ed25519_public_key(secret@),
        public@.len() == 32,
{
    let seed: [u8; 32] = secret.try_into().unwrap();
    SigningKey::from_bytes(&seed).verifying_key().to_bytes().to_vec()
}

/// Calls `SigningKey::from_bytes` and `Signer::sign`. Trusted: the result is
/// the signature of the message under the secret key, in 64 bytes; the same
/// key and message always give the same signature.
#[verifier::external_body]
fn ed25519_sign(secret: &[u8], message: &[u8]) -> (signature: Vec<u8>)
    requires
        secret@.len() == 32,
    ensures
        signature@ == ed25519_signature(secret@, message@),
        signature@.len() == 64,
{
    let seed: [u8; 32] = secret.try_into().unwrap();
    SigningKey::from_bytes(&seed).sign(message).to_bytes().to_vec()
}

/// Calls `VerifyingKey::from_bytes` and `Verifier::verify`. Trusted: the
/// result says whether the 32 bytes decode to a public key under which the
/// 64 bytes are a signature of the message.
#[verifier::external_body]
fn ed25519_verify(public_key: &[u8], message: &[u8], signature: &[u8]) -> (ok: bool)
    requires
        public_key@.len() == 32,
        signature@.len() == 64,
    ensures
        ok == ed25519_accepts(public_key@, message@, signature@),
{
    let key: [u8; 32] = public_key.try_into().unwrap();
    let sig: [u8; 64] = signature.try_into().unwrap();
    match VerifyingKey::from_bytes(&key) {
        Ok(k) => k.verify(message, &Signature::from_bytes(&sig)).is_ok(),
        Err(_) => false,
    }
}

/// A copy of a byte string.
pub fn clone_bytes(bytes: &[u8]) -> (copy: Vec<u8>)
    ensures
        copy@ == bytes@,
{
    let mut copy: Vec<u8> = Vec::new();
    copy.extend_from_slice(bytes);
    assert(copy@ =~= bytes@);
    copy
}

/// A secret key for signing: 32 bytes.
pub struct PolisKeypair {
    secret: Vec<u8>,
}

impl View for PolisKeypair {
    type V = Seq<u8>;

    closed spec fn view(&self) -> Seq<u8> {
        self.secret@
    }
}

impl Clone for PolisKeypair {
    fn clone(&self) -> (copy: Self)
        ensures
            copy@ == self@,
    {
        proof {
            use_type_invariant(self);
        }
        PolisKeypair { secret: clone_bytes(self.secret.as_slice()) }
    }
}

impl PolisKeypair {
    #[verifier::type_invariant]
    spec fn well_formed(self) -> bool {
        self.secret@.len() == 32
    }

    /// A key made of 32 random bytes.
    pub fn generate() -> (keypair: Self)
        ensures
            keypair@.len() == 32,
    {
        PolisKeypair { secret: random_seed() }
    }

    /// The key with the given bytes, of which there must be 32.
    pub fn from_bytes(bytes: &[u8]) -> (result: Result<Self, KeyError>)
        ensures
            match result {
                Ok(keypair) => bytes@.len() == 32 && keypair@ == bytes@,
                Err(e) => bytes@.len() != 32 && e == KeyError::InvalidSigningKeyLength,
            },
    {
        if bytes.len() != 32 {
            return Err(KeyError::InvalidSigningKeyLength);
        }
        Ok(PolisKeypair { secret: clone_bytes(bytes) })
    }

    /// The key's 32 bytes.
    pub fn to_bytes(&self) -> (bytes: Vec<u8>)
        ensures
            bytes@ == self@,
    {
        clone_bytes(self.secret.as_slice())
    }

    /// The 32 bytes of the public key that belongs to the key.
    pub fn public_key_bytes(&self) -> (bytes: Vec<u8>)
        ensures
            bytes@ == ed25519_public_key(self@),
            bytes@.len() == 32,
    {
        proof {
            use_type_invariant(self);
        }
        derive_public_key(self.secret.as_slice())
    }

    /// The signature of `data` under the key: 64 bytes.
    pub fn sign(&self, data: &[u8]) -> (signature: Vec<u8>)
        ensures
            signature@ == ed25519_signature(self@, data@),
            signature@.len() == 64,
    {
        proof {
            use_type_invariant(self);
        }
        ed25519_sign(self.secret.as_slice(), data)
    }

    /// The signature of the SHA-256 digest of a text.
    pub fn sign_message(&self, message: &str) -> (signature: Vec<u8>)
        ensures
            signature@ == ed25519_signature(self@, sha256(str_bytes(message@))),
            signature@.len() == 64,
    {
        let digest = sha256_digest(message.as_bytes());
        self.sign(digest.as_slice())
    }
}

/// Whether `signature` is accepted for `data` under `public_key`: the key
/// has 32 bytes, the signature 64, and the signature scheme accepts them.
pub open spec fn signature_valid(public_key: Seq<u8>, data: Seq<u8>, signature: Seq<u8>) -> bool {
    &&& public_key.len() == 32
    &&& signature.len() == 64
    &&& ed25519_accepts(public_key, data, signature)
}

/// Whether `signature` is accepted for the SHA-256 digest of a text.
pub open spec fn message_signature_valid(
    public_key: Seq<u8>,
    message: Seq<char>,
    signature: Seq<u8>,
) -> bool {
    signature_valid(public_key, sha256(str_bytes(message)), signature)
}

/// A public key for checking signatures.
#[derive(Debug, PartialEq, Eq)]
pub struct PolisPublicKey {
    /// The key's bytes; a key made by `from_bytes` has 32.
    pub bytes: Vec<u8>,
}

impl View for PolisPublicKey {
    type V = Seq<u8>;

    open spec fn view(&self) -> Seq<u8> {
        self.bytes@
    }
}

impl Clone for PolisPublicKey {
    fn clone(&self) -> (copy: Self)
        ensures
            copy@ == self@,
    {
        PolisPublicKey { bytes: clone_bytes(self.bytes.as_slice()) }
    }
}

impl PolisPublicKey {
    /// The key with the given bytes, of which there must be 32.
    pub fn from_bytes(bytes: Vec<u8>) -> (result: Result<Self, KeyError>)
        ensures
            match result {
                Ok(key) => bytes@.len() == 32 && key@ == bytes@,
                Err(e) => bytes@.len() != 32 && e == KeyError::InvalidPublicKeyLength,
            },
    {
        if bytes.len() != 32 {
            return Err(KeyError::InvalidPublicKeyLength);
        }
        Ok(PolisPublicKey { bytes })
    }

    /// Whether `signature_bytes` is a signature of `data` under the key. A
    /// key or a signature of the wrong length is never accepted.
    pub fn verify(&self, data: &[u8], signature_bytes: &[u8]) -> (ok: bool)
        ensures
            ok == signature_valid(self@, data@, signature_bytes@),
    {
        if self.bytes.len() != 32 || signature_bytes.len() != 64 {
            return false;
        }
        ed25519_verify(self.bytes.as_slice(), data, signature_bytes)
    }

    /// Whether `signature_bytes` is a signature of the SHA-256 digest of a
    /// text under the key.
    pub fn verify_message(&self, message: &str, signature_bytes: &[u8]) -> (ok: bool)
        ensures
            ok == message_signature_valid(self@, message@, signature_bytes@),
    {
        let digest = sha256_digest(message.as_bytes());
        self.verify(digest.as_slice(), signature_bytes)
    }

    /// The key in lowercase hexadecimal text.
    pub fn to_hex(&self) -> (text: String)
        ensures
            text@ == hex_lower(self@),
    {
        hex_encode(self.bytes.as_slice())
    }

    /// The key that hexadecimal text stands for: 64 digits in either case.
    pub fn from_hex(hex_str: &str) -> (result: Result<Self, KeyError>)
        ensures
            match result {
                Ok(key) => is_hex_text(str_bytes(hex_str@)) && key@ == hex_decoded(
                    str_bytes(hex_str@),
                ) && key@.len() == 32,
                Err(e) => if is_hex_text(str_bytes(hex_str@)) {
                    e == KeyError::InvalidPublicKeyLength && str_bytes(hex_str@).len() != 64
                } else {
                    e == KeyError::InvalidHex
                },
            },
    {
        match hex_decode(hex_str) {
            Ok(bytes) => PolisPublicKey::from_bytes(bytes),
            Err(_) => Err(KeyError::InvalidHex),
        }
    }
}

/// Seconds for which a signature counts as fresh.
pub const FRESHNESS_WINDOW: i64 = 300;

/// Whether something stamped at `timestamp` is fresh at `now`: less than
/// five minutes old.
pub open spec fn fresh_at(timestamp: i64, now: i64) -> bool {
    now - timestamp < FRESHNESS_WINDOW
}

/// An action's data with the signer's signature over it.
#[derive(Debug)]
pub struct SignedAction {
    /// The action's data as text.
    pub action_data: String,
    /// The signature over the SHA-256 digest of the data.
    pub signature: Vec<u8>,
    /// The signer's public key.
    pub public_key: PolisPublicKey,
    /// When the data was signed, in seconds since the Unix epoch.
    pub timestamp: i64,
}

/// A signed action as a mathematical value.
pub struct SignedActionView {
    pub action_data: Seq<char>,
    pub signature: Seq<u8>,
    pub public_key: Seq<u8>,
    pub timestamp: i64,
}

impl View for SignedAction {
    type V = SignedActionView;

    open spec fn view(&self) -> SignedActionView {
        SignedActionView {
            action_data: self.action_data@,
            signature: self.signature@,
            public_key: self.public_key@,
            timestamp: self.timestamp,
        }
    }
}

impl SignedActionView {
    /// Whether the signature is one of the data under the public key.
    pub open spec fn signature_holds(self) -> bool {
        message_signature_valid(self.public_key, self.action_data, self.signature)
    }

    /// Whether the signature holds and is fresh at `now`.
    pub open spec fn valid_at(self, now: i64) -> bool {
        self.signature_holds() && fresh_at(self.timestamp, now)
    }
}

impl SignedAction {
    /// Signs the data with the key at time `now`.
    pub fn new_at(action_data: &str, keypair: &PolisKeypair, now: i64) -> (signed: Self)
        ensures
            signed@ == (SignedActionView {
                action_data: action_data@,
                signature: ed25519_signature(keypair@, sha256(str_bytes(action_data@))),
                public_key: ed25519_public_key(keypair@),
                timestamp: now,
            }),
    {
        SignedAction {
            action_data: String::from_str(action_data),
            signature: keypair.sign_message(action_data),
            public_key: PolisPublicKey { bytes: keypair.public_key_bytes() },
            timestamp: now,
        }
    }

    /// Signs the data with the key at the current time.
    pub fn new(action_data: &str, keypair: &PolisKeypair) -> (signed: Self)
        ensures
            signed@ == (SignedActionView {
                action_data: action_data@,
                signature: ed25519_signature(keypair@, sha256(str_bytes(action_data@))),
                public_key: ed25519_public_key(keypair@),
                timestamp: signed@.timestamp,
            }),
            0 <= signed@.timestamp,
    {
        SignedAction::new_at(action_data, keypair, unix_now())
    }

    /// Whether the signature is one of the data under the public key.
    pub fn verify(&self) -> (ok: bool)
        ensures
            ok == self@.signature_holds(),
    {
        self.public_key.verify_message(self.action_data.as_str(), self.signature.as_slice())
    }

    /// Whether the signature is less than five minutes old at `now`.
    pub fn is_fresh_at(&self, now: i64) -> (fresh: bool)
        ensures
            fresh == fresh_at(self.timestamp, now),
    {
        (now as i128) - (self.timestamp as i128) < FRESHNESS_WINDOW as i128
    }

    /// Whether the signature is less than five minutes old now.
    pub fn is_fresh(&self) -> (fresh: bool)
        ensures
            exists|now: i64| 0 <= now && fresh == #[trigger] fresh_at(self.timestamp, now),
    {
        self.is_fresh_at(unix_now())
    }

    /// Whether the signature holds and is fresh at `now`.
    pub fn is_valid_at(&self, now: i64) -> (valid: bool)
        ensures
            valid == self@.valid_at(now),
    {
        self.verify() && self.is_fresh_at(now)
    }

    /// Whether the signature holds and is fresh now.
    pub fn is_valid(&self) -> (valid: bool)
        ensures
            valid ==> self@.signature_holds(),
            exists|now: i64| 0 <= now && valid == #[trigger] self@.valid_at(now),
    {
        self.is_valid_at(unix_now())
    }
}

/// A block's hash with its builder's signature over it.
#[derive(Debug)]
pub struct BlockSignature {
    /// The hash of the block.
    pub block_hash: String,
    /// The signature over the SHA-256 digest of the hash's text.
    pub signature: Vec<u8>,
    /// The builder's public key.
    pub validator_public_key: PolisPublicKey,
    /// When the hash was signed, in seconds since the Unix epoch.
    pub signed_at: i64,
}

/// A block signature as a mathematical value.
pub struct BlockSignatureView {
    pub block_hash: Seq<char>,
    pub signature: Seq<u8>,
    pub validator_public_key: Seq<u8>,
    pub signed_at: i64,
}

impl View for BlockSignature {
    type V = BlockSignatureView;

    open spec fn view(&self) -> BlockSignatureView {
        BlockSignatureView {
            block_hash: self.block_hash@,
            signature: self.signature@,
            validator_public_key: self.validator_public_key@,
            signed_at: self.signed_at,
        }
    }
}

impl BlockSignature {
    /// Signs a block hash with the builder's key at time `now`.
    pub fn new_at(block_hash: &str, validator_keypair: &PolisKeypair, now: i64) -> (signed: Self)
        ensures
            signed@ == (BlockSignatureView {
                block_hash: block_hash@,
                signature: ed25519_signature(validator_keypair@, sha256(str_bytes(block_hash@))),
                validator_public_key: ed25519_public_key(validator_keypair@),
                signed_at: now,
            }),
    {
        BlockSignature {
            block_hash: String::from_str(block_hash),
            signature: validator_keypair.sign_message(block_hash),
            validator_public_key: PolisPublicKey { bytes: validator_keypair.public_key_bytes() },
            signed_at: now,
        }
    }

    /// Signs a block hash with the builder's key at the current time.
    pub fn new(block_hash: &str, validator_keypair: &PolisKeypair) -> (signed: Self)
        ensures
            signed@ == (BlockSignatureView {
                block_hash: block_hash@,
                signature: ed25519_signature(validator_keypair@, sha256(str_bytes(block_hash@))),
                validator_public_key: ed25519_public_key(validator_keypair@),
                signed_at: signed@.signed_at,
            }),
            0 <= signed@.signed_at,
    {
        BlockSignature::new_at(block_hash, validator_keypair, unix_now())
    }

    /// Whether the signature is one of the block hash under the builder's
    /// public key.
    pub fn verify(&self) -> (ok: bool)
        ensures
            ok == message_signature_valid(
                self@.validator_public_key,
                self@.block_hash,
                self@.signature,
            ),
    {
        self.validator_public_key.verify_message(
            self.block_hash.as_str(),
            self.signature.as_slice(),
        )
    }
}

/// The text that every identity derived from a key starts with.
pub open spec fn did_prefix() -> Seq<char> {
    "did:polis:"@
}

/// The identity that belongs to a public key: the prefix and the first
/// sixteen hexadecimal digits of the key.
pub open spec fn did_of_key(public_key: Seq<u8>) -> Seq<char> {
    did_prefix() + hex_lower(public_key).take(16)
}

/// Whether a text has the form of an identity derived from a key: it starts
/// with the prefix and is 26 bytes long.
pub open spec fn did_format_valid(did: Seq<char>) -> bool {
    str_bytes(did_prefix()).is_prefix_of(str_bytes(did)) && str_bytes(did).len() == 26
}

/// Derives identities from keys.
pub struct DIDGenerator;

impl DIDGenerator {
    /// The identity that belongs to a public key of at least eight bytes.
    pub fn from_public_key(public_key: &PolisPublicKey) -> (did: String)
        requires
            public_key@.len() >= 8,
        ensures
            did@ == did_of_key(public_key@),
    {
        let head = slice_subrange(public_key.bytes.as_slice(), 0, 8);
        let digits = hex_encode(head);
        assert(digits@ =~= hex_lower(public_key@).take(16));
        text_join("did:polis:", digits.as_str())
    }

    /// The identity that belongs to a signing key.
    pub fn from_keypair(keypair: &PolisKeypair) -> (did: String)
        ensures
            did@ == did_of_key(ed25519_public_key(keypair@)),
    {
        let public_key = PolisPublicKey { bytes: keypair.public_key_bytes() };
        DIDGenerator::from_public_key(&public_key)
    }

    /// Whether a text has the form of an identity derived from a key.
    pub fn is_valid_format(did: &str) -> (valid: bool)
        ensures
            valid == did_format_valid(did@),
    {
        let bytes = did.as_bytes();
        bytes_start_with(bytes, "did:polis:".as_bytes()) && bytes.len() == 26
    }
}

} // verus!
