//! Generation of local connection IDs.
use rand::{Rng, RngCore};
use std::hash::Hasher;
use vstd::prelude::*;

use crate::shared::{ConnectionId, MAX_CID_SIZE};

verus! {

/// Generates connection IDs for incoming connections
pub trait ConnectionIdGenerator {
    /// Generates a new CID
    ///
    /// Connection IDs MUST NOT contain any information that can be used by an external observer
    /// (that is, one that does not cooperate with the issuer) to correlate them with other
    /// connection IDs for the same connection.
    fn generate_cid(&mut self) -> ConnectionId;

    /// Returns the length of a CID for connections created by this generator
    fn cid_len(&self) -> usize;

    /// Returns the lifetime of generated Connection IDs, in nanoseconds
    ///
    /// Connection IDs will be retired after the returned duration, if any. Assumed to be constant.
    fn cid_lifetime(&self) -> Option<u64>;
}

/// `len` random bytes
#[verifier::external_body]
pub(crate) fn random_bytes(len: usize) -> (r: Vec<u8>)
    ensures
        r@.len() == len,
{
    let mut v = vec![0u8; len];
    rand::thread_rng().fill_bytes(&mut v);
    v
}

/// A random 64-bit integer
#[verifier::external_body]
fn random_u64() -> u64 {
    rand::thread_rng().gen()
}

/// The FxHash of `key` followed by `nonce`, as `rustc_hash::FxHasher` computes it
#[verifier::external_body]
fn fx_hash(key: u64, nonce: &[u8]) -> u64 {
    let mut hasher = rustc_hash::FxHasher::default();
    hasher.write_u64(key);
    hasher.write(nonce);
    hasher.finish()
}

/// Generates purely random connection IDs of a certain length
#[derive(Debug, Clone, Copy)]
pub struct RandomConnectionIdGenerator {
    cid_len: usize,
    lifetime: Option<u64>,
}

impl RandomConnectionIdGenerator {
    #[verifier::type_invariant]
    closed spec fn inv(self) -> bool {
        self.cid_len <= MAX_CID_SIZE
    }

    /// Length of the IDs generated
    pub closed spec fn spec_cid_len(self) -> usize {
        self.cid_len
    }

    /// Lifetime of the IDs generated, in nanoseconds
    pub closed spec fn spec_lifetime(self) -> Option<u64> {
        self.lifetime
    }

    /// Initialize Random CID generator with a fixed CID length
    ///
    /// The given length must be less than or equal to MAX_CID_SIZE.
    pub fn new(cid_len: usize) -> (r: RandomConnectionIdGenerator)
        requires
            cid_len <= MAX_CID_SIZE,
        ensures
            r.spec_cid_len() == cid_len,
            r.spec_lifetime() is None,
    {
        RandomConnectionIdGenerator { cid_len, lifetime: None }
    }

    /// Set the lifetime of CIDs created by this generator, in nanoseconds
    pub fn set_lifetime(&mut self, d: u64) -> (r: &mut RandomConnectionIdGenerator)
        ensures
            r.spec_cid_len() == old(self).spec_cid_len(),
            r.spec_lifetime() == Some(d),
            *final(self) == *final(r),
    {
        proof {
            use_type_invariant(&*self);
        }
        self.lifetime = Some(d);
        self
    }
}

impl Default for RandomConnectionIdGenerator {
    fn default() -> (r: RandomConnectionIdGenerator)
        ensures
            r.spec_cid_len() == 8,
            r.spec_lifetime() is None,
    {
        RandomConnectionIdGenerator { cid_len: 8, lifetime: None }
    }
}

impl ConnectionIdGenerator for RandomConnectionIdGenerator {
    fn generate_cid(&mut self) -> (r: ConnectionId)
        ensures
            r@.len() == old(self).spec_cid_len(),
            *final(self) == *old(self),
    {
        proof {
            use_type_invariant(&*self);
        }
        let bytes = random_bytes(self.cid_len);
        ConnectionId::new(bytes.as_slice())
    }

    /// Provide the length of dst_cid in short header packet
    fn cid_len(&self) -> (r: usize)
        ensures
            r == self.spec_cid_len(),
    {
        self.cid_len
    }

    fn cid_lifetime(&self) -> (r: Option<u64>)
        ensures
            r == self.spec_lifetime(),
    {
        self.lifetime
    }
}

/// Number of random bytes at the start of a hashed connection ID
pub const NONCE_LEN: usize = 3;

/// Number of bytes of the signature that follows the nonce
pub const SIGNATURE_LEN: usize = 5;

/// The little-endian bytes of `h`
pub open spec fn spec_le_bytes(h: u64) -> Seq<u8> {
    seq![
        h as u8,
        (h >> 8u64) as u8,
        (h >> 16u64) as u8,
        (h >> 24u64) as u8,
        (h >> 32u64) as u8,
        (h >> 40u64) as u8,
        (h >> 48u64) as u8,
        (h >> 56u64) as u8,
    ]
}

/// Generates 8-byte connection IDs: a random nonce followed by a signature derived from a key and
/// the nonce
///
/// This generator uses a non-cryptographic hash and can therefore still be spoofed, but
/// nonetheless helps prevents responding to non-QUIC packets at very low cost.
#[derive(Debug, Clone, Copy)]
pub struct HashedConnectionIdGenerator {
    key: u64,
    lifetime: Option<u64>,
}

impl HashedConnectionIdGenerator {
    /// The key signatures are derived from
    pub closed spec fn spec_key(self) -> u64 {
        self.key
    }

    /// Lifetime of the IDs generated, in nanoseconds
    pub closed spec fn spec_lifetime(self) -> Option<u64> {
        self.lifetime
    }

    /// Create a generator with a random key
    pub fn new() -> (r: HashedConnectionIdGenerator)
        ensures
            r.spec_lifetime() is None,
    {
        HashedConnectionIdGenerator::from_key(random_u64())
    }

    /// Create a generator with a specific key
    ///
    /// Allows recognizing a consistent set of connection IDs across restarts
    pub fn from_key(key: u64) -> (r: HashedConnectionIdGenerator)
        ensures
            r.spec_key() == key,
            r.spec_lifetime() is None,
    {
        HashedConnectionIdGenerator { key, lifetime: None }
    }

    /// The connection ID made of `nonce` followed by the first `SIGNATURE_LEN` little-endian
    /// bytes of `hash`, the hash of this generator's key and the nonce
    pub fn cid_from_parts(nonce: &[u8], hash: u64) -> (r: ConnectionId)
        requires
            nonce@.len() == NONCE_LEN,
        ensures
            r@ == nonce@ + spec_le_bytes(hash).take(SIGNATURE_LEN as int),
    {
        let mut bytes: Vec<u8> = Vec::new();
        bytes.push(nonce[0]);
        bytes.push(nonce[1]);
        bytes.push(nonce[2]);
        bytes.push(hash as u8);
        bytes.push((hash >> 8u64) as u8);
        bytes.push((hash >> 16u64) as u8);
        bytes.push((hash >> 24u64) as u8);
        bytes.push((hash >> 32u64) as u8);
        assert(bytes@ =~= nonce@ + spec_le_bytes(hash).take(SIGNATURE_LEN as int));
        ConnectionId::new(bytes.as_slice())
    }
}

impl Default for HashedConnectionIdGenerator {
    fn default() -> (r: HashedConnectionIdGenerator)
        ensures
            r.spec_lifetime() is None,
    {
        HashedConnectionIdGenerator::new()
    }
}

impl ConnectionIdGenerator for HashedConnectionIdGenerator {
    fn generate_cid(&mut self) -> (r: ConnectionId)
        ensures
            r@.len() == NONCE_LEN + SIGNATURE_LEN,
            *final(self) == *old(self),
    {
        let nonce = random_bytes(NONCE_LEN);
        let hash = fx_hash(self.key, nonce.as_slice());
        HashedConnectionIdGenerator::cid_from_parts(nonce.as_slice(), hash)
    }

    fn cid_len(&self) -> (r: usize)
        ensures
            r == NONCE_LEN + SIGNATURE_LEN,
    {
        NONCE_LEN + SIGNATURE_LEN
    }

    fn cid_lifetime(&self) -> (r: Option<u64>)
        ensures
            r == self.spec_lifetime(),
    {
        self.lifetime
    }
}

} // verus!
