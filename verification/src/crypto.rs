//! Interfaces of the cryptographic protocol and the errors it reports.
use vstd::prelude::*;

use crate::token::RESET_TOKEN_SIZE;

verus! {

/// A key for signing with HMAC-based algorithms
pub trait HmacKey {
    /// The signature of message `data` by this key
    ///
    /// Each implementation defines it; the default only serves implementations written outside
    /// Verus, and verified code treats the value of a key it does not know as unknown.
    open spec fn spec_signature(&self, data: Seq<u8>) -> Seq<u8> {
        vstd::pervasive::arbitrary()
    }

    /// The length of this key's signatures
    ///
    /// Each implementation defines it; the default only serves implementations written outside
    /// Verus, and verified code treats the value of a key it does not know as unknown.
    open spec fn spec_signature_len(&self) -> nat {
        vstd::pervasive::arbitrary()
    }

    /// Method for signing a message: the signature fills `signature_out`, which must have the
    /// length of this key's signatures
    fn sign(&self, data: &[u8], signature_out: &mut [u8])
        requires
            old(signature_out)@.len() == self.spec_signature_len(),
        ensures
            final(signature_out)@ == self.spec_signature(data@),
            final(signature_out)@.len() == old(signature_out)@.len(),
    ;

    /// Length of `sign`'s output, which holds at least a stateless reset token
    fn signature_len(&self) -> (r: usize)
        ensures
            r == self.spec_signature_len(),
            r >= RESET_TOKEN_SIZE,
    ;

    /// Method for verifying a message
    fn verify(&self, data: &[u8], signature: &[u8]) -> Result<(), CryptoError>;
}

/// Generic crypto errors
#[derive(Debug, Copy, Clone, PartialEq, Eq, Structural)]
pub struct CryptoError;

/// Error indicating that the specified QUIC version is not supported
#[derive(Debug, Copy, Clone, PartialEq, Eq, Structural)]
pub struct UnsupportedVersion;

/// A pair of keys for bidirectional communication
#[derive(Debug, Copy, Clone)]
pub struct KeyPair<T> {
    /// Key for encrypting data
    pub local: T,
    /// Key for decrypting data
    pub remote: T,
}

/// Keys used to protect packet headers
pub trait HeaderKey {
    /// Decrypt the given packet's header
    fn decrypt(&self, pn_offset: usize, packet: &mut [u8]);

    /// Encrypt the given packet's header
    fn encrypt(&self, pn_offset: usize, packet: &mut [u8]);

    /// The sample size used for this key's algorithm
    fn sample_size(&self) -> usize;
}

/// A key for sealing data with AEAD-based algorithms
pub trait AeadKey {
    /// The sealing of message `data` with additional data `additional_data` by this key, or
    /// `None` where sealing fails
    ///
    /// Each implementation defines it; the default only serves implementations written outside
    /// Verus, and verified code treats the value of a key it does not know as unknown.
    open spec fn spec_seal(&self, data: Seq<u8>, additional_data: Seq<u8>) -> Option<Seq<u8>> {
        vstd::pervasive::arbitrary()
    }

    /// Method for sealing message `data`: on success `data` holds the sealed message
    fn seal(&self, data: &mut Vec<u8>, additional_data: &[u8]) -> (r: Result<(), CryptoError>)
        ensures
            match self.spec_seal(old(data)@, additional_data@) {
                Some(sealed) => r is Ok && final(data)@ == sealed,
                None => r is Err,
            },
    ;

    /// Method for opening a sealed message `data`
    fn open<'a>(&self, data: &'a mut [u8], additional_data: &[u8]) -> Result<&'a mut [u8], CryptoError>;
}

/// A pseudo random key for HKDF
pub trait HandshakeTokenKey {
    /// The AEAD keys this key derives
    type Aead: AeadKey;

    /// The AEAD key derived from `random_bytes`
    ///
    /// Each implementation defines it; the default only serves implementations written outside
    /// Verus, and verified code treats the value of a key it does not know as unknown.
    open spec fn spec_aead(&self, random_bytes: Seq<u8>) -> Self::Aead {
        vstd::pervasive::arbitrary()
    }

    /// Derive AEAD using hkdf
    fn aead_from_hkdf(&self, random_bytes: &[u8]) -> (r: Self::Aead)
        ensures
            r == self.spec_aead(random_bytes@),
    ;
}

/// Error returned when exporting keying material fails: the requested output length is too
/// large.
#[derive(Debug, Copy, Clone, PartialEq, Eq, Structural)]
pub struct ExportKeyingMaterialError;

/// The initial cipher suite (AES-128-GCM-SHA256) is not available
#[derive(Debug, Copy, Clone, PartialEq, Eq, Structural)]
pub struct NoInitialCipherSuite {
    /// Whether the initial cipher suite was supplied by the caller
    pub specific: bool,
}

/// The QUIC versions the TLS layer tells apart
#[derive(Debug, Copy, Clone, PartialEq, Eq, Structural)]
pub enum TlsVersion {
    /// Drafts 29 to 32
    V1Draft,
    /// QUIC version 1, and drafts 33 and 34
    V1,
}

/// Whether the TLS layer knows QUIC version `version`: version 1 and drafts 29 to 34
pub open spec fn spec_version_known(version: u32) -> bool {
    0xff00_001d <= version <= 0xff00_0022 || version == 1
}

/// The TLS layer's view of QUIC version `version`
pub fn interpret_version(version: u32) -> (r: Result<TlsVersion, UnsupportedVersion>)
    ensures
        0xff00_001d <= version <= 0xff00_0020 ==> r == Ok::<TlsVersion, UnsupportedVersion>(
            TlsVersion::V1Draft,
        ),
        (version == 1 || 0xff00_0021 <= version <= 0xff00_0022) ==> r == Ok::<
            TlsVersion,
            UnsupportedVersion,
        >(TlsVersion::V1),
        !spec_version_known(version) ==> r == Err::<
            TlsVersion,
            UnsupportedVersion,
        >(UnsupportedVersion),
{
    if 0xff00_001d <= version && version <= 0xff00_0020 {
        Ok(TlsVersion::V1Draft)
    } else if version == 1 || (0xff00_0021 <= version && version <= 0xff00_0022) {
        Ok(TlsVersion::V1)
    } else {
        Err(UnsupportedVersion)
    }
}

} // verus!
