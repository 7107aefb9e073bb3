//! Stateless reset tokens and the plaintext of retry tokens.
use vstd::prelude::*;

use crate::coding::{be16, be64, put_slice, put_u16, put_u64};
use crate::crypto::{AeadKey, CryptoError, HandshakeTokenKey, HmacKey};
use crate::shared::{spec_encode_long, ConnectionId, SocketAddr};

verus! {

/// Size of a stateless reset token, in bytes
pub const RESET_TOKEN_SIZE: usize = 16;

/// Stateless reset token
///
/// Used for an endpoint to securely communicate that it has lost state for a connection.
#[derive(Debug, Copy, Clone, Hash)]
pub struct ResetToken([u8; RESET_TOKEN_SIZE]);

impl View for ResetToken {
    type V = Seq<u8>;

    open spec fn view(&self) -> Seq<u8> {
        self.spec_bytes()
    }
}

impl ResetToken {
    /// The bytes of the token
    pub closed spec fn spec_bytes(self) -> Seq<u8> {
        self.0@
    }

    /// A token holds exactly `RESET_TOKEN_SIZE` bytes
    pub proof fn lemma_len(self)
        ensures
            self@.len() == RESET_TOKEN_SIZE,
    {
    }

    /// The token of connection ID `id`: the start of its signature by `key`
    pub fn new<K: HmacKey>(key: &K, id: &ConnectionId) -> (r: ResetToken)
        ensures
            r@.len() == RESET_TOKEN_SIZE,
            r@ == key.spec_signature(id@).subrange(0, RESET_TOKEN_SIZE as int),
    {
        let n = key.signature_len();
        let mut signature: Vec<u8> = vec![0u8; n];
        let data = id.to_vec();
        key.sign(data.as_slice(), signature.as_mut_slice());
        Self::from_signature(signature.as_slice())
    }

    /// Construct a token from its bytes
    pub fn from_bytes(x: [u8; RESET_TOKEN_SIZE]) -> (r: ResetToken)
        ensures
            r@ == x@,
    {
        ResetToken(x)
    }

    /// Construct a token from the first `RESET_TOKEN_SIZE` bytes of a signature of the
    /// connection ID
    pub fn from_signature(signature: &[u8]) -> (r: ResetToken)
        requires
            signature@.len() >= RESET_TOKEN_SIZE,
        ensures
            r@ == signature@.subrange(0, RESET_TOKEN_SIZE as int),
    {
        Self::from_slice(signature, 0)
    }

    /// Construct a token from the `RESET_TOKEN_SIZE` bytes of `buf` at `pos`
    pub fn from_slice(buf: &[u8], pos: usize) -> (r: ResetToken)
        requires
            pos + RESET_TOKEN_SIZE <= buf@.len(),
        ensures
            r@ == buf@.subrange(pos as int, pos + RESET_TOKEN_SIZE),
    {
        let mut arr = [0u8; RESET_TOKEN_SIZE];
        let blen = buf.len();
        let mut i: usize = 0;
        while i < RESET_TOKEN_SIZE
            invariant
                blen == buf@.len(),
                pos + RESET_TOKEN_SIZE <= buf@.len(),
                i <= RESET_TOKEN_SIZE,
                arr@.len() == RESET_TOKEN_SIZE,
                forall|j: int| 0 <= j < i ==> arr@[j] == buf@[pos + j],
            decreases RESET_TOKEN_SIZE - i,
        {
            arr[i] = buf[pos + i];
            i = i + 1;
        }
        let r = ResetToken(arr);
        assert(r@ =~= buf@.subrange(pos as int, pos + RESET_TOKEN_SIZE));
        r
    }

    /// Whether two tokens hold the same bytes; every byte is compared, whatever the result
    pub fn same_as(&self, other: &ResetToken) -> (r: bool)
        ensures
            r == (self@ == other@),
    {
        let mut diff: u8 = 0;
        let mut i: usize = 0;
        while i < RESET_TOKEN_SIZE
            invariant
                i <= RESET_TOKEN_SIZE,
                self@.len() == RESET_TOKEN_SIZE,
                other@.len() == RESET_TOKEN_SIZE,
                (diff == 0) == (forall|j: int| 0 <= j < i ==> self@[j] == other@[j]),
            decreases RESET_TOKEN_SIZE - i,
        {
            let a = self.0[i];
            let b = other.0[i];
            let d = diff;
            diff = d | (a ^ b);
            assert((d | (a ^ b) == 0) == (d == 0 && a == b)) by (bit_vector);
            i = i + 1;
        }
        if diff == 0 {
            assert(self@ =~= other@);
        }
        diff == 0
    }

    /// Append the bytes of the token to `w`
    pub fn encode(&self, w: &mut Vec<u8>)
        ensures
            final(w)@ == old(w)@ + self@,
    {
        let mut i: usize = 0;
        while i < RESET_TOKEN_SIZE
            invariant
                i <= RESET_TOKEN_SIZE,
                self@.len() == RESET_TOKEN_SIZE,
                w@ == old(w)@ + self@.subrange(0, i as int),
            decreases RESET_TOKEN_SIZE - i,
        {
            w.push(self.0[i]);
            i = i + 1;
            assert(w@ =~= old(w)@ + self@.subrange(0, i as int));
        }
        assert(self@.subrange(0, RESET_TOKEN_SIZE as int) =~= self@);
    }
}

/// Encoding of a socket address in a retry token: a family byte (0 for IPv4, 1 for IPv6), the
/// address bytes and the port
pub open spec fn spec_encode_addr(address: SocketAddr) -> Seq<u8> {
    match address {
        SocketAddr::V4(a) => seq![0u8] + a.ip@ + be16(a.port),
        SocketAddr::V6(a) => seq![1u8] + a.ip@ + be16(a.port),
    }
}

/// Append the encoding of `address` to `buf`
pub fn encode_addr(buf: &mut Vec<u8>, address: &SocketAddr)
    ensures
        final(buf)@ == old(buf)@ + spec_encode_addr(*address),
{
    match address {
        SocketAddr::V4(a) => {
            buf.push(0);
            put_slice(buf, &a.ip);
            put_u16(buf, a.port);
        },
        SocketAddr::V6(a) => {
            buf.push(1);
            put_slice(buf, &a.ip);
            put_u16(buf, a.port);
        },
    }
    proof {
        match address {
            SocketAddr::V4(a) => {
                assert(final(buf)@ =~= old(buf)@ + spec_encode_addr(*address));
            },
            SocketAddr::V6(a) => {
                assert(final(buf)@ =~= old(buf)@ + spec_encode_addr(*address));
            },
        }
    }
}

/// A token a server hands out in a Retry packet, for the client to prove its address with
#[derive(Debug, Copy, Clone)]
pub struct RetryToken {
    /// The destination connection ID set in the very first packet from the client
    pub orig_dst_cid: ConnectionId,
    /// When the token was issued, in seconds since the Unix epoch
    pub issued: u64,
}

/// The bytes a retry token seals: the client's address, the original destination CID with
/// its length, and the time of issue
pub open spec fn spec_retry_plaintext(t: RetryToken, address: SocketAddr) -> Seq<u8> {
    spec_encode_addr(address) + spec_encode_long(t.orig_dst_cid@) + be64(t.issued)
}

impl RetryToken {
    /// The bytes the token seals for a client at `address`
    pub fn plaintext(&self, address: &SocketAddr) -> (r: Vec<u8>)
        ensures
            r@ == spec_retry_plaintext(*self, *address),
    {
        let mut buf: Vec<u8> = Vec::new();
        encode_addr(&mut buf, address);
        self.orig_dst_cid.encode_long(&mut buf);
        put_u64(&mut buf, self.issued);
        assert(buf@ =~= spec_retry_plaintext(*self, *address));
        buf
    }

    /// The token for a client at `address` that was told to use `retry_src_cid`: its plaintext
    /// sealed with the AEAD key `key` derives from that CID; an error if sealing fails
    pub fn encode<K: HandshakeTokenKey>(&self, key: &K, address: &SocketAddr, retry_src_cid: &ConnectionId) -> (r:
        Result<Vec<u8>, CryptoError>)
        ensures
            match key.spec_aead(retry_src_cid@).spec_seal(
                spec_retry_plaintext(*self, *address),
                Seq::<u8>::empty(),
            ) {
                Some(sealed) => r matches Ok(v) && v@ == sealed,
                None => r is Err,
            },
    {
        let cid = retry_src_cid.to_vec();
        let aead_key = key.aead_from_hkdf(cid.as_slice());
        let mut buf = self.plaintext(address);
        let no_additional_data: Vec<u8> = Vec::new();
        proof {
            assert(no_additional_data@ =~= Seq::<u8>::empty());
        }
        match aead_key.seal(&mut buf, no_additional_data.as_slice()) {
            Ok(()) => Ok(buf),
            Err(e) => Err(e),
        }
    }
}

} // verus!
