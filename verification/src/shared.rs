//! Connection identifiers and other values shared between endpoints and connections.
use vstd::prelude::*;

verus! {

/// Maximum length of a connection ID, in bytes
pub const MAX_CID_SIZE: usize = 20;

/// Protocol-level identifier for a connection.
///
/// Mainly useful for identifying this connection's packets on the wire with tools like Wireshark.
#[derive(Clone, Copy, Debug, PartialEq, Eq, Hash, PartialOrd, Ord)]
pub struct ConnectionId {
    /// length of CID
    len: u8,
    /// CID in byte array
    bytes: [u8; MAX_CID_SIZE],
}

impl View for ConnectionId {
    type V = Seq<u8>;

    open spec fn view(&self) -> Seq<u8> {
        self.spec_bytes()
    }
}

impl ConnectionId {
    /// The bytes of the identifier
    pub closed spec fn spec_bytes(self) -> Seq<u8> {
        self.bytes@.subrange(0, self.len as int)
    }

    #[verifier::type_invariant]
    closed spec fn inv(self) -> bool {
        &&& self.len as usize <= MAX_CID_SIZE
        &&& forall|i: int| self.len <= i < MAX_CID_SIZE ==> self.bytes@[i] == 0u8
    }

    /// Every identifier holds at most `MAX_CID_SIZE` bytes
    pub fn len(&self) -> (r: usize)
        ensures
            r == self@.len(),
            r <= MAX_CID_SIZE,
    {
        proof {
            use_type_invariant(self);
        }
        self.len as usize
    }

    /// Whether two identifiers hold the same bytes
    pub fn same_as(&self, other: &ConnectionId) -> (r: bool)
        ensures
            r == (self@ == other@),
    {
        let a = self.to_vec();
        let b = other.to_vec();
        if a.len() != b.len() {
            assert(a@.len() != b@.len());
            return false;
        }
        let mut i: usize = 0;
        while i < a.len()
            invariant
                a@ == self@,
                b@ == other@,
                a@.len() == b@.len(),
                i <= a@.len(),
                forall|j: int| 0 <= j < i ==> a@[j] == b@[j],
            decreases a@.len() - i,
        {
            if a[i] != b[i] {
                return false;
            }
            i = i + 1;
        }
        assert(a@ =~= b@);
        true
    }

    /// Whether the identifier is empty
    pub fn is_empty(&self) -> (r: bool)
        ensures
            r == (self@.len() == 0),
    {
        self.len() == 0
    }

    /// Construct cid from byte array
    pub fn new(bytes: &[u8]) -> (r: ConnectionId)
        requires
            bytes@.len() <= MAX_CID_SIZE,
        ensures
            r@ == bytes@,
    {
        let mut arr = [0u8; MAX_CID_SIZE];
        let n = bytes.len();
        let mut i: usize = 0;
        while i < n
            invariant
                n == bytes@.len(),
                n <= MAX_CID_SIZE,
                i <= n,
                arr@.len() == MAX_CID_SIZE,
                forall|j: int| 0 <= j < i ==> arr@[j] == bytes@[j],
                forall|j: int| n <= j < MAX_CID_SIZE ==> arr@[j] == 0u8,
            decreases n - i,
        {
            arr[i] = bytes[i];
            i = i + 1;
        }
        let r = ConnectionId { len: n as u8, bytes: arr };
        assert(r@ =~= bytes@);
        r
    }

    /// Constructs cid by reading `len` bytes of `buf` starting at `pos`
    ///
    /// Callers need to assure that `buf` holds at least `len` bytes after `pos`
    pub fn from_buf(buf: &[u8], pos: usize, len: usize) -> (r: ConnectionId)
        requires
            len <= MAX_CID_SIZE,
            pos + len <= buf@.len(),
        ensures
            r@ == buf@.subrange(pos as int, pos + len),
    {
        let mut arr = [0u8; MAX_CID_SIZE];
        let blen = buf.len();
        let mut i: usize = 0;
        while i < len
            invariant
                blen == buf@.len(),
                len <= MAX_CID_SIZE,
                pos + len <= buf@.len(),
                i <= len,
                arr@.len() == MAX_CID_SIZE,
                forall|j: int| 0 <= j < i ==> arr@[j] == buf@[pos + j],
                forall|j: int| len <= j < MAX_CID_SIZE ==> arr@[j] == 0u8,
            decreases len - i,
        {
            arr[i] = buf[pos + i];
            i = i + 1;
        }
        let r = ConnectionId { len: len as u8, bytes: arr };
        assert(r@ =~= buf@.subrange(pos as int, pos + len));
        r
    }

    /// The bytes of the identifier
    pub fn to_vec(&self) -> (r: Vec<u8>)
        ensures
            r@ == self@,
    {
        proof {
            use_type_invariant(self);
        }
        let mut v: Vec<u8> = Vec::new();
        let n = self.len as usize;
        let mut i: usize = 0;
        while i < n
            invariant
                n == self.len,
                n <= MAX_CID_SIZE,
                i <= n,
                v@ == self.bytes@.subrange(0, i as int),
            decreases n - i,
        {
            v.push(self.bytes[i]);
            i = i + 1;
            assert(v@ =~= self.bytes@.subrange(0, i as int));
        }
        v
    }

    /// Decode from long header format: a length byte followed by that many bytes
    ///
    /// Returns the identifier and the number of bytes it occupied, or `None` if `buf` is too
    /// short or the length exceeds `MAX_CID_SIZE`.
    pub fn decode_long(buf: &[u8]) -> (r: Option<(ConnectionId, usize)>)
        ensures
            r is Some <==> spec_decode_long(buf@) is Some,
            r is Some ==> r->Some_0.0@ == spec_decode_long(buf@)->Some_0.0 && r->Some_0.1
                == spec_decode_long(buf@)->Some_0.1,
    {
        if buf.len() == 0 {
            return None;
        }
        let len = buf[0] as usize;
        if len > MAX_CID_SIZE || buf.len() - 1 < len {
            return None;
        }
        let cid = ConnectionId::from_buf(buf, 1, len);
        Some((cid, 1 + len))
    }

    /// Encode in long header format: a length byte followed by the bytes
    pub fn encode_long(&self, w: &mut Vec<u8>)
        ensures
            final(w)@ == old(w)@ + spec_encode_long(self@),
    {
        let n = self.len();
        w.push(n as u8);
        let bytes = self.to_vec();
        let mut i: usize = 0;
        while i < n
            invariant
                n == self@.len(),
                bytes@ == self@,
                i <= n,
                w@ == old(w)@ + seq![n as u8] + self@.subrange(0, i as int),
            decreases n - i,
        {
            w.push(bytes[i]);
            i = i + 1;
            assert(w@ =~= old(w)@ + seq![n as u8] + self@.subrange(0, i as int));
        }
        assert(self@.subrange(0, n as int) =~= self@);
    }
}

/// The long-header encoding of a connection ID: its length as one byte, then its bytes
pub open spec fn spec_encode_long(cid: Seq<u8>) -> Seq<u8> {
    seq![cid.len() as u8] + cid
}

/// Decoding of a long-header connection ID at the start of `s`: the bytes and the number of
/// bytes the encoding occupied
pub open spec fn spec_decode_long(s: Seq<u8>) -> Option<(Seq<u8>, nat)> {
    if s.len() == 0 {
        None
    } else if s[0] as usize > MAX_CID_SIZE || s.len() - 1 < s[0] as int {
        None
    } else {
        Some((s.subrange(1, 1 + s[0] as int), 1 + s[0] as nat))
    }
}

/// Explicit congestion notification codepoint
#[derive(Debug, Copy, Clone, PartialEq, Eq, Structural)]
pub enum EcnCodepoint {
    /// ECT(0), bits 0b10
    Ect0,
    /// ECT(1), bits 0b01
    Ect1,
    /// CE, bits 0b11
    Ce,
}

/// The codepoint carried by the two low bits of `x`, if any
pub open spec fn spec_ecn_from_bits(x: u8) -> Option<EcnCodepoint> {
    let b = x % 4;
    if b == 2 {
        Some(EcnCodepoint::Ect0)
    } else if b == 1 {
        Some(EcnCodepoint::Ect1)
    } else if b == 3 {
        Some(EcnCodepoint::Ce)
    } else {
        None
    }
}

impl EcnCodepoint {
    /// Create new object from the given bits
    pub fn from_bits(x: u8) -> (r: Option<EcnCodepoint>)
        ensures
            r == spec_ecn_from_bits(x),
    {
        let b = x & 0b11u8;
        assert(b == x % 4) by (bit_vector)
            requires
                b == x & 0b11u8,
        ;
        if b == 0b10 {
            Some(EcnCodepoint::Ect0)
        } else if b == 0b01 {
            Some(EcnCodepoint::Ect1)
        } else if b == 0b11 {
            Some(EcnCodepoint::Ce)
        } else {
            None
        }
    }

    /// The two-bit value of the codepoint
    pub fn bits(self) -> (r: u8)
        ensures
            spec_ecn_from_bits(r) == Some(self),
    {
        match self {
            EcnCodepoint::Ect0 => 0b10,
            EcnCodepoint::Ect1 => 0b01,
            EcnCodepoint::Ce => 0b11,
        }
    }
}

/// A socket address of either IP version
#[derive(Debug, Copy, Clone)]
pub enum SocketAddr {
    /// IPv4
    V4(crate::transport_parameters::SocketAddrV4),
    /// IPv6
    V6(crate::transport_parameters::SocketAddrV6),
}

/// Abstract value of a socket address: the address bytes and the port
pub open spec fn spec_addr(a: SocketAddr) -> (Seq<u8>, u16) {
    match a {
        SocketAddr::V4(x) => (x.ip@, x.port),
        SocketAddr::V6(x) => (x.ip@, x.port),
    }
}

/// Whether two byte slices hold the same bytes
pub fn bytes_eq(a: &[u8], b: &[u8]) -> (r: bool)
    ensures
        r == (a@ == b@),
{
    if a.len() != b.len() {
        return false;
    }
    let mut i: usize = 0;
    while i < a.len()
        invariant
            a@.len() == b@.len(),
            i <= a@.len(),
            forall|j: int| 0 <= j < i ==> a@[j] == b@[j],
        decreases a@.len() - i,
    {
        if a[i] != b[i] {
            assert(a@[i as int] != b@[i as int]);
            return false;
        }
        i = i + 1;
    }
    assert(a@ =~= b@);
    true
}

impl SocketAddr {
    /// Whether two addresses hold the same address bytes and port
    pub fn same_as(&self, other: &SocketAddr) -> (r: bool)
        ensures
            r == (spec_addr(*self) == spec_addr(*other)),
    {
        match (self, other) {
            (SocketAddr::V4(a), SocketAddr::V4(b)) => bytes_eq(a.ip.as_slice(), b.ip.as_slice())
                && a.port == b.port,
            (SocketAddr::V6(a), SocketAddr::V6(b)) => bytes_eq(a.ip.as_slice(), b.ip.as_slice())
                && a.port == b.port,
            (SocketAddr::V4(a), SocketAddr::V6(b)) => {
                assert(a.ip@.len() != b.ip@.len());
                false
            },
            (SocketAddr::V6(a), SocketAddr::V4(b)) => {
                assert(a.ip@.len() != b.ip@.len());
                false
            },
        }
    }
}

/// A connection ID issued to the peer, with its sequence number and reset token
#[derive(Debug, Copy, Clone)]
pub struct IssuedCid {
    /// Sequence number of the identifier
    pub sequence: u64,
    /// The identifier
    pub id: ConnectionId,
    /// Token for a stateless reset of connections using the identifier
    pub reset_token: crate::token::ResetToken,
}

} // verus!
